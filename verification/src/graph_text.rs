//! What is said of a profile that has no routing graph.

use crate::graph::GraphError;
use crate::text::{decimal, decimal_text};
use vstd::prelude::*;
use vstd::string::*;

verus! {

/// The text about a profile that has no routing graph; the number in it that may have a
/// fraction, if any, is given as text.
pub open spec fn graph_error_text(error: GraphError, number: Seq<char>) -> Seq<char> {
    match error {
        GraphError::DuplicateNode(id) => "duplicate node id: "@ + id@,
        GraphError::InvalidNodeChannels { id, channels } => {
            "node channel count must be in [1, 64], got "@ + decimal(channels as nat) + " for '"@
                + id@ + "'"@
        },
        GraphError::UnknownSource(id) => "unknown source node in pipe/route: "@ + id@,
        GraphError::UnknownDestination(id) => "unknown destination node in pipe/route: "@ + id@,
        GraphError::InvalidSourceType(id) => "node cannot be used as source: "@ + id@,
        GraphError::InvalidDestinationType(id) => "node cannot be used as destination: "@ + id@,
        GraphError::DuplicateRouteId(id) => "duplicate route id in compiled graph: "@ + id@,
        GraphError::UnknownRouteChain { route_id, chain_id } => {
            "route '"@ + route_id@ + "' references unknown processor chain '"@ + chain_id@ + "'"@
        },
        GraphError::UnknownProcessorDefinition { chain_id, processor_id } => {
            "processor chain '"@ + chain_id@ + "' references unknown processor '"@ + processor_id@
                + "'"@
        },
        GraphError::UnsupportedChannels { from, from_channels, to, to_channels } => {
            "channel mismatch not supported in legacy pipe mode: "@ + from@ + " ("@ + decimal(
                from_channels as nat,
            ) + ") -> "@ + to@ + " ("@ + decimal(to_channels as nat) + ")"@
        },
        GraphError::RouteMatrixShapeMismatch { route_id, rows, cols, actual_rows, actual_cols } => {
            "route '"@ + route_id@ + "' matrix shape mismatch: declared rows="@ + decimal(
                rows as nat,
            ) + ", cols="@ + decimal(cols as nat) + ", actual_rows="@ + decimal(
                actual_rows as nat,
            ) + ", actual_cols="@ + decimal(actual_cols as nat)
        },
        GraphError::RouteMatrixChannelMismatch {
            route_id,
            expected_rows,
            expected_cols,
            rows,
            cols,
        } => {
            "route '"@ + route_id@ + "' matrix channels mismatch: expected rows="@ + decimal(
                expected_rows as nat,
            ) + ", cols="@ + decimal(expected_cols as nat) + ", got rows="@ + decimal(rows as nat)
                + ", cols="@ + decimal(cols as nat)
        },
        GraphError::NonFiniteRouteMatrixCoefficient { route_id, row, col, value: _ } => {
            "route '"@ + route_id@ + "' matrix must be finite at ["@ + decimal(row as nat) + "]["@
                + decimal(col as nat) + "], got "@ + number
        },
        GraphError::CycleDetected => "graph contains cycle"@,
        GraphError::InvalidDelay(_) => "pipe/route delay must be in range [0, 2000], got "@ + number,
    }
}

fn lead_with(lead: &str, text: &str) -> (r: String)
    ensures
        r@ == lead@ + text@,
{
    let mut whole = String::from_str(lead);
    whole.append(text);
    whole
}

impl GraphError {
    /// The text about a profile that has no routing graph; the number in it that may have a
    /// fraction, if any, is given as text.
    pub fn message(&self, number: &str) -> (r: String)
        ensures
            r@ == graph_error_text(*self, number@),
    {
        match self {
            GraphError::DuplicateNode(id) => lead_with("duplicate node id: ", id.as_str()),
            GraphError::InvalidNodeChannels { id, channels } => {
                let mut text = String::from_str("node channel count must be in [1, 64], got ");
                text.append(decimal_text(*channels as u64).as_str());
                text.append(" for '");
                text.append(id.as_str());
                text.append("'");
                text
            },
            GraphError::UnknownSource(id) => lead_with(
                "unknown source node in pipe/route: ",
                id.as_str(),
            ),
            GraphError::UnknownDestination(id) => lead_with(
                "unknown destination node in pipe/route: ",
                id.as_str(),
            ),
            GraphError::InvalidSourceType(id) => lead_with(
                "node cannot be used as source: ",
                id.as_str(),
            ),
            GraphError::InvalidDestinationType(id) => lead_with(
                "node cannot be used as destination: ",
                id.as_str(),
            ),
            GraphError::DuplicateRouteId(id) => lead_with(
                "duplicate route id in compiled graph: ",
                id.as_str(),
            ),
            GraphError::UnknownRouteChain { route_id, chain_id } => {
                let mut text = lead_with("route '", route_id.as_str());
                text.append("' references unknown processor chain '");
                text.append(chain_id.as_str());
                text.append("'");
                text
            },
            GraphError::UnknownProcessorDefinition { chain_id, processor_id } => {
                let mut text = lead_with("processor chain '", chain_id.as_str());
                text.append("' references unknown processor '");
                text.append(processor_id.as_str());
                text.append("'");
                text
            },
            GraphError::UnsupportedChannels { from, from_channels, to, to_channels } => {
                let mut text = lead_with(
                    "channel mismatch not supported in legacy pipe mode: ",
                    from.as_str(),
                );
                text.append(" (");
                text.append(decimal_text(*from_channels as u64).as_str());
                text.append(") -> ");
                text.append(to.as_str());
                text.append(" (");
                text.append(decimal_text(*to_channels as u64).as_str());
                text.append(")");
                text
            },
            GraphError::RouteMatrixShapeMismatch {
                route_id,
                rows,
                cols,
                actual_rows,
                actual_cols,
            } => {
                let mut text = lead_with("route '", route_id.as_str());
                text.append("' matrix shape mismatch: declared rows=");
                text.append(decimal_text(*rows as u64).as_str());
                text.append(", cols=");
                text.append(decimal_text(*cols as u64).as_str());
                text.append(", actual_rows=");
                text.append(decimal_text(*actual_rows as u64).as_str());
                text.append(", actual_cols=");
                text.append(decimal_text(*actual_cols as u64).as_str());
                text
            },
            GraphError::RouteMatrixChannelMismatch {
                route_id,
                expected_rows,
                expected_cols,
                rows,
                cols,
            } => {
                let mut text = lead_with("route '", route_id.as_str());
                text.append("' matrix channels mismatch: expected rows=");
                text.append(decimal_text(*expected_rows as u64).as_str());
                text.append(", cols=");
                text.append(decimal_text(*expected_cols as u64).as_str());
                text.append(", got rows=");
                text.append(decimal_text(*rows as u64).as_str());
                text.append(", cols=");
                text.append(decimal_text(*cols as u64).as_str());
                text
            },
            GraphError::NonFiniteRouteMatrixCoefficient { route_id, row, col, value: _ } => {
                let mut text = lead_with("route '", route_id.as_str());
                text.append("' matrix must be finite at [");
                text.append(decimal_text(*row as u64).as_str());
                text.append("][");
                text.append(decimal_text(*col as u64).as_str());
                text.append("], got ");
                text.append(number);
                text
            },
            GraphError::CycleDetected => String::from_str("graph contains cycle"),
            GraphError::InvalidDelay(_) => lead_with(
                "pipe/route delay must be in range [0, 2000], got ",
                number,
            ),
        }
    }
}

} // verus!
