//! What a profile declares: which declarations are the same, which nodes can be joined, and what
//! holds where nothing is said.

use crate::graph::{
    chain_error, chain_ids, chain_place, chains_error, connects, declared_arrows,
    declared_nodes, definition_place, enabled_pipes, enabled_routes, graph_error,
    graph_of, matrix_error, node_error, node_map, node_place, nodes_error, pipe_error,
    pipe_matrix, pipes_error, route_compiled, route_error, routes_error, row_error, shape_holds,
    CompiledRoute, GraphError, NodeDescriptor, RoutingGraph,
};
use crate::json::json_equal;
use crate::number::Real32;
use crate::profile::{
    all_same, default_channels, effective_sample_rate, AudioConfig,
    AutoOrU16, AutoOrU32, Bus, FileSink, MixConfig, MixMode, NodeKind, Pipe, ProcessTap,
    ProcessTapSelector, ProcessorChain, ProcessorDefinition, Profile, Route, RouteMatrix, Same,
    StreamSink, SystemTap,
};
use crate::sequences::{first_some, lemma_first_some_none, lemma_kept};
use crate::topology::{connected, has_cycle, is_walk};
use vstd::prelude::*;

verus! {

/// Settings of the audio are the same where all of them are.
pub proof fn law_audio_is_the_same_by_its_fields(a: AudioConfig, b: AudioConfig)
    ensures
        a.same(b) <==> a.sample_rate == b.sample_rate && a.channels == b.channels
            && a.buffer_frames == b.buffer_frames && a.format@ == b.format@ && a.latency_mode@
            == b.latency_mode@,
{
}

/// Pipes are the same where they join the same nodes and all of their settings are the same.
pub proof fn law_pipes_are_the_same_by_their_fields(a: Pipe, b: Pipe)
    ensures
        a.same(b) <==> a.from@ == b.from@ && a.to@ == b.to@ && a.enabled == b.enabled
            && Real32::same(a.gain_db, b.gain_db) && a.mute == b.mute && Real32::same(a.pan, b.pan)
            && Real32::same(a.delay_ms, b.delay_ms),
{
}

/// Mixes are the same where their limiters and their modes are.
pub proof fn law_mixes_are_the_same_by_their_fields(a: MixConfig, b: MixConfig)
    ensures
        a.same(b) <==> a.limiter == b.limiter && Real32::same(a.limit_dbfs, b.limit_dbfs) && a.mode
            == b.mode,
{
}

/// Buses are the same where their ids, their channels and their mixes are.
pub proof fn law_buses_are_the_same_by_their_fields(a: Bus, b: Bus)
    ensures
        a.same(b) <==> a.id@ == b.id@ && a.channels == b.channels && match (a.mix, b.mix) {
            (None, None) => true,
            (Some(m), Some(n)) => m.limiter == n.limiter && Real32::same(m.limit_dbfs, n.limit_dbfs)
                && m.mode == n.mode,
            _ => false,
        },
{
}

/// Matrices are the same where they have one size and the same coefficients in all places.
pub proof fn law_matrices_are_the_same_by_their_cells(a: RouteMatrix, b: RouteMatrix)
    ensures
        a.same(b) <==> {
            &&& a.rows == b.rows
            &&& a.cols == b.cols
            &&& a.coefficients@.len() == b.coefficients@.len()
            &&& forall|row: int|
                0 <= row < a.coefficients@.len() ==> (#[trigger] a.coefficients@[row])@.len()
                    == b.coefficients@[row]@.len()
            &&& forall|row: int, column: int|
                0 <= row < a.coefficients@.len() && 0 <= column < a.coefficients@[row]@.len()
                    ==> Real32::same(
                    #[trigger] a.coefficients@[row]@[column],
                    b.coefficients@[row]@[column],
                )
        },
{
    let x = a.coefficients@;
    let y = b.coefficients@;
    if a.same(b) {
        assert(all_same(x, y));
        assert forall|row: int| 0 <= row < x.len() implies (#[trigger] x[row])@.len() == y[row]@.len() by {
            assert(x[row].same(y[row]));
        }
        assert forall|row: int, column: int|
            0 <= row < x.len() && 0 <= column < x[row]@.len() implies Real32::same(
            #[trigger] x[row]@[column],
            y[row]@[column],
        ) by {
            assert(x[row].same(y[row]));
            assert(x[row]@[column].same(y[row]@[column]));
        }
    }
    if a.rows == b.rows && a.cols == b.cols && x.len() == y.len() && (forall|row: int|
        0 <= row < x.len() ==> (#[trigger] x[row])@.len() == y[row]@.len()) && (forall|
        row: int,
        column: int,
    |
        0 <= row < x.len() && 0 <= column < x[row]@.len() ==> Real32::same(
            #[trigger] x[row]@[column],
            y[row]@[column],
        )) {
        assert forall|row: int| 0 <= row < x.len() implies (#[trigger] x[row]).same(y[row]) by {
            assert forall|column: int| 0 <= column < x[row]@.len() implies (
            #[trigger] x[row]@[column]).same(y[row]@[column]) by {
                assert(Real32::same(x[row]@[column], y[row]@[column]));
            }
        }
    }
}

/// Routes are the same where they join the same nodes under one id, by the same matrix and
/// through the same chain, and all of their settings are the same.
pub proof fn law_routes_are_the_same_by_their_fields(a: Route, b: Route)
    ensures
        a.same(b) <==> {
            &&& a.id@ == b.id@
            &&& a.from@ == b.from@
            &&& a.to@ == b.to@
            &&& a.enabled == b.enabled
            &&& a.matrix.same(b.matrix)
            &&& match (a.chain, b.chain) {
                (None, None) => true,
                (Some(x), Some(y)) => x@ == y@,
                _ => false,
            }
            &&& Real32::same(a.gain_db, b.gain_db)
            &&& a.mute == b.mute
            &&& Real32::same(a.pan, b.pan)
            &&& Real32::same(a.delay_ms, b.delay_ms)
        },
{
}

/// Processors are the same where their ids, their kinds and their settings are, and chains where
/// they hold the same processors in the same order.
pub proof fn law_processors_are_the_same_by_their_fields(
    a: ProcessorDefinition,
    b: ProcessorDefinition,
    c: ProcessorChain,
    d: ProcessorChain,
)
    ensures
        a.same(b) <==> a.id@ == b.id@ && a.kind == b.kind && json_equal(a.config, b.config),
        c.same(d) <==> c.id@ == d.id@ && c.processors@.len() == d.processors@.len() && (forall|
            i: int,
        |
            0 <= i < c.processors@.len() ==> (#[trigger] c.processors@[i])@ == d.processors@[i]@),
{
    if c.id@ == d.id@ && c.processors@.len() == d.processors@.len() && (forall|i: int|
        0 <= i < c.processors@.len() ==> (#[trigger] c.processors@[i])@ == d.processors@[i]@) {
        assert forall|i: int| 0 <= i < c.processors@.len() implies (#[trigger] c.processors@[i]).same(
            d.processors@[i],
        ) by {
            assert(c.processors@[i]@ == d.processors@[i]@);
        }
    }
    if c.same(d) {
        assert forall|i: int| 0 <= i < c.processors@.len() implies (#[trigger] c.processors@[i])@
            == d.processors@[i]@ by {
            assert(c.processors@[i].same(d.processors@[i]));
        }
    }
}

/// Taps are the same where they take the same, under one id and with the same channels.
pub proof fn law_taps_are_the_same_by_their_fields(
    a: ProcessTap,
    b: ProcessTap,
    c: SystemTap,
    d: SystemTap,
)
    ensures
        a.same(b) <==> a.id@ == b.id@ && a.channels == b.channels && match (a.selector, b.selector) {
            (ProcessTapSelector::Pid { pid: x }, ProcessTapSelector::Pid { pid: y }) => x == y,
            (
                ProcessTapSelector::BundleId { bundle_id: x },
                ProcessTapSelector::BundleId { bundle_id: y },
            ) => x@ == y@,
            _ => false,
        },
        c.same(d) <==> c.id@ == d.id@ && c.channels == d.channels && c.mode == d.mode,
{
}

/// Recordings and streams are the same where they take from the same node to the same place, in
/// the same way.
pub proof fn law_sinks_are_the_same_by_their_fields(
    a: FileSink,
    b: FileSink,
    c: StreamSink,
    d: StreamSink,
)
    ensures
        a.same(b) <==> a.id@ == b.id@ && a.source@ == b.source@ && a.path@ == b.path@ && a.format
            == b.format && a.channels == b.channels,
        c.same(d) <==> c.id@ == d.id@ && c.source@ == d.source@ && c.transport@ == d.transport@
            && c.endpoint@ == d.endpoint@ && json_equal(c.options, d.options) && c.channels
            == d.channels,
{
}

/// Lists are the same where they are as long and the same in every place.
pub proof fn law_lists_are_the_same_place_by_place<T: Same>(a: Seq<T>, b: Seq<T>, i: int)
    requires
        all_same(a, b),
        0 <= i < a.len(),
    ensures
        a.len() == b.len(),
        a[i].same(b[i]),
{
}

/// Audio comes from virtual outputs, external inputs and buses, and goes to virtual inputs,
/// external outputs and buses: only a bus is both.
pub proof fn law_nodes_give_or_take(kind: NodeKind)
    ensures
        kind.source() || kind.sink(),
        kind.source() && kind.sink() <==> kind == NodeKind::Bus,
        NodeKind::VirtualOutput.source(),
        NodeKind::ExternalInput.source(),
        NodeKind::VirtualInput.sink(),
        NodeKind::ExternalOutput.sink(),
{
}

/// A profile that does not say otherwise has two channels and forty-eight thousand samples a
/// second; one that does is taken at its word.
pub proof fn law_profiles_are_taken_at_their_word(p: Profile)
    ensures
        p.audio.channels matches AutoOrU16::Value(c) ==> default_channels(p) == c,
        p.audio.channels is Auto ==> default_channels(p) == 2,
        p.audio.sample_rate matches AutoOrU32::Value(rate) ==> effective_sample_rate(p) == rate,
        p.audio.sample_rate is Auto ==> effective_sample_rate(p) == 48_000,
{
}

// ---------------------------------------------------------------------------
// Which profiles have a graph

proof fn lemma_nodes_accepted(nodes: Seq<NodeDescriptor>)
    ensures
        nodes_error(nodes) is None <==> forall|i: int|
            0 <= i < nodes.len() ==> (#[trigger] node_error(nodes, i)) is None,
{
    let f = |i: int| node_error(nodes, i);
    lemma_first_some_none(f, 0, nodes.len() as int);
    assert forall|i: int| 0 <= i < nodes.len() implies #[trigger] node_error(nodes, i) == f(i) by {}
    if nodes_error(nodes) is None {
        assert forall|i: int| 0 <= i < nodes.len() implies (#[trigger] node_error(nodes, i)) is None by {
            assert(f(i) is None);
        }
    } else if forall|i: int|
        0 <= i < nodes.len() ==> (#[trigger] node_error(nodes, i)) is None {
        let k = choose|k: int| 0 <= k < nodes.len() && !((#[trigger] f(k)) is None);
        assert(node_error(nodes, k) is None);
    }
}

/// Nodes are accepted where every one has from one to sixty-four channels and no two have one
/// id.
pub proof fn law_accepted_nodes(nodes: Seq<NodeDescriptor>)
    ensures
        nodes_error(nodes) is None <==> {
            &&& forall|i: int| 0 <= i < nodes.len() ==> 1 <= (#[trigger] nodes[i]).channels <= 64
            &&& forall|i: int, j: int|
                0 <= j < i < nodes.len() ==> (#[trigger] nodes[j]).id@ != (#[trigger] nodes[i]).id@
        },
{
    lemma_nodes_accepted(nodes);
    if nodes_error(nodes) is None {
        assert forall|i: int| 0 <= i < nodes.len() implies 1 <= (#[trigger] nodes[i]).channels <= 64 by {
            assert(node_error(nodes, i) is None);
        }
        assert forall|i: int, j: int| 0 <= j < i < nodes.len() implies (#[trigger] nodes[j]).id@ != (
        #[trigger] nodes[i]).id@ by {
            assert(node_error(nodes, i) is None);
        }
    }
    if (forall|i: int| 0 <= i < nodes.len() ==> 1 <= (#[trigger] nodes[i]).channels <= 64) && (
    forall|i: int, j: int|
        0 <= j < i < nodes.len() ==> (#[trigger] nodes[j]).id@ != (#[trigger] nodes[i]).id@) {
        assert forall|i: int| 0 <= i < nodes.len() implies (#[trigger] node_error(nodes, i)) is None by {
            assert(1 <= nodes[i].channels <= 64);
        }
    }
}

proof fn lemma_matrix_accepted(route: Route)
    ensures
        matrix_error(route) is None <==> forall|row: int, column: int|
            0 <= row < route.matrix.coefficients@.len() && 0 <= column
                < route.matrix.coefficients@[row]@.len()
                ==> (#[trigger] route.matrix.coefficients@[row]@[column]).finite(),
{
    let cells = route.matrix.coefficients@;
    let f = |row: int| row_error(route, row);
    lemma_first_some_none(f, 0, cells.len() as int);
    assert forall|row: int| 0 <= row < cells.len() implies ((#[trigger] f(row)) is None <==> forall|
        column: int,
    |
        0 <= column < cells[row]@.len() ==> (#[trigger] cells[row]@[column]).finite()) by {
        let g = |col: int|
            if !route.matrix.coefficients@[row]@[col].finite() {
                Some(
                    GraphError::NonFiniteRouteMatrixCoefficient {
                        route_id: route.id,
                        row: row as usize,
                        col: col as usize,
                        value: route.matrix.coefficients@[row]@[col],
                    },
                )
            } else {
                None
            };
        let m = cells[row]@.len() as int;
        lemma_first_some_none(g, 0, m);
        if f(row) is None {
            assert forall|column: int| 0 <= column < m implies (
            #[trigger] cells[row]@[column]).finite() by {
                assert(g(column) is None);
            }
        } else {
            let k = choose|k: int| 0 <= k < m && !((#[trigger] g(k)) is None);
            assert(!cells[row]@[k].finite());
        }
    }
    if matrix_error(route) is None {
        assert forall|row: int, column: int|
            0 <= row < cells.len() && 0 <= column < cells[row]@.len() implies (
        #[trigger] cells[row]@[column]).finite() by {
            assert(f(row) is None);
        }
    } else {
        let k = choose|k: int| 0 <= k < cells.len() && !((#[trigger] f(k)) is None);
        assert(!(f(k) is None));
    }
}

/// A route is accepted where it is disabled, or where its delay is from zero to two seconds, it
/// leads from a node that gives audio to one that takes it, its chain is declared, no route
/// before it has its id, and its matrix has a row for each channel of the destination and a
/// column for each of the source, all of them finite.
pub proof fn law_accepted_routes(
    routes: Seq<Route>,
    nodes: Map<Seq<char>, NodeDescriptor>,
    chains: Set<Seq<char>>,
    i: int,
)
    requires
        0 <= i < routes.len(),
    ensures
        ({
            let route = routes[i];
            let cells = route.matrix.coefficients@;
            route_error(routes, nodes, chains, i) is None <==> !route.enabled || {
                &&& route.delay_ms.bits <= 0x44FA_0000 || route.delay_ms.bits == 0x8000_0000
                &&& nodes.dom().contains(route.from@)
                &&& nodes.dom().contains(route.to@)
                &&& nodes[route.from@].kind.source()
                &&& nodes[route.to@].kind.sink()
                &&& route.chain is Some ==> chains.contains(route.chain->0@)
                &&& forall|j: int|
                    0 <= j < i && (#[trigger] routes[j]).enabled ==> routes[j].id@ != route.id@
                &&& route.matrix.rows > 0
                &&& route.matrix.cols > 0
                &&& route.matrix.rows == nodes[route.to@].channels
                &&& route.matrix.cols == nodes[route.from@].channels
                &&& cells.len() == route.matrix.rows
                &&& forall|row: int|
                    0 <= row < cells.len() ==> (#[trigger] cells[row])@.len() == route.matrix.cols
                &&& forall|row: int, column: int|
                    0 <= row < cells.len() && 0 <= column < cells[row]@.len() ==> (
                    #[trigger] cells[row]@[column]).finite()
            }
        }),
{
    lemma_matrix_accepted(routes[i]);
}

/// A pipe is accepted where it is disabled, or where its delay is from zero to two seconds and it
/// leads from a node that gives audio to one that takes it, of as many channels, or from one
/// channel to two, or from two to one.
pub proof fn law_accepted_pipes(
    pipes: Seq<Pipe>,
    nodes: Map<Seq<char>, NodeDescriptor>,
    i: int,
)
    requires
        0 <= i < pipes.len(),
    ensures
        ({
            let pipe = pipes[i];
            let source = nodes[pipe.from@];
            let destination = nodes[pipe.to@];
            pipe_error(pipes, nodes, i) is None <==> !pipe.enabled || {
                &&& pipe.delay_ms.bits <= 0x44FA_0000 || pipe.delay_ms.bits == 0x8000_0000
                &&& nodes.dom().contains(pipe.from@)
                &&& nodes.dom().contains(pipe.to@)
                &&& source.kind.source()
                &&& destination.kind.sink()
                &&& source.channels == destination.channels || (source.channels == 1
                    && destination.channels == 2) || (source.channels == 2 && destination.channels
                    == 1)
            }
        }),
{
}

/// A pipe between as many channels hands each of them on; one channel is heard on both of two,
/// and two are heard half each on one.
pub proof fn law_pipes_keep_or_fold_channels(source: u16, destination: u16, row: int, column: int)
    requires
        0 <= row < destination,
        0 <= column < source,
    ensures
        source == destination ==> pipe_matrix(source, destination).len() == source * source
            && pipe_matrix(source, destination)[row * source + column].bits == if row == column {
            0x3F80_0000u32
        } else {
            0
        },
        source == 1 && destination == 2 ==> pipe_matrix(source, destination).len() == 2
            && pipe_matrix(source, destination)[row].bits == 0x3F80_0000,
        source == 2 && destination == 1 ==> pipe_matrix(source, destination).len() == 2
            && pipe_matrix(source, destination)[column].bits == 0x3F00_0000,
{
    if source == destination {
        let n = source as int;
        let k = row * n + column;
        assert(0 <= k < n * n) by (nonlinear_arith)
            requires
                0 <= row < n,
                0 <= column < n,
                k == row * n + column,
        ;
        vstd::arithmetic::div_mod::lemma_fundamental_div_mod_converse(k, n, row, column);
    }
}

/// A compiled route carries what its route says: its ends, its settings and its chain, and the
/// coefficient of a row and a column of its matrix in the place of that row and column.
pub proof fn law_compiled_routes_carry_their_settings(
    route: Route,
    nodes: Map<Seq<char>, NodeDescriptor>,
    c: CompiledRoute,
    row: int,
    column: int,
)
    requires
        route_compiled(route, nodes, c),
        0 <= row < route.matrix.rows,
        0 <= column < route.matrix.cols,
    ensures
        c.id == route.id,
        c.from == route.from,
        c.to == route.to,
        c.gain_db == route.gain_db,
        c.mute == route.mute,
        c.pan == route.pan,
        c.delay_ms == route.delay_ms,
        c.chain == route.chain,
        c.source_channels == nodes[route.from@].channels,
        c.destination_channels == nodes[route.to@].channels,
        c.matrix@.len() == route.matrix.rows * route.matrix.cols,
        c.matrix@[row * route.matrix.cols + column] == route.matrix.coefficients@[row]@[column],
{
    let n = route.matrix.cols as int;
    let k = row * n + column;
    assert(0 <= k < route.matrix.rows * n) by (nonlinear_arith)
        requires
            0 <= row < route.matrix.rows,
            0 <= column < n,
            k == row * n + column,
    ;
    vstd::arithmetic::div_mod::lemma_fundamental_div_mod_converse(k, n, row, column);
}

/// Every enabled route of a profile is in its graph, with all that it says.
pub proof fn law_enabled_routes_are_in_the_graph(p: Profile, g: RoutingGraph, i: int)
    requires
        graph_of(p, g),
        0 <= i < p.routes@.len(),
        p.routes@[i].enabled,
    ensures
        exists|k: int|
            {
                let c = #[trigger] g.route_plan.routes@[k];
                &&& 0 <= k < g.route_plan.routes@.len()
                &&& c.id == p.routes@[i].id
                &&& c.from == p.routes@[i].from
                &&& c.to == p.routes@[i].to
                &&& c.gain_db == p.routes@[i].gain_db
                &&& c.mute == p.routes@[i].mute
                &&& c.pan == p.routes@[i].pan
                &&& c.delay_ms == p.routes@[i].delay_ms
                &&& c.chain == p.routes@[i].chain
            },
{
    let on = |k: int| p.routes@[k].enabled;
    lemma_kept(on, p.routes@.len() as int);
    let places = enabled_routes(p.routes@);
    assert(on(i));
    assert(places.contains(i));
    let k = places.index_of(i);
    let c = g.route_plan.routes@[k];
    assert(route_compiled(p.routes@[places[k]], g.nodes@, c));
}

/// Without routes every enabled pipe of a profile is in its graph, with all that it says.
pub proof fn law_enabled_pipes_are_in_the_graph(p: Profile, g: RoutingGraph, i: int)
    requires
        graph_of(p, g),
        p.routes@.len() == 0,
        0 <= i < p.pipes@.len(),
        p.pipes@[i].enabled,
    ensures
        exists|k: int|
            {
                let c = #[trigger] g.route_plan.routes@[k];
                &&& 0 <= k < g.route_plan.routes@.len()
                &&& c.from == p.pipes@[i].from
                &&& c.to == p.pipes@[i].to
                &&& c.gain_db == p.pipes@[i].gain_db
                &&& c.mute == p.pipes@[i].mute
                &&& c.pan == p.pipes@[i].pan
                &&& c.delay_ms == p.pipes@[i].delay_ms
                &&& c.chain is None
                &&& c.matrix@ == pipe_matrix(
                    g.nodes@[p.pipes@[i].from@].channels,
                    g.nodes@[p.pipes@[i].to@].channels,
                )
            },
{
    let on = |k: int| p.pipes@[k].enabled;
    lemma_kept(on, p.pipes@.len() as int);
    let places = enabled_pipes(p.pipes@);
    assert(on(i));
    assert(places.contains(i));
    let k = places.index_of(i);
    let c = g.route_plan.routes@[k];
    assert(crate::graph::pipe_compiled(p.pipes@[places[k]], places[k], g.nodes@, c));
}

proof fn lemma_chain_accepted(processors: Seq<ProcessorDefinition>, chain: ProcessorChain)
    ensures
        chain_error(processors, chain) is None <==> forall|j: int|
            0 <= j < chain.processors@.len() ==> exists|k: int|
                0 <= k < processors.len() && (#[trigger] processors[k]).id@ == (
                #[trigger] chain.processors@[j])@,
{
    let f = |j: int|
        if definition_place(processors, chain.processors@[j]@, processors.len() as int) is None {
            Some(
                GraphError::UnknownProcessorDefinition {
                    chain_id: chain.id,
                    processor_id: chain.processors@[j],
                },
            )
        } else {
            None
        };
    let n = chain.processors@.len() as int;
    lemma_first_some_none(f, 0, n);
    assert forall|j: int| 0 <= j < n implies ((#[trigger] f(j)) is None <==> exists|k: int|
        0 <= k < processors.len() && (#[trigger] processors[k]).id@ == chain.processors@[j]@) by {
        let count = processors.len() as int;
        lemma_definition_place(processors, chain.processors@[j]@, count);
        if let Some(k) = definition_place(processors, chain.processors@[j]@, count) {
            assert(processors[k].id@ == chain.processors@[j]@);
        }
    }
    if chain_error(processors, chain) is None {
        assert forall|j: int| 0 <= j < n implies exists|k: int|
            0 <= k < processors.len() && (#[trigger] processors[k]).id@ == (
            #[trigger] chain.processors@[j])@ by {
            assert(f(j) is None);
        }
    } else {
        let j = choose|j: int| 0 <= j < n && !((#[trigger] f(j)) is None);
        assert(!(f(j) is None));
        let text = chain.processors@[j];
        assert(forall|k: int| 0 <= k < processors.len() ==> (#[trigger] processors[k]).id@ != text@);
    }
}

proof fn lemma_definition_place(processors: Seq<ProcessorDefinition>, id: Seq<char>, n: int)
    requires
        n <= processors.len(),
    ensures
        match definition_place(processors, id, n) {
            Some(k) => 0 <= k < n && processors[k].id@ == id,
            None => forall|k: int| 0 <= k < n ==> (#[trigger] processors[k]).id@ != id,
        },
    decreases n,
{
    if n > 0 {
        lemma_definition_place(processors, id, n - 1);
    }
}

/// A chain is accepted where every processor that it names is defined.
pub proof fn law_accepted_chains(processors: Seq<ProcessorDefinition>, chain: ProcessorChain, j: int)
    requires
        chain_error(processors, chain) is None,
        0 <= j < chain.processors@.len(),
    ensures
        exists|k: int|
            0 <= k < processors.len() && (#[trigger] processors[k]).id@ == chain.processors@[j]@,
{
    lemma_chain_accepted(processors, chain);
    let text = chain.processors@[j];
}

/// A chain that names a processor which is not defined is refused.
pub proof fn law_refused_chains(processors: Seq<ProcessorDefinition>, chain: ProcessorChain, j: int)
    requires
        0 <= j < chain.processors@.len(),
        forall|k: int|
            0 <= k < processors.len() ==> (#[trigger] processors[k]).id@ != chain.processors@[j]@,
    ensures
        chain_error(processors, chain) is Some,
{
    lemma_chain_accepted(processors, chain);
    let text = chain.processors@[j];
}

/// A profile has a graph exactly where its nodes, its chains and its routes, or without routes
/// its pipes, are all accepted and its connections lead around in no circle.
pub proof fn law_accepted_profiles(p: Profile)
    ensures
        graph_error(p) is None <==> {
            &&& nodes_error(declared_nodes(p)) is None
            &&& forall|i: int|
                0 <= i < p.processor_chains@.len() ==> chain_error(
                    p.processors@,
                    #[trigger] p.processor_chains@[i],
                ) is None
            &&& p.routes@.len() > 0 ==> forall|i: int|
                0 <= i < p.routes@.len() ==> (#[trigger] route_error(
                    p.routes@,
                    node_map(declared_nodes(p)),
                    chain_ids(p),
                    i,
                )) is None
            &&& p.routes@.len() == 0 ==> forall|i: int|
                0 <= i < p.pipes@.len() ==> (#[trigger] pipe_error(
                    p.pipes@,
                    node_map(declared_nodes(p)),
                    i,
                )) is None
            &&& !has_cycle(declared_arrows(p))
        },
{
    let nodes = node_map(declared_nodes(p));
    let c = |i: int| chain_error(p.processors@, p.processor_chains@[i]);
    let r = |i: int| route_error(p.routes@, nodes, chain_ids(p), i);
    let q = |i: int| pipe_error(p.pipes@, nodes, i);
    lemma_first_some_none(c, 0, p.processor_chains@.len() as int);
    lemma_first_some_none(r, 0, p.routes@.len() as int);
    lemma_first_some_none(q, 0, p.pipes@.len() as int);
    if chains_error(p) is None {
        assert forall|i: int| 0 <= i < p.processor_chains@.len() implies chain_error(
            p.processors@,
            #[trigger] p.processor_chains@[i],
        ) is None by {
            assert(c(i) is None);
        }
    } else {
        let k = choose|k: int| 0 <= k < p.processor_chains@.len() && !((#[trigger] c(k)) is None);
        assert(chain_error(p.processors@, p.processor_chains@[k]) is Some);
    }
    if routes_error(p.routes@, nodes, chain_ids(p)) is None {
        assert forall|i: int| 0 <= i < p.routes@.len() implies (#[trigger] route_error(
            p.routes@,
            nodes,
            chain_ids(p),
            i,
        )) is None by {
            assert(r(i) is None);
        }
    } else {
        let k = choose|k: int| 0 <= k < p.routes@.len() && !((#[trigger] r(k)) is None);
        assert(route_error(p.routes@, nodes, chain_ids(p), k) is Some);
    }
    if pipes_error(p.pipes@, nodes) is None {
        assert forall|i: int| 0 <= i < p.pipes@.len() implies (#[trigger] pipe_error(
            p.pipes@,
            nodes,
            i,
        )) is None by {
            assert(q(i) is None);
        }
    } else {
        let k = choose|k: int| 0 <= k < p.pipes@.len() && !((#[trigger] q(k)) is None);
        assert(pipe_error(p.pipes@, nodes, k) is Some);
    }
}

proof fn lemma_arrows_connect(p: Profile, a: Seq<char>, b: Seq<char>)
    ensures
        connected(declared_arrows(p), a, b) <==> connects(p, a, b),
{
    let arrows = declared_arrows(p);
    let on_pipe = |k: int| p.pipes@[k].enabled;
    let on_route = |k: int| p.routes@[k].enabled;
    lemma_kept(on_pipe, p.pipes@.len() as int);
    lemma_kept(on_route, p.routes@.len() as int);
    if connected(arrows, a, b) {
        let e = choose|e: int|
            0 <= e < arrows.len() && (#[trigger] arrows[e]).from == a && arrows[e].to == b;
        if p.routes@.len() == 0 {
            let i = enabled_pipes(p.pipes@)[e];
            assert(on_pipe(i));
            assert(p.pipes@[i].enabled);
        } else {
            let i = enabled_routes(p.routes@)[e];
            assert(on_route(i));
            assert(p.routes@[i].enabled);
        }
    }
    if connects(p, a, b) {
        if p.routes@.len() == 0 {
            let i = choose|i: int|
                0 <= i < p.pipes@.len() && (#[trigger] p.pipes@[i]).enabled && p.pipes@[i].from@
                    == a && p.pipes@[i].to@ == b;
            assert(on_pipe(i));
            let places = enabled_pipes(p.pipes@);
            assert(places.contains(i));
            let e = places.index_of(i);
            assert(arrows[e].from == a && arrows[e].to == b);
        } else {
            let i = choose|i: int|
                0 <= i < p.routes@.len() && (#[trigger] p.routes@[i]).enabled && p.routes@[i].from@
                    == a && p.routes@[i].to@ == b;
            assert(on_route(i));
            let places = enabled_routes(p.routes@);
            assert(places.contains(i));
            let e = places.index_of(i);
            assert(arrows[e].from == a && arrows[e].to == b);
        }
    }
}

/// Connections that lead around in a circle, over however many nodes, are refused.
pub proof fn law_circles_are_refused(p: Profile, walk: Seq<Seq<char>>)
    requires
        walk.len() >= 2,
        walk.first() == walk.last(),
        forall|i: int, j: int|
            #![trigger walk[i], walk[j]]
            0 <= i < walk.len() - 1 && j == i + 1 ==> connects(p, walk[i], walk[j]),
    ensures
        graph_error(p) is Some,
{
    let arrows = declared_arrows(p);
    assert forall|i: int| 0 <= i < walk.len() - 1 implies connected(
        arrows,
        #[trigger] walk[i],
        walk[i + 1],
    ) by {
        let j = i + 1;
        assert(connects(p, walk[i], walk[j]));
        lemma_arrows_connect(p, walk[i], walk[j]);
    }
    assert(is_walk(arrows, walk));
}

/// A profile is refused for a circle only where there is one: its connections lead from some
/// node, over at least one connection, back to that node.
pub proof fn law_only_circles_are_refused_as_such(p: Profile) -> (walk: Seq<Seq<char>>)
    requires
        graph_error(p) == Some(GraphError::CycleDetected),
        nodes_error(declared_nodes(p)) is None,
        chains_error(p) is None,
        p.routes@.len() == 0 ==> pipes_error(p.pipes@, node_map(declared_nodes(p))) is None,
        p.routes@.len() > 0 ==> routes_error(
            p.routes@,
            node_map(declared_nodes(p)),
            chain_ids(p),
        ) is None,
    ensures
        walk.len() >= 2,
        walk.first() == walk.last(),
        forall|i: int, j: int|
            #![trigger walk[i], walk[j]]
            0 <= i < walk.len() - 1 && j == i + 1 ==> connects(p, walk[i], walk[j]),
{
    let arrows = declared_arrows(p);
    let walk = choose|walk: Seq<Seq<char>>| #[trigger]
        is_walk(arrows, walk) && walk.first() == walk.last();
    assert forall|i: int, j: int|
        #![trigger walk[i], walk[j]]
        0 <= i < walk.len() - 1 && j == i + 1 implies connects(p, walk[i], walk[j]) by {
        assert(connected(arrows, walk[i], walk[i + 1]));
        lemma_arrows_connect(p, walk[i], walk[j]);
    }
    walk
}

proof fn lemma_declared_in_graph(p: Profile, g: RoutingGraph, i: int)
    requires
        graph_error(p) is None,
        graph_of(p, g),
        0 <= i < declared_nodes(p).len(),
    ensures
        g.nodes@.dom().contains(declared_nodes(p)[i].id@),
        g.nodes@[declared_nodes(p)[i].id@] == declared_nodes(p)[i],
{
    let nodes = declared_nodes(p);
    law_accepted_nodes(nodes);
    let id = nodes[i].id@;
    assert(nodes[i].id@ == id);
    let k = node_place(nodes, id);
    assert(0 <= k < nodes.len() && nodes[k].id@ == id);
    if k < i {
        assert(nodes[k].id@ != nodes[i].id@);
    } else if i < k {
        assert(nodes[i].id@ != nodes[k].id@);
    }
}

/// Everything that a profile declares is a node of its graph, of its own kind, with the channels
/// that it names or those of the profile. A virtual input mixes as it says, or plainly; a bus
/// mixes as it says, or not at all; nothing else mixes.
pub proof fn law_nodes_are_as_declared(p: Profile, g: RoutingGraph, i: int)
    requires
        graph_error(p) is None,
        graph_of(p, g),
        0 <= i,
    ensures
        i < p.virtual_devices.outputs@.len() ==> {
            let device = p.virtual_devices.outputs@[i];
            let node = g.nodes@[device.id@];
            &&& g.nodes@.dom().contains(device.id@)
            &&& node.kind == NodeKind::VirtualOutput
            &&& node.mix is None
            &&& device.channels is Some ==> node.channels == device.channels->0
            &&& device.channels is None ==> node.channels == default_channels(p)
        },
        i < p.virtual_devices.inputs@.len() ==> {
            let device = p.virtual_devices.inputs@[i];
            let node = g.nodes@[device.id@];
            &&& g.nodes@.dom().contains(device.id@)
            &&& node.kind == NodeKind::VirtualInput
            &&& device.mix is Some ==> node.mix == device.mix
            &&& device.mix is None ==> node.mix is Some && !node.mix->0.limiter && node.mix->0.mode
                == MixMode::Sum
            &&& device.channels is Some ==> node.channels == device.channels->0
            &&& device.channels is None ==> node.channels == default_channels(p)
        },
        i < p.buses@.len() ==> {
            let bus = p.buses@[i];
            let node = g.nodes@[bus.id@];
            &&& g.nodes@.dom().contains(bus.id@)
            &&& node.kind == NodeKind::Bus
            &&& node.mix == bus.mix
            &&& bus.channels is Some ==> node.channels == bus.channels->0
            &&& bus.channels is None ==> node.channels == default_channels(p)
        },
        i < p.external.inputs@.len() ==> {
            let endpoint = p.external.inputs@[i];
            let node = g.nodes@[endpoint.id@];
            &&& g.nodes@.dom().contains(endpoint.id@)
            &&& node.kind == NodeKind::ExternalInput
            &&& node.mix is None
            &&& endpoint.channels is Some ==> node.channels == endpoint.channels->0
            &&& endpoint.channels is None ==> node.channels == default_channels(p)
        },
        i < p.external.outputs@.len() ==> {
            let endpoint = p.external.outputs@[i];
            let node = g.nodes@[endpoint.id@];
            &&& g.nodes@.dom().contains(endpoint.id@)
            &&& node.kind == NodeKind::ExternalOutput
            &&& node.mix is None
            &&& endpoint.channels is Some ==> node.channels == endpoint.channels->0
            &&& endpoint.channels is None ==> node.channels == default_channels(p)
        },
        i < p.captures.process_taps@.len() ==> {
            let tap = p.captures.process_taps@[i];
            let node = g.nodes@[tap.id@];
            &&& g.nodes@.dom().contains(tap.id@)
            &&& node.kind == NodeKind::ExternalInput
            &&& tap.channels is Some ==> node.channels == tap.channels->0
            &&& tap.channels is None ==> node.channels == default_channels(p)
        },
        i < p.captures.system_taps@.len() ==> {
            let tap = p.captures.system_taps@[i];
            let node = g.nodes@[tap.id@];
            &&& g.nodes@.dom().contains(tap.id@)
            &&& node.kind == NodeKind::ExternalInput
            &&& tap.channels is Some ==> node.channels == tap.channels->0
            &&& tap.channels is None ==> node.channels == default_channels(p)
        },
{
    let a = p.virtual_devices.outputs@.len() as int;
    let b = a + p.virtual_devices.inputs@.len();
    let c = b + p.buses@.len();
    let d = c + p.external.inputs@.len();
    let e = d + p.external.outputs@.len();
    let f = e + p.captures.process_taps@.len();
    if i < p.virtual_devices.outputs@.len() {
        lemma_declared_in_graph(p, g, i);
    }
    if i < p.virtual_devices.inputs@.len() {
        lemma_declared_in_graph(p, g, a + i);
    }
    if i < p.buses@.len() {
        lemma_declared_in_graph(p, g, b + i);
    }
    if i < p.external.inputs@.len() {
        lemma_declared_in_graph(p, g, c + i);
    }
    if i < p.external.outputs@.len() {
        lemma_declared_in_graph(p, g, d + i);
    }
    if i < p.captures.process_taps@.len() {
        lemma_declared_in_graph(p, g, e + i);
    }
    if i < p.captures.system_taps@.len() {
        lemma_declared_in_graph(p, g, f + i);
    }
}

/// The processors of a chain are compiled in its order, each with the kind of the processor that
/// is defined under its id, the last one where there are several.
pub proof fn law_chains_are_compiled_in_order(p: Profile, g: RoutingGraph, chain: int, j: int)
    requires
        graph_of(p, g),
        0 <= chain < p.processor_chains@.len(),
        0 <= j < p.processor_chains@[chain].processors@.len(),
        forall|i: int|
            0 <= i < p.processor_chains@.len() && i != chain ==> (
            #[trigger] p.processor_chains@[i]).id@ != p.processor_chains@[chain].id@,
    ensures
        ({
            let wanted = p.processor_chains@[chain];
            let made = g.processor_plan.chains@[wanted.id@];
            &&& g.processor_plan.chains@.dom().contains(wanted.id@)
            &&& made.processors@.len() == wanted.processors@.len()
            &&& made.processors@[j].id@ == wanted.processors@[j]@
            &&& exists|k: int|
                0 <= k < p.processors@.len() && (#[trigger] p.processors@[k]).id@
                    == wanted.processors@[j]@ && made.processors@[j].kind == p.processors@[k].kind
                    && made.processors@[j].config_json@ == crate::json::json_text(
                    p.processors@[k].config,
                )
        }),
{
    let chains = p.processor_chains@;
    let id = chains[chain].id@;
    let n = chains.len() as int;
    lemma_chain_place(chains, id, chain, n);
    assert(g.processor_plan.chains@.dom().contains(id));
    let made = g.processor_plan.chains@[id];
    assert(crate::graph::processor_compiled(
        p.processors@,
        chains[chain].processors@[j]@,
        made.processors@[j],
    ));
    let text = chains[chain].processors@[j]@;
    lemma_definition_place(p.processors@, text, p.processors@.len() as int);
    let k = definition_place(p.processors@, text, p.processors@.len() as int)->0;
    assert(p.processors@[k].id@ == text);
}

proof fn lemma_chain_place(chains: Seq<ProcessorChain>, id: Seq<char>, chain: int, n: int)
    requires
        0 <= chain < n <= chains.len(),
        chains[chain].id@ == id,
        forall|i: int|
            0 <= i < chains.len() && i != chain ==> (#[trigger] chains[i]).id@ != id,
    ensures
        chain_place(chains, id, n) == Some(chain),
    decreases n,
{
    if chain < n - 1 {
        assert(chains[n - 1].id@ != id);
        lemma_chain_place(chains, id, chain, n - 1);
    }
}

// ---------------------------------------------------------------------------
// Why profiles are refused

/// What a refused route is refused for is true of it: the error names the node, the route, the
/// chain or the numbers that it is about.
pub proof fn law_refused_routes_are_told_why(
    routes: Seq<Route>,
    nodes: Map<Seq<char>, NodeDescriptor>,
    chains: Set<Seq<char>>,
    i: int,
)
    requires
        0 <= i < routes.len(),
        route_error(routes, nodes, chains, i) is Some,
    ensures
        ({
            let route = routes[i];
            let source = nodes[route.from@];
            let destination = nodes[route.to@];
            &&& route.enabled
            &&& match route_error(routes, nodes, chains, i)->0 {
                GraphError::InvalidDelay(delay) => delay == route.delay_ms && !(delay.bits
                    <= 0x44FA_0000 || delay.bits == 0x8000_0000),
                GraphError::UnknownSource(id) => id == route.from && !nodes.dom().contains(id@),
                GraphError::UnknownDestination(id) => id == route.to && !nodes.dom().contains(id@),
                GraphError::InvalidSourceType(id) => id == source.id && !source.kind.source(),
                GraphError::InvalidDestinationType(id) => id == destination.id
                    && !destination.kind.sink(),
                GraphError::UnknownRouteChain { route_id, chain_id } => route_id == route.id
                    && route.chain == Some(chain_id) && !chains.contains(chain_id@),
                GraphError::DuplicateRouteId(id) => id == route.id && exists|j: int|
                    0 <= j < i && (#[trigger] routes[j]).enabled && routes[j].id@ == id@,
                GraphError::RouteMatrixShapeMismatch {
                    route_id,
                    rows,
                    cols,
                    actual_rows,
                    actual_cols,
                } => route_id == route.id && rows == route.matrix.rows && cols == route.matrix.cols
                    && actual_rows == route.matrix.coefficients@.len() as usize && !shape_holds(
                    route.matrix,
                ),
                GraphError::RouteMatrixChannelMismatch {
                    route_id,
                    expected_rows,
                    expected_cols,
                    rows,
                    cols,
                } => route_id == route.id && expected_rows == destination.channels && expected_cols
                    == source.channels && rows == route.matrix.rows && cols == route.matrix.cols && (
                rows != expected_rows || cols != expected_cols),
                GraphError::NonFiniteRouteMatrixCoefficient { route_id, row, col, value } => true,
                _ => false,
            }
        }),
{
    let route = routes[i];
    if route.enabled && shape_holds(route.matrix) && matrix_error(route) is Some {
        lemma_matrix_error_kind(route, 0);
    }
}

proof fn lemma_matrix_error_kind(route: Route, row: int)
    requires
        0 <= row <= route.matrix.coefficients@.len(),
    ensures
        first_some(|row: int| row_error(route, row), row, route.matrix.coefficients@.len() as int)
            matches Some(e) ==> e is NonFiniteRouteMatrixCoefficient,
    decreases route.matrix.coefficients@.len() - row,
{
    if row < route.matrix.coefficients@.len() {
        lemma_matrix_error_kind(route, row + 1);
        lemma_row_error_kind(route, row, 0);
    }
}

proof fn lemma_row_error_kind(route: Route, row: int, column: int)
    requires
        0 <= column <= route.matrix.coefficients@[row]@.len(),
    ensures
        first_some(
            |col: int|
                if !route.matrix.coefficients@[row]@[col].finite() {
                    Some(
                        GraphError::NonFiniteRouteMatrixCoefficient {
                            route_id: route.id,
                            row: row as usize,
                            col: col as usize,
                            value: route.matrix.coefficients@[row]@[col],
                        },
                    )
                } else {
                    None
                },
            column,
            route.matrix.coefficients@[row]@.len() as int,
        ) matches Some(e) ==> e is NonFiniteRouteMatrixCoefficient,
    decreases route.matrix.coefficients@[row]@.len() - column,
{
    if column < route.matrix.coefficients@[row]@.len() {
        lemma_row_error_kind(route, row, column + 1);
    }
}

/// What a refused pipe is refused for is true of it.
pub proof fn law_refused_pipes_are_told_why(
    pipes: Seq<Pipe>,
    nodes: Map<Seq<char>, NodeDescriptor>,
    i: int,
)
    requires
        0 <= i < pipes.len(),
        pipe_error(pipes, nodes, i) is Some,
    ensures
        ({
            let pipe = pipes[i];
            let source = nodes[pipe.from@];
            let destination = nodes[pipe.to@];
            &&& pipe.enabled
            &&& match pipe_error(pipes, nodes, i)->0 {
                GraphError::InvalidDelay(delay) => delay == pipe.delay_ms && !(delay.bits
                    <= 0x44FA_0000 || delay.bits == 0x8000_0000),
                GraphError::UnknownSource(id) => id == pipe.from && !nodes.dom().contains(id@),
                GraphError::UnknownDestination(id) => id == pipe.to && !nodes.dom().contains(id@),
                GraphError::InvalidSourceType(id) => id == source.id && !source.kind.source(),
                GraphError::InvalidDestinationType(id) => id == destination.id
                    && !destination.kind.sink(),
                GraphError::UnsupportedChannels { from, from_channels, to, to_channels } => {
                    &&& from == source.id
                    &&& to == destination.id
                    &&& from_channels == source.channels
                    &&& to_channels == destination.channels
                    &&& from_channels != to_channels
                },
                _ => false,
            }
        }),
{
}

/// What a refused node is refused for is true of it.
pub proof fn law_refused_nodes_are_told_why(nodes: Seq<NodeDescriptor>, i: int)
    requires
        0 <= i < nodes.len(),
        node_error(nodes, i) is Some,
    ensures
        match node_error(nodes, i)->0 {
            GraphError::InvalidNodeChannels { id, channels } => id == nodes[i].id && channels
                == nodes[i].channels && (channels == 0 || channels > 64),
            GraphError::DuplicateNode(id) => id == nodes[i].id && exists|j: int|
                0 <= j < i && (#[trigger] nodes[j]).id@ == id@,
            _ => false,
        },
{
}

} // verus!
