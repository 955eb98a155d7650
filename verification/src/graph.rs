//! Routing graph construction and validation.

use crate::json::{json_text, value_text};
use crate::number::{delay_allowed, is_delay_allowed, Real32, HALF_BITS, ONE_BITS, ZERO_BITS};
use crate::profile::{
    channels_or, default_channels, default_mix, MixConfig, NodeKind, Pipe, ProcessorChain,
    ProcessorDefinition, ProcessorKind, Profile, Route, RouteMatrix, VirtualInputDevice,
    VirtualOutputDevice,
};
use crate::sequences::{first_some, kept, last_place, lemma_first_some_none, lemma_first_some_same, lemma_kept, lemma_kept_same, lemma_last_place, views};
use crate::string_map::StringMap;
use crate::text::{decimal, decimal_text, str_equal};
use crate::topology::{
    arrows_join, has_cycle, lemma_order_complete, lemma_order_distinct, lemma_order_forward,
    order_places, places_match, smallest_first_order, Arrow,
};
use vstd::prelude::*;
use vstd::string::*;

verus! {

/// A node of the graph.
#[derive(Debug, PartialEq)]
pub struct NodeDescriptor {
    pub id: String,
    pub kind: NodeKind,
    pub channels: u16,
    pub mix: Option<MixConfig>,
}

impl Clone for NodeDescriptor {
    fn clone(&self) -> (r: NodeDescriptor)
        ensures
            r == *self,
    {
        NodeDescriptor {
            id: self.id.clone(),
            kind: self.kind,
            channels: self.channels,
            mix: self.mix,
        }
    }
}

/// A connection of the graph.
#[derive(Debug, PartialEq)]
pub struct PipeDescriptor {
    pub id: String,
    pub from: String,
    pub to: String,
    pub gain_db: Real32,
    pub mute: bool,
    pub pan: Real32,
    pub delay_ms: Real32,
}

impl Clone for PipeDescriptor {
    fn clone(&self) -> (r: PipeDescriptor)
        ensures
            r == *self,
    {
        PipeDescriptor {
            id: self.id.clone(),
            from: self.from.clone(),
            to: self.to.clone(),
            gain_db: self.gain_db,
            mute: self.mute,
            pan: self.pan,
            delay_ms: self.delay_ms,
        }
    }
}

/// The routes, and the order in which the nodes are processed.
#[derive(Debug, Clone, PartialEq)]
pub struct CompiledRoutePlan {
    pub topological_order: Vec<String>,
    pub routes: Vec<CompiledRoute>,
}

/// The processor chains, by their ids.
#[derive(Debug, Clone)]
pub struct CompiledProcessorPlan {
    pub chains: StringMap<CompiledProcessorChain>,
}

/// A processor chain with its processors looked up.
#[derive(Debug, Clone, PartialEq, Eq)]
pub struct CompiledProcessorChain {
    pub id: String,
    pub processors: Vec<CompiledProcessor>,
}

/// A processor with its settings as JSON text.
#[derive(Debug, PartialEq, Eq)]
pub struct CompiledProcessor {
    pub id: String,
    pub kind: ProcessorKind,
    pub config_json: String,
}

impl Clone for CompiledProcessor {
    fn clone(&self) -> (r: CompiledProcessor)
        ensures
            r == *self,
    {
        CompiledProcessor {
            id: self.id.clone(),
            kind: self.kind,
            config_json: self.config_json.clone(),
        }
    }
}

/// A route with its matrix, row by row.
#[derive(Debug, Clone, PartialEq)]
pub struct CompiledRoute {
    pub id: String,
    pub from: String,
    pub to: String,
    pub source_channels: u16,
    pub destination_channels: u16,
    pub matrix_rows: u16,
    pub matrix_cols: u16,
    pub matrix: Vec<Real32>,
    pub gain_db: Real32,
    pub mute: bool,
    pub pan: Real32,
    pub delay_ms: Real32,
    pub chain: Option<String>,
}

/// Nodes, connections and what was compiled from them.
#[derive(Debug, Clone)]
pub struct RoutingGraph {
    pub nodes: StringMap<NodeDescriptor>,
    pub edges: Vec<PipeDescriptor>,
    pub route_plan: CompiledRoutePlan,
    pub processor_plan: CompiledProcessorPlan,
}

/// Why a profile has no routing graph.
#[derive(Debug, Clone, PartialEq)]
pub enum GraphError {
    DuplicateNode(String),
    InvalidNodeChannels { id: String, channels: u16 },
    UnknownSource(String),
    UnknownDestination(String),
    InvalidSourceType(String),
    InvalidDestinationType(String),
    DuplicateRouteId(String),
    UnknownRouteChain { route_id: String, chain_id: String },
    UnknownProcessorDefinition { chain_id: String, processor_id: String },
    UnsupportedChannels { from: String, from_channels: u16, to: String, to_channels: u16 },
    RouteMatrixShapeMismatch {
        route_id: String,
        rows: u16,
        cols: u16,
        actual_rows: usize,
        actual_cols: usize,
    },
    RouteMatrixChannelMismatch {
        route_id: String,
        expected_rows: u16,
        expected_cols: u16,
        rows: u16,
        cols: u16,
    },
    NonFiniteRouteMatrixCoefficient { route_id: String, row: usize, col: usize, value: Real32 },
    CycleDetected,
    InvalidDelay(Real32),
}

// ---------------------------------------------------------------------------
// Nodes

/// The fewest channels of a node.
pub const MIN_NODE_CHANNELS: u16 = 1;

/// The most channels of a node.
pub const MAX_NODE_CHANNELS: u16 = 64;

/// The node of a virtual output.
pub open spec fn vout_node(device: VirtualOutputDevice, default: u16) -> NodeDescriptor {
    NodeDescriptor {
        id: device.id,
        kind: NodeKind::VirtualOutput,
        channels: channels_or(device.channels, default),
        mix: None,
    }
}

/// The node of a virtual input.
pub open spec fn vin_node(device: VirtualInputDevice, default: u16) -> NodeDescriptor {
    NodeDescriptor {
        id: device.id,
        kind: NodeKind::VirtualInput,
        channels: channels_or(device.channels, default),
        mix: Some(
            match device.mix {
                Some(mix) => mix,
                None => default_mix(),
            },
        ),
    }
}

/// A node that takes audio in from outside, or hands it out, without mixing of its own.
pub open spec fn plain_node(
    id: String,
    kind: NodeKind,
    channels: Option<u16>,
    default: u16,
) -> NodeDescriptor {
    NodeDescriptor { id, kind, channels: channels_or(channels, default), mix: None }
}

/// All nodes that the profile declares, in the order of its sections.
pub open spec fn declared_nodes(p: Profile) -> Seq<NodeDescriptor> {
    let d = default_channels(p);
    Seq::new(p.virtual_devices.outputs@.len(), |i: int| vout_node(p.virtual_devices.outputs@[i], d))
        + Seq::new(
        p.virtual_devices.inputs@.len(),
        |i: int| vin_node(p.virtual_devices.inputs@[i], d),
    ) + Seq::new(
        p.buses@.len(),
        |i: int|
            NodeDescriptor {
                id: p.buses@[i].id,
                kind: NodeKind::Bus,
                channels: channels_or(p.buses@[i].channels, d),
                mix: p.buses@[i].mix,
            },
    ) + Seq::new(
        p.external.inputs@.len(),
        |i: int|
            plain_node(
                p.external.inputs@[i].id,
                NodeKind::ExternalInput,
                p.external.inputs@[i].channels,
                d,
            ),
    ) + Seq::new(
        p.external.outputs@.len(),
        |i: int|
            plain_node(
                p.external.outputs@[i].id,
                NodeKind::ExternalOutput,
                p.external.outputs@[i].channels,
                d,
            ),
    ) + Seq::new(
        p.captures.process_taps@.len(),
        |i: int|
            plain_node(
                p.captures.process_taps@[i].id,
                NodeKind::ExternalInput,
                p.captures.process_taps@[i].channels,
                d,
            ),
    ) + Seq::new(
        p.captures.system_taps@.len(),
        |i: int|
            plain_node(
                p.captures.system_taps@[i].id,
                NodeKind::ExternalInput,
                p.captures.system_taps@[i].channels,
                d,
            ),
    )
}

/// Why the declaration at a place is refused: its channels are out of range, or its id
/// stands before.
pub open spec fn node_error(nodes: Seq<NodeDescriptor>, i: int) -> Option<GraphError> {
    if nodes[i].channels < MIN_NODE_CHANNELS || nodes[i].channels > MAX_NODE_CHANNELS {
        Some(GraphError::InvalidNodeChannels { id: nodes[i].id, channels: nodes[i].channels })
    } else if exists|j: int| 0 <= j < i && (#[trigger] nodes[j]).id@ == nodes[i].id@ {
        Some(GraphError::DuplicateNode(nodes[i].id))
    } else {
        None
    }
}

/// The first refused declaration.
pub open spec fn nodes_error(nodes: Seq<NodeDescriptor>) -> Option<GraphError> {
    first_some(|i: int| node_error(nodes, i), 0, nodes.len() as int)
}

/// The map holds exactly the listed nodes, by their ids.
pub open spec fn holds_nodes(
    map: Map<Seq<char>, NodeDescriptor>,
    nodes: Seq<NodeDescriptor>,
) -> bool {
    &&& forall|i: int| 0 <= i < nodes.len() ==> map.dom().contains((#[trigger] nodes[i]).id@)
    &&& forall|i: int| 0 <= i < nodes.len() ==> map[(#[trigger] nodes[i]).id@] == nodes[i]
    &&& forall|k: Seq<char>| #[trigger]
        map.dom().contains(k) ==> exists|i: int| 0 <= i < nodes.len() && nodes[i].id@ == k
}

fn node_from_vout(device: &VirtualOutputDevice, default: u16) -> (r: NodeDescriptor)
    ensures
        r == vout_node(*device, default),
{
    NodeDescriptor {
        id: device.id.clone(),
        kind: NodeKind::VirtualOutput,
        channels: device.channels.unwrap_or(default),
        mix: None,
    }
}

fn node_from_vin(device: &VirtualInputDevice, default: u16) -> (r: NodeDescriptor)
    ensures
        r == vin_node(*device, default),
{
    NodeDescriptor {
        id: device.id.clone(),
        kind: NodeKind::VirtualInput,
        channels: device.channels.unwrap_or(default),
        mix: Some(
            match device.mix {
                Some(mix) => mix,
                None => MixConfig::default(),
            },
        ),
    }
}

fn plain_node_of(id: &String, kind: NodeKind, channels: Option<u16>, default: u16) -> (r:
    NodeDescriptor)
    ensures
        r == plain_node(*id, kind, channels, default),
{
    NodeDescriptor { id: id.clone(), kind, channels: channels.unwrap_or(default), mix: None }
}

fn list_nodes(p: &Profile) -> (r: Vec<NodeDescriptor>)
    ensures
        r@ == declared_nodes(*p),
{
    let default = p.default_channels();
    let mut nodes: Vec<NodeDescriptor> = Vec::new();
    let mut i: usize = 0;
    while i < p.virtual_devices.outputs.len()
        invariant
            i <= p.virtual_devices.outputs.len(),
            nodes@ =~= Seq::new(
                i as nat,
                |k: int| vout_node(p.virtual_devices.outputs@[k], default),
            ),
        decreases p.virtual_devices.outputs.len() - i,
    {
        nodes.push(node_from_vout(&p.virtual_devices.outputs[i], default));
        i = i + 1;
    }
    let ghost done = nodes@;
    i = 0;
    while i < p.virtual_devices.inputs.len()
        invariant
            i <= p.virtual_devices.inputs.len(),
            nodes@ =~= done + Seq::new(
                i as nat,
                |k: int| vin_node(p.virtual_devices.inputs@[k], default),
            ),
        decreases p.virtual_devices.inputs.len() - i,
    {
        nodes.push(node_from_vin(&p.virtual_devices.inputs[i], default));
        i = i + 1;
    }
    let ghost done = nodes@;
    i = 0;
    while i < p.buses.len()
        invariant
            i <= p.buses.len(),
            nodes@ =~= done + Seq::new(
                i as nat,
                |k: int|
                    NodeDescriptor {
                        id: p.buses@[k].id,
                        kind: NodeKind::Bus,
                        channels: channels_or(p.buses@[k].channels, default),
                        mix: p.buses@[k].mix,
                    },
            ),
        decreases p.buses.len() - i,
    {
        let bus = &p.buses[i];
        nodes.push(
            NodeDescriptor {
                id: bus.id.clone(),
                kind: NodeKind::Bus,
                channels: bus.channels.unwrap_or(default),
                mix: bus.mix,
            },
        );
        i = i + 1;
    }
    let ghost done = nodes@;
    i = 0;
    while i < p.external.inputs.len()
        invariant
            i <= p.external.inputs.len(),
            nodes@ =~= done + Seq::new(
                i as nat,
                |k: int|
                    plain_node(
                        p.external.inputs@[k].id,
                        NodeKind::ExternalInput,
                        p.external.inputs@[k].channels,
                        default,
                    ),
            ),
        decreases p.external.inputs.len() - i,
    {
        let input = &p.external.inputs[i];
        nodes.push(plain_node_of(&input.id, NodeKind::ExternalInput, input.channels, default));
        i = i + 1;
    }
    let ghost done = nodes@;
    i = 0;
    while i < p.external.outputs.len()
        invariant
            i <= p.external.outputs.len(),
            nodes@ =~= done + Seq::new(
                i as nat,
                |k: int|
                    plain_node(
                        p.external.outputs@[k].id,
                        NodeKind::ExternalOutput,
                        p.external.outputs@[k].channels,
                        default,
                    ),
            ),
        decreases p.external.outputs.len() - i,
    {
        let output = &p.external.outputs[i];
        nodes.push(plain_node_of(&output.id, NodeKind::ExternalOutput, output.channels, default));
        i = i + 1;
    }
    let ghost done = nodes@;
    i = 0;
    while i < p.captures.process_taps.len()
        invariant
            i <= p.captures.process_taps.len(),
            nodes@ =~= done + Seq::new(
                i as nat,
                |k: int|
                    plain_node(
                        p.captures.process_taps@[k].id,
                        NodeKind::ExternalInput,
                        p.captures.process_taps@[k].channels,
                        default,
                    ),
            ),
        decreases p.captures.process_taps.len() - i,
    {
        let tap = &p.captures.process_taps[i];
        nodes.push(plain_node_of(&tap.id, NodeKind::ExternalInput, tap.channels, default));
        i = i + 1;
    }
    let ghost done = nodes@;
    i = 0;
    while i < p.captures.system_taps.len()
        invariant
            i <= p.captures.system_taps.len(),
            nodes@ =~= done + Seq::new(
                i as nat,
                |k: int|
                    plain_node(
                        p.captures.system_taps@[k].id,
                        NodeKind::ExternalInput,
                        p.captures.system_taps@[k].channels,
                        default,
                    ),
            ),
        decreases p.captures.system_taps.len() - i,
    {
        let tap = &p.captures.system_taps[i];
        nodes.push(plain_node_of(&tap.id, NodeKind::ExternalInput, tap.channels, default));
        i = i + 1;
    }
    nodes
}

fn add_node(nodes: &mut StringMap<NodeDescriptor>, node: &NodeDescriptor) -> (r: Result<
    (),
    GraphError,
>)
    requires
        old(nodes).wf(),
    ensures
        final(nodes).wf(),
        r == (if node.channels < MIN_NODE_CHANNELS || node.channels > MAX_NODE_CHANNELS {
            Err(GraphError::InvalidNodeChannels { id: node.id, channels: node.channels })
        } else if old(nodes)@.dom().contains(node.id@) {
            Err(GraphError::DuplicateNode(node.id))
        } else {
            Ok(())
        }),
        r is Ok ==> final(nodes)@ == old(nodes)@.insert(node.id@, *node),
        r is Err ==> *final(nodes) == *old(nodes),
{
    if node.channels < MIN_NODE_CHANNELS || node.channels > MAX_NODE_CHANNELS {
        return Err(
            GraphError::InvalidNodeChannels { id: node.id.clone(), channels: node.channels },
        );
    }
    if nodes.contains_key(node.id.as_str()) {
        return Err(GraphError::DuplicateNode(node.id.clone()));
    }
    nodes.insert(node.id.clone(), node.clone());
    Ok(())
}

fn collect_nodes(declared: &Vec<NodeDescriptor>) -> (r: Result<
    StringMap<NodeDescriptor>,
    GraphError,
>)
    ensures
        match r {
            Ok(map) => map.wf() && nodes_error(declared@) is None && holds_nodes(
                map@,
                declared@,
            ),
            Err(e) => nodes_error(declared@) == Some(e),
        },
{
    let ghost f = |k: int| node_error(declared@, k);
    let mut nodes: StringMap<NodeDescriptor> = StringMap::new();
    let mut i: usize = 0;
    assert(holds_nodes(nodes@, declared@.take(0)));
    while i < declared.len()
        invariant
            i <= declared.len(),
            f == |k: int| node_error(declared@, k),
            nodes.wf(),
            holds_nodes(nodes@, declared@.take(i as int)),
            first_some(f, 0, declared@.len() as int) == first_some(
                f,
                i as int,
                declared@.len() as int,
            ),
        decreases declared.len() - i,
    {
        let ghost before = nodes@;
        let ghost seen = declared@.take(i as int);
        let ghost id = declared@[i as int].id@;
        proof {
            assert(f(i as int) == node_error(declared@, i as int));
            if before.dom().contains(id) {
                let j = choose|j: int| 0 <= j < seen.len() && seen[j].id@ == id;
                assert(declared@[j].id@ == id);
            }
            if exists|j: int| 0 <= j < i && (#[trigger] declared@[j]).id@ == id {
                let j = choose|j: int| 0 <= j < i && (#[trigger] declared@[j]).id@ == id;
                assert(seen[j].id@ == id);
            }
        }
        match add_node(&mut nodes, &declared[i]) {
            Ok(()) => {},
            Err(e) => {
                return Err(e);
            },
        }
        proof {
            let grown = declared@.take(i as int + 1);
            assert(grown =~= seen.push(declared@[i as int]));
            assert forall|k: Seq<char>| #[trigger] nodes@.dom().contains(k) implies exists|j: int|
                0 <= j < grown.len() && grown[j].id@ == k by {
                if k == id {
                    assert(grown[i as int].id@ == k);
                } else {
                    assert(before.dom().contains(k));
                    let j = choose|j: int| 0 <= j < seen.len() && seen[j].id@ == k;
                    assert(grown[j].id@ == k);
                }
            }
            assert forall|j: int| 0 <= j < grown.len() implies nodes@.dom().contains(
                (#[trigger] grown[j]).id@,
            ) && nodes@[grown[j].id@] == grown[j] by {
                if j < i {
                    assert(grown[j] == seen[j]);
                }
            }
        }
        i = i + 1;
    }
    assert(declared@.take(i as int) =~= declared@);
    Ok(nodes)
}

// ---------------------------------------------------------------------------
// Processor chains

/// The definition that an id stands for: of several the last.
pub open spec fn definition_place(
    processors: Seq<ProcessorDefinition>,
    id: Seq<char>,
    n: int,
) -> Option<int> {
    last_place(|i: int| processors[i].id@ == id, n)
}

/// Why a chain is refused: its first processor that is not defined.
pub open spec fn chain_error(
    processors: Seq<ProcessorDefinition>,
    chain: ProcessorChain,
) -> Option<GraphError> {
    first_some(
        |j: int|
            if definition_place(processors, chain.processors@[j]@, processors.len() as int) is None {
                Some(
                    GraphError::UnknownProcessorDefinition {
                        chain_id: chain.id,
                        processor_id: chain.processors@[j],
                    },
                )
            } else {
                None
            },
        0,
        chain.processors@.len() as int,
    )
}

/// The first refused chain.
pub open spec fn chains_error(p: Profile) -> Option<GraphError> {
    first_some(
        |i: int| chain_error(p.processors@, p.processor_chains@[i]),
        0,
        p.processor_chains@.len() as int,
    )
}

/// The compiled processor carries the id, and the kind and settings of the definition
/// that the id stands for.
pub open spec fn processor_compiled(
    processors: Seq<ProcessorDefinition>,
    id: Seq<char>,
    c: CompiledProcessor,
) -> bool {
    &&& c.id@ == id
    &&& definition_place(processors, id, processors.len() as int) matches Some(k) && c.kind
        == processors[k].kind && c.config_json@ == json_text(processors[k].config)
}

/// The compiled chain lists its processors in order.
pub open spec fn chain_compiled(
    processors: Seq<ProcessorDefinition>,
    chain: ProcessorChain,
    c: CompiledProcessorChain,
) -> bool {
    &&& c.id@ == chain.id@
    &&& c.processors@.len() == chain.processors@.len()
    &&& forall|j: int|
        0 <= j < c.processors@.len() ==> processor_compiled(
            processors,
            chain.processors@[j]@,
            #[trigger] c.processors@[j],
        )
}

/// The place of the last chain with an id.
pub open spec fn chain_place(chains: Seq<ProcessorChain>, id: Seq<char>, n: int) -> Option<int> {
    last_place(|i: int| chains[i].id@ == id, n)
}

/// The plan holds every declared chain; of several with one id it holds the last.
pub open spec fn plan_compiled(
    processors: Seq<ProcessorDefinition>,
    chains: Seq<ProcessorChain>,
    plan: Map<Seq<char>, CompiledProcessorChain>,
) -> bool {
    &&& forall|k: Seq<char>| #[trigger]
        plan.dom().contains(k) <==> chain_place(chains, k, chains.len() as int) is Some
    &&& forall|k: Seq<char>| #[trigger]
        plan.dom().contains(k) ==> chain_compiled(
            processors,
            chains[chain_place(chains, k, chains.len() as int)->0],
            plan[k],
        )
}

fn find_definition(processors: &Vec<ProcessorDefinition>, id: &String) -> (r: Option<usize>)
    ensures
        match r {
            Some(k) => k < processors.len() && definition_place(
                processors@,
                id@,
                processors@.len() as int,
            ) == Some(k as int),
            None => definition_place(processors@, id@, processors@.len() as int) is None,
        },
{
    let mut n: usize = processors.len();
    while n > 0
        invariant
            n <= processors.len(),
            definition_place(processors@, id@, processors@.len() as int) == definition_place(
                processors@,
                id@,
                n as int,
            ),
        decreases n,
    {
        if processors[n - 1].id == *id {
            return Some(n - 1);
        }
        n = n - 1;
    }
    None
}

fn compile_chain(processors: &Vec<ProcessorDefinition>, chain: &ProcessorChain) -> (r: Result<
    CompiledProcessorChain,
    GraphError,
>)
    ensures
        match r {
            Ok(c) => chain_error(processors@, *chain) is None && chain_compiled(
                processors@,
                *chain,
                c,
            ),
            Err(e) => chain_error(processors@, *chain) == Some(e),
        },
{
    let ghost f = |j: int|
        if definition_place(processors@, chain.processors@[j]@, processors@.len() as int) is None {
            Some(
                GraphError::UnknownProcessorDefinition {
                    chain_id: chain.id,
                    processor_id: chain.processors@[j],
                },
            )
        } else {
            None
        };
    let mut compiled: Vec<CompiledProcessor> = Vec::new();
    let mut j: usize = 0;
    while j < chain.processors.len()
        invariant
            j <= chain.processors.len(),
            compiled@.len() == j,
            f == |j: int|
                if definition_place(
                    processors@,
                    chain.processors@[j]@,
                    processors@.len() as int,
                ) is None {
                    Some(
                        GraphError::UnknownProcessorDefinition {
                            chain_id: chain.id,
                            processor_id: chain.processors@[j],
                        },
                    )
                } else {
                    None
                },
            first_some(f, 0, chain.processors@.len() as int) == first_some(
                f,
                j as int,
                chain.processors@.len() as int,
            ),
            forall|k: int|
                0 <= k < j ==> processor_compiled(
                    processors@,
                    chain.processors@[k]@,
                    #[trigger] compiled@[k],
                ),
        decreases chain.processors.len() - j,
    {
        let id = &chain.processors[j];
        match find_definition(processors, id) {
            None => {
                return Err(
                    GraphError::UnknownProcessorDefinition {
                        chain_id: chain.id.clone(),
                        processor_id: id.clone(),
                    },
                );
            },
            Some(k) => {
                compiled.push(
                    CompiledProcessor {
                        id: id.clone(),
                        kind: processors[k].kind,
                        config_json: value_text(&processors[k].config),
                    },
                );
            },
        }
        j = j + 1;
    }
    Ok(CompiledProcessorChain { id: chain.id.clone(), processors: compiled })
}

fn compile_processor_plan(p: &Profile) -> (r: Result<CompiledProcessorPlan, GraphError>)
    ensures
        match r {
            Ok(plan) => plan.chains.wf() && chains_error(*p) is None && plan_compiled(
                p.processors@,
                p.processor_chains@,
                plan.chains@,
            ),
            Err(e) => chains_error(*p) == Some(e),
        },
{
    let ghost f = |i: int| chain_error(p.processors@, p.processor_chains@[i]);
    let mut chains: StringMap<CompiledProcessorChain> = StringMap::new();
    let mut i: usize = 0;
    while i < p.processor_chains.len()
        invariant
            i <= p.processor_chains.len(),
            chains.wf(),
            f == |i: int| chain_error(p.processors@, p.processor_chains@[i]),
            first_some(f, 0, p.processor_chains@.len() as int) == first_some(
                f,
                i as int,
                p.processor_chains@.len() as int,
            ),
            plan_compiled(p.processors@, p.processor_chains@.take(i as int), chains@),
        decreases p.processor_chains.len() - i,
    {
        let chain = &p.processor_chains[i];
        match compile_chain(&p.processors, chain) {
            Err(e) => {
                return Err(e);
            },
            Ok(compiled) => {
                let ghost before = chains@;
                chains.insert(chain.id.clone(), compiled);
                proof {
                    let seen = p.processor_chains@.take(i as int);
                    let grown = p.processor_chains@.take(i as int + 1);
                    assert(grown =~= seen.push(*chain));
                    assert forall|k: Seq<char>| #[trigger]
                        chain_place(grown, k, grown.len() as int) == (if k == chain.id@ {
                            Some(i as int)
                        } else {
                            chain_place(seen, k, seen.len() as int)
                        }) by {
                        lemma_last_same(seen, grown, k, seen.len() as int);
                    }
                    assert forall|k: Seq<char>| #[trigger]
                        chains@.dom().contains(k) implies chain_compiled(
                        p.processors@,
                        grown[chain_place(grown, k, grown.len() as int)->0],
                        chains@[k],
                    ) by {
                        lemma_last_place(|j: int| seen[j].id@ == k, seen.len() as int);
                        if k != chain.id@ {
                            assert(before.dom().contains(k));
                        }
                    }
                    assert(plan_compiled(p.processors@, grown, chains@));
                }
            },
        }
        i = i + 1;
    }
    assert(p.processor_chains@.take(i as int) =~= p.processor_chains@);
    Ok(CompiledProcessorPlan { chains })
}

proof fn lemma_last_same(a: Seq<ProcessorChain>, b: Seq<ProcessorChain>, k: Seq<char>, n: int)
    requires
        n <= a.len(),
        n <= b.len(),
        forall|j: int| 0 <= j < n ==> a[j] == b[j],
    ensures
        chain_place(a, k, n) == chain_place(b, k, n),
    decreases n,
{
    if n > 0 {
        lemma_last_same(a, b, k, n - 1);
    }
}

// ---------------------------------------------------------------------------
// Routes

/// Whether a matrix has the shape that it declares, with at least one row and column.
pub open spec fn shape_holds(m: RouteMatrix) -> bool {
    &&& m.rows != 0
    &&& m.cols != 0
    &&& m.rows == m.coefficients@.len()
    &&& forall|r: int| 0 <= r < m.coefficients@.len() ==> (#[trigger] m.coefficients@[r])@.len() == m.cols
}

/// The length of the first row.
pub open spec fn first_row_len(m: RouteMatrix) -> usize {
    if m.coefficients@.len() == 0 {
        0
    } else {
        m.coefficients@[0]@.len() as usize
    }
}

/// The first coefficient of a row that is not finite.
pub open spec fn row_error(route: Route, row: int) -> Option<GraphError> {
    first_some(
        |col: int|
            if !route.matrix.coefficients@[row]@[col].finite() {
                Some(
                    GraphError::NonFiniteRouteMatrixCoefficient {
                        route_id: route.id,
                        row: row as usize,
                        col: col as usize,
                        value: route.matrix.coefficients@[row]@[col],
                    },
                )
            } else {
                None
            },
        0,
        route.matrix.coefficients@[row]@.len() as int,
    )
}

/// The first coefficient of a matrix that is not finite, row by row.
pub open spec fn matrix_error(route: Route) -> Option<GraphError> {
    first_some(|row: int| row_error(route, row), 0, route.matrix.coefficients@.len() as int)
}

/// Why the route at a place is refused.
pub open spec fn route_error(
    routes: Seq<Route>,
    nodes: Map<Seq<char>, NodeDescriptor>,
    chains: Set<Seq<char>>,
    i: int,
) -> Option<GraphError> {
    let route = routes[i];
    let source = nodes[route.from@];
    let destination = nodes[route.to@];
    if !route.enabled {
        None
    } else if !delay_allowed(route.delay_ms) {
        Some(GraphError::InvalidDelay(route.delay_ms))
    } else if !nodes.dom().contains(route.from@) {
        Some(GraphError::UnknownSource(route.from))
    } else if !nodes.dom().contains(route.to@) {
        Some(GraphError::UnknownDestination(route.to))
    } else if !source.kind.source() {
        Some(GraphError::InvalidSourceType(source.id))
    } else if !destination.kind.sink() {
        Some(GraphError::InvalidDestinationType(destination.id))
    } else if route.chain is Some && !chains.contains(route.chain->0@) {
        Some(GraphError::UnknownRouteChain { route_id: route.id, chain_id: route.chain->0 })
    } else if exists|j: int|
        0 <= j < i && (#[trigger] routes[j]).enabled && routes[j].id@ == route.id@ {
        Some(GraphError::DuplicateRouteId(route.id))
    } else if !shape_holds(route.matrix) {
        Some(
            GraphError::RouteMatrixShapeMismatch {
                route_id: route.id,
                rows: route.matrix.rows,
                cols: route.matrix.cols,
                actual_rows: route.matrix.coefficients@.len() as usize,
                actual_cols: first_row_len(route.matrix),
            },
        )
    } else if route.matrix.rows != destination.channels || route.matrix.cols != source.channels {
        Some(
            GraphError::RouteMatrixChannelMismatch {
                route_id: route.id,
                expected_rows: destination.channels,
                expected_cols: source.channels,
                rows: route.matrix.rows,
                cols: route.matrix.cols,
            },
        )
    } else {
        matrix_error(route)
    }
}

/// The first refused route.
pub open spec fn routes_error(
    routes: Seq<Route>,
    nodes: Map<Seq<char>, NodeDescriptor>,
    chains: Set<Seq<char>>,
) -> Option<GraphError> {
    first_some(|i: int| route_error(routes, nodes, chains, i), 0, routes.len() as int)
}

/// The places of the enabled routes.
pub open spec fn enabled_routes(routes: Seq<Route>) -> Seq<int> {
    kept(|i: int| routes[i].enabled, routes.len() as int)
}

/// The connection of a route.
pub open spec fn route_edge(route: Route) -> PipeDescriptor {
    PipeDescriptor {
        id: route.id,
        from: route.from,
        to: route.to,
        gain_db: route.gain_db,
        mute: route.mute,
        pan: route.pan,
        delay_ms: route.delay_ms,
    }
}

/// The coefficients row by row.
pub open spec fn flattened(m: RouteMatrix) -> Seq<Real32> {
    Seq::new(
        (m.rows * m.cols) as nat,
        |k: int| m.coefficients@[k / (m.cols as int)]@[k % (m.cols as int)],
    )
}

/// The compiled form of a route between two nodes.
pub open spec fn route_compiled(
    route: Route,
    nodes: Map<Seq<char>, NodeDescriptor>,
    c: CompiledRoute,
) -> bool {
    &&& c.id == route.id
    &&& c.from == route.from
    &&& c.to == route.to
    &&& c.source_channels == nodes[route.from@].channels
    &&& c.destination_channels == nodes[route.to@].channels
    &&& c.matrix_rows == route.matrix.rows
    &&& c.matrix_cols == route.matrix.cols
    &&& c.matrix@ == flattened(route.matrix)
    &&& c.gain_db == route.gain_db
    &&& c.mute == route.mute
    &&& c.pan == route.pan
    &&& c.delay_ms == route.delay_ms
    &&& c.chain == route.chain
}

/// Connections and compiled routes follow the enabled routes, place by place.
pub open spec fn routes_compiled(
    routes: Seq<Route>,
    nodes: Map<Seq<char>, NodeDescriptor>,
    n: int,
    edges: Seq<PipeDescriptor>,
    compiled: Seq<CompiledRoute>,
) -> bool {
    let places = kept(|i: int| routes[i].enabled, n);
    &&& edges.len() == places.len()
    &&& compiled.len() == places.len()
    &&& forall|k: int|
        0 <= k < places.len() ==> (#[trigger] edges[k]) == route_edge(routes[places[k]])
    &&& forall|k: int|
        0 <= k < places.len() ==> route_compiled(
            routes[places[k]],
            nodes,
            #[trigger] compiled[k],
        )
}

fn check_shape(m: &RouteMatrix) -> (r: bool)
    ensures
        r == shape_holds(*m),
{
    if m.rows == 0 || m.cols == 0 || m.rows as usize != m.coefficients.len() {
        return false;
    }
    let mut r: usize = 0;
    while r < m.coefficients.len()
        invariant
            r <= m.coefficients.len(),
            forall|k: int| 0 <= k < r ==> (#[trigger] m.coefficients@[k])@.len() == m.cols,
        decreases m.coefficients.len() - r,
    {
        if m.coefficients[r].len() != m.cols as usize {
            assert(m.coefficients@[r as int]@.len() != m.cols);
            return false;
        }
        r = r + 1;
    }
    true
}

fn flatten_matrix(route: &Route) -> (r: Result<Vec<Real32>, GraphError>)
    requires
        shape_holds(route.matrix),
    ensures
        match r {
            Ok(v) => matrix_error(*route) is None && v@ == flattened(route.matrix),
            Err(e) => matrix_error(*route) == Some(e),
        },
{
    let m = &route.matrix;
    let ghost cols = m.cols as int;
    let ghost f = |row: int| row_error(*route, row);
    let mut flat: Vec<Real32> = Vec::new();
    let mut row: usize = 0;
    while row < m.coefficients.len()
        invariant
            *m == route.matrix,
            shape_holds(route.matrix),
            cols == m.cols,
            row <= m.coefficients.len(),
            f == |row: int| row_error(*route, row),
            first_some(f, 0, m.coefficients@.len() as int) == first_some(
                f,
                row as int,
                m.coefficients@.len() as int,
            ),
            flat@ == Seq::new(
                (row * cols) as nat,
                |k: int| m.coefficients@[k / cols]@[k % cols],
            ),
        decreases m.coefficients.len() - row,
    {
        let line = &m.coefficients[row];
        let ghost g = |col: int|
            if !route.matrix.coefficients@[row as int]@[col].finite() {
                Some(
                    GraphError::NonFiniteRouteMatrixCoefficient {
                        route_id: route.id,
                        row: row as usize,
                        col: col as usize,
                        value: route.matrix.coefficients@[row as int]@[col],
                    },
                )
            } else {
                None
            };
        let mut col: usize = 0;
        while col < line.len()
            invariant
                *m == route.matrix,
                shape_holds(route.matrix),
                cols == m.cols,
                row < m.coefficients.len(),
                *line == m.coefficients@[row as int],
                line@.len() == cols,
                f == |row: int| row_error(*route, row),
                first_some(f, 0, m.coefficients@.len() as int) == first_some(
                    f,
                    row as int,
                    m.coefficients@.len() as int,
                ),
                col <= line.len(),
                g == |col: int|
                    if !route.matrix.coefficients@[row as int]@[col].finite() {
                        Some(
                            GraphError::NonFiniteRouteMatrixCoefficient {
                                route_id: route.id,
                                row: row as usize,
                                col: col as usize,
                                value: route.matrix.coefficients@[row as int]@[col],
                            },
                        )
                    } else {
                        None
                    },
                first_some(g, 0, line@.len() as int) == first_some(g, col as int, line@.len() as int),
                flat@ == Seq::new(
                    (row * cols + col) as nat,
                    |k: int| m.coefficients@[k / cols]@[k % cols],
                ),
            decreases line.len() - col,
        {
            if !line[col].is_finite() {
                proof {
                    assert(row_error(*route, row as int) == first_some(g, 0, line@.len() as int));
                    assert(f(row as int) == row_error(*route, row as int));
                }
                return Err(
                    GraphError::NonFiniteRouteMatrixCoefficient {
                        route_id: route.id.clone(),
                        row,
                        col,
                        value: line[col],
                    },
                );
            }
            proof {
                vstd::arithmetic::div_mod::lemma_fundamental_div_mod_converse(
                    row * cols + col,
                    cols,
                    row as int,
                    col as int,
                );
                assert(row * cols >= 0) by (nonlinear_arith)
                    requires
                        cols >= 0,
                        row >= 0,
                ;
            }
            flat.push(line[col]);
            assert(flat@ =~= Seq::new(
                (row * cols + col + 1) as nat,
                |k: int| m.coefficients@[k / cols]@[k % cols],
            ));
            col = col + 1;
        }
        proof {
            assert(row_error(*route, row as int) == first_some(g, 0, line@.len() as int));
            assert(f(row as int) == row_error(*route, row as int));
            assert((row + 1) * cols == row * cols + cols) by (nonlinear_arith);
        }
        row = row + 1;
    }
    assert(m.rows * m.cols == row * cols);
    Ok(flat)
}

fn check_route(
    routes: &Vec<Route>,
    i: usize,
    nodes: &StringMap<NodeDescriptor>,
    plan: &CompiledProcessorPlan,
    seen: &StringMap<()>,
) -> (r: Result<CompiledRoute, GraphError>)
    requires
        i < routes.len(),
        routes@[i as int].enabled,
        nodes.wf(),
        plan.chains.wf(),
        seen.wf(),
        forall|k: Seq<char>| #[trigger]
            seen@.dom().contains(k) <==> exists|j: int|
                0 <= j < i && (#[trigger] routes@[j]).enabled && routes@[j].id@ == k,
    ensures
        match r {
            Ok(c) => route_error(routes@, nodes@, plan.chains@.dom(), i as int) is None
                && route_compiled(routes@[i as int], nodes@, c),
            Err(e) => route_error(routes@, nodes@, plan.chains@.dom(), i as int) == Some(e),
        },
{
    let route = &routes[i];
    if !is_delay_allowed(&route.delay_ms) {
        return Err(GraphError::InvalidDelay(route.delay_ms));
    }
    let source = match nodes.get(route.from.as_str()) {
        Some(node) => node,
        None => {
            return Err(GraphError::UnknownSource(route.from.clone()));
        },
    };
    let destination = match nodes.get(route.to.as_str()) {
        Some(node) => node,
        None => {
            return Err(GraphError::UnknownDestination(route.to.clone()));
        },
    };
    if !source.kind.is_source() {
        return Err(GraphError::InvalidSourceType(source.id.clone()));
    }
    if !destination.kind.is_sink() {
        return Err(GraphError::InvalidDestinationType(destination.id.clone()));
    }
    if let Some(chain_id) = &route.chain {
        if !plan.chains.contains_key(chain_id.as_str()) {
            return Err(
                GraphError::UnknownRouteChain {
                    route_id: route.id.clone(),
                    chain_id: chain_id.clone(),
                },
            );
        }
    }
    if seen.contains_key(route.id.as_str()) {
        return Err(GraphError::DuplicateRouteId(route.id.clone()));
    }
    if !check_shape(&route.matrix) {
        let actual_rows = route.matrix.coefficients.len();
        let actual_cols = if actual_rows == 0 {
            0
        } else {
            route.matrix.coefficients[0].len()
        };
        return Err(
            GraphError::RouteMatrixShapeMismatch {
                route_id: route.id.clone(),
                rows: route.matrix.rows,
                cols: route.matrix.cols,
                actual_rows,
                actual_cols,
            },
        );
    }
    if route.matrix.rows != destination.channels || route.matrix.cols != source.channels {
        return Err(
            GraphError::RouteMatrixChannelMismatch {
                route_id: route.id.clone(),
                expected_rows: destination.channels,
                expected_cols: source.channels,
                rows: route.matrix.rows,
                cols: route.matrix.cols,
            },
        );
    }
    let matrix = match flatten_matrix(route) {
        Ok(matrix) => matrix,
        Err(e) => {
            return Err(e);
        },
    };
    Ok(
        CompiledRoute {
            id: route.id.clone(),
            from: route.from.clone(),
            to: route.to.clone(),
            source_channels: source.channels,
            destination_channels: destination.channels,
            matrix_rows: route.matrix.rows,
            matrix_cols: route.matrix.cols,
            matrix,
            gain_db: route.gain_db,
            mute: route.mute,
            pan: route.pan,
            delay_ms: route.delay_ms,
            chain: route.chain.clone(),
        },
    )
}

/// Compiles the enabled routes of a profile, or says why one is refused.
pub fn compile_routes(
    p: &Profile,
    nodes: &StringMap<NodeDescriptor>,
    plan: &CompiledProcessorPlan,
) -> (r: Result<(Vec<PipeDescriptor>, Vec<CompiledRoute>), GraphError>)
    requires
        nodes.wf(),
        plan.chains.wf(),
    ensures
        match r {
            Ok((edges, routes)) => routes_error(p.routes@, nodes@, plan.chains@.dom()) is None
                && routes_compiled(p.routes@, nodes@, p.routes@.len() as int, edges@, routes@),
            Err(e) => routes_error(p.routes@, nodes@, plan.chains@.dom()) == Some(e),
        },
{
    let ghost f = |i: int| route_error(p.routes@, nodes@, plan.chains@.dom(), i);
    let mut edges: Vec<PipeDescriptor> = Vec::new();
    let mut routes: Vec<CompiledRoute> = Vec::new();
    let mut seen: StringMap<()> = StringMap::new();
    let mut i: usize = 0;
    while i < p.routes.len()
        invariant
            i <= p.routes.len(),
            nodes.wf(),
            plan.chains.wf(),
            seen.wf(),
            f == |i: int| route_error(p.routes@, nodes@, plan.chains@.dom(), i),
            first_some(f, 0, p.routes@.len() as int) == first_some(
                f,
                i as int,
                p.routes@.len() as int,
            ),
            forall|k: Seq<char>| #[trigger]
                seen@.dom().contains(k) <==> exists|j: int|
                    0 <= j < i && (#[trigger] p.routes@[j]).enabled && p.routes@[j].id@ == k,
            routes_compiled(p.routes@, nodes@, i as int, edges@, routes@),
        decreases p.routes.len() - i,
    {
        let ghost before = seen@;
        proof {
            assert(f(i as int) == route_error(p.routes@, nodes@, plan.chains@.dom(), i as int));
        }
        if p.routes[i].enabled {
            match check_route(&p.routes, i, nodes, plan, &seen) {
                Err(e) => {
                    return Err(e);
                },
                Ok(compiled) => {
                    let route = &p.routes[i];
                    edges.push(
                        PipeDescriptor {
                            id: route.id.clone(),
                            from: route.from.clone(),
                            to: route.to.clone(),
                            gain_db: route.gain_db,
                            mute: route.mute,
                            pan: route.pan,
                            delay_ms: route.delay_ms,
                        },
                    );
                    routes.push(compiled);
                    seen.insert(route.id.clone(), ());
                },
            }
        }
        proof {
            assert forall|k: Seq<char>| #[trigger] seen@.dom().contains(k) <==> exists|j: int|
                0 <= j < i + 1 && (#[trigger] p.routes@[j]).enabled && p.routes@[j].id@ == k by {
                if before.dom().contains(k) {
                    let j = choose|j: int|
                        0 <= j < i && (#[trigger] p.routes@[j]).enabled && p.routes@[j].id@ == k;
                    assert(p.routes@[j].enabled);
                }
                if p.routes@[i as int].enabled && p.routes@[i as int].id@ == k {
                    assert(seen@.dom().contains(k));
                }
            }
        }
        i = i + 1;
    }
    Ok((edges, routes))
}

// ---------------------------------------------------------------------------
// Pipes

/// Whether a pipe can join these numbers of channels.
pub open spec fn pipe_channels_compatible(source: u16, destination: u16) -> bool {
    source == destination || (source == 1 && destination == 2) || (source == 2 && destination == 1)
}

/// The matrix of a pipe: the identity, one channel copied to two, or two averaged to one.
pub open spec fn pipe_matrix(source: u16, destination: u16) -> Seq<Real32> {
    let zero = Real32 { bits: ZERO_BITS };
    let one = Real32 { bits: ONE_BITS };
    let half = Real32 { bits: HALF_BITS };
    if source == destination {
        Seq::new(
            (source * source) as nat,
            |k: int|
                if k / (source as int) == k % (source as int) {
                    one
                } else {
                    zero
                },
        )
    } else if source == 1 && destination == 2 {
        seq![one, one]
    } else if source == 2 && destination == 1 {
        seq![half, half]
    } else {
        Seq::empty()
    }
}

/// Why the pipe at a place is refused.
pub open spec fn pipe_error(
    pipes: Seq<Pipe>,
    nodes: Map<Seq<char>, NodeDescriptor>,
    i: int,
) -> Option<GraphError> {
    let pipe = pipes[i];
    let source = nodes[pipe.from@];
    let destination = nodes[pipe.to@];
    if !pipe.enabled {
        None
    } else if !delay_allowed(pipe.delay_ms) {
        Some(GraphError::InvalidDelay(pipe.delay_ms))
    } else if !nodes.dom().contains(pipe.from@) {
        Some(GraphError::UnknownSource(pipe.from))
    } else if !nodes.dom().contains(pipe.to@) {
        Some(GraphError::UnknownDestination(pipe.to))
    } else if !source.kind.source() {
        Some(GraphError::InvalidSourceType(source.id))
    } else if !destination.kind.sink() {
        Some(GraphError::InvalidDestinationType(destination.id))
    } else if !pipe_channels_compatible(source.channels, destination.channels) {
        Some(
            GraphError::UnsupportedChannels {
                from: source.id,
                from_channels: source.channels,
                to: destination.id,
                to_channels: destination.channels,
            },
        )
    } else {
        None
    }
}

/// The first refused pipe.
pub open spec fn pipes_error(
    pipes: Seq<Pipe>,
    nodes: Map<Seq<char>, NodeDescriptor>,
) -> Option<GraphError> {
    first_some(|i: int| pipe_error(pipes, nodes, i), 0, pipes.len() as int)
}

/// The places of the enabled pipes.
pub open spec fn enabled_pipes(pipes: Seq<Pipe>) -> Seq<int> {
    kept(|i: int| pipes[i].enabled, pipes.len() as int)
}

/// The id that a pipe gets: its ends and its place.
pub open spec fn pipe_id(pipe: Pipe, place: int) -> Seq<char> {
    pipe.from@ + ":"@ + pipe.to@ + ":"@ + decimal(place as nat)
}

/// The connection of a pipe.
pub open spec fn pipe_edge(pipe: Pipe, place: int, d: PipeDescriptor) -> bool {
    &&& d.id@ == pipe_id(pipe, place)
    &&& d.from == pipe.from
    &&& d.to == pipe.to
    &&& d.gain_db == pipe.gain_db
    &&& d.mute == pipe.mute
    &&& d.pan == pipe.pan
    &&& d.delay_ms == pipe.delay_ms
}

/// The compiled form of a pipe between two nodes.
pub open spec fn pipe_compiled(
    pipe: Pipe,
    place: int,
    nodes: Map<Seq<char>, NodeDescriptor>,
    c: CompiledRoute,
) -> bool {
    &&& c.id@ == pipe_id(pipe, place)
    &&& c.from == pipe.from
    &&& c.to == pipe.to
    &&& c.source_channels == nodes[pipe.from@].channels
    &&& c.destination_channels == nodes[pipe.to@].channels
    &&& c.matrix_rows == nodes[pipe.to@].channels
    &&& c.matrix_cols == nodes[pipe.from@].channels
    &&& c.matrix@ == pipe_matrix(nodes[pipe.from@].channels, nodes[pipe.to@].channels)
    &&& c.gain_db == pipe.gain_db
    &&& c.mute == pipe.mute
    &&& c.pan == pipe.pan
    &&& c.delay_ms == pipe.delay_ms
    &&& c.chain is None
}

/// Connections and compiled routes follow the enabled pipes, place by place.
pub open spec fn pipes_compiled(
    pipes: Seq<Pipe>,
    nodes: Map<Seq<char>, NodeDescriptor>,
    n: int,
    edges: Seq<PipeDescriptor>,
    compiled: Seq<CompiledRoute>,
) -> bool {
    let places = kept(|i: int| pipes[i].enabled, n);
    &&& edges.len() == places.len()
    &&& compiled.len() == places.len()
    &&& forall|k: int|
        0 <= k < places.len() ==> pipe_edge(pipes[places[k]], places[k], #[trigger] edges[k])
    &&& forall|k: int|
        0 <= k < places.len() ==> pipe_compiled(
            pipes[places[k]],
            places[k],
            nodes,
            #[trigger] compiled[k],
        )
}

/// Whether a pipe can join these numbers of channels.
pub fn channels_compatible(source: u16, destination: u16) -> (r: bool)
    ensures
        r == pipe_channels_compatible(source, destination),
{
    source == destination || (source == 1 && destination == 2) || (source == 2 && destination == 1)
}

/// The matrix of a pipe between these numbers of channels.
pub fn legacy_pipe_matrix(source_channels: u16, destination_channels: u16) -> (r: Vec<Real32>)
    ensures
        r@ == pipe_matrix(source_channels, destination_channels),
{
    let mut matrix: Vec<Real32> = Vec::new();
    if source_channels == destination_channels {
        let ghost n = source_channels as int;
        let mut row: u16 = 0;
        while row < source_channels
            invariant
                row <= source_channels,
                n == source_channels,
                matrix@ =~= Seq::new(
                    (row * n) as nat,
                    |k: int|
                        if k / n == k % n {
                            Real32 { bits: ONE_BITS }
                        } else {
                            Real32 { bits: ZERO_BITS }
                        },
                ),
            decreases source_channels - row,
        {
            let mut col: u16 = 0;
            while col < source_channels
                invariant
                    row < source_channels,
                    col <= source_channels,
                    n == source_channels,
                    matrix@ =~= Seq::new(
                        (row * n + col) as nat,
                        |k: int|
                            if k / n == k % n {
                                Real32 { bits: ONE_BITS }
                            } else {
                                Real32 { bits: ZERO_BITS }
                            },
                    ),
                decreases source_channels - col,
            {
                proof {
                    vstd::arithmetic::div_mod::lemma_fundamental_div_mod_converse(
                        row * n + col,
                        n,
                        row as int,
                        col as int,
                    );
                    assert(row * n >= 0) by (nonlinear_arith)
                        requires
                            n >= 0,
                            row >= 0,
                    ;
                }
                if row == col {
                    matrix.push(Real32 { bits: ONE_BITS });
                } else {
                    matrix.push(Real32 { bits: ZERO_BITS });
                }
                col = col + 1;
            }
            assert((row + 1) * n == row * n + n) by (nonlinear_arith);
            row = row + 1;
        }
    } else if source_channels == 1 && destination_channels == 2 {
        matrix.push(Real32 { bits: ONE_BITS });
        matrix.push(Real32 { bits: ONE_BITS });
        assert(matrix@ =~= pipe_matrix(source_channels, destination_channels));
    } else if source_channels == 2 && destination_channels == 1 {
        matrix.push(Real32 { bits: HALF_BITS });
        matrix.push(Real32 { bits: HALF_BITS });
        assert(matrix@ =~= pipe_matrix(source_channels, destination_channels));
    }
    matrix
}

fn pipe_id_text(pipe: &Pipe, place: usize) -> (r: String)
    ensures
        r@ == pipe_id(*pipe, place as int),
{
    let mut id = String::from_str(pipe.from.as_str());
    id.append(":");
    id.append(pipe.to.as_str());
    id.append(":");
    id.append(decimal_text(place as u64).as_str());
    id
}

fn check_pipe(pipe: &Pipe, place: usize, nodes: &StringMap<NodeDescriptor>) -> (r: Result<
    CompiledRoute,
    GraphError,
>)
    requires
        pipe.enabled,
        nodes.wf(),
    ensures
        forall|pipes: Seq<Pipe>|
            0 <= place < pipes.len() && pipes[place as int] == *pipe ==> (match r {
                Ok(c) => (#[trigger] pipe_error(pipes, nodes@, place as int)) is None
                    && pipe_compiled(*pipe, place as int, nodes@, c),
                Err(e) => pipe_error(pipes, nodes@, place as int) == Some(e),
            }),
{
    if !is_delay_allowed(&pipe.delay_ms) {
        return Err(GraphError::InvalidDelay(pipe.delay_ms));
    }
    let source = match nodes.get(pipe.from.as_str()) {
        Some(node) => node,
        None => {
            return Err(GraphError::UnknownSource(pipe.from.clone()));
        },
    };
    let destination = match nodes.get(pipe.to.as_str()) {
        Some(node) => node,
        None => {
            return Err(GraphError::UnknownDestination(pipe.to.clone()));
        },
    };
    if !source.kind.is_source() {
        return Err(GraphError::InvalidSourceType(source.id.clone()));
    }
    if !destination.kind.is_sink() {
        return Err(GraphError::InvalidDestinationType(destination.id.clone()));
    }
    if !channels_compatible(source.channels, destination.channels) {
        return Err(
            GraphError::UnsupportedChannels {
                from: source.id.clone(),
                from_channels: source.channels,
                to: destination.id.clone(),
                to_channels: destination.channels,
            },
        );
    }
    Ok(
        CompiledRoute {
            id: pipe_id_text(pipe, place),
            from: pipe.from.clone(),
            to: pipe.to.clone(),
            source_channels: source.channels,
            destination_channels: destination.channels,
            matrix_rows: destination.channels,
            matrix_cols: source.channels,
            matrix: legacy_pipe_matrix(source.channels, destination.channels),
            gain_db: pipe.gain_db,
            mute: pipe.mute,
            pan: pipe.pan,
            delay_ms: pipe.delay_ms,
            chain: None,
        },
    )
}

fn compile_legacy_pipes(p: &Profile, nodes: &StringMap<NodeDescriptor>) -> (r: Result<
    (Vec<PipeDescriptor>, Vec<CompiledRoute>),
    GraphError,
>)
    requires
        nodes.wf(),
    ensures
        match r {
            Ok((edges, routes)) => pipes_error(p.pipes@, nodes@) is None && pipes_compiled(
                p.pipes@,
                nodes@,
                p.pipes@.len() as int,
                edges@,
                routes@,
            ),
            Err(e) => pipes_error(p.pipes@, nodes@) == Some(e),
        },
{
    let ghost f = |i: int| pipe_error(p.pipes@, nodes@, i);
    let mut edges: Vec<PipeDescriptor> = Vec::new();
    let mut routes: Vec<CompiledRoute> = Vec::new();
    let mut i: usize = 0;
    while i < p.pipes.len()
        invariant
            i <= p.pipes.len(),
            nodes.wf(),
            f == |i: int| pipe_error(p.pipes@, nodes@, i),
            first_some(f, 0, p.pipes@.len() as int) == first_some(
                f,
                i as int,
                p.pipes@.len() as int,
            ),
            pipes_compiled(p.pipes@, nodes@, i as int, edges@, routes@),
        decreases p.pipes.len() - i,
    {
        proof {
            assert(f(i as int) == pipe_error(p.pipes@, nodes@, i as int));
        }
        if p.pipes[i].enabled {
            let pipe = &p.pipes[i];
            match check_pipe(pipe, i, nodes) {
                Err(e) => {
                    return Err(e);
                },
                Ok(compiled) => {
                    edges.push(
                        PipeDescriptor {
                            id: compiled.id.clone(),
                            from: pipe.from.clone(),
                            to: pipe.to.clone(),
                            gain_db: pipe.gain_db,
                            mute: pipe.mute,
                            pan: pipe.pan,
                            delay_ms: pipe.delay_ms,
                        },
                    );
                    routes.push(compiled);
                },
            }
        }
        i = i + 1;
    }
    Ok((edges, routes))
}

// ---------------------------------------------------------------------------
// The graph

/// The connections as arrows between names.
pub open spec fn arrows_of(edges: Seq<PipeDescriptor>) -> Seq<Arrow> {
    Seq::new(edges.len(), |e: int| Arrow { from: edges[e].from@, to: edges[e].to@ })
}

fn compile_topological_order(
    nodes: &StringMap<NodeDescriptor>,
    edges: &Vec<PipeDescriptor>,
) -> (r: Result<Vec<String>, GraphError>)
    requires
        nodes.wf(),
        arrows_join(nodes.keys(), arrows_of(edges@)),
    ensures
        match r {
            Ok(order) => !has_cycle(arrows_of(edges@)) && smallest_first_order(
                nodes.keys(),
                arrows_of(edges@),
                views(order@),
            ),
            Err(e) => e == GraphError::CycleDetected && has_cycle(arrows_of(edges@)),
        },
{
    let ghost arrows = arrows_of(edges@);
    let mut links: Vec<(usize, usize)> = Vec::new();
    let mut e: usize = 0;
    while e < edges.len()
        invariant
            e <= edges.len(),
            nodes.wf(),
            arrows == arrows_of(edges@),
            arrows_join(nodes.keys(), arrows),
            places_match(nodes.keys(), arrows.take(e as int), links@),
        decreases edges.len() - e,
    {
        proof {
            assert(arrows[e as int].from == edges@[e as int].from@);
            assert(nodes.keys().contains(arrows[e as int].to));
        }
        let from = match nodes.find(edges[e].from.as_str()) {
            Some(i) => i,
            None => 0,
        };
        let to = match nodes.find(edges[e].to.as_str()) {
            Some(i) => i,
            None => 0,
        };
        links.push((from, to));
        e = e + 1;
    }
    assert(arrows.take(e as int) =~= arrows);
    match order_places(nodes.len(), &links, Ghost(nodes.keys()), Ghost(arrows)) {
        None => Err(GraphError::CycleDetected),
        Some(places) => {
            let mut order: Vec<String> = Vec::new();
            let mut k: usize = 0;
            while k < places.len()
                invariant
                    k <= places.len(),
                    places@.len() == nodes.keys().len(),
                    forall|j: int| 0 <= j < places@.len() ==> (#[trigger] places@[j]) < nodes.keys().len(),
                    order@.len() == k,
                    forall|j: int| 0 <= j < k ==> (#[trigger] order@[j])@ == nodes.keys()[places@[j] as int],
                decreases places.len() - k,
            {
                let place = places[k];
                order.push(nodes.key_at(place).clone());
                k = k + 1;
            }
            assert(views(order@) =~= Seq::new(
                places@.len(),
                |k: int| nodes.keys()[places@[k] as int],
            ));
            Ok(order)
        },
    }
}

/// A place of a node with the id.
pub open spec fn node_place(nodes: Seq<NodeDescriptor>, id: Seq<char>) -> int {
    choose|i: int| 0 <= i < nodes.len() && (#[trigger] nodes[i]).id@ == id
}

/// The nodes by their ids.
pub open spec fn node_map(nodes: Seq<NodeDescriptor>) -> Map<Seq<char>, NodeDescriptor> {
    Map::new(
        |k: Seq<char>| exists|i: int| 0 <= i < nodes.len() && (#[trigger] nodes[i]).id@ == k,
        |k: Seq<char>| nodes[node_place(nodes, k)],
    )
}

proof fn lemma_node_map(nodes: Seq<NodeDescriptor>, map: Map<Seq<char>, NodeDescriptor>)
    requires
        holds_nodes(map, nodes),
    ensures
        map == node_map(nodes),
{
    assert forall|k: Seq<char>| #[trigger] map.dom().contains(k) <==> node_map(
        nodes,
    ).dom().contains(k) by {
        if map.dom().contains(k) {
            let i = choose|i: int| 0 <= i < nodes.len() && nodes[i].id@ == k;
            assert(nodes[i].id@ == k);
        }
    }
    assert(map =~= node_map(nodes));
}

/// The arrows that a profile declares: its enabled routes, or without routes its pipes.
pub open spec fn declared_arrows(p: Profile) -> Seq<Arrow> {
    if p.routes@.len() == 0 {
        let places = enabled_pipes(p.pipes@);
        Seq::new(
            places.len(),
            |k: int| Arrow { from: p.pipes@[places[k]].from@, to: p.pipes@[places[k]].to@ },
        )
    } else {
        let places = enabled_routes(p.routes@);
        Seq::new(
            places.len(),
            |k: int| Arrow { from: p.routes@[places[k]].from@, to: p.routes@[places[k]].to@ },
        )
    }
}

/// The ids of the declared chains.
pub open spec fn chain_ids(p: Profile) -> Set<Seq<char>> {
    Set::new(
        |k: Seq<char>|
            chain_place(p.processor_chains@, k, p.processor_chains@.len() as int) is Some,
    )
}

/// Why a profile has no routing graph: the first refused node, else the first refused
/// chain, else the first refused route or pipe, else a cycle.
pub open spec fn graph_error(p: Profile) -> Option<GraphError> {
    let nodes = node_map(declared_nodes(p));
    let connection_error = if p.routes@.len() == 0 {
        pipes_error(p.pipes@, nodes)
    } else {
        routes_error(p.routes@, nodes, chain_ids(p))
    };
    if nodes_error(declared_nodes(p)) is Some {
        nodes_error(declared_nodes(p))
    } else if chains_error(p) is Some {
        chains_error(p)
    } else if connection_error is Some {
        connection_error
    } else if has_cycle(declared_arrows(p)) {
        Some(GraphError::CycleDetected)
    } else {
        None
    }
}

/// The graph of a profile.
pub open spec fn graph_of(p: Profile, g: RoutingGraph) -> bool {
    &&& g.nodes.wf()
    &&& g.nodes@ == node_map(declared_nodes(p))
    &&& g.processor_plan.chains.wf()
    &&& plan_compiled(p.processors@, p.processor_chains@, g.processor_plan.chains@)
    &&& if p.routes@.len() == 0 {
        pipes_compiled(
            p.pipes@,
            g.nodes@,
            p.pipes@.len() as int,
            g.edges@,
            g.route_plan.routes@,
        )
    } else {
        routes_compiled(
            p.routes@,
            g.nodes@,
            p.routes@.len() as int,
            g.edges@,
            g.route_plan.routes@,
        )
    }
    &&& arrows_of(g.edges@) == declared_arrows(p)
    &&& smallest_first_order(
        g.nodes.keys(),
        arrows_of(g.edges@),
        views(g.route_plan.topological_order@),
    )
}

proof fn lemma_pipes_join(
    p: Profile,
    nodes: StringMap<NodeDescriptor>,
    edges: Seq<PipeDescriptor>,
    routes: Seq<CompiledRoute>,
)
    requires
        nodes.wf(),
        pipes_error(p.pipes@, nodes@) is None,
        pipes_compiled(p.pipes@, nodes@, p.pipes@.len() as int, edges, routes),
    ensures
        arrows_join(nodes.keys(), arrows_of(edges)),
        p.routes@.len() == 0 ==> arrows_of(edges) == declared_arrows(p),
{
    let keep = |i: int| p.pipes@[i].enabled;
    let f = |i: int| pipe_error(p.pipes@, nodes@, i);
    let n = p.pipes@.len() as int;
    let places = kept(keep, n);
    lemma_kept(keep, n);
    lemma_first_some_none(f, 0, n);
    let arrows = arrows_of(edges);
    assert forall|e: int| 0 <= e < arrows.len() implies nodes.keys().contains(
        (#[trigger] arrows[e]).from,
    ) && nodes.keys().contains(arrows[e].to) by {
        let i = places[e];
        assert(pipe_edge(p.pipes@[i], i, edges[e]));
        assert(keep(i));
        assert(f(i) is None);
        assert(pipe_error(p.pipes@, nodes@, i) is None);
    }
    if p.routes@.len() == 0 {
        assert forall|e: int| 0 <= e < arrows.len() implies #[trigger] arrows[e]
            == declared_arrows(p)[e] by {
            assert(pipe_edge(p.pipes@[places[e]], places[e], edges[e]));
        }
        assert(arrows =~= declared_arrows(p));
    }
}

proof fn lemma_routes_join(
    p: Profile,
    nodes: StringMap<NodeDescriptor>,
    chains: Set<Seq<char>>,
    edges: Seq<PipeDescriptor>,
    routes: Seq<CompiledRoute>,
)
    requires
        nodes.wf(),
        routes_error(p.routes@, nodes@, chains) is None,
        routes_compiled(p.routes@, nodes@, p.routes@.len() as int, edges, routes),
    ensures
        arrows_join(nodes.keys(), arrows_of(edges)),
        p.routes@.len() != 0 ==> arrows_of(edges) == declared_arrows(p),
{
    let keep = |i: int| p.routes@[i].enabled;
    let f = |i: int| route_error(p.routes@, nodes@, chains, i);
    let n = p.routes@.len() as int;
    let places = kept(keep, n);
    lemma_kept(keep, n);
    lemma_first_some_none(f, 0, n);
    let arrows = arrows_of(edges);
    assert forall|e: int| 0 <= e < arrows.len() implies nodes.keys().contains(
        (#[trigger] arrows[e]).from,
    ) && nodes.keys().contains(arrows[e].to) by {
        let i = places[e];
        assert(edges[e] == route_edge(p.routes@[i]));
        assert(keep(i));
        assert(f(i) is None);
        assert(route_error(p.routes@, nodes@, chains, i) is None);
    }
    if p.routes@.len() != 0 {
        assert forall|e: int| 0 <= e < arrows.len() implies #[trigger] arrows[e]
            == declared_arrows(p)[e] by {
            assert(edges[e] == route_edge(p.routes@[places[e]]));
        }
        assert(arrows =~= declared_arrows(p));
    }
}

/// What holds of every routing graph.
pub open spec fn valid_graph(g: RoutingGraph) -> bool {
    &&& g.nodes.wf()
    &&& g.processor_plan.chains.wf()
    &&& forall|id: Seq<char>| #[trigger]
        g.nodes@.dom().contains(id) ==> 1 <= g.nodes@[id].channels <= 64 && g.nodes@[id].id@ == id
    &&& g.edges@.len() == g.route_plan.routes@.len()
    &&& forall|k: int| 0 <= k < g.edges@.len() ==> #[trigger] route_fits(g, k)
    &&& smallest_first_order(
        g.nodes.keys(),
        arrows_of(g.edges@),
        views(g.route_plan.topological_order@),
    )
}

/// The graph of a profile is a valid one.
pub proof fn law_graph_is_valid(p: Profile, g: RoutingGraph)
    requires
        graph_error(p) is None,
        graph_of(p, g),
    ensures
        valid_graph(g),
{
    assert forall|id: Seq<char>| #[trigger] g.nodes@.dom().contains(id) implies 1
        <= g.nodes@[id].channels <= 64 && g.nodes@[id].id@ == id by {
        law_node_channels(p, g, id);
    }
    assert forall|k: int| 0 <= k < g.edges@.len() implies #[trigger] route_fits(g, k) by {
        law_routes_fit(p, g, k);
    }
}

/// Builds the routing graph of a profile, or says why there is none.
pub fn build_routing_graph(profile: &Profile) -> (r: Result<RoutingGraph, GraphError>)
    ensures
        match r {
            Ok(g) => graph_error(*profile) is None && graph_of(*profile, g) && valid_graph(g),
            Err(e) => graph_error(*profile) == Some(e),
        },
{
    let declared = list_nodes(profile);
    let nodes = match collect_nodes(&declared) {
        Ok(nodes) => nodes,
        Err(e) => {
            return Err(e);
        },
    };
    proof {
        lemma_node_map(declared@, nodes@);
    }
    let processor_plan = match compile_processor_plan(profile) {
        Ok(plan) => plan,
        Err(e) => {
            return Err(e);
        },
    };
    assert(processor_plan.chains@.dom() =~= chain_ids(*profile));
    let compiled = if profile.routes.len() == 0 {
        compile_legacy_pipes(profile, &nodes)
    } else {
        compile_routes(profile, &nodes, &processor_plan)
    };
    let (edges, routes) = match compiled {
        Ok(pair) => pair,
        Err(e) => {
            return Err(e);
        },
    };
    proof {
        if profile.routes@.len() == 0 {
            lemma_pipes_join(*profile, nodes, edges@, routes@);
        } else {
            lemma_routes_join(*profile, nodes, chain_ids(*profile), edges@, routes@);
        }
    }
    let topological_order = match compile_topological_order(&nodes, &edges) {
        Ok(order) => order,
        Err(e) => {
            return Err(e);
        },
    };
    let graph = RoutingGraph {
        nodes,
        edges,
        route_plan: CompiledRoutePlan { topological_order, routes },
        processor_plan,
    };
    proof {
        law_graph_is_valid(*profile, graph);
    }
    Ok(graph)
}

/// The places of the connections that satisfy a condition.
pub open spec fn edge_places(edges: Seq<PipeDescriptor>, keep: spec_fn(PipeDescriptor) -> bool) -> Seq<
    int,
> {
    kept(|i: int| keep(edges[i]), edges.len() as int)
}

impl RoutingGraph {
    /// The ids of the nodes in the order in which they are processed.
    #[must_use]
    pub fn topological_order(&self) -> (r: Vec<String>)
        ensures
            views(r@) == views(self.route_plan.topological_order@),
    {
        let order = &self.route_plan.topological_order;
        let mut r: Vec<String> = Vec::new();
        let mut i: usize = 0;
        while i < order.len()
            invariant
                i <= order.len(),
                r@ =~= order@.take(i as int),
            decreases order.len() - i,
        {
            r.push(order[i].clone());
            i = i + 1;
        }
        assert(r@ =~= order@);
        r
    }

    /// The routes and their order.
    #[must_use]
    pub fn compiled_route_plan(&self) -> (r: &CompiledRoutePlan)
        ensures
            *r == self.route_plan,
    {
        &self.route_plan
    }

    /// The processor chains.
    #[must_use]
    pub fn processor_plan(&self) -> (r: &CompiledProcessorPlan)
        ensures
            *r == self.processor_plan,
    {
        &self.processor_plan
    }

    /// The connections that lead from a node, in their order.
    pub fn outgoing(&self, id: &str) -> (r: Vec<PipeDescriptor>)
        ensures
            r@ == edge_places(self.edges@, |edge: PipeDescriptor| edge.from@ == id@).map_values(
                |i: int| self.edges@[i],
            ),
    {
        let ghost keep = |edge: PipeDescriptor| edge.from@ == id@;
        let ghost keep_at = |i: int| keep(self.edges@[i]);
        let mut r: Vec<PipeDescriptor> = Vec::new();
        let mut i: usize = 0;
        while i < self.edges.len()
            invariant
                i <= self.edges.len(),
                keep == |edge: PipeDescriptor| edge.from@ == id@,
                keep_at == |i: int| keep(self.edges@[i]),
                r@ == kept(keep_at, i as int).map_values(|i: int| self.edges@[i]),
            decreases self.edges.len() - i,
        {
            if str_equal(self.edges[i].from.as_str(), id) {
                r.push(self.edges[i].clone());
            }
            assert(r@ =~= kept(keep_at, i + 1).map_values(|i: int| self.edges@[i]));
            i = i + 1;
        }
        r
    }

    /// The connections that lead to a node, in their order.
    pub fn incoming(&self, id: &str) -> (r: Vec<PipeDescriptor>)
        ensures
            r@ == edge_places(self.edges@, |edge: PipeDescriptor| edge.to@ == id@).map_values(
                |i: int| self.edges@[i],
            ),
    {
        let ghost keep = |edge: PipeDescriptor| edge.to@ == id@;
        let ghost keep_at = |i: int| keep(self.edges@[i]);
        let mut r: Vec<PipeDescriptor> = Vec::new();
        let mut i: usize = 0;
        while i < self.edges.len()
            invariant
                i <= self.edges.len(),
                keep == |edge: PipeDescriptor| edge.to@ == id@,
                keep_at == |i: int| keep(self.edges@[i]),
                r@ == kept(keep_at, i as int).map_values(|i: int| self.edges@[i]),
            decreases self.edges.len() - i,
        {
            if str_equal(self.edges[i].to.as_str(), id) {
                r.push(self.edges[i].clone());
            }
            assert(r@ =~= kept(keep_at, i + 1).map_values(|i: int| self.edges@[i]));
            i = i + 1;
        }
        r
    }
}

// ---------------------------------------------------------------------------
// Laws of the graph

/// Every node of a graph has from one to sixty-four channels and stands under its own id.
pub proof fn law_node_channels(p: Profile, g: RoutingGraph, id: Seq<char>)
    requires
        graph_error(p) is None,
        graph_of(p, g),
        g.nodes@.dom().contains(id),
    ensures
        1 <= g.nodes@[id].channels <= 64,
        g.nodes@[id].id@ == id,
{
    let nodes = declared_nodes(p);
    let f = |i: int| node_error(nodes, i);
    let i = node_place(nodes, id);
    lemma_first_some_none(f, 0, nodes.len() as int);
    assert(f(i) is None);
    assert(g.nodes@[id] == nodes[i]);
}

/// What holds of a compiled route and its connection in a graph.
pub open spec fn route_fits(g: RoutingGraph, k: int) -> bool {
    let route = g.route_plan.routes@[k];
    let edge = g.edges@[k];
    &&& edge.id@ == route.id@ && edge.from@ == route.from@ && edge.to@ == route.to@
    &&& edge.delay_ms == route.delay_ms && edge.gain_db == route.gain_db
    &&& edge.mute == route.mute && edge.pan == route.pan
    &&& g.nodes@.dom().contains(route.from@) && g.nodes@.dom().contains(route.to@)
    &&& g.nodes@[route.from@].kind.source() && g.nodes@[route.to@].kind.sink()
    &&& route.source_channels == g.nodes@[route.from@].channels
    &&& route.destination_channels == g.nodes@[route.to@].channels
    &&& route.matrix_rows == route.destination_channels
    &&& route.matrix_cols == route.source_channels
    &&& route.matrix@.len() == route.matrix_rows * route.matrix_cols
    &&& forall|i: int| 0 <= i < route.matrix@.len() ==> (#[trigger] route.matrix@[i]).finite()
    &&& delay_allowed(route.delay_ms)
    &&& route.chain matches Some(chain) ==> g.processor_plan.chains@.dom().contains(chain@)
}

/// In a graph every connection has its compiled route: it joins a source to a sink, its
/// matrix is finite and has a row for each destination channel and a column for each
/// source channel, its delay is allowed, and its chain is in the processor plan.
pub proof fn law_routes_fit(p: Profile, g: RoutingGraph, k: int)
    requires
        graph_error(p) is None,
        graph_of(p, g),
        0 <= k < g.edges@.len(),
    ensures
        g.edges@.len() == g.route_plan.routes@.len(),
        route_fits(g, k),
{
    let route = g.route_plan.routes@[k];
    if p.routes@.len() == 0 {
        let keep = |i: int| p.pipes@[i].enabled;
        let f = |i: int| pipe_error(p.pipes@, g.nodes@, i);
        let n = p.pipes@.len() as int;
        let i = kept(keep, n)[k];
        lemma_kept(keep, n);
        lemma_first_some_none(f, 0, n);
        assert(f(i) is None);
        assert(keep(i));
        assert(pipe_edge(p.pipes@[i], i, g.edges@[k]));
        assert(pipe_compiled(p.pipes@[i], i, g.nodes@, route));
        let channels = route.source_channels as int;
        assert(channels * channels >= 0) by (nonlinear_arith);
    } else {
        let keep = |i: int| p.routes@[i].enabled;
        let f = |i: int| route_error(p.routes@, g.nodes@, chain_ids(p), i);
        let n = p.routes@.len() as int;
        let i = kept(keep, n)[k];
        lemma_kept(keep, n);
        lemma_first_some_none(f, 0, n);
        assert(f(i) is None);
        assert(keep(i));
        let declared = p.routes@[i];
        assert(g.edges@[k] == route_edge(declared));
        assert(route_compiled(declared, g.nodes@, route));
        let rows = declared.matrix.rows as int;
        let cols = declared.matrix.cols as int;
        let row_f = |row: int| row_error(declared, row);
        lemma_first_some_none(row_f, 0, declared.matrix.coefficients@.len() as int);
        assert(rows * cols >= 0) by (nonlinear_arith)
            requires
                rows >= 0,
                cols >= 0,
        ;
        assert forall|m: int| 0 <= m < route.matrix@.len() implies (
        #[trigger] route.matrix@[m]).finite() by {
            let row = m / cols;
            let col = m % cols;
            assert(0 <= row < rows && 0 <= col < cols) by (nonlinear_arith)
                requires
                    0 <= m < rows * cols,
                    cols > 0,
                    row == m / cols,
                    col == m % cols,
            ;
            assert(row_f(row) is None);
            let col_f = |c: int|
                if !declared.matrix.coefficients@[row]@[c].finite() {
                    Some(
                        GraphError::NonFiniteRouteMatrixCoefficient {
                            route_id: declared.id,
                            row: row as usize,
                            col: c as usize,
                            value: declared.matrix.coefficients@[row]@[c],
                        },
                    )
                } else {
                    None
                };
            assert(row_error(declared, row) == first_some(col_f, 0, cols));
            lemma_first_some_none(col_f, 0, cols);
            assert(col_f(col) is None);
        }
    }
}

/// No two routes of a graph have the same id, where the profile declares routes.
pub proof fn law_route_ids_distinct(p: Profile, g: RoutingGraph, j: int, k: int)
    requires
        graph_error(p) is None,
        graph_of(p, g),
        p.routes@.len() != 0,
        0 <= j < k < g.route_plan.routes@.len(),
    ensures
        g.route_plan.routes@[j].id@ != g.route_plan.routes@[k].id@,
{
    let keep = |i: int| p.routes@[i].enabled;
    let f = |i: int| route_error(p.routes@, g.nodes@, chain_ids(p), i);
    let n = p.routes@.len() as int;
    let places = kept(keep, n);
    lemma_kept(keep, n);
    lemma_first_some_none(f, 0, n);
    assert(f(places[k]) is None);
    assert(keep(places[j]) && keep(places[k]));
    assert(route_compiled(p.routes@[places[j]], g.nodes@, g.route_plan.routes@[j]));
    assert(route_compiled(p.routes@[places[k]], g.nodes@, g.route_plan.routes@[k]));
    assert(p.routes@[places[j]].enabled);
}

/// Every connection of a graph leads forward in the order of its nodes.
pub proof fn law_connections_lead_forward(p: Profile, g: RoutingGraph, k: int, a: int, b: int)
    requires
        graph_error(p) is None,
        graph_of(p, g),
        0 <= k < g.edges@.len(),
        0 <= a < g.route_plan.topological_order@.len(),
        0 <= b < g.route_plan.topological_order@.len(),
        g.route_plan.topological_order@[a]@ == g.edges@[k].from@,
        g.route_plan.topological_order@[b]@ == g.edges@[k].to@,
    ensures
        a < b,
{
    let arrows = arrows_of(g.edges@);
    let order = views(g.route_plan.topological_order@);
    assert(arrows[k].from == order[a] && arrows[k].to == order[b]);
    lemma_order_forward(g.nodes.keys(), arrows, order, a, b);
}

/// The order of a graph holds every node exactly once.
pub proof fn law_order_is_arrangement(p: Profile, g: RoutingGraph, id: Seq<char>)
    requires
        graph_error(p) is None,
        graph_of(p, g),
    ensures
        g.nodes@.dom().contains(id) <==> views(g.route_plan.topological_order@).contains(id),
        g.route_plan.topological_order@.len() == g.nodes.keys().len(),
        forall|a: int, b: int|
            0 <= a < b < g.route_plan.topological_order@.len() ==> (
            #[trigger] g.route_plan.topological_order@[a])@ != (
            #[trigger] g.route_plan.topological_order@[b])@,
{
    let order = views(g.route_plan.topological_order@);
    lemma_order_complete(g.nodes.keys(), arrows_of(g.edges@), order, id);
    assert forall|a: int, b: int| 0 <= a < b < g.route_plan.topological_order@.len() implies (
    #[trigger] g.route_plan.topological_order@[a])@ != (
    #[trigger] g.route_plan.topological_order@[b])@ by {
        if order[a] == order[b] {
            lemma_order_distinct(g.nodes.keys(), arrows_of(g.edges@), order, a, b);
        }
    }
}

/// A profile whose connections form a cycle has no graph.
pub proof fn law_cycles_are_refused(p: Profile)
    requires
        has_cycle(declared_arrows(p)),
    ensures
        graph_error(p) is Some,
{
}

/// Whether a profile declares an enabled connection from one node to another: a route, or
/// without routes a pipe.
pub open spec fn connects(p: Profile, from: Seq<char>, to: Seq<char>) -> bool {
    if p.routes@.len() == 0 {
        exists|i: int|
            0 <= i < p.pipes@.len() && (#[trigger] p.pipes@[i]).enabled && p.pipes@[i].from@ == from
                && p.pipes@[i].to@ == to
    } else {
        exists|i: int|
            0 <= i < p.routes@.len() && (#[trigger] p.routes@[i]).enabled && p.routes@[i].from@
                == from && p.routes@[i].to@ == to
    }
}

/// A graph connects what enabled pipes or routes connect, and nothing else.
pub proof fn law_only_enabled(p: Profile, g: RoutingGraph, from: Seq<char>, to: Seq<char>)
    requires
        graph_error(p) is None,
        graph_of(p, g),
    ensures
        connects(p, from, to) <==> exists|k: int|
            0 <= k < g.edges@.len() && (#[trigger] g.edges@[k]).from@ == from && g.edges@[k].to@
                == to,
{
    let arrows = declared_arrows(p);
    assert(arrows_of(g.edges@) == arrows);
    if p.routes@.len() == 0 {
        lemma_kept(|i: int| p.pipes@[i].enabled, p.pipes@.len() as int);
    } else {
        lemma_kept(|i: int| p.routes@[i].enabled, p.routes@.len() as int);
    }
    if connects(p, from, to) {
        let i = if p.routes@.len() == 0 {
            choose|i: int|
                0 <= i < p.pipes@.len() && (#[trigger] p.pipes@[i]).enabled && p.pipes@[i].from@
                    == from && p.pipes@[i].to@ == to
        } else {
            choose|i: int|
                0 <= i < p.routes@.len() && (#[trigger] p.routes@[i]).enabled && p.routes@[i].from@
                    == from && p.routes@[i].to@ == to
        };
        let places = if p.routes@.len() == 0 {
            enabled_pipes(p.pipes@)
        } else {
            enabled_routes(p.routes@)
        };
        assert(places.contains(i));
        let k = places.index_of(i);
        assert(arrows[k] == Arrow { from, to });
        assert(arrows_of(g.edges@)[k].from == g.edges@[k].from@);
    }
    if exists|k: int|
        0 <= k < g.edges@.len() && (#[trigger] g.edges@[k]).from@ == from && g.edges@[k].to@ == to {
        let k = choose|k: int|
            0 <= k < g.edges@.len() && (#[trigger] g.edges@[k]).from@ == from && g.edges@[k].to@
                == to;
        assert(arrows_of(g.edges@)[k] == Arrow { from, to });
        if p.routes@.len() == 0 {
            let i = enabled_pipes(p.pipes@)[k];
            assert(p.pipes@[i].enabled);
        } else {
            let i = enabled_routes(p.routes@)[k];
            assert(p.routes@[i].enabled);
        }
    }
}

// ---------------------------------------------------------------------------
// What does not matter

/// The routes that are enabled, in their order.
pub open spec fn enabled_only(routes: Seq<Route>) -> Seq<Route> {
    enabled_routes(routes).map_values(|i: int| routes[i])
}

proof fn lemma_first_some_last<E>(f: spec_fn(int) -> Option<E>, i: int, n: int)
    requires
        i <= n,
    ensures
        first_some(f, i, n + 1) == (match first_some(f, i, n) {
            Some(e) => Some(e),
            None => f(n),
        }),
    decreases n - i,
{
    if i < n {
        lemma_first_some_last(f, i + 1, n);
    } else {
        assert(first_some(f, n + 1, n + 1) is None);
    }
}

proof fn lemma_kept_all(keep: spec_fn(int) -> bool, n: int)
    requires
        0 <= n,
        forall|k: int| 0 <= k < n ==> #[trigger] keep(k),
    ensures
        kept(keep, n) == Seq::new(n as nat, |k: int| k),
    decreases n,
{
    if n > 0 {
        assert(keep(n - 1));
        lemma_kept_all(keep, n - 1);
    }
    assert(kept(keep, n) =~= Seq::new(n as nat, |k: int| k));
}

/// The errors of a list of routes and of one with another route behind it.
proof fn lemma_routes_error_push(
    routes: Seq<Route>,
    route: Route,
    nodes: Map<Seq<char>, NodeDescriptor>,
    chains: Set<Seq<char>>,
)
    ensures
        routes_error(routes.push(route), nodes, chains) == (match routes_error(
            routes,
            nodes,
            chains,
        ) {
            Some(e) => Some(e),
            None => route_error(routes.push(route), nodes, chains, routes.len() as int),
        }),
{
    let n = routes.len() as int;
    let longer = routes.push(route);
    let f = |i: int| route_error(longer, nodes, chains, i);
    let g = |i: int| route_error(routes, nodes, chains, i);
    assert forall|k: int| 0 <= k < n implies #[trigger] f(k) == g(k) by {
        assert(longer[k] == routes[k]);
        assert((exists|j: int|
            0 <= j < k && (#[trigger] longer[j]).enabled && longer[j].id@ == longer[k].id@) <==> (
        exists|j: int|
            0 <= j < k && (#[trigger] routes[j]).enabled && routes[j].id@ == routes[k].id@)) by {
            if exists|j: int|
                0 <= j < k && (#[trigger] longer[j]).enabled && longer[j].id@ == longer[k].id@ {
                let j = choose|j: int|
                    0 <= j < k && (#[trigger] longer[j]).enabled && longer[j].id@ == longer[k].id@;
                assert(routes[j] == longer[j]);
            }
            if exists|j: int|
                0 <= j < k && (#[trigger] routes[j]).enabled && routes[j].id@ == routes[k].id@ {
                let j = choose|j: int|
                    0 <= j < k && (#[trigger] routes[j]).enabled && routes[j].id@ == routes[k].id@;
                assert(routes[j] == longer[j]);
            }
        }
    }
    lemma_first_some_same(f, g, 0, n);
    lemma_first_some_last(f, 0, n);
}

proof fn lemma_enabled_only_push(routes: Seq<Route>, route: Route)
    ensures
        enabled_only(routes.push(route)) == if route.enabled {
            enabled_only(routes).push(route)
        } else {
            enabled_only(routes)
        },
{
    let n = routes.len() as int;
    let longer = routes.push(route);
    let a = |i: int| longer[i].enabled;
    let b = |i: int| routes[i].enabled;
    lemma_kept_same(a, b, n);
    lemma_kept(b, n);
    assert(a(n) == route.enabled);
    if route.enabled {
        assert(enabled_only(longer) =~= enabled_only(routes).push(route));
    } else {
        assert(enabled_only(longer) =~= enabled_only(routes));
    }
}

proof fn lemma_enabled_only(routes: Seq<Route>)
    ensures
        forall|k: int|
            0 <= k < enabled_only(routes).len() ==> (#[trigger] enabled_only(routes)[k]).enabled
                && routes.contains(enabled_only(routes)[k]),
        forall|j: int|
            0 <= j < routes.len() && (#[trigger] routes[j]).enabled ==> enabled_only(
                routes,
            ).contains(routes[j]),
{
    let keep = |i: int| routes[i].enabled;
    let places = enabled_routes(routes);
    lemma_kept(keep, routes.len() as int);
    assert forall|k: int| 0 <= k < enabled_only(routes).len() implies (#[trigger] enabled_only(
        routes,
    )[k]).enabled && routes.contains(enabled_only(routes)[k]) by {
        assert(keep(places[k]));
        assert(routes[places[k]] == enabled_only(routes)[k]);
    }
    assert forall|j: int| 0 <= j < routes.len() && (#[trigger] routes[j]).enabled implies enabled_only(
        routes,
    ).contains(routes[j]) by {
        assert(keep(j));
        assert(places.contains(j));
        let k = places.index_of(j);
        assert(enabled_only(routes)[k] == routes[j]);
    }
}

proof fn lemma_disabled_routes_err_nothing(
    routes: Seq<Route>,
    nodes: Map<Seq<char>, NodeDescriptor>,
    chains: Set<Seq<char>>,
)
    ensures
        routes_error(enabled_only(routes), nodes, chains) == routes_error(routes, nodes, chains),
    decreases routes.len(),
{
    if routes.len() == 0 {
        assert(enabled_only(routes) =~= routes);
    } else {
        let shorter = routes.drop_last();
        let route = routes.last();
        assert(routes =~= shorter.push(route));
        lemma_disabled_routes_err_nothing(shorter, nodes, chains);
        lemma_routes_error_push(shorter, route, nodes, chains);
        lemma_enabled_only_push(shorter, route);
        if route.enabled {
            let few = enabled_only(shorter);
            lemma_routes_error_push(few, route, nodes, chains);
            lemma_enabled_only(shorter);
            let n = shorter.len() as int;
            let m = few.len() as int;
            if exists|j: int|
                0 <= j < n && (#[trigger] routes[j]).enabled && routes[j].id@ == route.id@ {
                let j = choose|j: int|
                    0 <= j < n && (#[trigger] routes[j]).enabled && routes[j].id@ == route.id@;
                assert(shorter[j] == routes[j]);
                let k = few.index_of(routes[j]);
                assert(few.push(route)[k] == routes[j]);
            }
            if exists|k: int|
                0 <= k < m && (#[trigger] few.push(route)[k]).enabled && few.push(route)[k].id@
                    == route.id@ {
                let k = choose|k: int|
                    0 <= k < m && (#[trigger] few.push(route)[k]).enabled && few.push(route)[k].id@
                        == route.id@;
                assert(few.push(route)[k] == few[k]);
                let j = shorter.index_of(few[k]);
                assert(routes[j] == few[k]);
            }
            assert(route_error(few.push(route), nodes, chains, m) == route_error(
                routes,
                nodes,
                chains,
                n,
            ));
        }
    }
}

/// A disabled route does not matter, however it is made: without the disabled routes the same
/// route is refused, for the same reason, or the same is compiled.
pub proof fn law_disabled_routes_do_not_matter(
    routes: Seq<Route>,
    nodes: Map<Seq<char>, NodeDescriptor>,
    chains: Set<Seq<char>>,
    edges: Seq<PipeDescriptor>,
    compiled: Seq<CompiledRoute>,
)
    ensures
        routes_error(enabled_only(routes), nodes, chains) == routes_error(routes, nodes, chains),
        routes_compiled(
            enabled_only(routes),
            nodes,
            enabled_only(routes).len() as int,
            edges,
            compiled,
        ) <==> routes_compiled(routes, nodes, routes.len() as int, edges, compiled),
{
    lemma_disabled_routes_err_nothing(routes, nodes, chains);
    lemma_enabled_only(routes);
    let few = enabled_only(routes);
    let places = enabled_routes(routes);
    lemma_kept_all(|i: int| few[i].enabled, few.len() as int);
    assert forall|k: int| 0 <= k < places.len() implies #[trigger] few[k] == routes[places[k]] by {}
    if routes_compiled(few, nodes, few.len() as int, edges, compiled) {
        assert forall|k: int| 0 <= k < places.len() implies (#[trigger] edges[k]) == route_edge(
            routes[places[k]],
        ) by {
            assert(few[k] == routes[places[k]]);
        }
        assert forall|k: int| 0 <= k < places.len() implies route_compiled(
            routes[places[k]],
            nodes,
            #[trigger] compiled[k],
        ) by {
            assert(few[k] == routes[places[k]]);
        }
    }
    if routes_compiled(routes, nodes, routes.len() as int, edges, compiled) {
        assert forall|k: int| 0 <= k < few.len() implies (#[trigger] edges[k]) == route_edge(
            few[k],
        ) by {
            assert(few[k] == routes[places[k]]);
        }
        assert forall|k: int| 0 <= k < few.len() implies route_compiled(
            few[k],
            nodes,
            #[trigger] compiled[k],
        ) by {
            assert(few[k] == routes[places[k]]);
        }
    }
}

/// Routes are compiled to one result.
pub proof fn law_compiled_routes_are_determined(
    routes: Seq<Route>,
    nodes: Map<Seq<char>, NodeDescriptor>,
    edges: Seq<PipeDescriptor>,
    compiled: Seq<CompiledRoute>,
    other_edges: Seq<PipeDescriptor>,
    other_compiled: Seq<CompiledRoute>,
)
    requires
        routes_compiled(routes, nodes, routes.len() as int, edges, compiled),
        routes_compiled(routes, nodes, routes.len() as int, other_edges, other_compiled),
    ensures
        edges == other_edges,
        compiled.len() == other_compiled.len(),
        forall|k: int|
            0 <= k < compiled.len() ==> same_but_id(#[trigger] compiled[k], other_compiled[k])
                && compiled[k].id == other_compiled[k].id && compiled[k].chain
                == other_compiled[k].chain,
{
    assert forall|k: int| 0 <= k < edges.len() implies edges[k] == other_edges[k] by {}
    assert(edges =~= other_edges);
    let places = enabled_routes(routes);
    assert forall|k: int| 0 <= k < compiled.len() implies same_but_id(
        #[trigger] compiled[k],
        other_compiled[k],
    ) && compiled[k].id == other_compiled[k].id && compiled[k].chain == other_compiled[k].chain by {
        assert(route_compiled(routes[places[k]], nodes, compiled[k]));
        assert(route_compiled(routes[places[k]], nodes, other_compiled[k]));
    }
}

/// A profile and the profile without its disabled routes have the same graph, or none for the
/// same reason. A profile without any route is left out: it is connected by its pipes.
pub proof fn law_graph_is_that_of_the_enabled_routes(p: Profile, q: Profile, g: RoutingGraph)
    requires
        q == (Profile { routes: q.routes, ..p }),
        q.routes@ == enabled_only(p.routes@),
        q.routes@.len() > 0,
    ensures
        graph_error(q) == graph_error(p),
        graph_of(q, g) <==> graph_of(p, g),
{
    let routes = p.routes@;
    let few = q.routes@;
    lemma_enabled_only(routes);
    law_disabled_routes_do_not_matter(
        routes,
        node_map(declared_nodes(p)),
        chain_ids(p),
        g.edges@,
        g.route_plan.routes@,
    );
    let places = enabled_routes(routes);
    lemma_kept(|i: int| routes[i].enabled, routes.len() as int);
    lemma_kept_all(|i: int| few[i].enabled, few.len() as int);
    assert(enabled_routes(few).len() == few.len());
    assert forall|k: int| 0 <= k < few.len() implies declared_arrows(q)[k] == declared_arrows(p)[k] by {
        assert(few[k] == routes[places[k]]);
        assert(enabled_routes(few)[k] == k);
    }
    assert(declared_arrows(q) =~= declared_arrows(p));
    assert(routes.len() > 0);
    assert(declared_nodes(q) == declared_nodes(p));
    assert(chain_ids(q) == chain_ids(p));
    assert(chains_error(q) == chains_error(p));
}

/// Whether a matrix hands every channel on as it is.
pub open spec fn is_identity(m: RouteMatrix, channels: u16) -> bool {
    &&& m.rows == channels
    &&& m.cols == channels
    &&& shape_holds(m)
    &&& forall|row: int, column: int|
        0 <= row < channels && 0 <= column < channels
            ==> (#[trigger] m.coefficients@[row]@[column]).bits == if row == column {
            ONE_BITS
        } else {
            ZERO_BITS
        }
}

/// Whether two compiled routes are the same but for their ids.
pub open spec fn same_but_id(a: CompiledRoute, b: CompiledRoute) -> bool {
    &&& a.from@ == b.from@
    &&& a.to@ == b.to@
    &&& a.source_channels == b.source_channels
    &&& a.destination_channels == b.destination_channels
    &&& a.matrix_rows == b.matrix_rows
    &&& a.matrix_cols == b.matrix_cols
    &&& a.matrix@ == b.matrix@
    &&& a.gain_db == b.gain_db
    &&& a.mute == b.mute
    &&& a.pan == b.pan
    &&& a.delay_ms == b.delay_ms
}

/// A pipe between nodes of like channels is compiled to what a route with the identity matrix
/// and the same settings is compiled to.
pub proof fn law_identity_route_is_a_pipe(
    pipe: Pipe,
    place: int,
    route: Route,
    nodes: Map<Seq<char>, NodeDescriptor>,
    piped: CompiledRoute,
    routed: CompiledRoute,
)
    requires
        pipe.from@ == route.from@,
        pipe.to@ == route.to@,
        pipe.gain_db == route.gain_db,
        pipe.mute == route.mute,
        pipe.pan == route.pan,
        pipe.delay_ms == route.delay_ms,
        route.chain is None,
        nodes[route.from@].channels == nodes[route.to@].channels,
        is_identity(route.matrix, nodes[route.from@].channels),
        pipe_compiled(pipe, place, nodes, piped),
        route_compiled(route, nodes, routed),
    ensures
        same_but_id(piped, routed),
        piped.chain is None,
        routed.chain is None,
{
    let n = nodes[route.from@].channels as int;
    assert forall|k: int| 0 <= k < n * n implies piped.matrix@[k] == #[trigger] routed.matrix@[k] by {
        assert(0 <= k / n < n && 0 <= k % n < n) by (nonlinear_arith)
            requires
                0 <= k < n * n,
                n >= 0,
        ;
        assert(route.matrix.coefficients@[k / n]@[k % n].bits == if k / n == k % n {
            ONE_BITS
        } else {
            ZERO_BITS
        });
    }
    assert(piped.matrix@ =~= routed.matrix@);
}

} // verus!
