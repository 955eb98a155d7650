//! One buffer after another through the graph.

use crate::delay::{delayed, held, DelayLine};
use crate::engine::{
    accumulate, accumulated, apply_gain, apply_pan, finish_sink, gained, matrix_mix_into,
    matrix_mixed, panned, silence, sink_finished, EngineError, SampleMath,
};
use crate::graph::{arrows_of, route_fits, valid_graph, CompiledRoute, RoutingGraph};
use crate::number::{clamp_pan, clamped_pan, Real32};
use crate::processors::{
    route_ran, schedule_of, shifts_fit, ProcessorControl, ProcessorSchedule, ScheduleContext,
    ScheduledProcessor, ShiftFrames,
};
use crate::render_loop::capped_product;
use crate::sequences::{first_some, joined, kept, lemma_kept, lemma_kept_same, lemma_views_push, views};
use crate::string_map::StringMap;
use crate::topology::{connected, lemma_order_complete, lemma_order_distinct, lemma_order_forward};
use vstd::prelude::*;

verus! {

broadcast use lemma_views_push;

/// A route while audio runs.
#[derive(Debug)]
pub struct RouteRuntime {
    pub id: String,
    pub from: String,
    pub to: String,
    pub source_channels: usize,
    pub destination_channels: usize,
    pub matrix: Vec<Real32>,
    pub gain_db: Real32,
    pub mute: bool,
    pub pan: Real32,
    pub delay_line: DelayLine,
}

/// The runtime form of a compiled route, apart from its delay.
pub open spec fn runtime_of(r: RouteRuntime, c: CompiledRoute) -> bool {
    &&& r.id == c.id
    &&& r.from == c.from
    &&& r.to == c.to
    &&& r.source_channels == c.source_channels
    &&& r.destination_channels == c.destination_channels
    &&& r.matrix@ == c.matrix@
    &&& r.gain_db == c.gain_db
    &&& r.mute == c.mute
    &&& r.pan == c.pan
}

// ---------------------------------------------------------------------------
// The order of routes

/// Whether the route at a place leads from a node.
pub open spec fn leads_from(routes: Seq<CompiledRoute>, id: Seq<char>) -> spec_fn(int) -> bool {
    |k: int| routes[k].from@ == id
}

/// The places of the routes that lead from a node.
pub open spec fn routes_from(routes: Seq<CompiledRoute>, id: Seq<char>) -> Seq<int> {
    kept(leads_from(routes, id), routes.len() as int)
}

/// The places of the routes in the order in which they are rendered: node by node in the
/// order of the graph.
pub open spec fn route_order(routes: Seq<CompiledRoute>, order: Seq<Seq<char>>, n: int) -> Seq<int> {
    joined(|i: int| routes_from(routes, order[i]), n)
}

/// The places of a list of machine numbers.
pub open spec fn as_places(list: Seq<usize>) -> Seq<int> {
    Seq::new(list.len(), |i: int| list[i] as int)
}

fn list_route_order(graph: &RoutingGraph) -> (r: Vec<usize>)
    ensures
        as_places(r@) == route_order(
            graph.route_plan.routes@,
            views(graph.route_plan.topological_order@),
            graph.route_plan.topological_order@.len() as int,
        ),
{
    let routes = &graph.route_plan.routes;
    let order = &graph.route_plan.topological_order;
    let ghost names = views(order@);
    let mut list: Vec<usize> = Vec::new();
    assert(as_places(list@) =~= route_order(routes@, names, 0));
    let mut i: usize = 0;
    while i < order.len()
        invariant
            i <= order.len(),
            names == views(order@),
            as_places(list@) == route_order(routes@, names, i as int),
        decreases order.len() - i,
    {
        let id = &order[i];
        let ghost before = as_places(list@);
        let ghost leads = leads_from(routes@, id@);
        assert(before =~= before + kept(leads, 0));
        let mut k: usize = 0;
        while k < routes.len()
            invariant
                k <= routes.len(),
                leads == leads_from(routes@, id@),
                as_places(list@) == before + kept(leads, k as int),
            decreases routes.len() - k,
        {
            let ghost prior = as_places(list@);
            if routes[k].from == *id {
                list.push(k);
                assert(as_places(list@) =~= prior.push(k as int));
            }
            assert(as_places(list@) =~= before + kept(leads, k + 1));
            k = k + 1;
        }
        assert(names[i as int] == id@);
        i = i + 1;
    }
    list
}

proof fn lemma_route_order_member(
    routes: Seq<CompiledRoute>,
    order: Seq<Seq<char>>,
    n: int,
    k: int,
)
    requires
        0 <= n <= order.len(),
        0 <= k < routes.len(),
    ensures
        route_order(routes, order, n).contains(k) <==> (exists|i: int|
            0 <= i < n && #[trigger] order[i] == routes[k].from@),
    decreases n,
{
    if n > 0 {
        lemma_route_order_member(routes, order, n - 1, k);
        let rest = route_order(routes, order, n - 1);
        let here = routes_from(routes, order[n - 1]);
        let all = route_order(routes, order, n);
        assert(all == rest + here);
        let leads = leads_from(routes, order[n - 1]);
        lemma_kept(leads, routes.len() as int);
        if rest.contains(k) {
            let p = rest.index_of(k);
            assert(all[p] == k);
        }
        if routes[k].from@ == order[n - 1] {
            assert(leads(k));
            assert(here.contains(k));
            let p = here.index_of(k);
            assert(all[rest.len() + p] == k);
        }
        if all.contains(k) {
            let p = all.index_of(k);
            if p < rest.len() {
                assert(rest[p] == k);
                assert(rest.contains(k));
                let i = choose|i: int| 0 <= i < n - 1 && #[trigger] order[i] == routes[k].from@;
                assert(order[i] == routes[k].from@);
            } else {
                assert(here[p - rest.len()] == k);
                assert(leads(k));
                assert(order[n - 1] == routes[k].from@);
            }
        }
    }
}

proof fn lemma_routes_from_same(
    routes: Seq<CompiledRoute>,
    those: Seq<CompiledRoute>,
    id: Seq<char>,
)
    requires
        routes.len() == those.len(),
        forall|k: int| 0 <= k < routes.len() ==> (#[trigger] routes[k]).from@ == those[k].from@,
    ensures
        routes_from(routes, id) == routes_from(those, id),
{
    let f = leads_from(routes, id);
    let g = leads_from(those, id);
    assert forall|k: int| 0 <= k < routes.len() implies #[trigger] f(k) == g(k) by {
        assert(routes[k].from@ == those[k].from@);
    }
    lemma_kept_same(f, g, routes.len() as int);
}

/// The order of rendering depends on where routes come from and on the order of nodes alone.
pub proof fn lemma_route_order_same(
    a: Seq<CompiledRoute>,
    b: Seq<CompiledRoute>,
    order: Seq<Seq<char>>,
    n: int,
)
    requires
        a.len() == b.len(),
        forall|k: int| 0 <= k < a.len() ==> (#[trigger] a[k]).from@ == b[k].from@,
        n <= order.len(),
    ensures
        route_order(a, order, n) == route_order(b, order, n),
    decreases n,
{
    if n > 0 {
        lemma_route_order_same(a, b, order, n - 1);
        lemma_routes_from_same(a, b, order[n - 1]);
    }
}

/// In the order of rendering a place belongs to a node; the places of a later node stand
/// behind.
pub proof fn lemma_route_order_place(
    routes: Seq<CompiledRoute>,
    order: Seq<Seq<char>>,
    n: int,
    p: int,
) -> (i: int)
    requires
        0 <= n <= order.len(),
        0 <= p < route_order(routes, order, n).len(),
    ensures
        0 <= i < n,
        0 <= route_order(routes, order, n)[p] < routes.len(),
        order[i] == routes[route_order(routes, order, n)[p]].from@,
        route_order(routes, order, i).len() <= p < route_order(routes, order, i + 1).len(),
    decreases n,
{
    let rest = route_order(routes, order, n - 1);
    let here = routes_from(routes, order[n - 1]);
    let leads = leads_from(routes, order[n - 1]);
    lemma_kept(leads, routes.len() as int);
    if n == 0 {
        0
    } else if p < rest.len() {
        let i = lemma_route_order_place(routes, order, n - 1, p);
        assert(route_order(routes, order, n)[p] == rest[p]);
        i
    } else {
        assert(route_order(routes, order, n)[p] == here[p - rest.len()]);
        assert(leads(here[p - rest.len()]));
        n - 1
    }
}

proof fn lemma_route_order_grows(
    routes: Seq<CompiledRoute>,
    order: Seq<Seq<char>>,
    a: int,
    b: int,
)
    requires
        0 <= a <= b,
    ensures
        route_order(routes, order, a).len() <= route_order(routes, order, b).len(),
    decreases b,
{
    if a < b {
        lemma_route_order_grows(routes, order, a, b - 1);
    }
}

/// Every route is rendered, and whatever leads to a node is rendered before anything that
/// leads from it: audio is complete before it is passed on.
pub proof fn law_routes_in_dependency_order(g: RoutingGraph, p: int, q: int)
    requires
        valid_graph(g),
        0 <= p < route_order(
            g.route_plan.routes@,
            views(g.route_plan.topological_order@),
            g.route_plan.topological_order@.len() as int,
        ).len(),
        0 <= q < route_order(
            g.route_plan.routes@,
            views(g.route_plan.topological_order@),
            g.route_plan.topological_order@.len() as int,
        ).len(),
        ({
            let all = route_order(
                g.route_plan.routes@,
                views(g.route_plan.topological_order@),
                g.route_plan.topological_order@.len() as int,
            );
            g.route_plan.routes@[all[p]].to@ == g.route_plan.routes@[all[q]].from@
        }),
    ensures
        p < q,
{
    let routes = g.route_plan.routes@;
    let order = views(g.route_plan.topological_order@);
    let n = order.len() as int;
    let all = route_order(routes, order, n);
    let i = lemma_route_order_place(routes, order, n, p);
    let j = lemma_route_order_place(routes, order, n, q);
    let arrows = arrows_of(g.edges@);
    assert(route_fits(g, all[p]));
    assert(arrows[all[p]].from == order[i]);
    assert(arrows[all[p]].to == order[j]);
    assert(connected(arrows, order[i], order[j]));
    lemma_order_forward(g.nodes.keys(), arrows, order, i, j);
    lemma_route_order_grows(routes, order, i + 1, j);
}

/// Every route of a graph has a place in the order of rendering.
pub proof fn law_every_route_is_rendered(g: RoutingGraph, k: int)
    requires
        valid_graph(g),
        0 <= k < g.route_plan.routes@.len(),
    ensures
        route_order(
            g.route_plan.routes@,
            views(g.route_plan.topological_order@),
            g.route_plan.topological_order@.len() as int,
        ).contains(k),
{
    let routes = g.route_plan.routes@;
    let order = views(g.route_plan.topological_order@);
    assert(route_fits(g, k));
    let id = routes[k].from@;
    lemma_order_complete(g.nodes.keys(), arrows_of(g.edges@), order, id);
    assert(g.nodes.has(id));
    assert(order.contains(id));
    let i = order.index_of(id);
    assert(order[i] == id);
    lemma_route_order_member(routes, order, order.len() as int, k);
}

/// No route is rendered twice in one buffer.
pub proof fn law_no_route_is_rendered_twice(g: RoutingGraph, p: int, q: int)
    requires
        valid_graph(g),
        0 <= p < q < route_order(
            g.route_plan.routes@,
            views(g.route_plan.topological_order@),
            g.route_plan.topological_order@.len() as int,
        ).len(),
    ensures
        route_order(
            g.route_plan.routes@,
            views(g.route_plan.topological_order@),
            g.route_plan.topological_order@.len() as int,
        )[p] != route_order(
            g.route_plan.routes@,
            views(g.route_plan.topological_order@),
            g.route_plan.topological_order@.len() as int,
        )[q],
{
    let routes = g.route_plan.routes@;
    let order = views(g.route_plan.topological_order@);
    let n = order.len() as int;
    let all = route_order(routes, order, n);
    let i = lemma_route_order_place(routes, order, n, p);
    let j = lemma_route_order_place(routes, order, n, q);
    if all[p] == all[q] {
        lemma_order_distinct(g.nodes.keys(), arrows_of(g.edges@), order, i, j);
        let start = route_order(routes, order, i);
        let here = routes_from(routes, order[i]);
        lemma_kept(leads_from(routes, order[i]), routes.len() as int);
        lemma_route_order_prefix(routes, order, i + 1, n, p);
        lemma_route_order_prefix(routes, order, i + 1, n, q);
        assert(route_order(routes, order, i + 1) == start + here);
        assert(all[p] == here[p - start.len()]);
        assert(all[q] == here[q - start.len()]);
    }
}

proof fn lemma_route_order_prefix(
    routes: Seq<CompiledRoute>,
    order: Seq<Seq<char>>,
    a: int,
    b: int,
    p: int,
)
    requires
        0 <= a <= b,
        0 <= p < route_order(routes, order, a).len(),
    ensures
        p < route_order(routes, order, b).len(),
        route_order(routes, order, b)[p] == route_order(routes, order, a)[p],
    decreases b,
{
    if a < b {
        lemma_route_order_prefix(routes, order, a, b - 1, p);
    }
}

// ---------------------------------------------------------------------------
// The state between buffers

/// What the engine carries from one buffer to the next.
#[derive(Debug)]
pub struct EngineState {
    pub routes: Vec<RouteRuntime>,
    /// The places of the routes in the order in which they are rendered.
    pub order: Vec<usize>,
    /// The ids of the nodes that audio can be sent to, in their order.
    pub sink_nodes: Vec<String>,
    /// For each of them, how many routes lead to it.
    pub sink_contributions: Vec<usize>,
    pub node_buffers: StringMap<Vec<u32>>,
    /// The processors of the routes.
    pub schedule: ProcessorSchedule,
}

/// The places of the nodes that audio can be sent to.
pub open spec fn sink_places(g: RoutingGraph) -> Seq<int> {
    kept(|i: int| g.nodes.values()[i].kind.sink(), g.nodes.values().len() as int)
}

/// How many of the first `n` routes lead to a node.
pub open spec fn routes_into(routes: Seq<CompiledRoute>, id: Seq<char>, n: int) -> nat {
    kept(|k: int| routes[k].to@ == id, n).len()
}

impl EngineState {
    /// The state belongs to the graph.
    pub open spec fn fits(self, g: RoutingGraph) -> bool {
        let routes = g.route_plan.routes@;
        let sinks = sink_places(g);
        &&& self.routes@.len() == routes.len()
        &&& forall|k: int| 0 <= k < routes.len() ==> runtime_of(#[trigger] self.routes@[k], routes[k])
        &&& forall|k: int| 0 <= k < routes.len() ==> (#[trigger] self.routes@[k]).delay_line.wf()
        &&& as_places(self.order@) == route_order(
            routes,
            views(g.route_plan.topological_order@),
            g.route_plan.topological_order@.len() as int,
        )
        &&& self.sink_nodes@.len() == sinks.len()
        &&& self.sink_contributions@.len() == sinks.len()
        &&& forall|i: int|
            0 <= i < sinks.len() ==> (#[trigger] self.sink_nodes@[i])@ == g.nodes.keys()[sinks[i]]
        &&& forall|i: int|
            0 <= i < sinks.len() ==> #[trigger] self.sink_contributions@[i] == routes_into(
                routes,
                g.nodes.keys()[sinks[i]],
                routes.len() as int,
            )
        &&& self.node_buffers.wf()
        &&& self.node_buffers.keys() == g.nodes.keys()
        &&& self.schedule.wf()
    }
}

fn make_route(c: &CompiledRoute, delay_frames: usize) -> (r: RouteRuntime)
    ensures
        runtime_of(r, *c),
        r.delay_line.wf(),
        r.delay_line.pending() == silence(
            capped_product(delay_frames as int, c.destination_channels as int),
        ),
{
    let mut matrix: Vec<Real32> = Vec::new();
    let mut i: usize = 0;
    while i < c.matrix.len()
        invariant
            i <= c.matrix.len(),
            matrix@ =~= c.matrix@.take(i as int),
        decreases c.matrix.len() - i,
    {
        matrix.push(c.matrix[i]);
        i = i + 1;
    }
    assert(matrix@ =~= c.matrix@);
    RouteRuntime {
        id: c.id.clone(),
        from: c.from.clone(),
        to: c.to.clone(),
        source_channels: c.source_channels as usize,
        destination_channels: c.destination_channels as usize,
        matrix,
        gain_db: c.gain_db,
        mute: c.mute,
        pan: c.pan,
        delay_line: DelayLine::new(delay_frames, c.destination_channels as usize),
    }
}

fn count_routes_into(routes: &Vec<CompiledRoute>, id: &String) -> (r: usize)
    ensures
        r == routes_into(routes@, id@, routes@.len() as int),
{
    let ghost leads = |k: int| routes@[k].to@ == id@;
    let mut count: usize = 0;
    let mut k: usize = 0;
    while k < routes.len()
        invariant
            k <= routes.len(),
            leads == |k: int| routes@[k].to@ == id@,
            count == kept(leads, k as int).len(),
            count <= k,
        decreases routes.len() - k,
    {
        if routes[k].to == *id {
            count = count + 1;
        }
        k = k + 1;
    }
    count
}

impl EngineState {
    /// The state before the first buffer: all delays hold silence, all buffers are empty.
    /// The delay of each route, and how far each processor shifts, is given in frames.
    pub fn from_snapshot(
        graph: &RoutingGraph,
        sample_rate: u32,
        buffer_frames: u32,
        delay_frames: &Vec<usize>,
        shifts: &StringMap<ShiftFrames>,
    ) -> (r: EngineState)
        requires
            valid_graph(*graph),
            delay_frames@.len() == graph.route_plan.routes@.len(),
            shifts.wf(),
            shifts_fit(shifts@),
        ensures
            r.fits(*graph),
            forall|k: int|
                0 <= k < r.routes@.len() ==> (#[trigger] r.routes@[k]).delay_line.pending()
                    == silence(
                    capped_product(
                        delay_frames@[k] as int,
                        graph.route_plan.routes@[k].destination_channels as int,
                    ),
                ),
            forall|i: int|
                0 <= i < r.node_buffers.values().len() ==> (
                #[trigger] r.node_buffers.values()[i])@.len() == 0,
            schedule_of(
                *graph,
                ScheduleContext { sample_rate, buffer_frames, shifts: shifts@ },
                r.schedule.route_chains@,
                graph.route_plan.routes@.len() as int,
            ),
    {
        let compiled = &graph.route_plan.routes;
        let mut routes: Vec<RouteRuntime> = Vec::new();
        let mut k: usize = 0;
        while k < compiled.len()
            invariant
                k <= compiled.len(),
                delay_frames@.len() == compiled@.len(),
                routes@.len() == k,
                forall|j: int| 0 <= j < k ==> runtime_of(#[trigger] routes@[j], compiled@[j]),
                forall|j: int| 0 <= j < k ==> (#[trigger] routes@[j]).delay_line.wf(),
                forall|j: int|
                    0 <= j < k ==> (#[trigger] routes@[j]).delay_line.pending() == silence(
                        capped_product(
                            delay_frames@[j] as int,
                            compiled@[j].destination_channels as int,
                        ),
                    ),
            decreases compiled.len() - k,
        {
            routes.push(make_route(&compiled[k], delay_frames[k]));
            k = k + 1;
        }
        let order = list_route_order(graph);
        let ghost is_sink = |i: int| graph.nodes.values()[i].kind.sink();
        let mut sink_nodes: Vec<String> = Vec::new();
        let mut sink_contributions: Vec<usize> = Vec::new();
        let mut node_buffers: StringMap<Vec<u32>> = StringMap::new();
        let mut i: usize = 0;
        proof {
            assert(node_buffers.keys().to_set() =~= graph.nodes.keys().take(0).to_set());
        }
        while i < graph.nodes.len()
            invariant
                i <= graph.nodes.keys().len(),
                graph.nodes.wf(),
                compiled == &graph.route_plan.routes,
                is_sink == |i: int| graph.nodes.values()[i].kind.sink(),
                sink_nodes@.len() == kept(is_sink, i as int).len(),
                sink_contributions@.len() == kept(is_sink, i as int).len(),
                forall|j: int|
                    0 <= j < sink_nodes@.len() ==> (#[trigger] sink_nodes@[j])@
                        == graph.nodes.keys()[kept(is_sink, i as int)[j]],
                forall|j: int|
                    0 <= j < sink_contributions@.len() ==> #[trigger] sink_contributions@[j]
                        == routes_into(
                        compiled@,
                        graph.nodes.keys()[kept(is_sink, i as int)[j]],
                        compiled@.len() as int,
                    ),
                node_buffers.wf(),
                node_buffers.keys().to_set() == graph.nodes.keys().take(i as int).to_set(),
                forall|j: int|
                    0 <= j < node_buffers.values().len() ==> (
                    #[trigger] node_buffers.values()[j])@.len() == 0,
            decreases graph.nodes.keys().len() - i,
        {
            let id = graph.nodes.key_at(i);
            if graph.nodes.value_at(i).kind.is_sink() {
                sink_contributions.push(count_routes_into(compiled, id));
                sink_nodes.push(id.clone());
            }
            let ghost before = node_buffers;
            let empty: Vec<u32> = Vec::new();
            node_buffers.insert(id.clone(), empty);
            proof {
                let keys = graph.nodes.keys();
                before.lemma_keys_ordered();
                node_buffers.lemma_keys_ordered();
                assert(keys.take(i + 1) =~= keys.take(i as int).push(keys[i as int]));
                assert forall|x: Seq<char>| node_buffers.keys().to_set().contains(x) <==> keys.take(
                    i + 1,
                ).to_set().contains(x) by {
                    if keys.take(i as int).to_set().contains(x) {
                        let p = keys.take(i as int).index_of(x);
                        assert(keys.take(i + 1)[p] == x);
                    }
                    assert(keys.take(i + 1)[i as int] == id@);
                    if keys.take(i + 1).contains(x) && x != id@ {
                        let p = keys.take(i + 1).index_of(x);
                        assert(keys.take(i as int)[p] == x);
                        assert(keys.take(i as int).to_set().contains(x));
                    }
                }
                assert(node_buffers.keys().to_set() =~= keys.take(i + 1).to_set());
                assert forall|j: int| 0 <= j < node_buffers.values().len() implies (
                #[trigger] node_buffers.values()[j])@.len() == 0 by {
                    let x = node_buffers.keys()[j];
                    node_buffers.lemma_entry(j);
                    if x != id@ {
                        assert(before@.dom().contains(x));
                        let p = before.keys().index_of(x);
                        before.lemma_entry(p);
                    }
                }
            }
            i = i + 1;
        }
        proof {
            assert(graph.nodes.keys().take(i as int) =~= graph.nodes.keys());
            crate::string_map::lemma_increasing_unique(node_buffers.keys(), graph.nodes.keys());
        }
        let schedule = ProcessorSchedule::from_snapshot(graph, sample_rate, buffer_frames, shifts);
        EngineState { routes, order, sink_nodes, sink_contributions, node_buffers, schedule }
    }
}

// ---------------------------------------------------------------------------
// One buffer

/// The audio at all nodes, what all delays hold, and the processors of all chains.
pub struct RenderState {
    pub buffers: Seq<Seq<u32>>,
    pub pending: Seq<Seq<u32>>,
    pub chains: Seq<Vec<ScheduledProcessor>>,
}

/// What does not change while a buffer is rendered: the graph, the routes that have chains,
/// and the controls of the processors.
pub struct RenderContext {
    pub graph: RoutingGraph,
    pub chain_ids: Seq<Seq<char>>,
    pub controls: Map<Seq<char>, ProcessorControl>,
}

/// The place of a node in the order of ids.
pub open spec fn node_index(g: RoutingGraph, id: Seq<char>) -> int {
    g.nodes.keys().index_of(id)
}

/// A route through its stages: mixed by its matrix, through its processors, then gain, pan
/// and delay, and added to where it leads.
pub open spec fn route_stages<M: SampleMath>(
    math: &M,
    c: RenderContext,
    r: int,
    frames: usize,
    a: RenderState,
    b: RenderState,
    mixed: Seq<u32>,
    processed: Seq<u32>,
    louder: Seq<u32>,
    placed: Seq<u32>,
    total: Seq<u32>,
) -> bool {
    let g = c.graph;
    let route = g.route_plan.routes@[r];
    let from = node_index(g, route.from@);
    let to = node_index(g, route.to@);
    &&& matrix_mixed(
        math,
        a.buffers[from],
        route.source_channels as int,
        route.destination_channels as int,
        frames as int,
        route.matrix@,
        mixed,
    )
    &&& route_ran(
        math,
        c.chain_ids,
        c.controls,
        route.id@,
        route.destination_channels as usize,
        frames,
        a.chains,
        b.chains,
        mixed,
        processed,
    )
    &&& gained(math, processed, route.gain_db, route.mute, louder)
    &&& panned(
        math,
        louder,
        route.destination_channels as int,
        clamped_pan(route.pan),
        placed,
    )
    &&& accumulated(math, a.buffers[to], delayed(a.pending[r], placed), total)
    &&& b.buffers == a.buffers.update(to, total)
    &&& b.pending == a.pending.update(r, held(a.pending[r], placed))
}

/// What rendering a route does.
pub open spec fn route_rendered<M: SampleMath>(
    math: &M,
    c: RenderContext,
    r: int,
    frames: usize,
    a: RenderState,
    b: RenderState,
) -> bool {
    exists|
        mixed: Seq<u32>,
        processed: Seq<u32>,
        louder: Seq<u32>,
        placed: Seq<u32>,
        total: Seq<u32>,
    |
        route_stages(math, c, r, frames, a, b, mixed, processed, louder, placed, total)
}

/// What rendering the first `n` routes of an order does, one after another.
pub open spec fn routes_rendered<M: SampleMath>(
    math: &M,
    c: RenderContext,
    order: Seq<int>,
    n: int,
    frames: usize,
    start: RenderState,
    end: RenderState,
) -> bool
    decreases n,
{
    if n <= 0 {
        end == start
    } else {
        exists|middle: RenderState| #[trigger]
            route_rendered(math, c, order[n - 1], frames, middle, end) && routes_rendered(
                math,
                c,
                order,
                n - 1,
                frames,
                start,
                middle,
            )
    }
}

/// A buffer made ready: silenced where it has its length, else cut or lengthened with
/// silence.
pub open spec fn made_ready(buffer: Seq<u32>, len: int) -> Seq<u32> {
    if buffer.len() == len {
        silence(len)
    } else {
        Seq::new(
            len as nat,
            |i: int|
                if i < buffer.len() {
                    buffer[i]
                } else {
                    0u32
                },
        )
    }
}

/// A buffer with samples laid over its start.
pub open spec fn overlaid(buffer: Seq<u32>, samples: Seq<u32>) -> Seq<u32> {
    Seq::new(
        buffer.len(),
        |i: int|
            if i < samples.len() {
                samples[i]
            } else {
                buffer[i]
            },
    )
}

/// Whether samples come in whole frames.
pub open spec fn aligned(samples: Seq<u32>, channels: u16) -> bool {
    if channels == 0 {
        samples.len() == 0
    } else {
        samples.len() % (channels as nat) == 0
    }
}

/// The first source, by ids, that belongs to a node and does not come in whole frames.
pub open spec fn source_error(g: RoutingGraph, sources: StringMap<Vec<u32>>) -> Option<EngineError> {
    first_some(
        |i: int|
            {
                let id = sources.keys()[i];
                if g.nodes.has(id) && !aligned(sources.values()[i]@, g.nodes.at(id).channels) {
                    Some(
                        EngineError::InvalidSourceSampleCount {
                            id: g.nodes.at(id).id,
                            channels: g.nodes.at(id).channels,
                        },
                    )
                } else {
                    None
                }
            },
        0,
        sources.keys().len() as int,
    )
}

/// The buffers at the start: made ready, with the sources laid over those of their nodes.
pub open spec fn start_buffers(
    g: RoutingGraph,
    buffers: Seq<Seq<u32>>,
    sources: StringMap<Vec<u32>>,
    frames: usize,
) -> Seq<Seq<u32>> {
    Seq::new(
        buffers.len(),
        |i: int|
            {
                let ready = made_ready(buffers[i], frames * g.nodes.values()[i].channels);
                let id = g.nodes.keys()[i];
                if sources.has(id) {
                    overlaid(ready, sources.at(id)@)
                } else {
                    ready
                }
            },
    )
}

/// What all delays hold.
pub open spec fn pendings(routes: Seq<RouteRuntime>) -> Seq<Seq<u32>> {
    Seq::new(routes.len(), |k: int| routes[k].delay_line.pending())
}

impl EngineState {
    /// The audio at all nodes, what all delays hold, and the processors of all chains.
    pub open spec fn audio(self) -> RenderState {
        RenderState {
            buffers: views(self.node_buffers.values()),
            pending: pendings(self.routes@),
            chains: self.schedule.route_chains.values(),
        }
    }

    /// What does not change while a buffer is rendered.
    pub open spec fn context(
        self,
        graph: RoutingGraph,
        controls: Map<Seq<char>, ProcessorControl>,
    ) -> RenderContext {
        RenderContext { graph, chain_ids: self.schedule.route_chains.keys(), controls }
    }

    fn prepare_node_buffers(&mut self, graph: &RoutingGraph, frames: usize)
        requires
            valid_graph(*graph),
            old(self).fits(*graph),
            frames * 64 <= usize::MAX,
        ensures
            final(self).fits(*graph),
            final(self).schedule == old(self).schedule,
            final(self).audio().pending == old(self).audio().pending,
            final(self).audio().buffers == Seq::new(
                graph.nodes.keys().len(),
                |i: int|
                    made_ready(
                        old(self).audio().buffers[i],
                        frames * graph.nodes.values()[i].channels,
                    ),
            ),
    {
        let ghost start = *self;
        let ghost n = graph.nodes.keys().len();
        let ghost wanted = |i: int|
            made_ready(
                start.audio().buffers[i],
                frames * graph.nodes.values()[i].channels,
            );
        let mut i: usize = 0;
        while i < graph.nodes.len()
            invariant
                valid_graph(*graph),
                start.fits(*graph),
                self.fits(*graph),
                n == graph.nodes.keys().len(),
                i <= n,
                frames * 64 <= usize::MAX,
                wanted == |i: int|
                    made_ready(
                        start.audio().buffers[i],
                        frames * graph.nodes.values()[i].channels,
                    ),
                self.routes == start.routes,
                self.schedule == start.schedule,
                forall|k: int| 0 <= k < i ==> (#[trigger] self.node_buffers.values()[k])@ == wanted(k),
                forall|k: int|
                    i <= k < n ==> (#[trigger] self.node_buffers.values()[k])@
                        == start.audio().buffers[k],
            decreases n - i,
        {
            let channels = graph.nodes.value_at(i).channels as usize;
            proof {
                graph.nodes.lemma_entry(i as int);
                assert(frames * channels <= frames * 64 && frames * channels >= 0)
                    by (nonlinear_arith)
                    requires
                        frames >= 0,
                        0 <= channels <= 64,
                ;
            }
            let len = frames * channels;
            let buffer = self.node_buffers.value_mut(i);
            let ghost before = buffer@;
            if buffer.len() == len {
                buffer.clear();
                buffer.resize(len, 0);
            } else {
                buffer.resize(len, 0);
            }
            assert(buffer@ =~= made_ready(before, len as int)) by {
                if before.len() != len {
                    if len > before.len() {
                        assert(buffer@.subrange(0, before.len() as int) == before);
                        assert forall|k: int| 0 <= k < before.len() implies buffer@[k]
                            == before[k] by {
                            assert(buffer@.subrange(0, before.len() as int)[k] == buffer@[k]);
                        }
                    }
                }
            }
            i = i + 1;
        }
        proof {
            assert(self.audio().buffers =~= Seq::new(n, |i: int| wanted(i)));
            assert(self.audio().buffers =~= Seq::new(
                graph.nodes.keys().len(),
                |i: int|
                    made_ready(
                        start.audio().buffers[i],
                        frames * graph.nodes.values()[i].channels,
                    ),
            ));
        }
    }
}

/// The state before the first route of a buffer.
pub open spec fn start_state(
    g: RoutingGraph,
    audio: RenderState,
    sources: StringMap<Vec<u32>>,
    frames: usize,
) -> RenderState {
    RenderState {
        buffers: start_buffers(g, audio.buffers, sources, frames),
        pending: audio.pending,
        chains: audio.chains,
    }
}

/// What is left at the nodes: at the sinks what came out there, elsewhere what was rendered.
pub open spec fn left_at_nodes(
    g: RoutingGraph,
    end: Seq<Seq<u32>>,
    out: Seq<SinkBuffer>,
    left: Seq<Seq<u32>>,
) -> bool {
    let sinks = sink_places(g);
    &&& left.len() == end.len()
    &&& forall|k: int| 0 <= k < sinks.len() ==> left[#[trigger] sinks[k]] == out[k].samples@
    &&& forall|i: int|
        0 <= i < left.len() && !sinks.contains(i) ==> #[trigger] left[i] == end[i]
}

/// All routes rendered in order, then the sinks finished; the delays hold what they then
/// hold, the processors have counted, and the audio stays at the nodes.
pub open spec fn cycle_rendered<M: SampleMath>(
    math: &M,
    c: RenderContext,
    order: Seq<int>,
    frames: usize,
    start: RenderState,
    out: Seq<SinkBuffer>,
    after: RenderState,
) -> bool {
    exists|end: RenderState|
        {
            &&& #[trigger] routes_rendered(
                math,
                c,
                order,
                order.len() as int,
                frames,
                start,
                end,
            )
            &&& sinks_given(math, c.graph, end, out, sink_places(c.graph).len() as int)
            &&& after.pending == end.pending
            &&& after.chains == end.chains
            &&& left_at_nodes(c.graph, end.buffers, out, after.buffers)
        }
}

fn is_aligned(len: usize, channels: u16) -> (r: bool)
    ensures
        forall|samples: Seq<u32>| samples.len() == len ==> r == #[trigger] aligned(samples, channels),
{
    if channels == 0 {
        len == 0
    } else {
        len % (channels as usize) == 0
    }
}

fn overlay(buffer: &mut Vec<u32>, samples: &Vec<u32>)
    ensures
        final(buffer)@ == overlaid(old(buffer)@, samples@),
{
    let ghost before = buffer@;
    let n = if buffer.len() < samples.len() {
        buffer.len()
    } else {
        samples.len()
    };
    let mut i: usize = 0;
    while i < n
        invariant
            i <= n,
            n <= samples.len(),
            n <= buffer.len(),
            n == samples@.len() || n == before.len(),
            buffer@.len() == before.len(),
            forall|k: int|
                0 <= k < buffer@.len() ==> buffer@[k] == if k < i {
                    samples@[k]
                } else {
                    before[k]
                },
        decreases n - i,
    {
        buffer.set(i, samples[i]);
        i = i + 1;
    }
    assert(buffer@ =~= overlaid(before, samples@));
}

/// The buffers with the first `n` sources laid over those of their nodes.
spec fn partly_loaded(
    g: RoutingGraph,
    buffers: Seq<Seq<u32>>,
    sources: StringMap<Vec<u32>>,
    n: int,
) -> Seq<Seq<u32>> {
    Seq::new(
        buffers.len(),
        |i: int|
            {
                let id = g.nodes.keys()[i];
                if sources.has(id) && sources.keys().index_of(id) < n {
                    overlaid(buffers[i], sources.at(id)@)
                } else {
                    buffers[i]
                }
            },
    )
}

/// A sink and its audio.
#[derive(Debug)]
pub struct SinkBuffer {
    pub id: String,
    pub samples: Vec<u32>,
}

/// What comes out at the sinks, in their order.
pub open spec fn sinks_given<M: SampleMath>(
    math: &M,
    g: RoutingGraph,
    end: RenderState,
    out: Seq<SinkBuffer>,
    n: int,
) -> bool {
    let sinks = sink_places(g);
    &&& out.len() == n
    &&& forall|i: int|
        0 <= i < n ==> {
            let place = sinks[i];
            &&& (#[trigger] out[i]).id@ == g.nodes.keys()[place]
            &&& sink_finished(
                math,
                g.nodes.values()[place].mix,
                routes_into(
                    g.route_plan.routes@,
                    g.nodes.keys()[place],
                    g.route_plan.routes@.len() as int,
                ) as usize,
                end.buffers[place],
                out[i].samples@,
            )
        }
}

impl EngineState {
    fn load_sources(&mut self, graph: &RoutingGraph, sources: &StringMap<Vec<u32>>) -> (r: Result<
        (),
        EngineError,
    >)
        requires
            valid_graph(*graph),
            old(self).fits(*graph),
            sources.wf(),
        ensures
            final(self).fits(*graph),
            final(self).schedule == old(self).schedule,
            final(self).audio().pending == old(self).audio().pending,
            match r {
                Ok(()) => source_error(*graph, *sources) is None && final(self).audio().buffers
                    == partly_loaded(
                    *graph,
                    old(self).audio().buffers,
                    *sources,
                    sources.keys().len() as int,
                ),
                Err(e) => source_error(*graph, *sources) == Some(e),
            },
    {
        let ghost start = *self;
        let ghost base = start.audio().buffers;
        let ghost f = |i: int|
            {
                let id = sources.keys()[i];
                if graph.nodes.has(id) && !aligned(
                    sources.values()[i]@,
                    graph.nodes.at(id).channels,
                ) {
                    Some(
                        EngineError::InvalidSourceSampleCount {
                            id: graph.nodes.at(id).id,
                            channels: graph.nodes.at(id).channels,
                        },
                    )
                } else {
                    None
                }
            };
        let mut i: usize = 0;
        assert(self.audio().buffers =~= partly_loaded(*graph, base, *sources, 0));
        while i < sources.len()
            invariant
                valid_graph(*graph),
                self.fits(*graph),
                start.fits(*graph),
                sources.wf(),
                i <= sources.keys().len(),
                base == start.audio().buffers,
                start == *old(self),
                self.routes == start.routes,
                self.schedule == start.schedule,
                f == |i: int|
                    {
                        let id = sources.keys()[i];
                        if graph.nodes.has(id) && !aligned(
                            sources.values()[i]@,
                            graph.nodes.at(id).channels,
                        ) {
                            Some(
                                EngineError::InvalidSourceSampleCount {
                                    id: graph.nodes.at(id).id,
                                    channels: graph.nodes.at(id).channels,
                                },
                            )
                        } else {
                            None
                        }
                    },
                first_some(f, 0, sources.keys().len() as int) == first_some(
                    f,
                    i as int,
                    sources.keys().len() as int,
                ),
                self.audio().buffers == partly_loaded(*graph, base, *sources, i as int),
            decreases sources.keys().len() - i,
        {
            let id = sources.key_at(i);
            let samples = sources.value_at(i);
            proof {
                sources.lemma_entry(i as int);
            }
            match graph.nodes.find(id.as_str()) {
                None => {
                    proof {
                        assert(f(i as int) is None);
                        assert forall|j: int| 0 <= j < base.len() implies #[trigger] partly_loaded(
                            *graph,
                            base,
                            *sources,
                            i as int,
                        )[j] == partly_loaded(*graph, base, *sources, i + 1)[j] by {
                            let name = graph.nodes.keys()[j];
                            assert(graph.nodes.keys().contains(name));
                            if sources.has(name) && sources.keys().index_of(name) == i {
                                assert(sources.keys()[i as int] == name);
                            }
                        }
                        assert(partly_loaded(*graph, base, *sources, i as int) =~= partly_loaded(
                            *graph,
                            base,
                            *sources,
                            i + 1,
                        ));
                    }
                },
                Some(place) => {
                    let node = graph.nodes.value_at(place);
                    if !is_aligned(samples.len(), node.channels) {
                        proof {
                            assert(!aligned(samples@, node.channels));
                            assert(f(i as int) is Some);
                        }
                        return Err(
                            EngineError::InvalidSourceSampleCount {
                                id: node.id.clone(),
                                channels: node.channels,
                            },
                        );
                    }
                    let ghost before = self.audio().buffers;
                    let buffer = self.node_buffers.value_mut(place);
                    overlay(buffer, samples);
                    proof {
                        assert(aligned(samples@, node.channels));
                        assert(f(i as int) is None);
                        let now = self.audio().buffers;
                        let keys = graph.nodes.keys();
                        assert forall|j: int| 0 <= j < base.len() implies #[trigger] now[j]
                            == partly_loaded(*graph, base, *sources, i + 1)[j] by {
                            let name = keys[j];
                            if j == place {
                                assert(name == id@);
                                assert(sources.keys().contains(name));
                                let at = sources.keys().index_of(name);
                                assert(sources.keys()[at] == name);
                                crate::string_map::lemma_increasing_places(
                                    sources.keys(),
                                    at,
                                    i as int,
                                );
                                assert(before[j] == base[j]);
                            } else {
                                assert(now[j] == before[j]);
                                crate::string_map::lemma_increasing_places(keys, j, place as int);
                                if sources.has(name) && sources.keys().index_of(name) == i {
                                    assert(sources.keys()[i as int] == name);
                                }
                            }
                        }
                        assert(now =~= partly_loaded(*graph, base, *sources, i + 1));
                    }
                },
            }
            i = i + 1;
        }
        Ok(())
    }

    fn render_route<M: SampleMath>(
        &mut self,
        graph: &RoutingGraph,
        r: usize,
        frames: usize,
        controls: &StringMap<ProcessorControl>,
        math: &M,
    )
        requires
            valid_graph(*graph),
            old(self).fits(*graph),
            controls.wf(),
            r < old(self).routes@.len(),
            frames * 64 <= usize::MAX,
        ensures
            final(self).fits(*graph),
            final(self).order == old(self).order,
            final(self).schedule.route_chains.keys() == old(self).schedule.route_chains.keys(),
            route_rendered(
                math,
                old(self).context(*graph, controls@),
                r as int,
                frames,
                old(self).audio(),
                final(self).audio(),
            ),
    {
        let ghost start = *self;
        let ghost compiled = graph.route_plan.routes@[r as int];
        proof {
            assert(route_fits(*graph, r as int));
            assert(runtime_of(self.routes@[r as int], compiled));
            assert(self.routes@[r as int].delay_line.wf());
            assert(graph.nodes@.dom().contains(compiled.from@));
            assert(graph.nodes@.dom().contains(compiled.to@));
        }
        let source_channels = self.routes[r].source_channels;
        let destination_channels = self.routes[r].destination_channels;
        proof {
            assert(frames * source_channels <= frames * 64 && frames * destination_channels
                <= frames * 64 && source_channels * destination_channels <= 64 * 64)
                by (nonlinear_arith)
                requires
                    frames >= 0,
                    0 <= source_channels <= 64,
                    0 <= destination_channels <= 64,
            ;
        }
        let from = match self.node_buffers.find(self.routes[r].from.as_str()) {
            Some(i) => i,
            None => 0,
        };
        let to = match self.node_buffers.find(self.routes[r].to.as_str()) {
            Some(i) => i,
            None => 0,
        };
        proof {
            let keys = graph.nodes.keys();
            crate::string_map::lemma_increasing_places(
                keys,
                from as int,
                keys.index_of(compiled.from@),
            );
            crate::string_map::lemma_increasing_places(
                keys,
                to as int,
                keys.index_of(compiled.to@),
            );
        }
        let mixed = matrix_mix_into(
            math,
            self.node_buffers.value_at(from),
            source_channels,
            destination_channels,
            frames,
            &self.routes[r].matrix,
        );
        let ghost mixed_view = mixed@;
        let route_id = self.routes[r].id.clone();
        let mut samples = self.schedule.process_route(
            math,
            &route_id,
            mixed,
            destination_channels,
            frames,
            controls,
        );
        let ghost processed = samples@;
        apply_gain(math, &mut samples, self.routes[r].gain_db, self.routes[r].mute);
        let ghost louder = samples@;
        apply_pan(math, &mut samples, destination_channels, clamp_pan(self.routes[r].pan));
        let ghost placed = samples@;
        let route = &mut self.routes[r];
        route.delay_line.process_in_place(&mut samples);
        let buffer = self.node_buffers.value_mut(to);
        accumulate(math, buffer, &samples);
        let ghost total = buffer@;
        proof {
            let a = start.audio();
            let b = self.audio();
            assert(b.buffers =~= a.buffers.update(to as int, total));
            assert(b.pending =~= a.pending.update(
                r as int,
                held(a.pending[r as int], placed),
            ));
            assert forall|k: int| 0 <= k < graph.route_plan.routes@.len() implies runtime_of(
                #[trigger] self.routes@[k],
                graph.route_plan.routes@[k],
            ) by {
                assert(runtime_of(start.routes@[k], graph.route_plan.routes@[k]));
            }
            assert forall|k: int| 0 <= k < graph.route_plan.routes@.len() implies (
            #[trigger] self.routes@[k]).delay_line.wf() by {
                assert(start.routes@[k].delay_line.wf());
            }
            assert(route_stages(
                math,
                start.context(*graph, controls@),
                r as int,
                frames,
                a,
                b,
                mixed_view,
                processed,
                louder,
                placed,
                total,
            ));
        }
    }

    /// Renders one buffer of frames from the sources and gives back what comes out at the
    /// sinks. Sources for other nodes are passed over.
    pub fn render_cycle<M: SampleMath>(
        &mut self,
        graph: &RoutingGraph,
        frames: usize,
        sources: &StringMap<Vec<u32>>,
        controls: &StringMap<ProcessorControl>,
        math: &M,
    ) -> (r: Result<Vec<SinkBuffer>, EngineError>)
        requires
            valid_graph(*graph),
            old(self).fits(*graph),
            sources.wf(),
            controls.wf(),
            frames * 64 <= usize::MAX,
        ensures
            final(self).fits(*graph),
            final(self).schedule.route_chains.keys() == old(self).schedule.route_chains.keys(),
            match r {
                Err(e) => if frames == 0 {
                    e == EngineError::InvalidFrames && *final(self) == *old(self)
                } else {
                    source_error(*graph, *sources) == Some(e) && final(self).audio().pending
                        == old(self).audio().pending && final(self).schedule == old(self).schedule
                },
                Ok(out) => {
                    &&& frames > 0
                    &&& source_error(*graph, *sources) is None
                    &&& cycle_rendered(
                        math,
                        old(self).context(*graph, controls@),
                        as_places(old(self).order@),
                        frames,
                        start_state(*graph, old(self).audio(), *sources, frames),
                        out@,
                        final(self).audio(),
                    )
                },
            },
    {
        if frames == 0 {
            return Err(EngineError::InvalidFrames);
        }
        let ghost start = *self;
        self.prepare_node_buffers(graph, frames);
        let ghost ready = self.audio();
        match self.load_sources(graph, sources) {
            Err(e) => {
                return Err(e);
            },
            Ok(()) => {},
        }
        let ghost first = start_state(*graph, start.audio(), *sources, frames);
        proof {
            assert forall|i: int| 0 <= i < ready.buffers.len() implies #[trigger] partly_loaded(
                *graph,
                ready.buffers,
                *sources,
                sources.keys().len() as int,
            )[i] == first.buffers[i] by {
                let id = graph.nodes.keys()[i];
                if sources.has(id) {
                    assert(sources.keys().index_of(id) < sources.keys().len());
                }
            }
            assert(self.audio().buffers =~= first.buffers);
            assert(as_places(self.order@) == as_places(start.order@));
        }
        let ghost order = as_places(start.order@);
        let ghost context = start.context(*graph, controls@);
        let mut k: usize = 0;
        while k < self.order.len()
            invariant
                valid_graph(*graph),
                self.fits(*graph),
                controls.wf(),
                frames * 64 <= usize::MAX,
                context == self.context(*graph, controls@),
                order == as_places(self.order@),
                k <= self.order@.len(),
                routes_rendered(math, context, order, k as int, frames, first, self.audio()),
            decreases self.order@.len() - k,
        {
            let r = self.order[k];
            proof {
                let routes = graph.route_plan.routes@;
                let names = views(graph.route_plan.topological_order@);
                let i = lemma_route_order_place(routes, names, names.len() as int, k as int);
                assert(order[k as int] == r);
            }
            let ghost middle = self.audio();
            self.render_route(graph, r, frames, controls, math);
            proof {
                let n = k + 1;
                assert(routes_rendered(math, context, order, n - 1, frames, first, middle));
                assert(route_rendered(math, context, order[n - 1], frames, middle, self.audio()));
                assert(routes_rendered(math, context, order, n, frames, first, self.audio()));
                assert(routes_rendered(math, context, order, k + 1, frames, first, self.audio()));
            }
            k = k + 1;
        }
        let ghost end = self.audio();
        let ghost rendered = *self;
        let ghost sinks = sink_places(*graph);
        let mut out: Vec<SinkBuffer> = Vec::new();
        let mut i: usize = 0;
        proof {
            lemma_kept(
                |i: int| graph.nodes.values()[i].kind.sink(),
                graph.nodes.values().len() as int,
            );
        }
        while i < self.sink_nodes.len()
            invariant
                valid_graph(*graph),
                self.fits(*graph),
                sinks == sink_places(*graph),
                i <= sinks.len(),
                forall|j: int| 0 <= j < sinks.len() ==> 0 <= #[trigger] sinks[j] < graph.nodes.keys().len(),
                forall|a: int, b: int|
                    0 <= a < b < sinks.len() ==> #[trigger] sinks[a] < #[trigger] sinks[b],
                self.routes == rendered.routes,
                self.schedule == rendered.schedule,
                end == rendered.audio(),
                forall|j: int|
                    i <= j < sinks.len() ==> self.audio().buffers[#[trigger] sinks[j]]
                        == end.buffers[sinks[j]],
                self.audio().buffers.len() == end.buffers.len(),
                forall|j: int|
                    0 <= j < i ==> self.audio().buffers[#[trigger] sinks[j]] == out@[j].samples@,
                forall|p: int|
                    0 <= p < end.buffers.len() && !sinks.contains(p)
                        ==> #[trigger] self.audio().buffers[p] == end.buffers[p],
                sinks_given(math, *graph, end, out@, i as int),
            decreases sinks.len() - i,
        {
            let id = &self.sink_nodes[i];
            let contributions = self.sink_contributions[i];
            let place = match self.node_buffers.find(id.as_str()) {
                Some(p) => p,
                None => 0,
            };
            proof {
                let keys = graph.nodes.keys();
                assert(keys[sinks[i as int]] == id@);
                assert(keys.contains(id@));
                crate::string_map::lemma_increasing_places(keys, place as int, sinks[i as int]);
            }
            let mix = graph.nodes.value_at(place).mix;
            let name = id.clone();
            let ghost before = self.audio().buffers;
            let buffer = self.node_buffers.value_mut(place);
            finish_sink(math, mix, contributions, buffer);
            let mut samples: Vec<u32> = Vec::new();
            let mut j: usize = 0;
            while j < buffer.len()
                invariant
                    j <= buffer.len(),
                    samples@ =~= buffer@.take(j as int),
                decreases buffer.len() - j,
            {
                samples.push(buffer[j]);
                j = j + 1;
            }
            assert(samples@ =~= buffer@);
            out.push(SinkBuffer { id: name, samples });
            proof {
                assert(before[sinks[i as int]] == end.buffers[sinks[i as int]]);
                assert forall|q: int| 0 <= q < i + 1 implies self.audio().buffers[
                #[trigger] sinks[q]] == out@[q].samples@ by {
                    if q < i {
                        assert(sinks[q] < sinks[i as int]);
                        assert(self.audio().buffers[sinks[q]] == before[sinks[q]]);
                    }
                }
                assert forall|p: int| 0 <= p < end.buffers.len() && !sinks.contains(p) implies
                #[trigger] self.audio().buffers[p] == end.buffers[p] by {
                    assert(p != sinks[i as int]);
                    assert(self.audio().buffers[p] == before[p]);
                }
                assert forall|q: int| i + 1 <= q < sinks.len() implies self.audio().buffers[
                #[trigger] sinks[q]] == end.buffers[sinks[q]] by {
                    assert(sinks[i as int] < sinks[q]);
                    assert(self.audio().buffers[sinks[q]] == before[sinks[q]]);
                }
            }
            i = i + 1;
        }
        proof {
            assert(routes_rendered(math, context, order, order.len() as int, frames, first, end));
            assert(self.audio().pending =~= end.pending);
            assert(cycle_rendered(
                math,
                context,
                order,
                frames,
                first,
                out@,
                self.audio(),
            ));
        }
        Ok(out)
    }
}

} // verus!
