//! What holds of engines, buffer by buffer: rendering is a function where the arithmetic is,
//! and pipes render as identity routes do.

use crate::engine::{EngineError, SampleMath};
use crate::engine_state::{
    aligned, as_places, cycle_rendered, lemma_route_order_place, lemma_route_order_same,
    source_error, start_buffers, start_state, RenderState, SinkBuffer,
};
use crate::graph::{
    arrows_of, declared_arrows, declared_nodes, enabled_pipes, enabled_routes, graph_of,
    is_identity, law_identity_route_is_a_pipe, same_but_id, NodeDescriptor, RoutingGraph,
};
use crate::processors::{chained_route, has_chain, ShiftFrames};
use crate::profile::{Pipe, Profile, Route};
use crate::render_engine::{
    cycle_outcome, distinct_sinks, fresh_state, lemma_sinks_distinct, sinks_by_id, taken_all,
    taken_over, Engine,
};
use crate::render_laws::{
    chains_alike, chains_found_alike, graphs_alike, is_function, law_alike_graphs_admit_the_same,
    law_rendering_is_a_function, processors_alike, render_states_alike, schedules_alike,
    sinks_same,
};
use crate::sequences::{lemma_first_some_same, lemma_kept, lemma_kept_same, views};
use crate::string_map::StringMap;
use crate::topology::law_order_is_determined;
use vstd::prelude::*;

verus! {

proof fn lemma_order_in_bounds(e: Engine)
    requires
        e.wf(),
    ensures
        forall|k: int|
            0 <= k < as_places(e.state.order@).len() ==> 0 <= #[trigger] as_places(
                e.state.order@,
            )[k] < e.snapshot.graph.route_plan.routes@.len(),
{
    let g = e.snapshot.graph;
    let order = views(g.route_plan.topological_order@);
    assert forall|k: int| 0 <= k < as_places(e.state.order@).len() implies 0
        <= #[trigger] as_places(e.state.order@)[k] < g.route_plan.routes@.len() by {
        let _ = lemma_route_order_place(g.route_plan.routes@, order, order.len() as int, k);
    }
}

proof fn lemma_schedule_alike_itself(e: Engine)
    requires
        e.wf(),
    ensures
        schedules_alike(
            e.state.schedule.route_chains.values(),
            e.state.schedule.route_chains.values(),
        ),
{
    let chains = e.state.schedule.route_chains.values();
    assert forall|i: int| 0 <= i < chains.len() implies chains_alike(
        (#[trigger] chains[i])@,
        chains[i]@,
    ) by {
        assert forall|k: int| 0 <= k < chains[i]@.len() implies processors_alike(
            #[trigger] chains[i]@[k],
            chains[i]@[k],
        ) by {
            assert(chains[i]@[k].wf());
        }
    }
}

/// Whether two engines render alike from here on: alike graphs, the same order of routes, the
/// same audio at all nodes and in all delays, and alike processors that are found under the
/// same routes and controlled alike.
pub open spec fn engines_alike(e: Engine, f: Engine) -> bool {
    &&& e.wf()
    &&& f.wf()
    &&& graphs_alike(e.snapshot.graph, f.snapshot.graph)
    &&& as_places(e.state.order@) == as_places(f.state.order@)
    &&& chains_found_alike(
        e.state.context(e.snapshot.graph, e.processor_controls@),
        f.state.context(f.snapshot.graph, f.processor_controls@),
    )
    &&& render_states_alike(e.state.audio(), f.state.audio())
}

/// Whether an engine still renders the same, under the same controls.
pub open spec fn still_renders(before: Engine, after: Engine) -> bool {
    &&& after.wf()
    &&& after.snapshot == before.snapshot
    &&& after.processor_controls == before.processor_controls
}

/// An engine is alike itself.
pub proof fn law_engine_is_alike_itself(e: Engine)
    requires
        e.wf(),
    ensures
        engines_alike(e, e),
{
    lemma_schedule_alike_itself(e);
}

proof fn lemma_source_error_same(g: RoutingGraph, h: RoutingGraph, sources: StringMap<Vec<u32>>)
    requires
        g.nodes.keys() == h.nodes.keys(),
        g.nodes.values() == h.nodes.values(),
    ensures
        source_error(g, sources) == source_error(h, sources),
{
    lemma_first_some_same(
        |i: int|
            {
                let id = sources.keys()[i];
                if g.nodes.has(id) && !aligned(sources.values()[i]@, g.nodes.at(id).channels) {
                    Some(
                        EngineError::InvalidSourceSampleCount {
                            id: g.nodes.at(id).id,
                            channels: g.nodes.at(id).channels,
                        },
                    )
                } else {
                    None
                }
            },
        |i: int|
            {
                let id = sources.keys()[i];
                if h.nodes.has(id) && !aligned(sources.values()[i]@, h.nodes.at(id).channels) {
                    Some(
                        EngineError::InvalidSourceSampleCount {
                            id: h.nodes.at(id).id,
                            channels: h.nodes.at(id).channels,
                        },
                    )
                } else {
                    None
                }
            },
        0,
        sources.keys().len() as int,
    );
}

/// Two engines that are alike give the same for each buffer and are alike afterwards, or
/// refuse it with the same error.
pub proof fn law_alike_engines_render_alike<M: SampleMath>(
    math: &M,
    e: Engine,
    f: Engine,
    e_after: Engine,
    f_after: Engine,
    frames: usize,
    sources: StringMap<Vec<u32>>,
    r: Result<Vec<SinkBuffer>, EngineError>,
    s: Result<Vec<SinkBuffer>, EngineError>,
)
    requires
        is_function(math),
        engines_alike(e, f),
        still_renders(e, e_after),
        still_renders(f, f_after),
        cycle_outcome(math, e, e_after, frames, sources, r),
        cycle_outcome(math, f, f_after, frames, sources, s),
    ensures
        match (r, s) {
            (Ok(x), Ok(y)) => sinks_same(x@, y@) && engines_alike(e_after, f_after),
            (Err(x), Err(y)) => x == y,
            _ => false,
        },
{
    let g = e.snapshot.graph;
    let h = f.snapshot.graph;
    lemma_source_error_same(g, h, sources);
    if let (Ok(x), Ok(y)) = (r, s) {
        lemma_order_in_bounds(e);
        assert(start_buffers(g, e.state.audio().buffers, sources, frames) =~= start_buffers(
            h,
            f.state.audio().buffers,
            sources,
            frames,
        ));
        law_rendering_is_a_function(
            math,
            e.state.context(g, e.processor_controls@),
            f.state.context(h, f.processor_controls@),
            as_places(e.state.order@),
            frames,
            start_state(g, e.state.audio(), sources, frames),
            start_state(h, f.state.audio(), sources, frames),
            x@,
            y@,
            e_after.state.audio(),
            f_after.state.audio(),
        );
    }
}

/// One engine gives the same for one buffer, whichever way it is rendered, and what goes on
/// from there renders alike.
pub proof fn law_one_buffer_one_result<M: SampleMath>(
    math: &M,
    before: Engine,
    a: Engine,
    b: Engine,
    frames: usize,
    sources: StringMap<Vec<u32>>,
    x: Vec<SinkBuffer>,
    y: Vec<SinkBuffer>,
)
    requires
        is_function(math),
        before.wf(),
        still_renders(before, a),
        still_renders(before, b),
        cycle_outcome(math, before, a, frames, sources, Ok(x)),
        cycle_outcome(math, before, b, frames, sources, Ok(y)),
    ensures
        sinks_same(x@, y@),
        engines_alike(a, b),
{
    law_engine_is_alike_itself(before);
    law_alike_engines_render_alike(math, before, before, a, b, frames, sources, Ok(x), Ok(y));
}

proof fn lemma_taken_from_one(
    before: Seq<u32>,
    id: Seq<char>,
    out: Seq<SinkBuffer>,
    n: int,
    i: int,
)
    requires
        distinct_sinks(out),
        0 <= n <= out.len(),
        0 <= i < out.len(),
        out[i].id@ == id,
    ensures
        taken_over(before, id, out, n) == if i < n && out[i].samples@.len() == before.len() {
            out[i].samples@
        } else {
            before
        },
    decreases n,
{
    if n > 0 {
        lemma_taken_from_one(before, id, out, n - 1, i);
        if n - 1 < i {
            assert(out[n - 1].id@ != out[i].id@);
        } else if i < n - 1 {
            assert(out[i].id@ != out[n - 1].id@);
        }
    }
}

proof fn lemma_taken_from_none(before: Seq<u32>, id: Seq<char>, out: Seq<SinkBuffer>, n: int)
    requires
        0 <= n <= out.len(),
        forall|i: int| 0 <= i < out.len() ==> (#[trigger] out[i]).id@ != id,
    ensures
        taken_over(before, id, out, n) == before,
    decreases n,
{
    if n > 0 {
        lemma_taken_from_none(before, id, out, n - 1);
    }
}

/// Rendering into prepared buffers takes over exactly what rendering the same buffer on an
/// engine that is alike gives by the ids of the sinks: a prepared buffer with a sink of its id and of its length holds that
/// sink's audio, any other stays as it was.
pub proof fn law_rendering_into_takes_over<M: SampleMath>(
    math: &M,
    e: Engine,
    f: Engine,
    e_after: Engine,
    f_after: Engine,
    frames: usize,
    sources: StringMap<Vec<u32>>,
    given: Map<Seq<char>, Vec<u32>>,
    x: Vec<SinkBuffer>,
    ids: Seq<Seq<char>>,
    prepared: Seq<Vec<u32>>,
    filled: Seq<Vec<u32>>,
    y: Vec<SinkBuffer>,
)
    requires
        is_function(math),
        engines_alike(e, f),
        still_renders(e, e_after),
        still_renders(f, f_after),
        cycle_outcome(math, e, e_after, frames, sources, Ok(x)),
        sinks_by_id(given, x@),
        cycle_outcome(math, f, f_after, frames, sources, Ok(y)),
        taken_all(ids, prepared, filled, y@),
    ensures
        filled.len() == prepared.len(),
        forall|i: int|
            0 <= i < filled.len() ==> (#[trigger] filled[i])@ == if given.dom().contains(ids[i])
                && given[ids[i]]@.len() == prepared[i]@.len() {
                given[ids[i]]@
            } else {
                prepared[i]@
            },
{
    law_alike_engines_render_alike(math, e, f, e_after, f_after, frames, sources, Ok(x), Ok(y));
    lemma_sinks_distinct(
        math,
        f.state.context(f.snapshot.graph, f.processor_controls@),
        as_places(f.state.order@),
        frames,
        start_state(f.snapshot.graph, f.state.audio(), sources, frames),
        y@,
        f_after.state.audio(),
    );
    let n = y@.len() as int;
    assert forall|i: int| 0 <= i < filled.len() implies (#[trigger] filled[i])@
        == if given.dom().contains(ids[i]) && given[ids[i]]@.len() == prepared[i]@.len() {
        given[ids[i]]@
    } else {
        prepared[i]@
    } by {
        let id = ids[i];
        if given.dom().contains(id) {
            let k = choose|k: int| 0 <= k < x@.len() && (#[trigger] x@[k]).id@ == id;
            assert(given.dom().contains(x@[k].id@));
            assert(y@[k].id@ == id && y@[k].samples@ == given[id]@);
            lemma_taken_from_one(prepared[i]@, id, y@, n, k);
        } else {
            assert forall|k: int| 0 <= k < y@.len() implies (#[trigger] y@[k]).id@ != id by {
                assert(x@[k].id@ == y@[k].id@);
                assert(given.dom().contains(x@[k].id@));
            }
            lemma_taken_from_none(prepared[i]@, id, y@, n);
        }
    }
}

// ---------------------------------------------------------------------------
// Pipes and routes

/// Whether each route stands for the pipe at its place: the same ends and settings, no
/// processors, and where it is enabled the identity matrix between nodes of like channels.
pub open spec fn routes_like_pipes(
    pipes: Seq<Pipe>,
    routes: Seq<Route>,
    nodes: Map<Seq<char>, NodeDescriptor>,
) -> bool {
    &&& pipes.len() == routes.len()
    &&& forall|k: int| 0 <= k < pipes.len() ==> route_like_pipe(#[trigger] pipes[k], routes[k], nodes)
}

/// Whether a route stands for a pipe.
pub open spec fn route_like_pipe(
    pipe: Pipe,
    route: Route,
    nodes: Map<Seq<char>, NodeDescriptor>,
) -> bool {
    &&& pipe.from@ == route.from@
    &&& pipe.to@ == route.to@
    &&& pipe.enabled == route.enabled
    &&& pipe.gain_db == route.gain_db
    &&& pipe.mute == route.mute
    &&& pipe.pan == route.pan
    &&& pipe.delay_ms == route.delay_ms
    &&& route.chain is None
    &&& route.enabled ==> {
        &&& nodes[route.from@].channels == nodes[route.to@].channels
        &&& is_identity(route.matrix, nodes[route.from@].channels)
    }
}

proof fn lemma_nodes_same(g: RoutingGraph, h: RoutingGraph)
    requires
        g.nodes.wf(),
        h.nodes.wf(),
        g.nodes@ == h.nodes@,
    ensures
        g.nodes.keys() == h.nodes.keys(),
        g.nodes.values() == h.nodes.values(),
{
    g.nodes.lemma_keys_ordered();
    h.nodes.lemma_keys_ordered();
    assert forall|i: int| 0 <= i < g.nodes.values().len() implies g.nodes.values()[i]
        == h.nodes.values()[i] by {
        g.nodes.lemma_entry(i);
        h.nodes.lemma_entry(i);
    }
    assert(g.nodes.values() =~= h.nodes.values());
}

proof fn lemma_graphs_alike(p: Profile, q: Profile, g: RoutingGraph, h: RoutingGraph)
    requires
        p.routes@.len() == 0,
        q.routes@.len() > 0,
        declared_nodes(p) == declared_nodes(q),
        graph_of(p, g),
        graph_of(q, h),
        routes_like_pipes(p.pipes@, q.routes@, g.nodes@),
    ensures
        graphs_alike(g, h),
        views(g.route_plan.topological_order@) == views(h.route_plan.topological_order@),
        forall|k: int|
            0 <= k < g.route_plan.routes@.len() ==> (#[trigger] g.route_plan.routes@[k]).chain is None
                && h.route_plan.routes@[k].chain is None,
{
    let pipes = p.pipes@;
    let routes = q.routes@;
    let n = pipes.len() as int;
    lemma_nodes_same(g, h);
    lemma_kept_same(|i: int| pipes[i].enabled, |i: int| routes[i].enabled, n);
    lemma_kept(|i: int| pipes[i].enabled, n);
    let places = enabled_pipes(pipes);
    assert(places == enabled_routes(routes));
    let ours = g.route_plan.routes@;
    let theirs = h.route_plan.routes@;
    assert forall|k: int| 0 <= k < ours.len() implies same_but_id(#[trigger] ours[k], theirs[k])
        && ours[k].chain is None && theirs[k].chain is None by {
        assert(route_like_pipe(pipes[places[k]], routes[places[k]], g.nodes@));
        law_identity_route_is_a_pipe(
            pipes[places[k]],
            places[k],
            routes[places[k]],
            g.nodes@,
            ours[k],
            theirs[k],
        );
    }
    assert forall|k: int| 0 <= k < places.len() implies declared_arrows(p)[k]
        == declared_arrows(q)[k] by {
        assert(route_like_pipe(pipes[places[k]], routes[places[k]], g.nodes@));
    }
    assert(declared_arrows(p) =~= declared_arrows(q));
    law_order_is_determined(
        g.nodes.keys(),
        arrows_of(g.edges@),
        views(g.route_plan.topological_order@),
        views(h.route_plan.topological_order@),
    );
}

proof fn lemma_unchained(g: RoutingGraph, id: Seq<char>, n: int)
    requires
        n <= g.route_plan.routes@.len(),
        forall|k: int| 0 <= k < n ==> (#[trigger] g.route_plan.routes@[k]).chain is None,
    ensures
        chained_route(g, id, n) is None,
    decreases n,
{
    if n > 0 {
        lemma_unchained(g, id, n - 1);
        assert(!has_chain(g, g.route_plan.routes@[n - 1]));
    }
}

proof fn lemma_no_chains(e: Engine, delay_frames: Seq<usize>, shifts: Map<Seq<char>, ShiftFrames>)
    requires
        e.wf(),
        fresh_state(e.state, e.snapshot, delay_frames, shifts),
        forall|k: int|
            0 <= k < e.snapshot.graph.route_plan.routes@.len() ==> (
            #[trigger] e.snapshot.graph.route_plan.routes@[k]).chain is None,
    ensures
        e.state.schedule.route_chains.values().len() == 0,
{
    let g = e.snapshot.graph;
    let chains = e.state.schedule.route_chains;
    if chains.keys().len() > 0 {
        chains.lemma_entry(0);
        let id = chains.keys()[0];
        let n = g.route_plan.routes@.len() as int;
        lemma_unchained(g, id, n);
    }
}

/// An engine over pipes and one over identity routes in their place start alike.
pub proof fn law_pipes_start_as_identity_routes(
    p: Profile,
    q: Profile,
    e: Engine,
    f: Engine,
    delay_frames: Seq<usize>,
    e_shifts: Map<Seq<char>, ShiftFrames>,
    f_shifts: Map<Seq<char>, ShiftFrames>,
)
    requires
        p.routes@.len() == 0,
        q.routes@.len() > 0,
        declared_nodes(p) == declared_nodes(q),
        graph_of(p, e.snapshot.graph),
        graph_of(q, f.snapshot.graph),
        routes_like_pipes(p.pipes@, q.routes@, e.snapshot.graph.nodes@),
        e.wf(),
        f.wf(),
        fresh_state(e.state, e.snapshot, delay_frames, e_shifts),
        fresh_state(f.state, f.snapshot, delay_frames, f_shifts),
    ensures
        engines_alike(e, f),
{
    let g = e.snapshot.graph;
    let h = f.snapshot.graph;
    lemma_graphs_alike(p, q, g, h);
    let ours = g.route_plan.routes@;
    let theirs = h.route_plan.routes@;
    assert forall|k: int| 0 <= k < theirs.len() implies (#[trigger] theirs[k]).chain is None by {
        assert(ours[k].chain is None);
    }
    lemma_no_chains(e, delay_frames, e_shifts);
    lemma_no_chains(f, delay_frames, f_shifts);
    assert forall|k: int| 0 <= k < ours.len() implies (#[trigger] ours[k]).from@ == theirs[k].from@ by {
        assert(same_but_id(ours[k], theirs[k]));
    }
    lemma_route_order_same(
        ours,
        theirs,
        views(g.route_plan.topological_order@),
        g.route_plan.topological_order@.len() as int,
    );
    assert(views(h.route_plan.topological_order@).len() == h.route_plan.topological_order@.len());
    assert(views(g.route_plan.topological_order@).len() == g.route_plan.topological_order@.len());
    let a = e.state.audio();
    let b = f.state.audio();
    assert forall|i: int| 0 <= i < a.buffers.len() implies a.buffers[i] == b.buffers[i] by {
        assert(e.state.node_buffers.values()[i]@.len() == 0);
        assert(f.state.node_buffers.values()[i]@.len() == 0);
        assert(a.buffers[i] =~= b.buffers[i]);
    }
    assert(a.buffers =~= b.buffers);
    assert forall|k: int| 0 <= k < a.pending.len() implies a.pending[k] == b.pending[k] by {
        assert(same_but_id(ours[k], theirs[k]));
        assert(e.state.routes@[k].delay_line.pending() == a.pending[k]);
        assert(f.state.routes@[k].delay_line.pending() == b.pending[k]);
    }
    assert(a.pending =~= b.pending);
}

/// The first buffer of an engine over pipes and of one over identity routes in their place is
/// the same: the same sinks with the same audio. What comes after is the same too, as the
/// engines stay alike.
pub proof fn law_pipes_render_as_identity_routes<M: SampleMath>(
    math: &M,
    p: Profile,
    q: Profile,
    e: Engine,
    f: Engine,
    delay_frames: Seq<usize>,
    e_shifts: Map<Seq<char>, ShiftFrames>,
    f_shifts: Map<Seq<char>, ShiftFrames>,
    e_after: Engine,
    f_after: Engine,
    frames: usize,
    sources: StringMap<Vec<u32>>,
    x: Vec<SinkBuffer>,
    y: Vec<SinkBuffer>,
    piped: Map<Seq<char>, Vec<u32>>,
    routed: Map<Seq<char>, Vec<u32>>,
)
    requires
        is_function(math),
        p.routes@.len() == 0,
        q.routes@.len() > 0,
        declared_nodes(p) == declared_nodes(q),
        graph_of(p, e.snapshot.graph),
        graph_of(q, f.snapshot.graph),
        routes_like_pipes(p.pipes@, q.routes@, e.snapshot.graph.nodes@),
        e.wf(),
        f.wf(),
        fresh_state(e.state, e.snapshot, delay_frames, e_shifts),
        fresh_state(f.state, f.snapshot, delay_frames, f_shifts),
        still_renders(e, e_after),
        still_renders(f, f_after),
        cycle_outcome(math, e, e_after, frames, sources, Ok(x)),
        cycle_outcome(math, f, f_after, frames, sources, Ok(y)),
        sinks_by_id(piped, x@),
        sinks_by_id(routed, y@),
    ensures
        piped.dom() == routed.dom(),
        forall|id: Seq<char>| #[trigger] piped.dom().contains(id) ==> piped[id]@ == routed[id]@,
        engines_alike(e_after, f_after),
{
    law_pipes_start_as_identity_routes(p, q, e, f, delay_frames, e_shifts, f_shifts);
    law_alike_engines_render_alike(math, e, f, e_after, f_after, frames, sources, Ok(x), Ok(y));
    assert forall|id: Seq<char>| #[trigger] piped.dom().contains(id) implies routed.dom().contains(
        id,
    ) && piped[id]@ == routed[id]@ by {
        let i = choose|i: int| 0 <= i < x@.len() && (#[trigger] x@[i]).id@ == id;
        assert(piped.dom().contains(x@[i].id@));
        assert(routed.dom().contains(y@[i].id@));
    }
    assert forall|id: Seq<char>| #[trigger] routed.dom().contains(id) implies piped.dom().contains(
        id,
    ) by {
        let i = choose|i: int| 0 <= i < y@.len() && (#[trigger] y@[i]).id@ == id;
        assert(x@[i].id@ == y@[i].id@);
        assert(piped.dom().contains(x@[i].id@));
    }
    assert(piped.dom() =~= routed.dom());
}

/// Whatever the arithmetic gives, a buffer of an engine over pipes and one of an engine over
/// identity routes in their place admit the same results, and are refused for the same reason.
pub proof fn law_pipes_admit_what_identity_routes_admit<M: SampleMath>(
    math: &M,
    p: Profile,
    q: Profile,
    e: Engine,
    f: Engine,
    delay_frames: Seq<usize>,
    e_shifts: Map<Seq<char>, ShiftFrames>,
    f_shifts: Map<Seq<char>, ShiftFrames>,
    frames: usize,
    sources: StringMap<Vec<u32>>,
    x: Seq<SinkBuffer>,
    after: RenderState,
)
    requires
        p.routes@.len() == 0,
        q.routes@.len() > 0,
        declared_nodes(p) == declared_nodes(q),
        graph_of(p, e.snapshot.graph),
        graph_of(q, f.snapshot.graph),
        routes_like_pipes(p.pipes@, q.routes@, e.snapshot.graph.nodes@),
        e.wf(),
        f.wf(),
        fresh_state(e.state, e.snapshot, delay_frames, e_shifts),
        fresh_state(f.state, f.snapshot, delay_frames, f_shifts),
    ensures
        source_error(e.snapshot.graph, sources) == source_error(f.snapshot.graph, sources),
        cycle_rendered(
            math,
            e.state.context(e.snapshot.graph, e.processor_controls@),
            as_places(e.state.order@),
            frames,
            start_state(e.snapshot.graph, e.state.audio(), sources, frames),
            x,
            after,
        ) <==> cycle_rendered(
            math,
            f.state.context(f.snapshot.graph, f.processor_controls@),
            as_places(f.state.order@),
            frames,
            start_state(f.snapshot.graph, f.state.audio(), sources, frames),
            x,
            after,
        ),
{
    let g = e.snapshot.graph;
    let h = f.snapshot.graph;
    law_pipes_start_as_identity_routes(p, q, e, f, delay_frames, e_shifts, f_shifts);
    lemma_source_error_same(g, h, sources);
    lemma_graphs_alike(p, q, g, h);
    let theirs = h.route_plan.routes@;
    assert forall|k: int| 0 <= k < theirs.len() implies (#[trigger] theirs[k]).chain is None by {
        assert(g.route_plan.routes@[k].chain is None);
    }
    lemma_no_chains(e, delay_frames, e_shifts);
    lemma_no_chains(f, delay_frames, f_shifts);
    assert(graphs_alike(h, g)) by {
        assert forall|k: int| 0 <= k < theirs.len() implies same_but_id(
            #[trigger] theirs[k],
            g.route_plan.routes@[k],
        ) by {
            assert(same_but_id(g.route_plan.routes@[k], theirs[k]));
        }
    }
    lemma_order_in_bounds(e);
    let order = as_places(e.state.order@);
    let c = e.state.context(g, e.processor_controls@);
    let d = f.state.context(h, f.processor_controls@);
    let a = start_state(g, e.state.audio(), sources, frames);
    let b = start_state(h, f.state.audio(), sources, frames);
    assert(a.buffers =~= b.buffers);
    assert(a.chains =~= b.chains);
    assert(a == b);
    if cycle_rendered(math, c, order, frames, a, x, after) {
        law_alike_graphs_admit_the_same(math, c, d, order, frames, a, x, after);
    }
    if cycle_rendered(math, d, order, frames, b, x, after) {
        law_alike_graphs_admit_the_same(math, d, c, order, frames, b, x, after);
    }
}

} // verus!
