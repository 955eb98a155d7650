//! What rendering does to single samples: a route from its source to its destination, and what
//! comes in and goes out of a buffer.

use crate::engine::{
    law_matrix_row_makes_a_channel, law_pan_weighs_left_and_right, scaled, EngineError, SampleMath,
};
use crate::engine_state::{
    aligned, cycle_rendered, route_rendered, route_stages, routes_rendered, sink_places,
    sinks_given, source_error, start_buffers, EngineState, RenderContext, RenderState, SinkBuffer,
};
use crate::graph::RoutingGraph;
use crate::number::clamped_pan;
use crate::processors::{route_ran, ShiftFrames};
use crate::render_engine::{fresh_state, EngineSnapshot};
use crate::sequences::{lemma_first_some_none, lemma_kept};
use crate::string_map::{lemma_increasing_places, StringMap};
use vstd::prelude::*;

verus! {

/// What a route makes of the audio of its source, stage by stage.
pub struct RouteAudio {
    pub mixed: Seq<u32>,
    pub processed: Seq<u32>,
    pub louder: Seq<u32>,
    pub placed: Seq<u32>,
}

/// A route takes the audio of the node that it leads from and adds to that of the node that it
/// leads to: mixed by its matrix, through its processors, times the factor of its gain or
/// silent where it is muted, panned where it has two channels, and behind what its delay still
/// holds.
pub proof fn law_route_goes_through_its_stages<M: SampleMath>(
    math: &M,
    c: RenderContext,
    r: int,
    frames: usize,
    a: RenderState,
    b: RenderState,
    from: int,
    to: int,
) -> (audio: RouteAudio)
    requires
        c.graph.nodes.wf(),
        route_rendered(math, c, r, frames, a, b),
        0 <= r < c.graph.route_plan.routes@.len(),
        0 <= r < a.pending.len(),
        0 <= from < c.graph.nodes.keys().len(),
        0 <= to < c.graph.nodes.keys().len(),
        a.buffers.len() == c.graph.nodes.keys().len(),
        c.graph.nodes.keys()[from] == c.graph.route_plan.routes@[r].from@,
        c.graph.nodes.keys()[to] == c.graph.route_plan.routes@[r].to@,
        c.graph.route_plan.routes@[r].matrix@.len()
            == c.graph.route_plan.routes@[r].source_channels
            * c.graph.route_plan.routes@[r].destination_channels,
    ensures
        ({
            let route = c.graph.route_plan.routes@[r];
            let sources = route.source_channels as int;
            let channels = route.destination_channels as int;
            let held = a.pending[r];
            &&& audio.mixed.len() == frames * channels
            &&& forall|frame: int, channel: int|
                0 <= frame < frames && 0 <= channel < channels ==> channel_is_mixed(
                    math,
                    a.buffers[from],
                    sources,
                    frame,
                    Seq::new(
                        sources as nat,
                        |s: int| route.matrix@[channel * sources + s].bits,
                    ),
                    #[trigger] audio.mixed[frame * channels + channel],
                )
            &&& route_ran(
                math,
                c.chain_ids,
                c.controls,
                route.id@,
                channels as usize,
                frames,
                a.chains,
                b.chains,
                audio.mixed,
                audio.processed,
            )
            &&& audio.louder.len() == audio.processed.len()
            &&& route.mute ==> forall|i: int|
                0 <= i < audio.louder.len() ==> #[trigger] audio.louder[i] == 0
            &&& !route.mute ==> exists|factor: u32| #[trigger]
                call_ensures(M::gain_factor, (math, route.gain_db.bits), factor) && (forall|i: int|
                    0 <= i < audio.louder.len() ==> call_ensures(
                        M::times,
                        (math, audio.processed[i], factor),
                        #[trigger] audio.louder[i],
                    ))
            &&& audio.placed.len() == audio.louder.len()
            &&& channels != 2 ==> audio.placed == audio.louder
            &&& channels == 2 ==> exists|left: u32, right: u32| #[trigger]
                call_ensures(
                    M::pan_factors,
                    (math, clamped_pan(route.pan).bits),
                    (left, right),
                ) && (forall|l: int, k: int|
                    #![trigger audio.placed[l], audio.placed[k]]
                    0 <= l && l % 2 == 0 && k == l + 1 && k < audio.louder.len() ==> call_ensures(
                        M::times,
                        (math, audio.louder[l], left),
                        audio.placed[l],
                    ) && call_ensures(M::times, (math, audio.louder[k], right), audio.placed[k]))
            &&& b.buffers.len() == a.buffers.len()
            &&& b.buffers[to].len() == a.buffers[to].len()
            &&& forall|i: int|
                0 <= i < a.buffers[to].len() && i < audio.placed.len() ==> call_ensures(
                    M::plus,
                    (
                        math,
                        a.buffers[to][i],
                        if i < held.len() {
                            held[i]
                        } else {
                            audio.placed[i - held.len()]
                        },
                    ),
                    #[trigger] b.buffers[to][i],
                )
            &&& forall|i: int|
                audio.placed.len() <= i < a.buffers[to].len() ==> #[trigger] b.buffers[to][i]
                    == a.buffers[to][i]
            &&& b.pending[r].len() == held.len()
            &&& forall|i: int|
                0 <= i < held.len() ==> #[trigger] b.pending[r][i] == if i + audio.placed.len()
                    < held.len() {
                    held[i + audio.placed.len()]
                } else {
                    audio.placed[i + audio.placed.len() - held.len()]
                }
        }),
{
    let (mixed, processed, louder, placed, total) = choose|
        mixed: Seq<u32>,
        processed: Seq<u32>,
        louder: Seq<u32>,
        placed: Seq<u32>,
        total: Seq<u32>,
    |
        route_stages(math, c, r, frames, a, b, mixed, processed, louder, placed, total);
    let route = c.graph.route_plan.routes@[r];
    let keys = c.graph.nodes.keys();
    assert(keys.contains(route.from@) && keys.contains(route.to@));
    if keys.index_of(route.from@) != from {
        lemma_increasing_places(keys, keys.index_of(route.from@), from);
    }
    if keys.index_of(route.to@) != to {
        lemma_increasing_places(keys, keys.index_of(route.to@), to);
    }
    let audio = RouteAudio { mixed, processed, louder, placed };
    let sources = route.source_channels as int;
    let channels = route.destination_channels as int;
    assert(sources * channels == channels * sources) by (nonlinear_arith);
    assert forall|frame: int, channel: int|
        0 <= frame < frames && 0 <= channel < channels implies channel_is_mixed(
        math,
        a.buffers[from],
        sources,
        frame,
        Seq::new(sources as nat, |s: int| route.matrix@[channel * sources + s].bits),
        #[trigger] audio.mixed[frame * channels + channel],
    ) by {
        let sums = law_matrix_row_makes_a_channel(
            math,
            a.buffers[from],
            sources,
            channels,
            frames as int,
            route.matrix@,
            mixed,
            frame,
            channel,
        );
        let row = Seq::new(sources as nat, |s: int| route.matrix@[channel * sources + s].bits);
        assert(added_up(math, a.buffers[from], sources, frame, row, sums));
    }
    if route.matrix@.len() == sources * channels {
        assert(mixed.len() == frames * channels);
    }
    if !route.mute {
        let factor = choose|factor: u32| #[trigger]
            call_ensures(M::gain_factor, (math, route.gain_db.bits), factor) && scaled(
                math,
                processed,
                factor,
                louder,
            );
        assert(call_ensures(M::gain_factor, (math, route.gain_db.bits), factor));
    }
    if channels == 2 {
        law_pan_weighs_left_and_right(math, louder, clamped_pan(route.pan), placed);
    }
    assert(b.buffers[to] == total);
    audio
}

/// Whether partial sums add up a frame of a source, each channel times its factor.
pub open spec fn added_up<M: SampleMath>(
    math: &M,
    source: Seq<u32>,
    channels: int,
    frame: int,
    factors: Seq<u32>,
    sums: Seq<u32>,
) -> bool {
    &&& sums.len() == channels + 1
    &&& sums[0] == 0
    &&& forall|s: int, t: int|
        #![trigger sums[s], sums[t]]
        0 <= s < channels && t == s + 1 ==> call_ensures(
            M::multiply_add,
            (
                math,
                sums[s],
                if frame * channels + s < source.len() {
                    source[frame * channels + s]
                } else {
                    0
                },
                factors[s],
            ),
            sums[t],
        )
}

/// Whether a sample is what a frame of a source adds up to.
pub open spec fn channel_is_mixed<M: SampleMath>(
    math: &M,
    source: Seq<u32>,
    channels: int,
    frame: int,
    factors: Seq<u32>,
    result: u32,
) -> bool {
    exists|sums: Seq<u32>| #[trigger]
        added_up(math, source, channels, frame, factors, sums) && result == sums[channels]
}

/// A route touches nothing but the audio of the node that it leads to, its own delay and its own
/// processors.
pub proof fn law_route_touches_only_its_own<M: SampleMath>(
    math: &M,
    c: RenderContext,
    r: int,
    frames: usize,
    a: RenderState,
    b: RenderState,
    i: int,
)
    requires
        c.graph.nodes.wf(),
        route_rendered(math, c, r, frames, a, b),
        0 <= r < c.graph.route_plan.routes@.len(),
        0 <= r < a.pending.len(),
        a.buffers.len() == c.graph.nodes.keys().len(),
        c.graph.nodes.keys().contains(c.graph.route_plan.routes@[r].to@),
        c.chain_ids.len() == a.chains.len(),
    ensures
        b.buffers.len() == a.buffers.len(),
        b.pending.len() == a.pending.len(),
        0 <= i < a.buffers.len() && c.graph.nodes.keys()[i] != c.graph.route_plan.routes@[r].to@
            ==> b.buffers[i] == a.buffers[i],
        0 <= i < a.pending.len() && i != r ==> b.pending[i] == a.pending[i],
        b.chains.len() == a.chains.len(),
        0 <= i < a.chains.len() && c.chain_ids[i] != c.graph.route_plan.routes@[r].id@
            ==> b.chains[i] == a.chains[i],
{
}

/// A route without processors hands its audio on to the gain as it is mixed.
pub proof fn law_route_without_processors<M: SampleMath>(
    math: &M,
    c: RenderContext,
    id: Seq<char>,
    channels: usize,
    frames: usize,
    a: RenderState,
    b: RenderState,
    before: Seq<u32>,
    after: Seq<u32>,
)
    requires
        forall|i: int| 0 <= i < c.chain_ids.len() ==> #[trigger] c.chain_ids[i] != id,
        route_ran(
            math,
            c.chain_ids,
            c.controls,
            id,
            channels,
            frames,
            a.chains,
            b.chains,
            before,
            after,
        ),
    ensures
        after == before,
        b.chains == a.chains,
{
}

/// A buffer begins with the audio of its sources at their nodes, and with silence elsewhere: a
/// source of a whole buffer is taken as it is, a short one is followed by silence.
pub proof fn law_buffer_begins_with_its_sources(
    g: RoutingGraph,
    buffers: Seq<Seq<u32>>,
    sources: StringMap<Vec<u32>>,
    frames: usize,
    i: int,
    k: int,
)
    requires
        0 <= i < buffers.len(),
        i < g.nodes.keys().len(),
        buffers[i].len() == frames * g.nodes.values()[i].channels,
        0 <= k < frames * g.nodes.values()[i].channels,
    ensures
        start_buffers(g, buffers, sources, frames).len() == buffers.len(),
        start_buffers(g, buffers, sources, frames)[i].len() == frames
            * g.nodes.values()[i].channels,
        sources.has(g.nodes.keys()[i]) && k < sources.at(g.nodes.keys()[i])@.len()
            ==> start_buffers(g, buffers, sources, frames)[i][k] == sources.at(
            g.nodes.keys()[i],
        )@[k],
        sources.has(g.nodes.keys()[i]) && k >= sources.at(g.nodes.keys()[i])@.len()
            ==> start_buffers(g, buffers, sources, frames)[i][k] == 0,
        !sources.has(g.nodes.keys()[i]) ==> start_buffers(g, buffers, sources, frames)[i][k] == 0,
{
}

/// A buffer is refused for a source exactly where some source belongs to a node and its samples
/// do not come in whole frames of that node.
pub proof fn law_ragged_sources_are_refused(g: RoutingGraph, sources: StringMap<Vec<u32>>)
    ensures
        source_error(g, sources) is Some <==> exists|i: int|
            {
                &&& 0 <= i < sources.keys().len()
                &&& g.nodes.has(#[trigger] sources.keys()[i])
                &&& if g.nodes.at(sources.keys()[i]).channels == 0 {
                    sources.values()[i]@.len() > 0
                } else {
                    sources.values()[i]@.len() % (g.nodes.at(sources.keys()[i]).channels as nat)
                        != 0
                }
            },
{
    let f = |i: int|
        {
            let id = sources.keys()[i];
            if g.nodes.has(id) && !aligned(sources.values()[i]@, g.nodes.at(id).channels) {
                Some(
                    EngineError::InvalidSourceSampleCount {
                        id: g.nodes.at(id).id,
                        channels: g.nodes.at(id).channels,
                    },
                )
            } else {
                None
            }
        };
    lemma_first_some_none(f, 0, sources.keys().len() as int);
    assert forall|i: int|
        0 <= i < sources.keys().len() && g.nodes.has(#[trigger] sources.keys()[i]) && !aligned(
            sources.values()[i]@,
            g.nodes.at(sources.keys()[i]).channels,
        ) implies source_error(g, sources) is Some by {
        assert(f(i) is Some);
    }
    if source_error(g, sources) is Some {
        let i = choose|i: int| 0 <= i < sources.keys().len() && (#[trigger] f(i)) is Some;
        assert(g.nodes.has(sources.keys()[i]));
    }
}

/// What comes out of a buffer: every node that audio can be sent to gives its audio, under its
/// own id, and no other node gives any.
pub proof fn law_every_sink_gives_its_audio<M: SampleMath>(
    math: &M,
    c: RenderContext,
    order: Seq<int>,
    frames: usize,
    start: RenderState,
    out: Seq<SinkBuffer>,
    after: RenderState,
    id: Seq<char>,
)
    requires
        c.graph.nodes.wf(),
        cycle_rendered(math, c, order, frames, start, out, after),
    ensures
        (exists|k: int| 0 <= k < out.len() && (#[trigger] out[k]).id@ == id) <==> (exists|i: int|
            0 <= i < c.graph.nodes.values().len() && c.graph.nodes.keys()[i] == id && (
            #[trigger] c.graph.nodes.values()[i]).kind.sink()),
{
    let g = c.graph;
    let n = order.len() as int;
    let end = choose|end: RenderState|
        {
            &&& #[trigger] routes_rendered(math, c, order, n, frames, start, end)
            &&& sinks_given(math, g, end, out, sink_places(g).len() as int)
            &&& after.pending == end.pending
            &&& after.chains == end.chains
            &&& crate::engine_state::left_at_nodes(g, end.buffers, out, after.buffers)
        };
    let is_sink = |i: int| g.nodes.values()[i].kind.sink();
    lemma_kept(is_sink, g.nodes.values().len() as int);
    let sinks = sink_places(g);
    if exists|i: int|
        0 <= i < g.nodes.values().len() && g.nodes.keys()[i] == id && (
        #[trigger] g.nodes.values()[i]).kind.sink() {
        let i = choose|i: int|
            0 <= i < g.nodes.values().len() && g.nodes.keys()[i] == id && (
            #[trigger] g.nodes.values()[i]).kind.sink();
        assert(is_sink(i));
        assert(sinks.contains(i));
        let k = sinks.index_of(i);
        assert(out[k].id@ == g.nodes.keys()[i]);
    }
    if exists|k: int| 0 <= k < out.len() && (#[trigger] out[k]).id@ == id {
        let k = choose|k: int| 0 <= k < out.len() && (#[trigger] out[k]).id@ == id;
        assert(is_sink(sinks[k]));
        assert(g.nodes.values()[sinks[k]].kind.sink());
    }
}

/// An engine that was just made delays each route by as many frames as it is told, all of them
/// silent, and begins with no audio at any node.
pub proof fn law_fresh_engines_hold_silence(
    state: EngineState,
    snapshot: EngineSnapshot,
    delay_frames: Seq<usize>,
    shifts: Map<Seq<char>, ShiftFrames>,
    k: int,
    i: int,
)
    requires
        fresh_state(state, snapshot, delay_frames, shifts),
        0 <= k < snapshot.graph.route_plan.routes@.len(),
        delay_frames[k] * snapshot.graph.route_plan.routes@[k].destination_channels <= usize::MAX,
    ensures
        state.audio().pending.len() == snapshot.graph.route_plan.routes@.len(),
        state.audio().pending[k].len() == delay_frames[k]
            * snapshot.graph.route_plan.routes@[k].destination_channels,
        0 <= i < state.audio().pending[k].len() ==> state.audio().pending[k][i] == 0,
        0 <= i < state.audio().buffers.len() ==> state.audio().buffers[i].len() == 0,
{
    assert(state.routes@[k].delay_line.pending() == state.audio().pending[k]);
    let n = delay_frames[k] as int;
    let channels = snapshot.graph.route_plan.routes@[k].destination_channels as int;
    assert(n * channels >= 0) by (nonlinear_arith)
        requires
            n >= 0,
            channels >= 0,
    ;
    if 0 <= i < state.audio().buffers.len() {
        assert(state.node_buffers.values()[i]@.len() == 0);
    }
}

} // verus!
