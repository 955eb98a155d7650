//! Rendering as a function: where the arithmetic gives one result for one input, so does
//! rendering.

use crate::delay::{frame_at, frames_of, shifted, TimeShiftState};
use crate::engine::{
    accumulated, averaged, gained, matrix_mixed, panned, sample_at, sink_finished, weighted_sum,
    SampleMath,
};
use crate::engine_state::{
    cycle_rendered, node_index, route_rendered, route_stages, routes_into, routes_rendered,
    sink_places, sinks_given, RenderContext, RenderState, SinkBuffer,
};
use crate::graph::{same_but_id, CompiledRoute, RoutingGraph};
use crate::number::{clamped_pan, Real32};
use crate::processors::{
    admitted_at, chain_ran, counted_at, filtered, processor_ran, route_ran, Admission,
    ProcessorControl, ProcessorState, ScheduledProcessor,
};
use crate::profile::{MixConfig, ProcessorKind};
use crate::sequences::lemma_kept_same;
use vstd::prelude::*;

verus! {

/// Whether the arithmetic gives one result for one input.
pub open spec fn is_function<M: SampleMath>(math: &M) -> bool {
    &&& forall|a: u32, b: u32, c: u32, x: u32, y: u32|
        #![trigger call_ensures(M::multiply_add, (math, a, b, c), x), call_ensures(M::multiply_add, (math, a, b, c), y)]
        call_ensures(M::multiply_add, (math, a, b, c), x) && call_ensures(
            M::multiply_add,
            (math, a, b, c),
            y,
        ) ==> x == y
    &&& forall|a: u32, b: u32, x: u32, y: u32|
        #![trigger call_ensures(M::plus, (math, a, b), x), call_ensures(M::plus, (math, a, b), y)]
        call_ensures(M::plus, (math, a, b), x) && call_ensures(M::plus, (math, a, b), y) ==> x == y
    &&& forall|a: u32, b: u32, x: u32, y: u32|
        #![trigger call_ensures(M::times, (math, a, b), x), call_ensures(M::times, (math, a, b), y)]
        call_ensures(M::times, (math, a, b), x) && call_ensures(M::times, (math, a, b), y) ==> x
            == y
    &&& forall|a: u32, x: u32, y: u32|
        #![trigger call_ensures(M::gain_factor, (math, a), x), call_ensures(M::gain_factor, (math, a), y)]
        call_ensures(M::gain_factor, (math, a), x) && call_ensures(M::gain_factor, (math, a), y)
            ==> x == y
    &&& forall|a: u32, x: (u32, u32), y: (u32, u32)|
        #![trigger call_ensures(M::pan_factors, (math, a), x), call_ensures(M::pan_factors, (math, a), y)]
        call_ensures(M::pan_factors, (math, a), x) && call_ensures(M::pan_factors, (math, a), y)
            ==> x == y
    &&& forall|a: u32, n: usize, x: u32, y: u32|
        #![trigger call_ensures(M::divided, (math, a, n), x), call_ensures(M::divided, (math, a, n), y)]
        call_ensures(M::divided, (math, a, n), x) && call_ensures(M::divided, (math, a, n), y) ==> x
            == y
    &&& forall|a: u32, b: u32, x: u32, y: u32|
        #![trigger call_ensures(M::limited, (math, a, b), x), call_ensures(M::limited, (math, a, b), y)]
        call_ensures(M::limited, (math, a, b), x) && call_ensures(M::limited, (math, a, b), y) ==> x
            == y
    &&& filters_are_functions(math)
}

/// Whether filters give one result for one input.
pub open spec fn filters_are_functions<M: SampleMath>(math: &M) -> bool {
    forall|
        kind: ProcessorKind,
        config: String,
        rate: u32,
        m: Vec<u32>,
        n: Vec<u32>,
        channels: usize,
        s: Vec<u32>,
        t: Vec<u32>,
        x: (Vec<u32>, Vec<u32>),
        y: (Vec<u32>, Vec<u32>),
    |
        #![trigger filtered(math, kind, config, rate, m, channels, s, x), filtered(math, kind, config, rate, n, channels, t, y)]
        filtered(math, kind, config, rate, m, channels, s, x) && filtered(
            math,
            kind,
            config,
            rate,
            n,
            channels,
            t,
            y,
        ) && m@ == n@ && s@ == t@ ==> x.0@ == y.0@ && x.1@ == y.1@
}

// ---------------------------------------------------------------------------
// Operations on buffers

proof fn lemma_one_sum<M: SampleMath>(
    math: &M,
    source: Seq<u32>,
    source_base: int,
    matrix: Seq<Real32>,
    row_base: int,
    n: int,
    x: u32,
    y: u32,
)
    requires
        is_function(math),
        weighted_sum(math, source, source_base, matrix, row_base, n, x),
        weighted_sum(math, source, source_base, matrix, row_base, n, y),
    ensures
        x == y,
    decreases n,
{
    if n > 0 {
        let sample = sample_at(source, source_base + n - 1);
        let factor = matrix[row_base + n - 1].bits;
        let a = choose|sum: u32| #[trigger]
            call_ensures(M::multiply_add, (math, sum, sample, factor), x) && weighted_sum(
                math,
                source,
                source_base,
                matrix,
                row_base,
                n - 1,
                sum,
            );
        let b = choose|sum: u32| #[trigger]
            call_ensures(M::multiply_add, (math, sum, sample, factor), y) && weighted_sum(
                math,
                source,
                source_base,
                matrix,
                row_base,
                n - 1,
                sum,
            );
        lemma_one_sum(math, source, source_base, matrix, row_base, n - 1, a, b);
    }
}

proof fn lemma_one_mix<M: SampleMath>(
    math: &M,
    source: Seq<u32>,
    source_channels: int,
    destination_channels: int,
    frames: int,
    matrix: Seq<Real32>,
    x: Seq<u32>,
    y: Seq<u32>,
)
    requires
        is_function(math),
        matrix_mixed(math, source, source_channels, destination_channels, frames, matrix, x),
        matrix_mixed(math, source, source_channels, destination_channels, frames, matrix, y),
    ensures
        x == y,
{
    if matrix.len() == source_channels * destination_channels {
        assert forall|i: int| 0 <= i < x.len() implies x[i] == y[i] by {
            lemma_one_sum(
                math,
                source,
                (i / destination_channels) * source_channels,
                matrix,
                (i % destination_channels) * source_channels,
                source_channels,
                x[i],
                y[i],
            );
        }
        assert(x =~= y);
    }
}

proof fn lemma_one_gain<M: SampleMath>(
    math: &M,
    before: Seq<u32>,
    gain_db: Real32,
    mute: bool,
    x: Seq<u32>,
    y: Seq<u32>,
)
    requires
        is_function(math),
        gained(math, before, gain_db, mute, x),
        gained(math, before, gain_db, mute, y),
    ensures
        x == y,
{
    if !mute {
        assert(x.len() == y.len());
        assert forall|i: int| 0 <= i < x.len() implies x[i] == y[i] by {}
        assert(x =~= y);
    }
}

proof fn lemma_one_pan<M: SampleMath>(
    math: &M,
    before: Seq<u32>,
    channels: int,
    pan: Real32,
    x: Seq<u32>,
    y: Seq<u32>,
)
    requires
        is_function(math),
        panned(math, before, channels, pan, x),
        panned(math, before, channels, pan, y),
    ensures
        x == y,
{
    if channels == 2 {
        assert(x.len() == y.len());
        assert forall|i: int| 0 <= i < x.len() implies x[i] == y[i] by {}
        assert(x =~= y);
    }
}

proof fn lemma_one_total<M: SampleMath>(
    math: &M,
    target: Seq<u32>,
    source: Seq<u32>,
    x: Seq<u32>,
    y: Seq<u32>,
)
    requires
        is_function(math),
        accumulated(math, target, source, x),
        accumulated(math, target, source, y),
    ensures
        x == y,
{
    assert forall|i: int| 0 <= i < x.len() implies x[i] == y[i] by {}
    assert(x =~= y);
}

proof fn lemma_one_finish<M: SampleMath>(
    math: &M,
    mix: Option<MixConfig>,
    contributions: usize,
    before: Seq<u32>,
    x: Seq<u32>,
    y: Seq<u32>,
)
    requires
        is_function(math),
        sink_finished(math, mix, contributions, before, x),
        sink_finished(math, mix, contributions, before, y),
    ensures
        x == y,
{
    if let Some(mix) = mix {
        let a = choose|middle: Seq<u32>|
            {
                &&& #[trigger] averaged(math, mix, contributions, before, middle)
                &&& if mix.limiter {
                    crate::engine::all_limited(math, middle, mix.limit_dbfs, x)
                } else {
                    x == middle
                }
            };
        let b = choose|middle: Seq<u32>|
            {
                &&& #[trigger] averaged(math, mix, contributions, before, middle)
                &&& if mix.limiter {
                    crate::engine::all_limited(math, middle, mix.limit_dbfs, y)
                } else {
                    y == middle
                }
            };
        assert(a.len() == b.len());
        assert forall|i: int| 0 <= i < a.len() implies a[i] == b[i] by {}
        assert(a =~= b);
        assert(x.len() == y.len());
        assert forall|i: int| 0 <= i < x.len() implies x[i] == y[i] by {}
        assert(x =~= y);
    }
}

// ---------------------------------------------------------------------------
// Processors

/// Whether two processors hold the same of the audio, and have the same for a plugin host.
pub open spec fn states_alike(a: ProcessorState, b: ProcessorState) -> bool {
    match (a, b) {
        (ProcessorState::Filter { memory: m }, ProcessorState::Filter { memory: n }) => m@ == n@,
        (ProcessorState::TimeShift(s), ProcessorState::TimeShift(t)) => {
            &&& s.delay_frames == t.delay_frames
            &&& s.channels == t.channels
            &&& s.pending() == t.pending()
        },
        (
            ProcessorState::Host { latest: x, request: p },
            ProcessorState::Host { latest: y, request: q },
        ) => {
            &&& match (x, y) {
                (None, None) => true,
                (Some(x), Some(y)) => x@ == y@,
                _ => false,
            }
            &&& match (p, q) {
                (None, None) => true,
                (Some(p), Some(q)) => {
                    &&& p.samples@ == q.samples@
                    &&& p.channels == q.channels
                    &&& p.frames == q.frames
                },
                _ => false,
            }
        },
        _ => false,
    }
}

/// Whether two processors are the same and hold the same.
pub open spec fn processors_alike(a: ScheduledProcessor, b: ScheduledProcessor) -> bool {
    &&& a.same_processor(b)
    &&& a.context == b.context
    &&& a.prepared == b.prepared
    &&& a.stats == b.stats
    &&& a.wf()
    &&& b.wf()
    &&& states_alike(a.state, b.state)
}

/// Whether two chains are alike, processor by processor.
pub open spec fn chains_alike(a: Seq<ScheduledProcessor>, b: Seq<ScheduledProcessor>) -> bool {
    &&& a.len() == b.len()
    &&& forall|k: int| 0 <= k < a.len() ==> processors_alike(#[trigger] a[k], b[k])
}

proof fn lemma_frames_fix_samples(channels: int, x: Seq<u32>, y: Seq<u32>, rest: Seq<u32>)
    requires
        channels > 0,
        x.len() == y.len(),
        x.len() == rest.len(),
        frames_of(x, channels) == frames_of(y, channels),
        forall|k: int|
            frames_of(rest, channels).len() * channels <= k < rest.len() ==> #[trigger] x[k]
                == rest[k],
        forall|k: int|
            frames_of(rest, channels).len() * channels <= k < rest.len() ==> #[trigger] y[k]
                == rest[k],
    ensures
        x == y,
{
    let n = x.len() as int / channels;
    assert(frames_of(rest, channels).len() == n);
    assert forall|k: int| 0 <= k < x.len() implies x[k] == y[k] by {
        if k < n * channels {
            let f = k / channels;
            let c = k % channels;
            assert(0 <= f < n && 0 <= c < channels && k == f * channels + c && f * channels
                + channels <= n * channels && n * channels <= x.len()) by (nonlinear_arith)
                requires
                    0 <= k < n * channels,
                    channels > 0,
                    f == k / channels,
                    c == k % channels,
                    n == x.len() as int / channels,
            ;
            assert(frames_of(x, channels)[f] == frame_at(x, channels, f));
            assert(frames_of(y, channels)[f] == frame_at(y, channels, f));
            assert(frame_at(x, channels, f)[c] == x[k]);
            assert(frame_at(y, channels, f)[c] == y[k]);
        }
    }
    assert(x =~= y);
}

proof fn lemma_one_shift(
    s: TimeShiftState,
    t: TimeShiftState,
    s_after: TimeShiftState,
    t_after: TimeShiftState,
    channels: usize,
    input: Seq<u32>,
    x: Seq<u32>,
    y: Seq<u32>,
)
    requires
        s.wf(),
        s.delay_frames == t.delay_frames,
        s.channels == t.channels,
        s.pending() == t.pending(),
        shifted(s, s_after, channels, input, x),
        shifted(t, t_after, channels, input, y),
    ensures
        x == y,
        s_after.delay_frames == t_after.delay_frames,
        s_after.channels == t_after.channels,
        s_after.pending() == t_after.pending(),
{
    if s.delay_frames > 0 && s.channels == channels {
        lemma_frames_fix_samples(channels as int, x, y, input);
    }
}

proof fn lemma_one_processing<M: SampleMath>(
    math: &M,
    p: ScheduledProcessor,
    q: ScheduledProcessor,
    p_after: ProcessorState,
    q_after: ProcessorState,
    admitted: Admission,
    channels: usize,
    frames: usize,
    input: Seq<u32>,
    x: Seq<u32>,
    y: Seq<u32>,
)
    requires
        is_function(math),
        processors_alike(p, q),
        processor_ran(math, p, p_after, admitted, channels, frames, input, x),
        processor_ran(math, q, q_after, admitted, channels, frames, input, y),
    ensures
        x == y,
        states_alike(p_after, q_after),
{
    if admitted == Admission::Processed {
        if let ProcessorState::TimeShift(s) = p.state {
            let t = q.state->TimeShift_0;
            lemma_one_shift(
                s,
                t,
                p_after->TimeShift_0,
                q_after->TimeShift_0,
                channels,
                input,
                x,
                y,
            );
        }
    }
}

proof fn lemma_one_chain<M: SampleMath>(
    math: &M,
    a: Seq<ScheduledProcessor>,
    b: Seq<ScheduledProcessor>,
    a_after: Seq<ScheduledProcessor>,
    b_after: Seq<ScheduledProcessor>,
    controls: Map<Seq<char>, ProcessorControl>,
    channels: usize,
    frames: usize,
    n: int,
    input: Seq<u32>,
    x: Seq<u32>,
    y: Seq<u32>,
)
    requires
        is_function(math),
        chains_alike(a, b),
        0 <= n <= a.len(),
        chain_ran(math, a, a_after, controls, channels, frames, n, input, x),
        chain_ran(math, b, b_after, controls, channels, frames, n, input, y),
    ensures
        x == y,
        forall|k: int|
            0 <= k < n ==> states_alike((#[trigger] a_after[k]).state, b_after[k].state),
    decreases n,
{
    if n > 0 {
        assert(processors_alike(a[n - 1], b[n - 1]));
        let p = choose|middle: Seq<u32>| #[trigger]
            processor_ran(
                math,
                a[n - 1],
                a_after[n - 1].state,
                admitted_at(a[n - 1], controls, channels, frames),
                channels,
                frames,
                middle,
                x,
            ) && chain_ran(math, a, a_after, controls, channels, frames, n - 1, input, middle);
        let q = choose|middle: Seq<u32>| #[trigger]
            processor_ran(
                math,
                b[n - 1],
                b_after[n - 1].state,
                admitted_at(b[n - 1], controls, channels, frames),
                channels,
                frames,
                middle,
                y,
            ) && chain_ran(math, b, b_after, controls, channels, frames, n - 1, input, middle);
        lemma_one_chain(
            math,
            a,
            b,
            a_after,
            b_after,
            controls,
            channels,
            frames,
            n - 1,
            input,
            p,
            q,
        );
        lemma_one_processing(
            math,
            a[n - 1],
            b[n - 1],
            a_after[n - 1].state,
            b_after[n - 1].state,
            admitted_at(a[n - 1], controls, channels, frames),
            channels,
            frames,
            p,
            x,
            y,
        );
    }
}

/// Whether the processors of all routes are alike.
pub open spec fn schedules_alike(
    a: Seq<Vec<ScheduledProcessor>>,
    b: Seq<Vec<ScheduledProcessor>>,
) -> bool {
    &&& a.len() == b.len()
    &&& forall|i: int| 0 <= i < a.len() ==> chains_alike((#[trigger] a[i])@, b[i]@)
}

proof fn lemma_one_route_run<M: SampleMath>(
    math: &M,
    ids: Seq<Seq<char>>,
    controls: Map<Seq<char>, ProcessorControl>,
    route_id: Seq<char>,
    channels: usize,
    frames: usize,
    a: Seq<Vec<ScheduledProcessor>>,
    b: Seq<Vec<ScheduledProcessor>>,
    a_after: Seq<Vec<ScheduledProcessor>>,
    b_after: Seq<Vec<ScheduledProcessor>>,
    input: Seq<u32>,
    x: Seq<u32>,
    y: Seq<u32>,
)
    requires
        is_function(math),
        ids.len() == a.len(),
        schedules_alike(a, b),
        route_ran(math, ids, controls, route_id, channels, frames, a, a_after, input, x),
        route_ran(math, ids, controls, route_id, channels, frames, b, b_after, input, y),
    ensures
        x == y,
        schedules_alike(a_after, b_after),
{
    if ids.contains(route_id) {
        let place = ids.index_of(route_id);
        assert(chains_alike(a[place]@, b[place]@));
        lemma_one_chain(
            math,
            a[place]@,
            b[place]@,
            a_after[place]@,
            b_after[place]@,
            controls,
            channels,
            frames,
            a[place]@.len() as int,
            input,
            x,
            y,
        );
        assert forall|i: int| 0 <= i < a_after.len() implies chains_alike(
            (#[trigger] a_after[i])@,
            b_after[i]@,
        ) by {
            if i == place {
                assert forall|k: int| 0 <= k < a_after[i]@.len() implies processors_alike(
                    #[trigger] a_after[i]@[k],
                    b_after[i]@[k],
                ) by {
                    assert(processors_alike(a[place]@[k], b[place]@[k]));
                    assert(counted_at(a_after[i]@[k], a[place]@[k], controls, channels, frames));
                    assert(counted_at(b_after[i]@[k], b[place]@[k], controls, channels, frames));
                }
            } else {
                assert(chains_alike(a[i]@, b[i]@));
            }
        }
    }
}

// ---------------------------------------------------------------------------
// Whole buffers

/// Whether two graphs render alike: the same nodes, and the same routes but for their ids.
pub open spec fn graphs_alike(g: RoutingGraph, h: RoutingGraph) -> bool {
    &&& g.nodes.keys() == h.nodes.keys()
    &&& g.nodes.values() == h.nodes.values()
    &&& g.route_plan.routes@.len() == h.route_plan.routes@.len()
    &&& forall|k: int|
        0 <= k < g.route_plan.routes@.len() ==> same_but_id(
            #[trigger] g.route_plan.routes@[k],
            h.route_plan.routes@[k],
        )
}

/// Whether the processors of two graphs are found alike: under the same ids, or there are
/// none.
pub open spec fn chains_found_alike(c: RenderContext, d: RenderContext) -> bool {
    ||| c.chain_ids.len() == 0 && d.chain_ids.len() == 0
    ||| {
        &&& c.chain_ids == d.chain_ids
        &&& c.controls == d.controls
        &&& forall|k: int|
            0 <= k < c.graph.route_plan.routes@.len() ==> (
            #[trigger] c.graph.route_plan.routes@[k]).id@ == d.graph.route_plan.routes@[k].id@
    }
}

/// Whether two states are alike: the same audio at all nodes and in all delays, and alike
/// processors.
pub open spec fn render_states_alike(a: RenderState, b: RenderState) -> bool {
    &&& a.buffers == b.buffers
    &&& a.pending == b.pending
    &&& schedules_alike(a.chains, b.chains)
}

proof fn lemma_one_route<M: SampleMath>(
    math: &M,
    c: RenderContext,
    d: RenderContext,
    r: int,
    frames: usize,
    a: RenderState,
    b: RenderState,
    a_after: RenderState,
    b_after: RenderState,
)
    requires
        is_function(math),
        graphs_alike(c.graph, d.graph),
        chains_found_alike(c, d),
        0 <= r < c.graph.route_plan.routes@.len(),
        c.chain_ids.len() == a.chains.len(),
        render_states_alike(a, b),
        route_rendered(math, c, r, frames, a, a_after),
        route_rendered(math, d, r, frames, b, b_after),
    ensures
        render_states_alike(a_after, b_after),
        a_after.chains.len() == a.chains.len(),
{
    let (m, p, l, q, t) = choose|
        mixed: Seq<u32>,
        processed: Seq<u32>,
        louder: Seq<u32>,
        placed: Seq<u32>,
        total: Seq<u32>,
    |
        route_stages(math, c, r, frames, a, a_after, mixed, processed, louder, placed, total);
    let (m2, p2, l2, q2, t2) = choose|
        mixed: Seq<u32>,
        processed: Seq<u32>,
        louder: Seq<u32>,
        placed: Seq<u32>,
        total: Seq<u32>,
    |
        route_stages(math, d, r, frames, b, b_after, mixed, processed, louder, placed, total);
    let route = c.graph.route_plan.routes@[r];
    let other = d.graph.route_plan.routes@[r];
    assert(same_but_id(route, other));
    let from = node_index(c.graph, route.from@);
    let to = node_index(c.graph, route.to@);
    lemma_one_mix(
        math,
        a.buffers[from],
        route.source_channels as int,
        route.destination_channels as int,
        frames as int,
        route.matrix@,
        m,
        m2,
    );
    if c.chain_ids.len() == 0 && d.chain_ids.len() == 0 {
        assert(!c.chain_ids.contains(route.id@));
        assert(!d.chain_ids.contains(other.id@));
    } else {
        lemma_one_route_run(
            math,
            c.chain_ids,
            c.controls,
            route.id@,
            route.destination_channels as usize,
            frames,
            a.chains,
            b.chains,
            a_after.chains,
            b_after.chains,
            m,
            p,
            p2,
        );
    }
    lemma_one_gain(math, p, route.gain_db, route.mute, l, l2);
    lemma_one_pan(
        math,
        l,
        route.destination_channels as int,
        clamped_pan(route.pan),
        q,
        q2,
    );
    lemma_one_total(
        math,
        a.buffers[to],
        crate::delay::delayed(a.pending[r], q),
        t,
        t2,
    );
}

proof fn lemma_one_rendering<M: SampleMath>(
    math: &M,
    c: RenderContext,
    d: RenderContext,
    order: Seq<int>,
    n: int,
    frames: usize,
    a: RenderState,
    b: RenderState,
    a_end: RenderState,
    b_end: RenderState,
)
    requires
        is_function(math),
        graphs_alike(c.graph, d.graph),
        chains_found_alike(c, d),
        n <= order.len(),
        forall|k: int|
            0 <= k < order.len() ==> 0 <= #[trigger] order[k] < c.graph.route_plan.routes@.len(),
        c.chain_ids.len() == a.chains.len(),
        render_states_alike(a, b),
        routes_rendered(math, c, order, n, frames, a, a_end),
        routes_rendered(math, d, order, n, frames, b, b_end),
    ensures
        render_states_alike(a_end, b_end),
        a_end.chains.len() == a.chains.len(),
    decreases n,
{
    if n > 0 {
        let p = choose|middle: RenderState| #[trigger]
            route_rendered(math, c, order[n - 1], frames, middle, a_end) && routes_rendered(
                math,
                c,
                order,
                n - 1,
                frames,
                a,
                middle,
            );
        let q = choose|middle: RenderState| #[trigger]
            route_rendered(math, d, order[n - 1], frames, middle, b_end) && routes_rendered(
                math,
                d,
                order,
                n - 1,
                frames,
                b,
                middle,
            );
        lemma_one_rendering(math, c, d, order, n - 1, frames, a, b, p, q);
        lemma_one_route(math, c, d, order[n - 1], frames, p, q, a_end, b_end);
    }
}

proof fn lemma_routes_into_same(
    routes: Seq<CompiledRoute>,
    others: Seq<CompiledRoute>,
    id: Seq<char>,
    n: int,
)
    requires
        n <= routes.len(),
        forall|k: int| 0 <= k < n ==> (#[trigger] routes[k]).to@ == others[k].to@,
    ensures
        routes_into(routes, id, n) == routes_into(others, id, n),
    decreases n,
{
    if n > 0 {
        lemma_routes_into_same(routes, others, id, n - 1);
        assert(routes[n - 1].to@ == others[n - 1].to@);
    }
}

/// Whether the same comes out at the same sinks.
pub open spec fn sinks_same(x: Seq<SinkBuffer>, y: Seq<SinkBuffer>) -> bool {
    &&& x.len() == y.len()
    &&& forall|i: int|
        0 <= i < x.len() ==> (#[trigger] x[i]).id@ == y[i].id@ && x[i].samples@ == y[i].samples@
}

/// Two graphs that render alike give the same from alike states, and go on from alike states,
/// where the arithmetic is a function.
pub proof fn law_rendering_is_a_function<M: SampleMath>(
    math: &M,
    c: RenderContext,
    d: RenderContext,
    order: Seq<int>,
    frames: usize,
    a: RenderState,
    b: RenderState,
    x: Seq<SinkBuffer>,
    y: Seq<SinkBuffer>,
    a_after: RenderState,
    b_after: RenderState,
)
    requires
        is_function(math),
        graphs_alike(c.graph, d.graph),
        chains_found_alike(c, d),
        forall|k: int|
            0 <= k < order.len() ==> 0 <= #[trigger] order[k] < c.graph.route_plan.routes@.len(),
        c.chain_ids.len() == a.chains.len(),
        render_states_alike(a, b),
        cycle_rendered(math, c, order, frames, a, x, a_after),
        cycle_rendered(math, d, order, frames, b, y, b_after),
    ensures
        sinks_same(x, y),
        render_states_alike(a_after, b_after),
        a_after.chains.len() == a.chains.len(),
{
    let n = order.len() as int;
    let g = c.graph;
    let h = d.graph;
    let p = choose|end: RenderState|
        {
            &&& #[trigger] routes_rendered(math, c, order, n, frames, a, end)
            &&& sinks_given(math, g, end, x, sink_places(g).len() as int)
            &&& a_after.pending == end.pending
            &&& a_after.chains == end.chains
            &&& crate::engine_state::left_at_nodes(g, end.buffers, x, a_after.buffers)
        };
    let q = choose|end: RenderState|
        {
            &&& #[trigger] routes_rendered(math, d, order, n, frames, b, end)
            &&& sinks_given(math, h, end, y, sink_places(h).len() as int)
            &&& b_after.pending == end.pending
            &&& b_after.chains == end.chains
            &&& crate::engine_state::left_at_nodes(h, end.buffers, y, b_after.buffers)
        };
    lemma_one_rendering(math, c, d, order, n, frames, a, b, p, q);
    lemma_kept_same(
        |i: int| g.nodes.values()[i].kind.sink(),
        |i: int| h.nodes.values()[i].kind.sink(),
        g.nodes.values().len() as int,
    );
    let sinks = sink_places(g);
    assert(sinks == sink_places(h));
    let routes = g.route_plan.routes@;
    let others = h.route_plan.routes@;
    assert forall|i: int| 0 <= i < x.len() implies (#[trigger] x[i]).id@ == y[i].id@ && x[i].samples@
        == y[i].samples@ by {
        let id = g.nodes.keys()[sinks[i]];
        assert(y[i].id@ == id);
        assert forall|k: int| 0 <= k < routes.len() implies (#[trigger] routes[k]).to@
            == others[k].to@ by {
            assert(same_but_id(routes[k], others[k]));
        }
        lemma_routes_into_same(routes, others, id, routes.len() as int);
        assert(routes_into(routes, id, routes.len() as int) == routes_into(
            others,
            id,
            others.len() as int,
        ));
        assert(sink_finished(
            math,
            h.nodes.values()[sinks[i]].mix,
            routes_into(others, h.nodes.keys()[sinks[i]], others.len() as int) as usize,
            q.buffers[sinks[i]],
            y[i].samples@,
        ));
        lemma_one_finish(
            math,
            g.nodes.values()[sinks[i]].mix,
            routes_into(routes, id, routes.len() as int) as usize,
            p.buffers[sinks[i]],
            x[i].samples@,
            y[i].samples@,
        );
    }
    assert forall|i: int| 0 <= i < a_after.buffers.len() implies a_after.buffers[i]
        == b_after.buffers[i] by {
        if sinks.contains(i) {
            let k = sinks.index_of(i);
            assert(a_after.buffers[sinks[k]] == x[k].samples@);
            assert(b_after.buffers[sinks[k]] == y[k].samples@);
            assert(x[k].id@ == y[k].id@);
        } else {
            assert(a_after.buffers[i] == p.buffers[i]);
            assert(b_after.buffers[i] == q.buffers[i]);
        }
    }
    assert(a_after.buffers =~= b_after.buffers);
}

// ---------------------------------------------------------------------------
// Without processors

proof fn lemma_route_admitted<M: SampleMath>(
    math: &M,
    c: RenderContext,
    d: RenderContext,
    r: int,
    frames: usize,
    a: RenderState,
    b: RenderState,
)
    requires
        graphs_alike(c.graph, d.graph),
        c.chain_ids.len() == 0,
        d.chain_ids.len() == 0,
        0 <= r < c.graph.route_plan.routes@.len(),
        route_rendered(math, c, r, frames, a, b),
    ensures
        route_rendered(math, d, r, frames, a, b),
{
    let (m, p, l, q, t) = choose|
        mixed: Seq<u32>,
        processed: Seq<u32>,
        louder: Seq<u32>,
        placed: Seq<u32>,
        total: Seq<u32>,
    |
        route_stages(math, c, r, frames, a, b, mixed, processed, louder, placed, total);
    assert(same_but_id(c.graph.route_plan.routes@[r], d.graph.route_plan.routes@[r]));
    assert(route_stages(math, d, r, frames, a, b, m, p, l, q, t));
}

proof fn lemma_routes_admitted<M: SampleMath>(
    math: &M,
    c: RenderContext,
    d: RenderContext,
    order: Seq<int>,
    n: int,
    frames: usize,
    a: RenderState,
    end: RenderState,
)
    requires
        graphs_alike(c.graph, d.graph),
        c.chain_ids.len() == 0,
        d.chain_ids.len() == 0,
        n <= order.len(),
        forall|k: int|
            0 <= k < order.len() ==> 0 <= #[trigger] order[k] < c.graph.route_plan.routes@.len(),
        routes_rendered(math, c, order, n, frames, a, end),
    ensures
        routes_rendered(math, d, order, n, frames, a, end),
    decreases n,
{
    if n > 0 {
        let p = choose|middle: RenderState| #[trigger]
            route_rendered(math, c, order[n - 1], frames, middle, end) && routes_rendered(
                math,
                c,
                order,
                n - 1,
                frames,
                a,
                middle,
            );
        lemma_routes_admitted(math, c, d, order, n - 1, frames, a, p);
        lemma_route_admitted(math, c, d, order[n - 1], frames, p, end);
    }
}

/// Two graphs that render alike admit the same, whatever the arithmetic gives: what can come of
/// a buffer over the one, without processors, can come of it over the other.
pub proof fn law_alike_graphs_admit_the_same<M: SampleMath>(
    math: &M,
    c: RenderContext,
    d: RenderContext,
    order: Seq<int>,
    frames: usize,
    a: RenderState,
    x: Seq<SinkBuffer>,
    a_after: RenderState,
)
    requires
        graphs_alike(c.graph, d.graph),
        c.chain_ids.len() == 0,
        d.chain_ids.len() == 0,
        forall|k: int|
            0 <= k < order.len() ==> 0 <= #[trigger] order[k] < c.graph.route_plan.routes@.len(),
        cycle_rendered(math, c, order, frames, a, x, a_after),
    ensures
        cycle_rendered(math, d, order, frames, a, x, a_after),
{
    let n = order.len() as int;
    let g = c.graph;
    let h = d.graph;
    let p = choose|end: RenderState|
        {
            &&& #[trigger] routes_rendered(math, c, order, n, frames, a, end)
            &&& sinks_given(math, g, end, x, sink_places(g).len() as int)
            &&& a_after.pending == end.pending
            &&& a_after.chains == end.chains
            &&& crate::engine_state::left_at_nodes(g, end.buffers, x, a_after.buffers)
        };
    lemma_routes_admitted(math, c, d, order, n, frames, a, p);
    lemma_kept_same(
        |i: int| g.nodes.values()[i].kind.sink(),
        |i: int| h.nodes.values()[i].kind.sink(),
        g.nodes.values().len() as int,
    );
    let sinks = sink_places(g);
    assert(sinks == sink_places(h));
    let routes = g.route_plan.routes@;
    let others = h.route_plan.routes@;
    assert forall|k: int| 0 <= k < routes.len() implies (#[trigger] routes[k]).to@ == others[k].to@ by {
        assert(same_but_id(routes[k], others[k]));
    }
    assert forall|i: int| 0 <= i < x.len() implies sink_finished(
        math,
        h.nodes.values()[sinks[i]].mix,
        routes_into(others, h.nodes.keys()[sinks[i]], others.len() as int) as usize,
        p.buffers[sinks[i]],
        (#[trigger] x[i]).samples@,
    ) by {
        lemma_routes_into_same(routes, others, g.nodes.keys()[sinks[i]], routes.len() as int);
    }
    assert(sinks_given(math, h, p, x, sinks.len() as int));
}

} // verus!
