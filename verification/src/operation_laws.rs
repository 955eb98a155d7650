//! What the operations of the router do, stated of the operations themselves: rendering, taps,
//! devices outside, recordings, rings, the render loop and the state of the daemon.

use crate::api::ApiError;
use crate::apply::ApplyResult;
use crate::capture_runtime::{
    calls_since, count_calls, destroys_tap, law_failed_start_is_balanced,
    law_start_and_stop_are_balanced, makes_tap, CaptureRuntime, CaptureRuntimeStatus, TapBackend,
    TapCall,
};
use crate::daemon::{DaemonState, MarsDaemon};
use crate::devices::{
    deduped, law_devices_tell_who_manages_them, law_first_of_each_id_is_kept, named_devices,
    DeviceDescriptor, ResolvedExternalDevice,
};
use crate::engine::{EngineError, SampleMath};
use crate::engine_state::{as_places, start_state, SinkBuffer};
use crate::external_io::{
    EndpointKind, EndpointPhase, ExternalEndpointConfig, ExternalRuntimeStatus,
};
use crate::external_runtime::{ExternalIoRuntime, RecoveryEvent};
use crate::graph::{GraphError, RoutingGraph};
use crate::processors::ProcessorControl;
use crate::profile::Profile;
use crate::render_engine::{cycle_outcome, sinks_by_id, Engine, RenderOutput};
use crate::render_loop::{RenderMetrics, RingRead};
use crate::ring::Ring;
use crate::route_laws::{law_every_sink_gives_its_audio, law_ragged_sources_are_refused};
use crate::sequences::views;
use crate::sink_runtime::{SinkBatch, SinkRuntime, SinkRuntimeHealth};
use crate::string_map::StringMap;
use vstd::prelude::*;

verus! {

// ---------------------------------------------------------------------------
// Rendering

/// A buffer is rendered exactly where it has frames and no source is ragged; then every node that
/// audio can be sent to, and no other, gives its audio under its id. What is rendered, and how
/// processors are controlled and found, stays.
pub proof fn law_render_cycle<M: SampleMath>(
    engine: &mut Engine,
    frames: usize,
    sources: StringMap<Vec<u32>>,
    math: &M,
    r: Result<RenderOutput, EngineError>,
    id: Seq<char>,
)
    requires
        old(engine).wf(),
        call_ensures(Engine::render_cycle::<M>, (engine, frames, &sources, math), r),
    ensures
        final(engine).wf(),
        final(engine).snapshot == old(engine).snapshot,
        final(engine).processor_controls == old(engine).processor_controls,
        final(engine).state.schedule.route_chains.keys()
            == old(engine).state.schedule.route_chains.keys(),
        frames == 0 ==> r is Err && r->Err_0 is InvalidFrames && *final(engine) == *old(engine),
        r is Ok <==> frames > 0 && !(exists|i: int|
            {
                &&& 0 <= i < sources.keys().len()
                &&& old(engine).snapshot.graph.nodes.has(#[trigger] sources.keys()[i])
                &&& if old(engine).snapshot.graph.nodes.at(sources.keys()[i]).channels == 0 {
                    sources.values()[i]@.len() > 0
                } else {
                    sources.values()[i]@.len() % (old(engine).snapshot.graph.nodes.at(
                        sources.keys()[i],
                    ).channels as nat) != 0
                }
            }),
        r is Ok ==> (r->Ok_0.sinks@.dom().contains(id) <==> (exists|i: int|
            0 <= i < old(engine).snapshot.graph.nodes.values().len()
                && old(engine).snapshot.graph.nodes.keys()[i] == id && (
            #[trigger] old(engine).snapshot.graph.nodes.values()[i]).kind.sink())),
        r is Ok ==> r->Ok_0.counters.xrun_count == 0 && r->Ok_0.counters.deadline_miss_count == 0,
{
    let graph = old(engine).snapshot.graph;
    law_ragged_sources_are_refused(graph, sources);
    if r is Ok {
        let out = choose|out: Vec<SinkBuffer>|
            sinks_by_id(r->Ok_0.sinks@, out@) && #[trigger] cycle_outcome(
                math,
                *old(engine),
                *final(engine),
                frames,
                sources,
                Ok(out),
            );
        law_every_sink_gives_its_audio(
            math,
            old(engine).state.context(graph, old(engine).processor_controls@),
            as_places(old(engine).state.order@),
            frames,
            start_state(graph, old(engine).state.audio(), sources, frames),
            out@,
            final(engine).state.audio(),
            id,
        );
        if r->Ok_0.sinks@.dom().contains(id) {
            let k = choose|k: int| 0 <= k < out@.len() && (#[trigger] out@[k]).id@ == id;
            assert(out@[k].id@ == id);
        }
        if exists|k: int| 0 <= k < out@.len() && (#[trigger] out@[k]).id@ == id {
            let k = choose|k: int| 0 <= k < out@.len() && (#[trigger] out@[k]).id@ == id;
            assert(r->Ok_0.sinks@.dom().contains(out@[k].id@));
        }
    }
}

/// A processor is controlled as it was told last, and no other is touched.
pub proof fn law_update_processor_control(
    engine: &mut Engine,
    id: String,
    control: ProcessorControl,
    other: Seq<char>,
)
    requires
        old(engine).wf(),
        call_ensures(Engine::update_processor_control, (engine, id, control), ()),
        other != id@,
    ensures
        final(engine).processor_controls@.dom().contains(id@),
        final(engine).processor_controls@[id@] == control,
        final(engine).processor_controls@.dom().contains(other) <==> old(
            engine,
        ).processor_controls@.dom().contains(other),
        old(engine).processor_controls@.dom().contains(other)
            ==> final(engine).processor_controls@[other] == old(engine).processor_controls@[other],
        final(engine).snapshot == old(engine).snapshot,
        final(engine).state == old(engine).state,
{
}

// ---------------------------------------------------------------------------
// Devices

/// The devices of a profile: each id once, with the first device of it, and of the virtual devices
/// all are managed.
pub proof fn law_collect_devices(
    profile: Profile,
    resolved: Vec<ResolvedExternalDevice>,
    pid: u32,
    r: Vec<DeviceDescriptor>,
    i: int,
)
    requires
        call_ensures(crate::devices::collect_devices, (&profile, &resolved, pid), r),
        0 <= i < profile.virtual_devices.outputs@.len(),
        forall|j: int|
            0 <= j < i ==> (#[trigger] profile.virtual_devices.outputs@[j]).id@
                != profile.virtual_devices.outputs@[i].id@,
    ensures
        exists|k: int|
            0 <= k < r@.len() && (#[trigger] r@[k]).id@ == profile.virtual_devices.outputs@[i].id@
                && r@[k].name@ == profile.virtual_devices.outputs@[i].name@ && r@[k].managed
                && r@[k].kind == crate::profile::NodeKind::VirtualOutput,
{
    let all = named_devices(profile, resolved@, pid);
    law_devices_tell_who_manages_them(profile, resolved@, pid, i);
    assert forall|j: int| 0 <= j < i implies (#[trigger] all[j]).id != all[i].id by {
        assert(profile.virtual_devices.outputs@[j].id@ != profile.virtual_devices.outputs@[i].id@);
    }
    law_first_of_each_id_is_kept(all, i, 0);
    let kept = deduped(all);
    let k = kept.index_of(all[i]);
    assert(views(r@)[k] == all[i]);
    assert(views(r@).len() == r@.len());
    assert(r@[k]@ == all[i]);
}

/// A graph is built exactly where nothing about the profile is wrong, and is that of the profile.
pub proof fn law_build_routing_graph(profile: Profile, r: Result<RoutingGraph, GraphError>)
    requires
        call_ensures(crate::graph::build_routing_graph, (&profile,), r),
    ensures
        r is Ok <==> crate::graph::graph_error(profile) is None,
        r is Ok ==> crate::graph::graph_of(profile, r->Ok_0),
        r is Err ==> crate::graph::graph_error(profile) == Some(r->Err_0),
{
}

// ---------------------------------------------------------------------------
// Taps

/// A start that fails has destroyed every tap that it made, and one that succeeds none; over a
/// start and a stop as many taps are destroyed as are made.
pub proof fn law_start_and_stop<B: TapBackend>(
    profile: Profile,
    started: &mut B,
    stopped: &mut B,
    pid: u32,
    r: Result<CaptureRuntime, String>,
    status: CaptureRuntimeStatus,
)
    requires
        call_ensures(CaptureRuntime::start_with_backend::<B>, (&profile, started, pid), r),
        r is Ok ==> call_ensures(CaptureRuntime::stop::<B>, (r->Ok_0, stopped), status),
    ensures
        ({
            let calls = calls_since(old(started).calls(), final(started).calls());
            let later = calls_since(old(stopped).calls(), final(stopped).calls());
            &&& old(started).calls().is_prefix_of(final(started).calls())
            &&& r is Err ==> count_calls(
                calls,
                |c: TapCall|
                    c is CreateProcessTap && c->CreateProcessTap_answer is Ok || c is CreateSystemTap
                        && c->CreateSystemTap_answer is Ok,
            ) == count_calls(calls, |c: TapCall| c is DestroyTap)
            &&& r is Ok ==> count_calls(calls, |c: TapCall| c is DestroyTap) == 0
            &&& r is Ok ==> later.len() == r->Ok_0.active@.len()
            &&& r is Ok ==> status.active_taps == 0
        }),
{
    let calls = calls_since(old(started).calls(), final(started).calls());
    let later = calls_since(old(stopped).calls(), final(stopped).calls());
    let made = |c: TapCall|
        c is CreateProcessTap && c->CreateProcessTap_answer is Ok || c is CreateSystemTap
            && c->CreateSystemTap_answer is Ok;
    let destroyed = |c: TapCall| c is DestroyTap;
    assert(made =~= |c: TapCall| makes_tap(c));
    assert(destroyed =~= |c: TapCall| destroys_tap(c));
    match r {
        Err(text) => law_failed_start_is_balanced(calls, profile, pid, text),
        Ok(rt) => law_start_and_stop_are_balanced(calls, later, profile, pid, rt),
    }
}

// ---------------------------------------------------------------------------
// External devices

/// What is captured goes behind what waits, as far as there is room; what does not fit is an
/// overrun of the endpoint and of the whole.
pub proof fn law_accept_captured(runtime: &mut ExternalIoRuntime, index: usize, samples: Vec<u32>)
    requires
        old(runtime).wf(),
        index < old(runtime).input_endpoints.values().len(),
        call_ensures(ExternalIoRuntime::accept_captured, (runtime, index, &samples), ()),
        samples@.len() > 0,
        old(runtime).overrun_count < u64::MAX,
    ensures
        ({
            let before = old(runtime).input_endpoints.values()[index as int];
            let after = final(runtime).input_endpoints.values()[index as int];
            let room = before.queue@.len() + samples@.len() <= before.link.max_samples;
            &&& room ==> after.queue@ == before.queue@ + samples@
            &&& room ==> final(runtime).overrun_count == old(runtime).overrun_count
            &&& !room ==> final(runtime).overrun_count == old(runtime).overrun_count + 1
            &&& !room ==> after.queue@.len() == before.link.max_samples
            &&& final(runtime).underrun_count == old(runtime).underrun_count
            &&& final(runtime).output_endpoints == old(runtime).output_endpoints
        }),
{
}

/// What is played is what was queued first; where there is not enough, silence follows and that
/// is an underrun.
pub proof fn law_supply_playback(
    runtime: &mut ExternalIoRuntime,
    index: usize,
    out: &mut Vec<u32>,
    i: int,
)
    requires
        old(runtime).wf(),
        index < old(runtime).output_endpoints.values().len(),
        call_ensures(ExternalIoRuntime::supply_playback, (runtime, index, out), ()),
        old(runtime).underrun_count < u64::MAX,
        0 <= i < old(out)@.len(),
    ensures
        ({
            let before = old(runtime).output_endpoints.values()[index as int];
            let after = final(runtime).output_endpoints.values()[index as int];
            let enough = before.queue@.len() >= old(out)@.len();
            &&& final(out)@.len() == old(out)@.len()
            &&& i < before.queue@.len() ==> final(out)@[i] == before.queue@[i]
            &&& i >= before.queue@.len() ==> final(out)@[i] == 0
            &&& enough ==> after.queue@ =~= before.queue@.skip(old(out)@.len() as int)
            &&& enough ==> final(runtime).underrun_count == old(runtime).underrun_count
            &&& !enough ==> final(runtime).underrun_count == old(runtime).underrun_count + 1
            &&& !enough ==> after.queue@.len() == 0
            &&& final(runtime).input_endpoints == old(runtime).input_endpoints
        }),
{
}

/// An endpoint that is read by its node gives what it has, and a node without one is told that
/// there is none; what misses is counted.
pub proof fn law_read_input_into<F: Fn(u32, u32) -> u32>(
    runtime: &mut ExternalIoRuntime,
    node_id: &str,
    out: &mut Vec<u32>,
    average: F,
    r: bool,
    i: int,
)
    requires
        old(runtime).wf(),
        call_ensures(
            ExternalIoRuntime::read_input_into::<F>,
            (runtime, node_id, out, &average),
            r,
        ),
        0 <= i < old(out)@.len(),
    ensures
        r <==> old(runtime).input_endpoints.keys().contains(node_id@),
        !r ==> final(out)@ == old(out)@ && *final(runtime) == *old(runtime),
        r ==> {
            let place = old(runtime).input_endpoints.keys().index_of(node_id@);
            let before = old(runtime).input_endpoints.values()[place];
            &&& before.link.phase == EndpointPhase::Connected && before.link.device_channels
                == before.node_channels && i < before.queue@.len() ==> final(out)@[i]
                == before.queue@[i]
            &&& before.link.phase == EndpointPhase::Connected && before.link.device_channels
                == before.node_channels && before.queue@.len() >= old(out)@.len()
                ==> final(runtime).underrun_count == old(runtime).underrun_count
            &&& before.link.phase != EndpointPhase::Connected ==> final(out)@[i] == 0
            &&& before.link.phase != EndpointPhase::Connected && old(runtime).underrun_count
                < u64::MAX ==> final(runtime).underrun_count == old(runtime).underrun_count + 1
            &&& final(runtime).output_endpoints == old(runtime).output_endpoints
        },
{
}

/// A device whose stream failed is degraded, with a retry that is to come; nothing else changes.
pub proof fn law_handle_event(
    runtime: &mut ExternalIoRuntime,
    node_id: String,
    now_ms: u64,
    clock_ms: u64,
    r: bool,
)
    requires
        old(runtime).wf(),
        old(runtime).input_endpoints.has(node_id@),
        call_ensures(
            ExternalIoRuntime::handle_event,
            (
                runtime,
                (RecoveryEvent::StreamError { kind: EndpointKind::Input, node_id }),
                now_ms,
                clock_ms,
            ),
            r,
        ),
    ensures
        r,
        ({
            let place = old(runtime).input_endpoints.keys().index_of(node_id@);
            let after = final(runtime).input_endpoints.values()[place];
            &&& after.link.phase == EndpointPhase::Degraded
            &&& after.link.next_retry_at is Some
            &&& after.link.next_retry_at->0 >= now_ms
        }),
        final(runtime).output_endpoints == old(runtime).output_endpoints,
        final(runtime).restart_attempts == old(runtime).restart_attempts,
{
    let place = old(runtime).input_endpoints.keys().index_of(node_id@);
    let before = old(runtime).input_endpoints.values()[place];
    crate::external_runtime::law_backoff_grows(1, before.link.attempts + 1);
    if before.link.attempts >= 1 {
        crate::external_runtime::law_backoff_grows(1, before.link.attempts as int);
    }
}

/// A retry that succeeded connects the endpoint anew; one that failed degrades it again, and is
/// told.
pub proof fn law_finish_input_retry(
    runtime: &mut ExternalIoRuntime,
    index: usize,
    outcome: Result<usize, String>,
    now_ms: u64,
    clock_ms: u64,
)
    requires
        old(runtime).wf(),
        index < old(runtime).input_endpoints.values().len(),
        call_ensures(
            ExternalIoRuntime::finish_input_retry,
            (runtime, index, outcome, now_ms, clock_ms),
            (),
        ),
    ensures
        ({
            let before = old(runtime).input_endpoints.values()[index as int];
            let after = final(runtime).input_endpoints.values()[index as int];
            &&& outcome is Ok ==> after.link.phase == EndpointPhase::Connected
                && after.link.attempts == 0 && after.link.device_channels == outcome->Ok_0
                && after.link.next_retry_at is None
            &&& outcome is Err ==> after.link.phase == EndpointPhase::Degraded
                && after.link.next_retry_at is Some
            &&& outcome is Err && before.link.attempts < u32::MAX ==> after.link.attempts
                == before.link.attempts + 1
            &&& after.queue == before.queue
            &&& after.node_id == before.node_id
        }),
        outcome is Ok ==> final(runtime).stream_errors == old(runtime).stream_errors,
{
}

/// An endpoint that is added is connected, under its node, with an empty queue.
pub proof fn law_add_input(
    runtime: &mut ExternalIoRuntime,
    config: ExternalEndpointConfig,
    device_channels: usize,
)
    requires
        old(runtime).wf(),
        call_ensures(ExternalIoRuntime::add_input, (runtime, &config, device_channels), ()),
    ensures
        final(runtime).input_endpoints@.dom().contains(config.node_id@),
        ({
            let e = final(runtime).input_endpoints@[config.node_id@];
            &&& e.uid@ == config.uid@
            &&& e.node_channels == config.channels
            &&& e.link.phase == EndpointPhase::Connected
            &&& e.link.device_channels == device_channels
            &&& e.queue@.len() == 0
        }),
        final(runtime).output_endpoints == old(runtime).output_endpoints,
{
}

// ---------------------------------------------------------------------------
// Recordings

/// Batches are written in the order in which they were handed in, each once.
pub proof fn law_next_batch(runtime: &mut SinkRuntime, r: Option<SinkBatch>)
    requires
        old(runtime).wf(),
        call_ensures(SinkRuntime::next_batch, (runtime,), r),
    ensures
        r is None <==> old(runtime).queue@.len() == 0,
        r is Some ==> r->0.sink_id@ == old(runtime).queue@[0].sink_id@ && r->0.frames
            == old(runtime).queue@[0].frames && r->0.samples@ == old(runtime).queue@[0].samples@,
        r is Some ==> final(runtime).queue@.len() == old(runtime).queue@.len() - 1,
        final(runtime).dropped_batches == old(runtime).dropped_batches,
        final(runtime).write_errors == old(runtime).write_errors,
{
    assert(views(old(runtime).queue@).len() == old(runtime).queue@.len());
    assert(views(final(runtime).queue@).len() == final(runtime).queue@.len());
    if r is Some {
        assert(old(runtime)@.queue[0] == old(runtime).queue@[0]@);
        assert(final(runtime)@.dropped_batches == old(runtime)@.dropped_batches);
    }
}

/// A batch that was written counts its frames for its sink; one that was not counts an error, and
/// the sink has failed.
pub proof fn law_finish_batch(
    runtime: &mut SinkRuntime,
    sink_id: &str,
    frames: usize,
    outcome: Option<Result<(), String>>,
)
    requires
        old(runtime).wf(),
        call_ensures(SinkRuntime::finish_batch, (runtime, sink_id, frames, outcome), ()),
        old(runtime)@.sinks.dom().contains(sink_id@),
        old(runtime)@.sinks[sink_id@].written_frames + frames <= u64::MAX,
        old(runtime).write_errors < u64::MAX,
    ensures
        final(runtime)@.sinks.dom().contains(sink_id@),
        outcome == Some(Ok::<(), String>(())) ==> final(runtime)@.sinks[sink_id@].written_frames
            == old(runtime)@.sinks[sink_id@].written_frames + frames && final(runtime).write_errors
            == old(runtime).write_errors,
        outcome is None || outcome->0 is Err ==> final(runtime)@.sinks[sink_id@].health
            == SinkRuntimeHealth::Failed && final(runtime).write_errors
            == old(runtime).write_errors + 1 && final(runtime)@.sinks[sink_id@].written_frames
            == old(runtime)@.sinks[sink_id@].written_frames,
{
    assert(final(runtime)@.write_errors == final(runtime).write_errors);
    assert(old(runtime)@.write_errors == old(runtime).write_errors);
}

/// The thread that writes may end once that is asked and nothing waits any more.
pub proof fn law_may_stop(runtime: SinkRuntime, stop_requested: bool, r: bool)
    requires
        call_ensures(SinkRuntime::may_stop, (&runtime, stop_requested), r),
    ensures
        r <==> stop_requested && runtime.queue@.len() == 0,
{
    assert(views(runtime.queue@).len() == runtime.queue@.len());
}

// ---------------------------------------------------------------------------
// Rings and the render loop

/// A ring gives back what was written to it, in order.
pub proof fn law_ring_write(ring: &mut Ring, data: Vec<u32>, r: Result<usize, String>)
    requires
        old(ring).wf(),
        call_ensures(Ring::write_interleaved, (ring, &data), r),
        old(ring).spec.channels >= 1,
        old(ring).write_idx + old(ring).spec.capacity_frames <= u64::MAX,
    ensures
        r is Ok <==> data@.len() % (old(ring).spec.channels as nat) == 0,
        r is Err ==> *final(ring) == *old(ring),
        r is Ok ==> final(ring).samples@ == old(ring).samples@ + data@.take(
            r->Ok_0 * old(ring).spec.channels,
        ) && final(ring).write_idx == old(ring).write_idx + r->Ok_0,
        r is Ok && data@.len() as int / (old(ring).spec.channels as int)
            <= old(ring).spec.capacity_frames - old(ring).samples@.len() as int / (old(
            ring,
        ).spec.channels as int) ==> final(ring).samples@ == old(ring).samples@ + data@,
{
    if r is Ok {
        crate::ring::law_rings_take_what_fits(*old(ring), *final(ring), data@, r->Ok_0 as int);
    }
}

/// A ring that is read gives what it held longest.
pub proof fn law_ring_read(ring: &mut Ring, out: &mut Vec<u32>, r: usize, i: int)
    requires
        old(ring).wf(),
        call_ensures(Ring::read_interleaved, (ring, out), r),
        old(ring).spec.channels >= 1,
        old(ring).read_idx + old(ring).spec.capacity_frames <= u64::MAX,
        0 <= i < old(out)@.len(),
    ensures
        final(out)@.len() == old(out)@.len(),
        i < r * old(ring).spec.channels ==> final(out)@[i] == old(ring).samples@[i],
        i >= r * old(ring).spec.channels ==> final(out)@[i] == old(out)@[i],
        final(ring).samples@ == old(ring).samples@.skip(r * old(ring).spec.channels),
        final(ring).read_idx == old(ring).read_idx + r,
{
    crate::ring::law_rings_give_what_came_first(
        *old(ring),
        *final(ring),
        old(out)@,
        final(out)@,
        r as int,
        i,
    );
}

/// What was read of a source is kept, and what was not is silent.
pub proof fn law_settle_source(samples: &mut Vec<u32>, outcome: RingRead, channels: u16, i: int)
    requires
        call_ensures(crate::render_loop::settle_source, (samples, outcome, channels), ()),
        0 <= i < old(samples)@.len(),
    ensures
        final(samples)@.len() == old(samples)@.len(),
        outcome is Unavailable || outcome is Failed ==> final(samples)@[i] == 0,
        outcome is Frames && outcome->Frames_0 * channels <= usize::MAX ==> final(samples)@[i]
            == if i < outcome->Frames_0 * channels {
            old(samples)@[i]
        } else {
            0
        },
{
}

/// A cycle that took longer than its period missed its deadline and does not sleep; any other
/// sleeps for the rest of the period.
pub proof fn law_finish_cycle(metrics: &mut RenderMetrics, cycle_ns: u64, period_ns: u64, r: u64)
    requires
        call_ensures(RenderMetrics::finish_cycle, (metrics, cycle_ns, period_ns), r),
        old(metrics).deadline_miss_count < u64::MAX,
    ensures
        final(metrics).last_cycle_ns == cycle_ns,
        final(metrics).max_cycle_ns >= cycle_ns,
        final(metrics).max_cycle_ns >= old(metrics).max_cycle_ns,
        final(metrics).max_cycle_ns == cycle_ns || final(metrics).max_cycle_ns
            == old(metrics).max_cycle_ns,
        cycle_ns > period_ns ==> r == 0 && final(metrics).deadline_miss_count
            == old(metrics).deadline_miss_count + 1,
        cycle_ns <= period_ns ==> r + cycle_ns == period_ns && final(metrics).deadline_miss_count
            == old(metrics).deadline_miss_count,
{
}

// ---------------------------------------------------------------------------
// The state of the daemon

/// An activation gives back the state before it, and restoring that brings it back whole.
pub proof fn law_activate_and_restore(
    daemon: &mut MarsDaemon,
    later: &mut MarsDaemon,
    path: String,
    profile: Profile,
    graph: RoutingGraph,
    devices: Vec<DeviceDescriptor>,
    saved: DaemonState,
)
    requires
        call_ensures(MarsDaemon::activate, (daemon, path, profile, graph, devices), saved),
        call_ensures(MarsDaemon::restore, (later, Some(saved)), ()),
    ensures
        saved == old(daemon).state,
        final(daemon).state.current_profile == Some(profile),
        final(daemon).state.current_profile_path is Some
            && final(daemon).state.current_profile_path->0@ == path@,
        final(daemon).state.graph == Some(graph),
        final(daemon).state.devices == devices,
        final(daemon).state.engine is Some
            && final(daemon).state.engine->0.buffer_frames == profile.audio.buffer_frames,
        final(later).state == old(daemon).state,
        final(daemon).log_path == old(daemon).log_path,
{
}

/// Clearing forgets the profile; where the driver could not be cleared the state before it is
/// brought back and the failure told.
pub proof fn law_clear(
    daemon: &mut MarsDaemon,
    later: &mut MarsDaemon,
    keep_devices: bool,
    saved: DaemonState,
    outcome: Result<(), String>,
    r: Result<ApplyResult, ApiError>,
)
    requires
        call_ensures(MarsDaemon::begin_clear, (daemon, keep_devices), saved),
        call_ensures(MarsDaemon::finish_clear, (later, saved, keep_devices, outcome), r),
    ensures
        saved == old(daemon).state,
        final(daemon).state.current_profile is None,
        final(daemon).state.graph is None,
        final(daemon).state.engine is None,
        r is Err <==> outcome is Err && !keep_devices,
        r is Err ==> final(later).state == saved,
        r is Ok ==> final(later).state == old(later).state,
        r is Ok ==> r->Ok_0.applied && r->Ok_0.errors@.len() == 0,
{
}

/// Once a profile is applied the state of its external devices is taken over, and nothing else.
pub proof fn law_commit(daemon: &mut MarsDaemon, status: ExternalRuntimeStatus)
    requires
        call_ensures(MarsDaemon::commit, (daemon, Some(status)), ()),
    ensures
        final(daemon).state.external_runtime == status,
        final(daemon).state.current_profile == old(daemon).state.current_profile,
        final(daemon).state.graph == old(daemon).state.graph,
        final(daemon).state.engine == old(daemon).state.engine,
        final(daemon).state.devices == old(daemon).state.devices,
{
}

} // verus!
