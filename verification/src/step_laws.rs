//! What single steps come to, stated of the operations themselves: those of the render loop, the
//! daemon's start, the driver, taps, plugin hosts, processors, probes and recordings.

use crate::api::ExitCode;
use crate::au_host::{
    AuSubmitError, AuWorkerState, HostSessionError, PluginHostHealth, SubmitOutcome, WorkerAction,
};
use crate::driver::{DriverStep, DriverTask};
use crate::engine::SampleMath;
use crate::external_io::{EndpointPhase, ExternalEndpointConfig};
use crate::external_runtime::ExternalIoRuntime;
use crate::file_sink::{law_parts_make_the_header, parts_joined, FileSinkWriter, HeaderPart};
use crate::graph::{PipeDescriptor, RoutingGraph};
use crate::intents::PersistStep;
use crate::launcher::{EnsureOutcome, EnsureRun, EnsureStep, LaunchCommand, LaunchStep};
use crate::logs::log_delta;
use crate::probe::ProbePlayback;
use crate::processors::{
    Admission, ProcessorControl, ProcessorPrepareContext, ProcessorSchedule, ProcessorState,
    ScheduledProcessor, ShiftFrames,
};
use crate::profile::{FileSinkFormat, ProcessTap, ProcessTapSelector, SystemTap};
use crate::render_loop::{CycleState, RenderStep};
use crate::sequences::{kept, lemma_kept, views};
use crate::sink_runtime::SinkRuntime;
use crate::streams::{CoreAudioError, SampleFormat, StreamChoice, StreamDirection, SupportedConfig};
use crate::string_map::StringMap;
use crate::tap::{
    AudioProcessInfo, CoreAudioTapController, DestroyEvent, DestroyStep, ProcessTapRequest,
    SystemTapRequest, TapCapability, TapError, TapHandle,
};
use vstd::prelude::*;

verus! {

// ---------------------------------------------------------------------------
// The render loop and the start of the daemon

/// A source is read once its ring was tried, and its ring counts as open only where it could be
/// opened; no other ring does on that account.
pub proof fn law_cycle_advance(state: &mut CycleState, i: usize, ok: bool, r: RenderStep)
    requires
        i < old(state).sources_open@.len(),
        call_ensures(CycleState::advance, (state, RenderStep::OpenSource(i), ok), r),
    ensures
        r == RenderStep::ReadSource(i),
        ok ==> final(state).sources_open@ == old(state).sources_open@.update(i as int, true),
        !ok ==> final(state).sources_open@ == old(state).sources_open@,
        final(state).sinks_open@ == old(state).sinks_open@,
        final(state).external_runtime == old(state).external_runtime,
{
}

/// A sink whose ring could be opened is written, and one whose ring could not is passed over.
pub proof fn law_cycle_advance_sink(state: &mut CycleState, i: usize, ok: bool, r: RenderStep)
    requires
        i < old(state).sinks_open@.len(),
        call_ensures(CycleState::advance, (state, RenderStep::OpenSink(i), ok), r),
    ensures
        ok ==> r == RenderStep::WriteSink(i),
        ok ==> final(state).sinks_open@ == old(state).sinks_open@.update(i as int, true),
        !ok ==> r != RenderStep::WriteSink(i),
        !ok ==> final(state).sinks_open@ == old(state).sinks_open@,
        final(state).sources_open@ == old(state).sources_open@,
{
}

/// The daemon runs only once it answered, and every failure is one of communication that is told.
pub proof fn law_ensure_advance(run: &mut EnsureRun, outcome: EnsureOutcome, socket: &str)
    requires
        call_ensures(EnsureRun::advance, (run, outcome, socket), ()),
    ensures
        outcome is Done && (old(run).step == EnsureStep::WaitInitially || old(run).step
            == EnsureStep::WaitAfterLaunch || old(run).step == EnsureStep::WaitAfterCleanup)
            ==> final(run).step == EnsureStep::Running,
        !(outcome is Done) && old(run).step == EnsureStep::WaitInitially ==> final(run).step
            == EnsureStep::Launch && final(run).initial_error is Some,
        outcome is Done && old(run).step == EnsureStep::Launch ==> final(run).step
            == EnsureStep::WaitAfterLaunch,
        !(outcome is Done) && (old(run).step == EnsureStep::Launch || old(run).step
            == EnsureStep::RemoveSocket || old(run).step == EnsureStep::Relaunch || old(run).step
            == EnsureStep::WaitAfterCleanup) ==> final(run).step == EnsureStep::Failed,
        final(run).step == EnsureStep::Failed && old(run).step != EnsureStep::Failed
            ==> final(run).failure is Some && final(run).failure->0@.exit_code
            == ExitCode::DaemonCommunication,
{
}

/// The ways to start the daemon are tried in order, until one works or none is left.
pub proof fn law_after_launch(
    candidates: Vec<LaunchCommand>,
    index: usize,
    outcome: Result<(), String>,
    r: LaunchStep,
    first: LaunchStep,
)
    requires
        index < candidates@.len(),
        call_ensures(crate::launcher::after_launch, (&candidates, index, outcome), r),
        call_ensures(crate::launcher::first_launch, (&candidates,), first),
    ensures
        first == (LaunchStep::Try { index: 0 }),
        outcome is Ok ==> r is Launched,
        outcome is Err && index + 1 < candidates@.len() ==> r == (LaunchStep::Try {
            index: (index + 1) as usize,
        }),
        outcome is Err && index + 1 == candidates@.len() ==> r is Failed,
{
}

/// What is configured is tried before anything else, and always to serve.
pub proof fn law_launch_candidates(
    configured: Option<String>,
    sibling: Option<String>,
    installed: bool,
    sources: Option<String>,
    r: Vec<LaunchCommand>,
    i: int,
)
    requires
        call_ensures(
            crate::launcher::daemon_launch_candidates,
            (configured, sibling, installed, sources),
            r,
        ),
    ensures
        r@.len() > 0,
        configured is Some ==> r@[0].program@ == configured->0@,
        configured is None && sibling is Some ==> r@[0].program@ == sibling->0@,
        sources is None ==> r@.last().program@ == "marsd"@,
        0 <= i < r@.len() ==> r@[i].args@.len() > 0 && r@[i].args@.last()@ == "--serve"@,
{
    let order = views(r@);
    crate::launcher::law_daemon_is_started_as_configured_first(
        crate::launcher::text_of(configured),
        crate::launcher::text_of(sibling),
        installed,
        crate::launcher::text_of(sources),
        i,
    );
    if 0 <= i < r@.len() {
        assert(order[i] == r@[i]@);
        assert(views(r@[i].args@).last() == r@[i].args@.last()@);
    }
    assert(order.len() == r@.len());
    assert(order[0] == r@[0]@);
    assert(order.last() == r@.last()@);
}

// ---------------------------------------------------------------------------
// The driver and what is kept

/// Handing devices to the driver that failed is restored, and then ends with that failure.
pub proof fn law_next_driver_step(
    task: DriverTask,
    path: &str,
    outcome: Result<(), String>,
    applied: DriverStep,
    captured: DriverStep,
)
    requires
        call_ensures(
            crate::driver::next_driver_step,
            (task, path, DriverStep::ApplyDesired, outcome),
            applied,
        ),
        call_ensures(
            crate::driver::next_driver_step,
            (task, path, DriverStep::Capture, outcome),
            captured,
        ),
    ensures
        outcome is Err ==> applied is Restore,
        outcome is Err ==> captured is Finish && captured->result is Err,
        outcome is Ok ==> captured is ApplyDesired,
        outcome is Ok && task is Stage ==> applied is Serialize,
        outcome is Ok && task is Clear ==> applied is RemoveRings,
{
    crate::driver::law_driver_tasks_go_in_order(path@, ""@);
    match applied {
        DriverStep::Restore { error } => {},
        _ => {},
    }
    match captured {
        DriverStep::Finish { result } => {},
        _ => {},
    }
}

/// Keeping what applications asked for goes through its steps in order.
pub proof fn law_next_persist_step(ok: bool, synced: PersistStep, committed: PersistStep)
    requires
        call_ensures(
            crate::intents::next_persist_step,
            (PersistStep::SyncTemporary, ok),
            synced,
        ),
        call_ensures(crate::intents::next_persist_step, (PersistStep::Commit, ok), committed),
    ensures
        ok ==> synced is Commit && committed is Succeed,
        !ok ==> synced is Discard && committed is Discard,
{
}

// ---------------------------------------------------------------------------
// Taps

/// A tap is destroyed with its aggregate device first, and counts as destroyed only where both
/// are gone.
pub proof fn law_destroy_tap(
    controller: CoreAudioTapController,
    handle: TapHandle,
    status: i32,
    message: Option<String>,
    begun: DestroyStep,
    aggregate: DestroyStep,
    tap: DestroyStep,
)
    requires
        call_ensures(
            CoreAudioTapController::destroy_tap,
            (&controller, &handle, DestroyEvent::Start),
            begun,
        ),
        call_ensures(
            CoreAudioTapController::destroy_tap,
            (&controller, &handle, (DestroyEvent::AggregateDestroyed { status, message })),
            aggregate,
        ),
        call_ensures(
            CoreAudioTapController::destroy_tap,
            (&controller, &handle, (DestroyEvent::TapDestroyed { status, message })),
            tap,
        ),
    ensures
        begun == (DestroyStep::DestroyAggregate { device_id: handle.aggregate_device_id }),
        status == 0 || status == 0x216F_626A || status == 0x2164_6576 ==> aggregate == (
        DestroyStep::DestroyProcessTap { tap_id: handle.tap_id }) && tap is Destroyed,
        status != 0 && status != 0x216F_626A && status != 0x2164_6576 ==> aggregate is Failed
            && tap is Failed,
{
}

/// The host has taps where it says so, and the processes are listed by their ids.
pub proof fn law_list_processes(
    controller: CoreAudioTapController,
    status: i32,
    supported: u8,
    message: Option<String>,
    found: Vec<AudioProcessInfo>,
    capability: Result<TapCapability, TapError>,
    listed: Result<Vec<AudioProcessInfo>, TapError>,
    i: int,
    j: int,
)
    requires
        call_ensures(
            CoreAudioTapController::capability,
            (&controller, status, supported, message),
            capability,
        ),
        call_ensures(
            CoreAudioTapController::list_processes,
            (
                &controller,
                status,
                message,
                Some(Ok::<Vec<AudioProcessInfo>, String>(found)),
            ),
            listed,
        ),
    ensures
        capability is Ok <==> status == 0,
        capability is Ok ==> (capability->Ok_0.supported <==> supported != 0),
        listed is Ok <==> status == 0,
        listed is Ok ==> listed->Ok_0@.len() == found@.len(),
        listed is Ok && 0 <= i < j < found@.len() ==> listed->Ok_0@[i].pid <= listed->Ok_0@[j].pid,
{
    if 0 <= i < j < found@.len() {
        crate::tap::law_processes_are_listed_by_pid(found@, i, j);
    }
    crate::sequences::lemma_stably_sorted(found@, crate::tap::by_pid());
}

/// A selector gives the processes that it names and no other.
pub proof fn law_resolve_process_selector(
    selector: ProcessTapSelector,
    processes: Vec<AudioProcessInfo>,
    r: Vec<AudioProcessInfo>,
    process: AudioProcessInfo,
)
    requires
        call_ensures(
            crate::capture_runtime::resolve_process_selector,
            (&selector, &processes),
            r,
        ),
    ensures
        r@.contains(process) <==> processes@.contains(process) && match selector {
            ProcessTapSelector::Pid { pid } => process.pid >= 0 && process.pid == pid,
            ProcessTapSelector::BundleId { bundle_id } => process.bundle_id@ == bundle_id@,
        },
{
    crate::capture_runtime::law_selectors_match_what_they_name(selector, processes@, process);
}

/// What is asked of the host for a tap names the processes, or what the system plays, and leaves
/// them to be heard.
pub proof fn law_tap_requests(
    tap: ProcessTap,
    system: SystemTap,
    matched: Vec<AudioProcessInfo>,
    pid: u32,
    r: ProcessTapRequest,
    s: SystemTapRequest,
    i: int,
)
    requires
        call_ensures(crate::capture_runtime::process_tap_request, (&tap, &matched, pid), r),
        call_ensures(crate::capture_runtime::system_tap_request, (&system, pid), s),
    ensures
        r.process_object_ids@.len() == matched@.len(),
        0 <= i < matched@.len() ==> r.process_object_ids@[i] == matched@[i].process_object_id,
        r.mute_behavior is Unmuted && s.mute_behavior is Unmuted,
        r.private_tap && s.private_tap,
        r.mono <==> tap.channels == Some(1u16),
        s.mono <==> system.channels == Some(1u16),
        s.target is DefaultOutput <==> system.mode is DefaultOutput,
{
}

// ---------------------------------------------------------------------------
// Plugin hosts and processors

/// What a plugin is handed is counted where its host has no room or is gone.
pub proof fn law_try_submit(
    worker: &mut AuWorkerState,
    outcome: SubmitOutcome,
    r: Result<(), AuSubmitError>,
)
    requires
        call_ensures(AuWorkerState::try_submit, (worker, outcome), r),
        old(worker).status.timeout_count < u64::MAX,
        old(worker).status.error_count < u64::MAX,
    ensures
        r is Ok <==> outcome is Taken,
        outcome is Taken ==> *final(worker) == *old(worker),
        outcome is Full ==> final(worker).status.health == PluginHostHealth::Degraded
            && final(worker).status.timeout_count == old(worker).status.timeout_count + 1,
        outcome is Disconnected ==> final(worker).status.health == PluginHostHealth::Failed
            && final(worker).status.error_count == old(worker).status.error_count + 1
            && !final(worker).status.loaded,
{
}

/// A worker starts its host where it has none, works with it where it has one, and gives up a host
/// that failed.
pub proof fn law_worker_steps(
    begun: &mut AuWorkerState,
    started: &mut AuWorkerState,
    processed: &mut AuWorkerState,
    outcome: Result<u32, HostSessionError>,
    a: WorkerAction,
    b: WorkerAction,
    c: WorkerAction,
)
    requires
        call_ensures(AuWorkerState::begin_request, (begun,), a),
        call_ensures(AuWorkerState::session_started, (started, outcome), b),
        call_ensures(AuWorkerState::request_processed, (processed, outcome), c),
        old(begun).status.process_calls < u64::MAX,
    ensures
        a is StartSession <==> !old(begun).session,
        a is Process <==> old(begun).session,
        final(begun).status.process_calls == old(begun).status.process_calls + 1,
        outcome is Ok ==> b is Process && c is ReturnProcessed && final(started).session,
        outcome is Err ==> b is ReturnUnchanged && c is TerminateAndReturnUnchanged
            && !final(started).session && !final(processed).session,
{
}

/// A host that runs is told with its number and without an error, and nothing is counted; one that
/// did not start or failed is told with its error and counts as an error, while it ran also as a
/// restart, and as a timeout where it was one.
pub proof fn law_worker_counts(
    started: &mut AuWorkerState,
    processed: &mut AuWorkerState,
    outcome: Result<u32, HostSessionError>,
    b: WorkerAction,
    c: WorkerAction,
)
    requires
        call_ensures(AuWorkerState::session_started, (started, outcome), b),
        call_ensures(AuWorkerState::request_processed, (processed, outcome), c),
        old(started).status.error_count < u64::MAX,
        old(processed).status.error_count < u64::MAX,
        old(processed).status.timeout_count < u64::MAX,
        old(processed).status.restart_count < u64::MAX,
    ensures
        final(started).status.id == old(started).status.id,
        final(processed).status.id == old(processed).status.id,
        final(started).status.api == old(started).status.api,
        final(processed).status.api == old(processed).status.api,
        final(started).status.process_calls == old(started).status.process_calls,
        final(processed).status.process_calls == old(processed).status.process_calls,
        final(started).status.timeout_count == old(started).status.timeout_count,
        final(started).status.restart_count == old(started).status.restart_count,
        outcome is Ok ==> {
            &&& final(started).status.loaded && final(processed).status.loaded
            &&& final(started).status.health == PluginHostHealth::Healthy
            &&& final(processed).status.health == PluginHostHealth::Healthy
            &&& final(started).status.host_pid == Some(outcome->Ok_0)
            &&& final(processed).status.host_pid == Some(outcome->Ok_0)
            &&& final(started).status.last_error is None
            &&& final(processed).status.last_error is None
            &&& final(started).status.error_count == old(started).status.error_count
            &&& final(processed).status.error_count == old(processed).status.error_count
            &&& final(processed).status.timeout_count == old(processed).status.timeout_count
            &&& final(processed).status.restart_count == old(processed).status.restart_count
        },
        outcome is Err ==> {
            &&& !final(started).status.loaded && !final(processed).status.loaded
            &&& final(started).status.health == PluginHostHealth::Failed
            &&& final(processed).status.health == PluginHostHealth::Failed <==> !(outcome->Err_0
                is Timeout)
            &&& final(started).status.host_pid is None && final(processed).status.host_pid is None
            &&& final(started).status.last_error is Some
            &&& final(processed).status.last_error is Some
            &&& final(started).status.error_count == old(started).status.error_count + 1
            &&& final(processed).status.error_count == old(processed).status.error_count + 1
            &&& final(processed).status.restart_count == old(processed).status.restart_count + 1
            &&& final(processed).status.timeout_count == old(processed).status.timeout_count + (
            if outcome->Err_0 is Timeout {
                1int
            } else {
                0
            })
        },
{
}

/// A processor that is made ready holds nothing of earlier audio, and one that is reset is not
/// ready any more.
pub proof fn law_prepare_and_reset(
    prepared: &mut ScheduledProcessor,
    reset: &mut ScheduledProcessor,
    context: ProcessorPrepareContext,
    shift: ShiftFrames,
    r: bool,
)
    requires
        (shift.longest + 2) * (context.channels + 1) <= usize::MAX,
        call_ensures(ScheduledProcessor::prepare, (prepared, context, shift), ()),
        call_ensures(ScheduledProcessor::reset, (reset,), r),
        old(prepared).stats.prepare_calls < u64::MAX,
        old(reset).stats.reset_calls < u64::MAX,
    ensures
        final(prepared).prepared,
        final(prepared).context == context,
        final(prepared).stats.prepare_calls == old(prepared).stats.prepare_calls + 1,
        final(prepared).kind == old(prepared).kind,
        final(prepared).kind is Eq ==> final(prepared).state is Filter
            && final(prepared).state->memory@.len() == 0,
        final(prepared).kind is Au ==> final(prepared).state == (ProcessorState::Host {
            latest: None,
            request: None,
        }),
        !final(reset).prepared,
        r <==> old(reset).prepared,
        r ==> final(reset).stats.reset_calls == old(reset).stats.reset_calls + 1,
        !r ==> final(reset).stats == old(reset).stats,
{
}

/// A processor takes audio in where it is ready, has channels and is not bypassed.
pub proof fn law_accept(
    p: &mut ScheduledProcessor,
    control: Option<&ProcessorControl>,
    bypass: bool,
    channels: usize,
    frames: usize,
    r: Admission,
)
    requires
        call_ensures(ScheduledProcessor::accept, (p, control, bypass, channels, frames), r),
        channels > 0,
        frames > 0,
    ensures
        r is Processed <==> old(p).prepared && !bypass,
        final(p).state == old(p).state,
        final(p).prepared == old(p).prepared,
        r is Processed && old(p).stats.process_calls < u64::MAX ==> final(p).stats.process_calls
            == old(p).stats.process_calls + 1,
        r is Ignored ==> final(p).stats == old(p).stats,
{
}

/// A route without processors keeps its audio, and no processors change.
pub proof fn law_process_route<M: SampleMath>(
    schedule: &mut ProcessorSchedule,
    math: &M,
    route_id: String,
    samples: Vec<u32>,
    channels: usize,
    frames: usize,
    controls: StringMap<ProcessorControl>,
    r: Vec<u32>,
)
    requires
        old(schedule).wf(),
        controls.wf(),
        call_ensures(
            ProcessorSchedule::process_route::<M>,
            (schedule, math, &route_id, samples, channels, frames, &controls),
            r,
        ),
    ensures
        final(schedule).route_chains.keys() == old(schedule).route_chains.keys(),
        !old(schedule).route_chains.keys().contains(route_id@) ==> r@ == samples@
            && final(schedule).route_chains.values() == old(schedule).route_chains.values(),
{
}

// ---------------------------------------------------------------------------
// Probes, streams and logs

/// A probe plays its signal from where it stands, then silence, and is done once it is played.
pub proof fn law_playback_fill(playback: &mut ProbePlayback, out: &mut Vec<u32>, i: int)
    requires
        call_ensures(ProbePlayback::fill, (playback, out), ()),
        old(playback).cursor <= old(playback).samples@.len(),
        0 <= i < old(out)@.len(),
    ensures
        final(out)@.len() == old(out)@.len(),
        old(playback).cursor + i < old(playback).samples@.len() ==> final(out)@[i]
            == old(playback).samples@[old(playback).cursor + i],
        old(playback).cursor + i >= old(playback).samples@.len() ==> final(out)@[i] == 0,
        old(playback).cursor + old(out)@.len() < old(playback).samples@.len()
            ==> final(playback).cursor == old(playback).cursor + old(out)@.len(),
        old(playback).cursor + old(out)@.len() >= old(playback).samples@.len()
            ==> final(playback).finished && final(playback).cursor
            == old(playback).samples@.len(),
        old(playback).cursor + old(out)@.len() < old(playback).samples@.len()
            ==> final(playback).finished == old(playback).finished,
{
}

/// A stream is chosen from what the device was asked for; a device that could not be asked has
/// none.
pub proof fn law_choose_stream(
    uid: &str,
    direction: StreamDirection,
    channels: u16,
    sample_rate: u32,
    queried: Result<Vec<SupportedConfig>, String>,
    r: Result<StreamChoice, CoreAudioError>,
    i: int,
)
    requires
        call_ensures(
            crate::streams::choose_stream,
            (uid, direction, channels, sample_rate, &queried),
            r,
        ),
    ensures
        queried is Err ==> r is Err,
        r is Ok ==> r->Ok_0.channels == channels && r->Ok_0.sample_rate == sample_rate,
        queried is Ok && 0 <= i < queried->Ok_0@.len() && queried->Ok_0@[i].channels == channels
            && queried->Ok_0@[i].min_sample_rate <= sample_rate
            <= queried->Ok_0@[i].max_sample_rate ==> r is Ok && (queried->Ok_0@[i].format
            == SampleFormat::Float ==> r->Ok_0.format == SampleFormat::Float),
        r is Err && direction is Input ==> r->Err_0 is BuildInputStream,
        r is Err && direction is Output ==> r->Err_0 is BuildOutputStream,
{
    if queried is Ok && 0 <= i < queried->Ok_0@.len() && queried->Ok_0@[i].channels == channels
        && queried->Ok_0@[i].min_sample_rate <= sample_rate <= queried->Ok_0@[i].max_sample_rate {
        assert(crate::streams::holds_config(queried->Ok_0@[i], channels, sample_rate));
    }
}

/// The lines that are new in a log are those behind what was seen.
pub proof fn law_compute_log_delta(
    previous: Vec<String>,
    current: Vec<String>,
    added: Seq<Seq<char>>,
    r: Vec<String>,
)
    requires
        call_ensures(crate::logs::compute_log_delta, (&previous, &current), r),
        views(current@) == views(previous@) + added,
    ensures
        views(r@) == added,
{
    crate::logs::law_appended_lines_are_new(views(previous@), added);
    assert(views(r@) == log_delta(views(previous@), views(current@)));
}

// ---------------------------------------------------------------------------
// Recordings

/// A recording begins with a header, part by part, of the format that is asked for; without
/// channels there is none.
pub proof fn law_file_sink_open(
    format: FileSinkFormat,
    sample_rate: u32,
    channels: u16,
    r: Result<(FileSinkWriter, Vec<HeaderPart>), String>,
)
    requires
        call_ensures(FileSinkWriter::open, (format, sample_rate, channels), r),
    ensures
        r is Ok <==> channels > 0,
        r is Ok ==> {
            &&& r->Ok_0.0.format() == format
            &&& r->Ok_0.0.channels == channels
            &&& r->Ok_0.0.data_bytes() == 0
            &&& parts_joined(r->Ok_0.1@, r->Ok_0.1@.len() as int) == match format {
                FileSinkFormat::Wav => crate::audio_file::wav_header(sample_rate, channels),
                FileSinkFormat::Caf => crate::audio_file::caf_header(sample_rate, channels),
            }
        },
{
    if r is Ok {
        law_parts_make_the_header(format, sample_rate, channels, r->Ok_0.1@);
    }
}

/// A batch is recorded exactly where it has as many samples as its frames have channels; all of
/// its samples are written and counted.
pub proof fn law_file_sink_write(
    writer: FileSinkWriter,
    samples: Vec<u32>,
    frames: usize,
    r: Result<(FileSinkWriter, Vec<u8>), String>,
)
    requires
        call_ensures(FileSinkWriter::write_interleaved, (&writer, &samples, frames), r),
        frames * writer.channels <= usize::MAX,
        4 * samples@.len() <= usize::MAX,
        writer.data_bytes() + 4 * samples@.len() <= u64::MAX,
    ensures
        r is Ok <==> samples@.len() == frames * writer.channels,
        r is Ok ==> {
            &&& r->Ok_0.0.data_bytes() == writer.data_bytes() + 4 * samples@.len()
            &&& r->Ok_0.0.format() == writer.format()
            &&& r->Ok_0.0.channels == writer.channels
            &&& r->Ok_0.1@.len() == 4 * samples@.len()
        },
{
    crate::audio_file::lemma_sample_bytes_len(samples@);
    crate::audio_file::law_every_sample_counts_four_bytes(writer.data_bytes(), samples@);
}

/// What is rendered is handed to every sink whose source was rendered, where there is room for
/// all.
pub proof fn law_submit_rendered_sinks(
    runtime: &mut SinkRuntime,
    rendered: StringMap<Vec<u32>>,
    frames: usize,
    i: int,
)
    requires
        old(runtime).wf(),
        rendered.wf(),
        call_ensures(SinkRuntime::submit_rendered_sinks, (runtime, &rendered, frames), ()),
        old(runtime).worker_connected,
        0 <= i < old(runtime).bindings@.len(),
        old(runtime).queue@.len() + old(runtime).bindings@.len() <= old(runtime).queue_capacity,
        rendered@.dom().contains(old(runtime).bindings@[i].source@),
    ensures
        exists|k: int|
            0 <= k < final(runtime).queue@.len() && (#[trigger] final(runtime).queue@[k]).sink_id@
                == old(runtime).bindings@[i].id@ && final(runtime).queue@[k].frames == frames
                && final(runtime).queue@[k].samples@
                == rendered@[old(runtime).bindings@[i].source@]@,
        final(runtime).bindings == old(runtime).bindings,
{
    let v = old(runtime)@;
    let bindings = old(runtime).bindings@;
    assert(views(old(runtime).queue@).len() == old(runtime).queue@.len());
    crate::sink_runtime::law_every_sink_is_served(
        v,
        bindings,
        rendered@,
        frames,
        old(runtime).queue_capacity,
        bindings.len() as int,
        i,
    );
    let wanted = crate::sink_runtime::BatchView {
        sink_id: bindings[i].id@,
        frames,
        samples: rendered@[bindings[i].source@]@,
    };
    let k = final(runtime)@.queue.index_of(wanted);
    assert(views(final(runtime).queue@).len() == final(runtime).queue@.len());
    assert(final(runtime).queue@[k]@ == wanted);
}

// ---------------------------------------------------------------------------
// External devices and the graph

/// What is written for a node goes to the queue of its device; a node without one is told so.
pub proof fn law_write_output_from<F: Fn(u32, u32) -> u32>(
    runtime: &mut ExternalIoRuntime,
    node_id: &str,
    data: Vec<u32>,
    average: F,
    r: bool,
)
    requires
        old(runtime).wf(),
        call_ensures(
            ExternalIoRuntime::write_output_from::<F>,
            (runtime, node_id, &data, &average),
            r,
        ),
        data@.len() > 0,
        old(runtime).overrun_count < u64::MAX,
    ensures
        r <==> old(runtime).output_endpoints.keys().contains(node_id@),
        !r ==> *final(runtime) == *old(runtime),
        r ==> {
            let place = old(runtime).output_endpoints.keys().index_of(node_id@);
            let before = old(runtime).output_endpoints.values()[place];
            let after = final(runtime).output_endpoints.values()[place];
            &&& before.link.phase == EndpointPhase::Connected && before.node_channels
                == before.link.device_channels && before.queue@.len() + data@.len()
                <= before.link.max_samples ==> after.queue@ == before.queue@ + data@
                && final(runtime).overrun_count == old(runtime).overrun_count
            &&& before.link.phase != EndpointPhase::Connected ==> after.queue@ == before.queue@
                && final(runtime).overrun_count == old(runtime).overrun_count + 1
            &&& final(runtime).input_endpoints == old(runtime).input_endpoints
        },
{
    if r {
        let place = old(runtime).output_endpoints.keys().index_of(node_id@);
        let before = old(runtime).output_endpoints.values()[place];
        let after = final(runtime).output_endpoints.values()[place];
        let overrun = choose|overrun: bool|
            {
                &&& #[trigger] crate::external_runtime::output_written(
                    before,
                    after,
                    data@,
                    average,
                    overrun,
                )
                &&& final(runtime).overrun_count == crate::external_runtime::counted_if(
                    old(runtime).overrun_count,
                    overrun,
                )
            };
        crate::external_runtime::law_outputs_are_converted(
            before,
            after,
            data@,
            average,
            overrun,
            0,
        );
    }
}

/// An output that is added is connected, under its node, with an empty queue.
pub proof fn law_add_output(
    runtime: &mut ExternalIoRuntime,
    config: ExternalEndpointConfig,
    device_channels: usize,
)
    requires
        old(runtime).wf(),
        call_ensures(ExternalIoRuntime::add_output, (runtime, &config, device_channels), ()),
    ensures
        final(runtime).output_endpoints@.dom().contains(config.node_id@),
        ({
            let e = final(runtime).output_endpoints@[config.node_id@];
            &&& e.uid@ == config.uid@
            &&& e.node_channels == config.channels
            &&& e.link.phase == EndpointPhase::Connected
            &&& e.link.device_channels == device_channels
            &&& e.queue@.len() == 0
        }),
        final(runtime).input_endpoints == old(runtime).input_endpoints,
{
}

/// The next endpoint to try is due, is being reconnected from now on, and that is counted.
pub proof fn law_next_input_retry(
    runtime: &mut ExternalIoRuntime,
    from: usize,
    now_ms: u64,
    r: Option<usize>,
    k: int,
)
    requires
        old(runtime).wf(),
        call_ensures(ExternalIoRuntime::next_input_retry, (runtime, from, now_ms), r),
        old(runtime).restart_attempts < u64::MAX,
    ensures
        r is Some ==> {
            let before = old(runtime).input_endpoints.values()[r->0 as int];
            let after = final(runtime).input_endpoints.values()[r->0 as int];
            &&& from <= r->0 < old(runtime).input_endpoints.values().len()
            &&& before.link.phase == EndpointPhase::Degraded
            &&& before.link.next_retry_at is Some && before.link.next_retry_at->0 <= now_ms
            &&& after.link.phase == EndpointPhase::Reconnecting
            &&& final(runtime).restart_attempts == old(runtime).restart_attempts + 1
        },
        r is None ==> *final(runtime) == *old(runtime),
        r is None && from <= k < old(runtime).input_endpoints.values().len() ==> !({
            let link = old(runtime).input_endpoints.values()[k].link;
            link.phase == EndpointPhase::Degraded && link.next_retry_at is Some
                && link.next_retry_at->0 <= now_ms
        }),
{
    crate::external_runtime::law_first_due_comes_next(
        old(runtime).input_endpoints.values(),
        from as int,
        now_ms,
    );
    if r is None && from <= k < old(runtime).input_endpoints.values().len() {
        let endpoint = old(runtime).input_endpoints.values()[k];
        assert(!crate::external_runtime::retry_due(endpoint.link, now_ms));
    }
}

/// The connections that lead from a node are exactly those of the graph that begin there, and
/// those that lead to it exactly those that end there.
pub proof fn law_edges_of_a_node(
    graph: RoutingGraph,
    id: &str,
    outgoing: Vec<PipeDescriptor>,
    incoming: Vec<PipeDescriptor>,
    edge: PipeDescriptor,
)
    requires
        call_ensures(RoutingGraph::outgoing, (&graph, id), outgoing),
        call_ensures(RoutingGraph::incoming, (&graph, id), incoming),
    ensures
        outgoing@.contains(edge) <==> graph.edges@.contains(edge) && edge.from@ == id@,
        incoming@.contains(edge) <==> graph.edges@.contains(edge) && edge.to@ == id@,
{
    let out = |e: PipeDescriptor| e.from@ == id@;
    let into = |e: PipeDescriptor| e.to@ == id@;
    lemma_edges(graph.edges@, out, edge);
    lemma_edges(graph.edges@, into, edge);
}

proof fn lemma_edges(
    edges: Seq<PipeDescriptor>,
    keep: spec_fn(PipeDescriptor) -> bool,
    edge: PipeDescriptor,
)
    ensures
        crate::graph::edge_places(edges, keep).map_values(|i: int| edges[i]).contains(edge)
            <==> edges.contains(edge) && keep(edge),
{
    let kept_at = |i: int| keep(edges[i]);
    lemma_kept(kept_at, edges.len() as int);
    let places = kept(kept_at, edges.len() as int);
    let list = crate::graph::edge_places(edges, keep).map_values(|i: int| edges[i]);
    if edges.contains(edge) && keep(edge) {
        let i = edges.index_of(edge);
        assert(kept_at(i));
        assert(places.contains(i));
        assert(list[places.index_of(i)] == edge);
    }
    if list.contains(edge) {
        let k = list.index_of(edge);
        assert(kept_at(places[k]));
        assert(edges[places[k]] == edge);
    }
}

} // verus!
