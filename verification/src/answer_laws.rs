//! What the library answers and tells, stated of the operations themselves: counters and retries
//! of external devices, plugin totals, probes, self tests, streams and reports.

use crate::api::ExitCode;
use crate::apply::ApplyResult;
use crate::au_host::{PluginHostHealth, PluginHostInstanceStatus};
use crate::capture_runtime::{endpoint_place_from, CaptureRuntimeStatus};
use crate::cli::CliError;
use crate::driver::{CacheRead, DriverStateSnapshot};
use crate::external_io::{EndpointPhase, ExternalInputEndpointSnapshot};
use crate::external_runtime::{ExternalIoRuntime, OutputEndpoint};
use crate::file_sink::FileStage;
use crate::intents::PersistStep;
use crate::launcher::EnsureStep;
use crate::matching::ExternalDeviceInfo;
use crate::number::Real32;
use crate::probe::RingProbe;
use crate::processors::{
    capped_sum, PluginHostRuntimeStatus, ProcessorSchedule, ProcessorState,
};
use crate::profile::FileSinkFormat;
use crate::sequences::{kept, lemma_kept, lemma_kept_same};
use crate::streams::{CoreAudioError, StreamDirection, SupportedConfig};
use std::collections::VecDeque;
use vstd::prelude::*;

verus! {

// ---------------------------------------------------------------------------
// Captures and external devices

/// A tap that an external input reads tells of that input; every other tap stays as it was.
pub proof fn law_enrich_capture(
    status: CaptureRuntimeStatus,
    endpoints: Vec<ExternalInputEndpointSnapshot>,
    r: CaptureRuntimeStatus,
    i: int,
    k: int,
)
    requires
        call_ensures(
            crate::capture_runtime::enrich_capture_runtime_with_external_inputs,
            (status, &endpoints),
            r,
        ),
        0 <= i < status.taps@.len(),
    ensures
        r.taps@.len() == status.taps@.len(),
        r.errors == status.errors,
        r.active_taps == status.active_taps,
        (forall|j: int|
            0 <= j < endpoints@.len() ==> (#[trigger] endpoints@[j]).node_id@
                != status.taps@[i].id@) ==> r.taps@[i] == status.taps@[i],
        0 <= k < endpoints@.len() && endpoints@[k].node_id@ == status.taps@[i].id@ && (forall|
            j: int,
        |
            0 <= j < k ==> (#[trigger] endpoints@[j]).node_id@ != status.taps@[i].id@) ==> {
            &&& r.taps@[i].id == status.taps@[i].id
            &&& r.taps@[i].underrun_count == endpoints@[k].underrun_count
            &&& r.taps@[i].overrun_count == endpoints@[k].overrun_count
            &&& r.taps@[i].xrun_count == endpoints@[k].xrun_count
            &&& r.taps@[i].ingested_frames == endpoints@[k].ingested_frames
            &&& r.taps@[i].restart_attempts == endpoints@[k].restart_attempts
            &&& r.taps@[i].health is Healthy <==> endpoints@[k].health is Connected
            &&& r.taps@[i].health is Failed <==> endpoints@[k].health is Stopped
            &&& r.taps@[i].error_ring@ == endpoints@[k].error_ring@
            &&& endpoints@[k].error_ring@.len() > 0 ==> r.taps@[i].last_error == Some(
                endpoints@[k].error_ring@.last(),
            )
            &&& endpoints@[k].error_ring@.len() == 0 ==> r.taps@[i].last_error
                == status.taps@[i].last_error
        },
{
    let id = status.taps@[i].id@;
    assert(crate::capture_runtime::enriched_tap(status.taps@[i], endpoints@, r.taps@[i]));
    lemma_endpoint_place(endpoints@, id, 0);
    let place = crate::capture_runtime::endpoint_place(endpoints@, id);
    if place is None {
        if 0 <= k < endpoints@.len() {
            assert(endpoints@[k].node_id@ != id);
        }
    } else if 0 <= k < endpoints@.len() && endpoints@[k].node_id@ == id && (forall|j: int|
        0 <= j < k ==> (#[trigger] endpoints@[j]).node_id@ != id) {
        assert(endpoints@[place->0].node_id@ == id);
        assert(place->0 == k);
    }
}

proof fn lemma_endpoint_place(
    endpoints: Seq<ExternalInputEndpointSnapshot>,
    id: Seq<char>,
    from: int,
)
    requires
        0 <= from,
    ensures
        ({
            let place = endpoint_place_from(endpoints, id, from);
            &&& place is Some ==> from <= place->0 < endpoints.len() && endpoints[place->0].node_id@
                == id
            &&& forall|j: int|
                from <= j < endpoints.len() && (place is None || j < place->0)
                    ==> (#[trigger] endpoints[j]).node_id@ != id
        }),
    decreases endpoints.len() - from,
{
    if from < endpoints.len() && endpoints[from].node_id@ != id {
        lemma_endpoint_place(endpoints, id, from + 1);
    }
}

proof fn lemma_due_output(endpoints: Seq<OutputEndpoint>, from: int, now_ms: u64)
    requires
        0 <= from,
    ensures
        ({
            let place = crate::external_runtime::first_due_output(endpoints, from, now_ms);
            &&& place is Some ==> from <= place->0 < endpoints.len()
                && crate::external_runtime::retry_due(endpoints[place->0].link, now_ms)
            &&& forall|j: int|
                from <= j < (if place is Some {
                    place->0
                } else {
                    endpoints.len() as int
                }) ==> !crate::external_runtime::retry_due((#[trigger] endpoints[j]).link, now_ms)
        }),
    decreases endpoints.len() - from,
{
    if from < endpoints.len() && !crate::external_runtime::retry_due(
        endpoints[from].link,
        now_ms,
    ) {
        lemma_due_output(endpoints, from + 1, now_ms);
    }
}

/// The next output to try is the first that is due, and none is tried where none is.
pub proof fn law_next_output_retry(
    runtime: &mut ExternalIoRuntime,
    from: usize,
    now_ms: u64,
    r: Option<usize>,
    k: int,
)
    requires
        old(runtime).wf(),
        call_ensures(ExternalIoRuntime::next_output_retry, (runtime, from, now_ms), r),
        old(runtime).restart_attempts < u64::MAX,
        from <= k < old(runtime).output_endpoints.values().len(),
    ensures
        r is None ==> *final(runtime) == *old(runtime),
        ({
            let link = old(runtime).output_endpoints.values()[k].link;
            let due = link.phase == EndpointPhase::Degraded && link.next_retry_at is Some
                && link.next_retry_at->0 <= now_ms;
            &&& due ==> r is Some && r->0 <= k
            &&& r is Some && r->0 == k ==> {
                &&& due
                &&& final(runtime).output_endpoints.values()[k].link.phase
                    == EndpointPhase::Reconnecting
                &&& final(runtime).output_endpoints.values()[k].queue
                    == old(runtime).output_endpoints.values()[k].queue
                &&& final(runtime).restart_attempts == old(runtime).restart_attempts + 1
            }
        }),
        final(runtime).input_endpoints == old(runtime).input_endpoints,
{
    lemma_due_output(old(runtime).output_endpoints.values(), from as int, now_ms);
    let link = old(runtime).output_endpoints.values()[k].link;
    crate::external_runtime::law_retries_are_due_in_time(link, now_ms);
}

/// An output that was connected again is connected; one that was not waits again, tried once
/// more, and what it failed with is told.
pub proof fn law_finish_output_retry(
    runtime: &mut ExternalIoRuntime,
    index: usize,
    outcome: Result<usize, String>,
    now_ms: u64,
    clock_ms: u64,
)
    requires
        old(runtime).wf(),
        index < old(runtime).output_endpoints.values().len(),
        call_ensures(
            ExternalIoRuntime::finish_output_retry,
            (runtime, index, outcome, now_ms, clock_ms),
            (),
        ),
    ensures
        ({
            let before = old(runtime).output_endpoints.values()[index as int];
            let after = final(runtime).output_endpoints.values()[index as int];
            &&& after.node_id == before.node_id && after.queue == before.queue
            &&& outcome is Ok ==> after.link.phase == EndpointPhase::Connected
                && after.link.device_channels == outcome->Ok_0 && after.link.attempts == 0
                && final(runtime).stream_errors == old(runtime).stream_errors
            &&& outcome is Err ==> after.link.phase == EndpointPhase::Degraded
                && final(runtime).stream_errors@.len() > 0 && after.link.next_retry_at is Some
            &&& outcome is Err && before.link.attempts < u32::MAX ==> after.link.attempts
                == before.link.attempts + 1
        }),
        final(runtime).input_endpoints == old(runtime).input_endpoints,
{
}

/// An error of a stream is counted, with its device where that is an input, and told last.
pub proof fn law_note_stream_errors(
    input: &mut ExternalIoRuntime,
    output: &mut ExternalIoRuntime,
    index: usize,
    error: &str,
)
    requires
        old(input).wf(),
        old(output).wf(),
        index < old(input).input_endpoints.values().len(),
        index < old(output).output_endpoints.values().len(),
        call_ensures(ExternalIoRuntime::note_input_error, (input, index, error), ()),
        call_ensures(ExternalIoRuntime::note_output_error, (output, index, error), ()),
        old(input).xrun_count < u64::MAX,
        old(output).xrun_count < u64::MAX,
        old(input).input_endpoints.values()[index as int].xrun_count < u64::MAX,
    ensures
        final(input).xrun_count == old(input).xrun_count + 1,
        final(output).xrun_count == old(output).xrun_count + 1,
        final(input).input_endpoints.values()[index as int].xrun_count
            == old(input).input_endpoints.values()[index as int].xrun_count + 1,
        final(input).stream_errors@.len() > 0,
        final(output).stream_errors@.len() > 0,
        final(input).stream_errors@.last()@.len() >= error@.len(),
        final(input).stream_errors@.last()@.skip(
            final(input).stream_errors@.last()@.len() - error@.len(),
        ) == error@,
        final(output).stream_errors@.last()@.skip(
            final(output).stream_errors@.last()@.len() - error@.len(),
        ) == error@,
        final(input).input_endpoints.values()[index as int].errors@.last()@
            == final(input).stream_errors@.last()@,
{
    let told = final(input).stream_errors@.last()@;
    let other = final(output).stream_errors@.last()@;
    assert(told.skip(told.len() - error@.len()) =~= error@);
    assert(other.skip(other.len() - error@.len()) =~= error@);
}

/// A queue gives what came first, then silence, and is told to have run dry where it had too
/// little.
pub proof fn law_pop_samples(queue: &mut VecDeque<u32>, out: &mut Vec<u32>, r: bool, i: int)
    requires
        call_ensures(crate::external_io::pop_samples, (queue, out), r),
        0 <= i < old(out)@.len(),
    ensures
        final(out)@.len() == old(out)@.len(),
        i < old(queue)@.len() ==> final(out)@[i] == old(queue)@[i],
        i >= old(queue)@.len() ==> final(out)@[i] == 0,
        r <==> old(queue)@.len() < old(out)@.len(),
        !r ==> final(out)@ + final(queue)@ == old(queue)@,
        r ==> final(queue)@.len() == 0,
{
    if !r {
        assert(final(out)@ + final(queue)@ =~= old(queue)@);
    }
}

/// A queue takes everything in, and gives up what came first where it has no room.
pub proof fn law_push_samples(
    queue: &mut VecDeque<u32>,
    samples: Vec<u32>,
    max_samples: usize,
    r: bool,
)
    requires
        call_ensures(crate::external_io::push_samples, (queue, &samples, max_samples), r),
        samples@.len() > 0,
    ensures
        r <==> old(queue)@.len() + samples@.len() > max_samples,
        !r ==> final(queue)@ == old(queue)@ + samples@,
        r ==> final(queue)@.len() == max_samples,
        r && samples@.len() <= max_samples ==> final(queue)@.skip(max_samples - samples@.len())
            == samples@,
{
    if r && samples@.len() <= max_samples {
        assert(final(queue)@.skip(max_samples - samples@.len()) =~= samples@);
    }
}

// ---------------------------------------------------------------------------
// Plugins

/// What a plugin made is kept for the processor that asked, and is refused where there is none.
pub proof fn law_deliver_result(
    schedule: &mut ProcessorSchedule,
    route_id: &str,
    place: usize,
    samples: Vec<u32>,
    r: bool,
)
    requires
        old(schedule).wf(),
        call_ensures(ProcessorSchedule::deliver_result, (schedule, route_id, place, samples), r),
    ensures
        ({
            let ids = old(schedule).route_chains.keys();
            let at = ids.index_of(route_id@);
            let chain = old(schedule).route_chains.values()[at]@;
            &&& r <==> ids.contains(route_id@) && place < chain.len()
                && chain[place as int].state is Host
            &&& !r ==> *final(schedule) == *old(schedule)
            &&& r ==> {
                let after = final(schedule).route_chains.values()[at]@;
                &&& after.len() == chain.len()
                &&& after[place as int].state == (ProcessorState::Host {
                    latest: Some(samples),
                    request: chain[place as int].state->Host_request,
                })
                &&& after[place as int].stats == chain[place as int].stats
            }
        }),
{
    if r {
        let ids = old(schedule).route_chains.keys();
        let at = ids.index_of(route_id@);
        assert(0 <= at < ids.len());
    }
}

proof fn lemma_capped_same(f: spec_fn(int) -> u64, g: spec_fn(int) -> u64, n: int)
    requires
        forall|k: int| 0 <= k < n ==> #[trigger] f(k) == g(k),
    ensures
        capped_sum(f, n) == capped_sum(g, n),
    decreases n,
{
    if n > 0 {
        assert(f(n - 1) == g(n - 1));
        lemma_capped_same(f, g, n - 1);
    }
}

/// One more plugin adds its counters to the totals, as far as they go, and counts as active where
/// it is loaded and did not fail.
pub proof fn law_plugin_totals(
    fewer: Vec<PluginHostInstanceStatus>,
    more: Vec<PluginHostInstanceStatus>,
    one: PluginHostInstanceStatus,
    a: PluginHostRuntimeStatus,
    b: PluginHostRuntimeStatus,
)
    requires
        more@ == fewer@.push(one),
        call_ensures(crate::processors::plugin_runtime_status, (fewer,), a),
        call_ensures(crate::processors::plugin_runtime_status, (more,), b),
    ensures
        b.instances == more,
        b.active_instances == a.active_instances + (if one.loaded && one.health
            != PluginHostHealth::Failed {
            1int
        } else {
            0
        }),
        b.failed_instances == a.failed_instances + (if one.health == PluginHostHealth::Failed {
            1int
        } else {
            0
        }),
        a.timeout_count + one.timeout_count <= u64::MAX ==> b.timeout_count == a.timeout_count
            + one.timeout_count,
        a.error_count + one.error_count <= u64::MAX ==> b.error_count == a.error_count
            + one.error_count,
        a.restart_count + one.restart_count <= u64::MAX ==> b.restart_count == a.restart_count
            + one.restart_count,
{
    let n = fewer@.len() as int;
    let (f, g) = (|i: int| fewer@[i].timeout_count, |i: int| more@[i].timeout_count);
    lemma_capped_same(f, g, n);
    assert(g(n) == one.timeout_count);
    let (f, g) = (|i: int| fewer@[i].error_count, |i: int| more@[i].error_count);
    lemma_capped_same(f, g, n);
    assert(g(n) == one.error_count);
    let (f, g) = (|i: int| fewer@[i].restart_count, |i: int| more@[i].restart_count);
    lemma_capped_same(f, g, n);
    assert(g(n) == one.restart_count);
    let (f, g) = (
        |i: int| crate::processors::host_active(fewer@[i]),
        |i: int| crate::processors::host_active(more@[i]),
    );
    lemma_kept_same(f, g, n);
    assert(kept(g, n + 1).len() == kept(g, n).len() + (if g(n) {
        1int
    } else {
        0
    }));
    let (f, g) = (
        |i: int| fewer@[i].health == PluginHostHealth::Failed,
        |i: int| more@[i].health == PluginHostHealth::Failed,
    );
    lemma_kept_same(f, g, n);
    assert(kept(g, n + 1).len() == kept(g, n).len() + (if g(n) {
        1int
    } else {
        0
    }));
}

// ---------------------------------------------------------------------------
// Probes

/// A probe is concluded where its score is high enough, and its latency is how much later the
/// signal was found than it was played.
pub proof fn law_conclude_probe(
    peak_index: usize,
    score: Real32,
    least: Real32,
    pre_roll_frames: usize,
    r: Result<i64, CoreAudioError>,
)
    requires
        call_ensures(
            crate::probe::conclude_probe,
            (peak_index, score, least, pre_roll_frames),
            r,
        ),
    ensures
        r is Err <==> score.below(least),
        r is Ok ==> pre_roll_frames + r->Ok_0 == peak_index,
        r is Err ==> r->Err_0 == (CoreAudioError::ProbeCorrelationLow { score }),
{
}

/// A monitor listens for as long as it may, in whole seconds and for one at least, with room to
/// spare.
pub proof fn law_monitor_capture_samples(
    sample_rate: u32,
    timeout_ms: u64,
    vin_channels: u16,
    r: usize,
)
    requires
        call_ensures(
            crate::probe::monitor_capture_samples,
            (sample_rate, timeout_ms, vin_channels),
            r,
        ),
    ensures
        timeout_ms < 2000 ==> r == sample_rate * vin_channels * 2,
        timeout_ms >= 1000 ==> r == sample_rate * (timeout_ms as int / 1000) * vin_channels * 2,
{
    if timeout_ms < 2000 {
        assert(sample_rate * 1 == sample_rate);
        if timeout_ms >= 1000 {
            assert(timeout_ms as int / 1000 == 1);
        }
    }
}

/// No more is written than the ring has room for, than is left and than a chunk holds; nothing is
/// written only where nothing is left or there is no room.
pub proof fn law_frames_to_write(
    probe: RingProbe,
    write_idx: u64,
    read_idx: u64,
    capacity_frames: u32,
    r: Option<usize>,
)
    requires
        probe.wf(),
        read_idx <= write_idx,
        call_ensures(
            RingProbe::frames_to_write,
            (&probe, write_idx, read_idx, capacity_frames),
            r,
        ),
    ensures
        r is None <==> probe.output_cursor >= probe.output@.len() || write_idx - read_idx
            >= capacity_frames,
        r is Some ==> {
            let left = (probe.output@.len() - probe.output_cursor) / (probe.output_channels as int);
            let free = capacity_frames - (write_idx - read_idx);
            &&& r->0 <= free && r->0 <= left && r->0 <= probe.chunk_frames
            &&& r->0 == free || r->0 == left || r->0 == probe.chunk_frames
        },
{
}

/// A probe that captured less than it played has timed out.
pub proof fn law_check_captured(
    probe: RingProbe,
    probe_frames: usize,
    timeout_ms: u64,
    r: Result<(), CoreAudioError>,
    complete: bool,
)
    requires
        call_ensures(RingProbe::check_captured, (&probe, probe_frames, timeout_ms), r),
        call_ensures(RingProbe::is_complete, (&probe,), complete),
    ensures
        r is Ok <==> probe.captured@.len() >= probe_frames * probe.vin_channels,
        r is Err ==> r->Err_0 == (CoreAudioError::ProbeTimeout { timeout_ms }),
        complete <==> probe.output_cursor >= probe.output@.len() && probe.captured@.len()
            >= probe.max_capture_samples,
{
}

// ---------------------------------------------------------------------------
// Self tests and streams

/// The channels of a test are the first preferred number that the device has at the rate; where
/// it has none of them, the most that it has; and there are none only where it has no
/// configuration at the rate.
pub proof fn law_select_test_channels(
    uid: &str,
    direction: StreamDirection,
    sample_rate: u32,
    preferred: Vec<u16>,
    queried: Result<Vec<SupportedConfig>, String>,
    r: Result<u16, CliError>,
    k: int,
    p: int,
)
    requires
        call_ensures(
            crate::selftest::select_test_channels,
            (uid, direction, sample_rate, &preferred, &queried),
            r,
        ),
        queried is Ok,
        0 <= k < queried->Ok_0@.len(),
        queried->Ok_0@[k].min_sample_rate <= sample_rate <= queried->Ok_0@[k].max_sample_rate,
    ensures
        r is Ok,
        exists|j: int|
            0 <= j < queried->Ok_0@.len() && (#[trigger] queried->Ok_0@[j]).channels == r->Ok_0
                && queried->Ok_0@[j].min_sample_rate <= sample_rate
                <= queried->Ok_0@[j].max_sample_rate,
        !preferred@.contains(r->Ok_0) ==> queried->Ok_0@[k].channels <= r->Ok_0,
        0 <= p < preferred@.len() && preferred@[p] == queried->Ok_0@[k].channels
            ==> exists|q: int| 0 <= q <= p && #[trigger] preferred@[q] == r->Ok_0,
{
    let configs = queried->Ok_0@;
    assert(crate::streams::configs_in(queried) == configs);
    assert(crate::streams::holds_rate(configs[k], sample_rate));
    let channels = r->Ok_0;
    if 0 <= p < preferred@.len() && preferred@[p] == configs[k].channels {
        assert(crate::streams::holds_config(configs[k], preferred@[p], sample_rate));
        assert(crate::streams::some_config(configs, preferred@[p], sample_rate));
    }
    if crate::streams::some_config(configs, channels, sample_rate) {
        let j = choose|j: int|
            0 <= j < configs.len() && crate::streams::holds_config(
                #[trigger] configs[j],
                channels,
                sample_rate,
            );
        assert(configs[j].channels == channels);
    } else {
        let counts = crate::streams::channel_set(configs, sample_rate, configs.len() as int);
        assert(crate::selftest::most_supported(configs, sample_rate, channels));
        assert(counts.contains(channels as u32));
        let j = choose|j: int|
            0 <= j < configs.len() && crate::streams::holds_rate(#[trigger] configs[j], sample_rate)
                && configs[j].channels == channels;
        assert(configs[j].channels == channels);
        assert(crate::streams::holds_config(configs[j], channels, sample_rate));
    }
    if !preferred@.contains(channels) {
        let counts = crate::streams::channel_set(configs, sample_rate, configs.len() as int);
        assert(crate::selftest::most_supported(configs, sample_rate, channels));
        assert(counts.contains(configs[k].channels as u32));
    }
}

/// A device that is named is the only one that is called so; without a name it is the default.
pub proof fn law_resolve_test_device(
    devices: Vec<ExternalDeviceInfo>,
    name: &str,
    default_device: ExternalDeviceInfo,
    label: &str,
    named: Result<ExternalDeviceInfo, CliError>,
    unnamed: Result<ExternalDeviceInfo, CliError>,
    i: int,
    j: int,
)
    requires
        call_ensures(
            crate::selftest::resolve_test_device,
            (&devices, Some(name), &default_device, label),
            named,
        ),
        call_ensures(
            crate::selftest::resolve_test_device,
            (&devices, None::<&str>, &default_device, label),
            unnamed,
        ),
    ensures
        unnamed is Ok && unnamed->Ok_0.uid == default_device.uid && unnamed->Ok_0.name
            == default_device.name && unnamed->Ok_0.channels == default_device.channels,
        named is Ok ==> (named->Ok_0.uid@ == name@ || named->Ok_0.name@ == name@) && exists|k: int|
            0 <= k < devices@.len() && (#[trigger] devices@[k]).uid == named->Ok_0.uid,
        0 <= i < devices@.len() && 0 <= j < devices@.len() && i != j && (devices@[i].uid@ == name@
            || devices@[i].name@ == name@) && (devices@[j].uid@ == name@ || devices@[j].name@
            == name@) ==> named is Err,
        (forall|k: int|
            0 <= k < devices@.len() ==> (#[trigger] devices@[k]).uid@ != name@
                && devices@[k].name@ != name@) ==> named is Err,
        named is Err ==> named->Err_0@.exit_code == ExitCode::InvalidInput,
{
    let called_so = |i: int| crate::selftest::is_called(devices@[i], name@);
    let n = devices@.len() as int;
    lemma_kept(called_so, n);
    let places = crate::selftest::called(devices@, name@);
    assert(places == kept(called_so, n));
    if places.len() > 0 {
        let first = places[0];
        assert(called_so(first));
        assert(devices@[first].uid@ == name@ || devices@[first].name@ == name@);
    }
    if 0 <= i < n && 0 <= j < n && i != j && called_so(i) && called_so(j) {
        assert(places.contains(i) && places.contains(j));
        assert(places.index_of(i) != places.index_of(j));
        assert(places.len() >= 2);
    }
}

/// A test whose profile could not be brought in or cleared fails, and says so.
pub proof fn law_check_test_results(
    result: ApplyResult,
    applied: Result<(), CliError>,
    cleared: Result<(), CliError>,
)
    requires
        call_ensures(crate::selftest::check_test_apply, (&result,), applied),
        call_ensures(crate::selftest::check_test_clear, (&result,), cleared),
    ensures
        applied is Ok <==> result.errors@.len() == 0,
        cleared is Ok <==> result.errors@.len() == 0,
        applied is Err ==> applied->Err_0@.exit_code == ExitCode::ApplyFailed,
        cleared is Err ==> cleared->Err_0@.exit_code == ExitCode::ApplyFailed,
{
}

/// A test succeeds only where it ran, the profile came back and what it wrote is gone.
pub proof fn law_settle_test(
    phase: Result<u64, CliError>,
    restore: Result<(), CliError>,
    cleanup: Result<(), String>,
    profile_path: &str,
    finished: &str,
    r: Result<u64, CliError>,
)
    requires
        call_ensures(
            crate::selftest::settle_test::<u64>,
            (phase, restore, cleanup, profile_path, finished),
            r,
        ),
    ensures
        r is Ok <==> phase is Ok && restore is Ok && cleanup is Ok,
        r is Ok ==> r->Ok_0 == phase->Ok_0,
        phase is Err && restore is Ok && cleanup is Ok ==> r->Err_0@ == phase->Err_0@,
        r is Err && !(phase is Err && restore is Ok && cleanup is Ok) ==> r->Err_0@.exit_code
            == ExitCode::ApplyFailed,
{
}

/// A test without a rate or without frames is refused before anything is done.
pub proof fn law_validate_test_audio_config(
    sample_rate: u32,
    buffer_frames: u32,
    r: Result<(), CliError>,
)
    requires
        call_ensures(
            crate::selftest::validate_test_audio_config,
            (sample_rate, buffer_frames),
            r,
        ),
    ensures
        r is Ok <==> sample_rate > 0 && buffer_frames > 0,
        r is Err ==> r->Err_0@.exit_code == ExitCode::InvalidInput,
{
}

/// What the user can mend, a device that is not there or not able, is an invalid input; all else
/// is a failure.
pub proof fn law_coreaudio_to_cli_error(error: CoreAudioError, score: &str, r: CliError)
    requires
        call_ensures(crate::selftest::coreaudio_to_cli_error, (&error, score), r),
    ensures
        r@.exit_code == ExitCode::InvalidInput <==> error is DefaultDeviceUnavailable || error
            is DeviceNotFound || error is UnsupportedChannelCount || error
            is UnsupportedStreamConfig,
        r@.exit_code == ExitCode::InvalidInput || r@.exit_code == ExitCode::ApplyFailed,
{
}

/// A microphone is asked for one channel first and a speaker for two.
pub proof fn law_preferred_test_channels(input: Vec<u16>, output: Vec<u16>)
    requires
        call_ensures(crate::selftest::preferred_test_channels, (StreamDirection::Input,), input),
        call_ensures(crate::selftest::preferred_test_channels, (StreamDirection::Output,), output),
    ensures
        input@.len() == 2 && output@.len() == 2,
        input@[0] == 1 && output@[0] == 2,
        input@ == output@.reverse(),
{
    assert(input@ =~= output@.reverse());
}

/// The numbers of channels that a device has at a rate are exactly those of its configurations
/// with that rate, each once and in ascending order; there are none only where it has no such
/// configuration or could not be asked.
pub proof fn law_supported_channel_counts(
    uid: &str,
    direction: StreamDirection,
    sample_rate: u32,
    queried: Result<Vec<SupportedConfig>, String>,
    r: Result<Vec<u16>, CoreAudioError>,
    k: int,
    i: int,
    j: int,
)
    requires
        call_ensures(
            crate::streams::supported_channel_counts,
            (uid, direction, sample_rate, &queried),
            r,
        ),
    ensures
        queried is Err ==> r is Err,
        queried is Ok && 0 <= k < queried->Ok_0@.len() && queried->Ok_0@[k].min_sample_rate
            <= sample_rate <= queried->Ok_0@[k].max_sample_rate ==> r is Ok && exists|m: int|
            0 <= m < r->Ok_0@.len() && #[trigger] r->Ok_0@[m] == queried->Ok_0@[k].channels,
        r is Ok && 0 <= i < r->Ok_0@.len() ==> exists|m: int|
            0 <= m < queried->Ok_0@.len() && (#[trigger] queried->Ok_0@[m]).channels
                == r->Ok_0@[i] && queried->Ok_0@[m].min_sample_rate <= sample_rate
                <= queried->Ok_0@[m].max_sample_rate,
        r is Ok && 0 <= i < j < r->Ok_0@.len() ==> r->Ok_0@[i] < r->Ok_0@[j],
{
    if queried is Ok {
        let configs = queried->Ok_0@;
        assert(crate::streams::configs_in(queried) == configs);
        let counts = crate::streams::channel_set(configs, sample_rate, configs.len() as int);
        if 0 <= k < configs.len() && configs[k].min_sample_rate <= sample_rate
            <= configs[k].max_sample_rate {
            assert(crate::streams::holds_rate(configs[k], sample_rate));
            assert(r is Ok);
            let wide = crate::streams::widened(r->Ok_0@);
            assert(counts.contains(configs[k].channels as u32));
            assert(wide.to_set().contains(configs[k].channels as u32));
            assert(wide.contains(configs[k].channels as u32));
            let m = wide.index_of(configs[k].channels as u32);
            assert(r->Ok_0@[m] == configs[k].channels);
        }
        if r is Ok {
            let wide = crate::streams::widened(r->Ok_0@);
            if 0 <= i < r->Ok_0@.len() {
                assert(wide[i] == r->Ok_0@[i] as u32);
                assert(wide.to_set().contains(wide[i]));
                assert(counts.contains(wide[i]));
                let m = choose|m: int|
                    0 <= m < configs.len() && crate::streams::holds_rate(
                        #[trigger] configs[m],
                        sample_rate,
                    ) && configs[m].channels == wide[i];
                assert(configs[m].channels == r->Ok_0@[i]);
            }
            if 0 <= i < j < r->Ok_0@.len() {
                assert(wide[i] < wide[j]);
            }
        }
    }
}

// ---------------------------------------------------------------------------
// What is kept and what is told

/// Whatever fails in a recording or in keeping what applications asked for, the cause is told
/// last.
pub proof fn law_causes_are_told(
    format: FileSinkFormat,
    stage: FileStage,
    step: PersistStep,
    directory: &str,
    temporary: &str,
    path: &str,
    error: &str,
    a: String,
    b: String,
)
    requires
        call_ensures(crate::file_sink::stage_error, (format, stage, path, error), a),
        call_ensures(
            crate::intents::persist_error,
            (step, directory, temporary, path, error),
            b,
        ),
    ensures
        a@.len() >= error@.len() && a@.skip(a@.len() - error@.len()) == error@,
        b@.len() >= error@.len() && b@.skip(b@.len() - error@.len()) == error@,
{
    assert(a@.skip(a@.len() - error@.len()) =~= error@);
    assert(b@.skip(b@.len() - error@.len()) =~= error@);
}

/// What the driver was last given is remembered as it was read; a memory that cannot be read is a
/// failure, and one that is not there is none.
pub proof fn law_capture_driver_state_snapshot(
    path: &str,
    read: CacheRead,
    r: Result<DriverStateSnapshot, String>,
)
    requires
        call_ensures(crate::driver::capture_driver_state_snapshot, (path, read), r),
    ensures
        r is Err <==> read is Unreadable,
        r is Ok ==> r->Ok_0.path@ == path@,
        r is Ok ==> (r->Ok_0.raw_json is Some <==> read is Read),
        read is Read ==> r->Ok_0.raw_json == Some(read->raw_json) && r->Ok_0.parsed_state
            == read->parsed_state,
        read is Missing ==> r->Ok_0.parsed_state is None,
{
}

/// A ping waits no longer than a fifth of a second, and as long as it is told where that is less;
/// the first wait asks less often than the later ones.
pub proof fn law_pings(timeout_ms: u64, step: EnsureStep, r: u64, first: usize, other: usize)
    requires
        call_ensures(crate::launcher::normalized_ping_timeout, (timeout_ms,), r),
        call_ensures(crate::launcher::ping_retries, (EnsureStep::WaitInitially,), first),
        call_ensures(crate::launcher::ping_retries, (step,), other),
        step != EnsureStep::WaitInitially,
    ensures
        0 < r <= 200,
        0 < timeout_ms <= 200 ==> r == timeout_ms,
        timeout_ms == 0 || timeout_ms > 200 ==> r == 200,
        0 < first < other,
{
}

/// A store lies where it is configured to lie, and under the home directory where nothing is
/// configured; without either there is no place for it.
pub proof fn law_default_path(
    configured: Option<String>,
    home: Option<String>,
    r: Result<String, String>,
)
    requires
        call_ensures(crate::intents::default_path, (configured, home), r),
    ensures
        r is Ok <==> configured is Some || home is Some,
        configured is Some ==> r->Ok_0@ == configured->0@,
        configured is None && home is Some ==> r->Ok_0@.len() >= home->0@.len() && r->Ok_0@.take(
            home->0@.len() as int,
        ) == home->0@,
{
    if configured is None && home is Some {
        assert(r->Ok_0@.take(home->0@.len() as int) =~= home->0@);
    }
}

/// Where there are no external devices, sinks or plugin hosts, nothing is counted and nothing is
/// told of.
pub proof fn law_idle_runtimes(
    external: crate::external_io::ExternalRuntimeStatus,
    sinks: crate::sink_runtime::SinkRuntimeStatus,
    plugins: PluginHostRuntimeStatus,
)
    requires
        call_ensures(crate::daemon::idle_external_runtime, (), external),
        call_ensures(crate::daemon::idle_sink_runtime, (), sinks),
        call_ensures(crate::daemon::idle_plugin_runtime, (), plugins),
    ensures
        external.connected_inputs == 0 && external.connected_outputs == 0,
        external.degraded_inputs == 0 && external.degraded_outputs == 0,
        external.restart_attempts == 0 && external.stream_errors@.len() == 0,
        sinks.queue_capacity == 0 && sinks.queued_batches == 0,
        sinks.dropped_batches == 0 && sinks.dropped_samples == 0 && sinks.write_errors == 0,
        sinks.active_file_sinks == 0 && sinks.active_stream_sinks == 0,
        sinks.sinks@.len() == 0,
        plugins.active_instances == 0 && plugins.failed_instances == 0,
        plugins.timeout_count == 0 && plugins.error_count == 0 && plugins.restart_count == 0,
        plugins.instances@.len() == 0,
{
}

} // verus!
