//! What the daemon answers and keeps, over all profiles and states.

use crate::api::ApiError;
use crate::daemon::{
    applied_over, cleared, sinks_with, DaemonState, DaemonStatus, DoctorFindings, DoctorReport,
    EngineChoice, LiveRuntime, MarsDaemon,
};
use crate::devices::DeviceDescriptor;
use crate::driver::{major, ConfigurationSummary, RuntimeStats};
use crate::graph::RoutingGraph;
use crate::matching::{
    law_nothing_is_missing_where_all_are_matched, match_place, DeviceInventory, ExternalResolution,
};
use crate::plan::{planned_changes, ApplyPlan};
use crate::profile::{effective_sample_rate, Profile};
use crate::render::restart_required;
use crate::sequences::{lemma_kept_same, views};
use crate::sink_runtime::{SinkRuntimeHealth, SinkRuntimeSinkStatus};
use vstd::prelude::*;

verus! {

/// A profile is planned exactly where all of its external devices are there, and the plan is made
/// against the profile that is applied.
pub proof fn law_plans_need_all_devices(
    daemon: MarsDaemon,
    no_delete: bool,
    profile: Profile,
    warnings: Vec<String>,
    inventory: DeviceInventory,
    r: Result<ApplyPlan, ApiError>,
)
    requires
        call_ensures(
            MarsDaemon::plan_internal,
            (&daemon, no_delete, &profile, warnings, Ok::<DeviceInventory, ApiError>(inventory)),
            r,
        ),
    ensures
        r is Ok <==> (forall|i: int|
            0 <= i < profile.external.inputs@.len() ==> match_place(
                (#[trigger] profile.external.inputs@[i]).criteria,
                inventory.inputs@,
            ) is Some) && (forall|i: int|
            0 <= i < profile.external.outputs@.len() ==> match_place(
                (#[trigger] profile.external.outputs@[i]).criteria,
                inventory.outputs@,
            ) is Some),
        r is Ok ==> views(r->Ok_0.changes@) == planned_changes(
            daemon.state.current_profile,
            profile,
            no_delete,
        ) && r->Ok_0.warnings@.len() >= warnings@.len(),
{
    let n = profile.external.inputs@.len() as int;
    let m = profile.external.outputs@.len() as int;
    law_nothing_is_missing_where_all_are_matched(profile, inventory, n, m);
    assert(views(warnings@).len() == warnings@.len());
    if r is Ok {
        assert(views(r->Ok_0.warnings@).len() == r->Ok_0.warnings@.len());
    }
}

/// A profile is applied only where all of its external devices are there, and then with what they
/// were matched with.
pub proof fn law_applying_needs_all_devices(
    profile: Profile,
    inventory: DeviceInventory,
    r: Result<ExternalResolution, ApiError>,
)
    requires
        call_ensures(crate::daemon::require_externals, (&profile, &inventory), r),
    ensures
        r is Ok <==> (forall|i: int|
            0 <= i < profile.external.inputs@.len() ==> match_place(
                (#[trigger] profile.external.inputs@[i]).criteria,
                inventory.inputs@,
            ) is Some) && (forall|i: int|
            0 <= i < profile.external.outputs@.len() ==> match_place(
                (#[trigger] profile.external.outputs@[i]).criteria,
                inventory.outputs@,
            ) is Some),
        r is Ok ==> crate::matching::resolution_of(profile, inventory, r->Ok_0),
{
    let n = profile.external.inputs@.len() as int;
    let m = profile.external.outputs@.len() as int;
    law_nothing_is_missing_where_all_are_matched(profile, inventory, n, m);
}

/// What is applied is the profile itself, unless nothing is to be deleted: then the devices of
/// the profile before it are kept too, and all the rest is that of the new one.
pub proof fn law_devices_are_kept_only_without_deleting(
    daemon: MarsDaemon,
    no_delete: bool,
    next: Profile,
    r: Profile,
    i: int,
)
    requires
        call_ensures(MarsDaemon::effective_profile, (&daemon, no_delete, next), r),
    ensures
        !no_delete || daemon.state.current_profile is None ==> r == next,
        r.pipes == next.pipes && r.routes == next.routes && r.audio == next.audio && r.buses
            == next.buses && r.sinks == next.sinks && r.captures == next.captures && r.external
            == next.external && r.processors == next.processors && r.processor_chains
            == next.processor_chains,
        0 <= i < next.virtual_devices.outputs@.len() ==> r.virtual_devices.outputs@[i]
            == next.virtual_devices.outputs@[i],
        0 <= i < next.virtual_devices.inputs@.len() ==> r.virtual_devices.inputs@[i]
            == next.virtual_devices.inputs@[i],
{
}

/// The engine that runs goes on exactly where there is one and nothing that it was started with
/// differs.
pub proof fn law_engine_goes_on_where_it_can(daemon: MarsDaemon, next: Profile, r: EngineChoice)
    requires
        call_ensures(MarsDaemon::engine_choice, (&daemon, &next), r),
    ensures
        r is Reuse <==> daemon.state.engine is Some && daemon.state.current_profile is Some
            && !restart_required(daemon.state.current_profile->0, next),
{
}

/// Once a profile is activated it is the current one, with its path, its graph and its devices,
/// and the engine renders at its rate and in its buffers; what was counted stays.
pub proof fn law_activation_makes_the_profile_current(
    state: DaemonState,
    before: DaemonState,
    path: Seq<char>,
    profile: Profile,
    graph: RoutingGraph,
    devices: Vec<DeviceDescriptor>,
)
    requires
        applied_over(state, before, path, profile, graph, devices),
    ensures
        state.current_profile == Some(profile),
        state.current_profile_path is Some && state.current_profile_path->0@ == path,
        state.graph == Some(graph),
        state.devices == devices,
        state.engine is Some,
        state.engine->0.sample_rate == effective_sample_rate(profile),
        state.engine->0.buffer_frames == profile.audio.buffer_frames,
        state.counters == before.counters,
{
}

/// Once everything is cleared no profile is current and nothing is rendered; all devices stay
/// where they are to be kept.
pub proof fn law_clearing_leaves_no_profile(
    state: DaemonState,
    before: DaemonState,
    keep_devices: bool,
)
    requires
        cleared(state, before, keep_devices),
    ensures
        state.current_profile is None,
        state.current_profile_path is None,
        state.graph is None,
        state.engine is None,
        state.external_runtime.connected_inputs == 0,
        state.external_runtime.connected_outputs == 0,
        keep_devices ==> state.devices@ == before.devices@,
        state.counters == before.counters,
{
}

/// The status tells what is applied and rendered, and adds up what the driver and the external
/// devices counted.
pub proof fn law_status_tells_what_is_applied(
    daemon: MarsDaemon,
    summary: Option<ConfigurationSummary>,
    stats: Option<RuntimeStats>,
    live: Option<LiveRuntime>,
    updated_at: String,
    r: DaemonStatus,
)
    requires
        call_ensures(
            MarsDaemon::status_internal,
            (&daemon, summary, stats, live, updated_at),
            r,
        ),
    ensures
        r.running <==> daemon.state.engine is Some,
        r.current_profile == daemon.state.current_profile_path,
        daemon.state.current_profile is Some ==> r.sample_rate == effective_sample_rate(
            daemon.state.current_profile->0,
        ) && r.buffer_frames == daemon.state.current_profile->0.audio.buffer_frames,
        daemon.state.current_profile is None ==> r.sample_rate == 48_000 && r.buffer_frames == 256,
        daemon.state.graph is Some ==> r.graph_pipe_count == daemon.state.graph->0.edges@.len(),
        daemon.state.graph is None ==> r.graph_pipe_count == 0,
        r.devices@ == daemon.state.devices@,
        r.updated_at == updated_at,
        live is None && stats is None ==> r.counters == daemon.state.counters,
        live is None && stats is Some ==> r.counters.underrun_count == stats->0.underrun_count
            && r.counters.overrun_count == stats->0.overrun_count && r.counters.xrun_count
            == stats->0.xrun_count && r.counters.last_callback_ns == stats->0.last_callback_ns,
        live is Some && stats is Some && stats->0.underrun_count
            + live->0.external_counters.underrun_count <= u64::MAX ==> r.counters.underrun_count
            == stats->0.underrun_count + live->0.external_counters.underrun_count,
        live is Some && stats is Some && stats->0.overrun_count
            + live->0.external_counters.overrun_count <= u64::MAX ==> r.counters.overrun_count
            == stats->0.overrun_count + live->0.external_counters.overrun_count,
        live is Some && stats is Some && stats->0.xrun_count + live->0.external_counters.xrun_count
            <= u64::MAX ==> r.counters.xrun_count == stats->0.xrun_count
            + live->0.external_counters.xrun_count,
        live is Some ==> r.counters.deadline_miss_count == live->0.metrics.deadline_miss_count
            && r.counters.last_cycle_ns == live->0.metrics.last_cycle_ns && r.counters.max_cycle_ns
            == live->0.metrics.max_cycle_ns && r.external_runtime == live->0.external_runtime
            && r.sink_runtime == live->0.sink_runtime && r.plugin_runtime
            == live->0.plugin_runtime,
        live is None ==> r.external_runtime.connected_inputs
            == daemon.state.external_runtime.connected_inputs
            && r.external_runtime.connected_outputs
            == daemon.state.external_runtime.connected_outputs,
{
}

/// A diagnosis says of each part whether it is well: the microphone may be used where that is
/// granted or taken for granted, and the driver fits where it is installed and loaded and its
/// version begins with the number of the daemon.
pub proof fn law_diagnosis_says_what_is_well(
    daemon: MarsDaemon,
    findings: DoctorFindings,
    r: DoctorReport,
)
    requires
        call_ensures(MarsDaemon::doctor_report_internal, (&daemon, findings), r),
    ensures
        r.daemon_reachable,
        r.driver_installed == findings.driver_installed,
        r.microphone_permission_ok <==> findings.assume_microphone
            || findings.microphone_permission == Some(true),
        r.driver_compatible <==> findings.driver_installed && findings.driver_loaded
            && findings.driver_version is Some && major(findings.driver_version->0@) is Some
            && major(findings.driver_version->0@) == major(findings.daemon_version@),
        r.sink_write_errors == daemon.state.sink_runtime.write_errors,
        r.plugin_active == daemon.state.plugin_runtime.active_instances,
        r.plugin_failed == daemon.state.plugin_runtime.failed_instances,
        r.plugin_timeouts == daemon.state.plugin_runtime.timeout_count,
        r.plugin_errors == daemon.state.plugin_runtime.error_count,
        r.plugin_restarts == daemon.state.plugin_runtime.restart_count,
        r.sink_degraded == sinks_with(
            daemon.state.sink_runtime.sinks@,
            SinkRuntimeHealth::Degraded,
        ),
        r.sink_failed == sinks_with(daemon.state.sink_runtime.sinks@, SinkRuntimeHealth::Failed),
{
}

/// A diagnosis notes something exactly where something is not well: a driver that is missing, not
/// loaded, of another version or not done, a microphone that may not be used, sinks that are
/// degraded or failed, or plugins that failed.
pub proof fn law_diagnosis_notes_what_is_not_well(
    daemon: MarsDaemon,
    findings: DoctorFindings,
    r: DoctorReport,
)
    requires
        call_ensures(MarsDaemon::doctor_report_internal, (&daemon, findings), r),
        daemon.state.graph is None,
    ensures
        r.notes@.len() == 0 <==> findings.driver_installed && findings.driver_loaded
            && r.driver_compatible && r.microphone_permission_ok && !findings.driver.pending_change
            && r.sink_degraded == 0 && r.sink_failed == 0 && r.sink_write_errors == 0
            && r.plugin_failed == 0 && r.plugin_timeouts == 0 && r.plugin_errors == 0
            && r.plugin_restarts == 0,
{
    assert(views(r.notes@).len() == r.notes@.len());
}

/// Sinks are counted by their health, each once.
pub proof fn law_sinks_are_counted_by_health(
    sinks: Seq<SinkRuntimeSinkStatus>,
    last: SinkRuntimeSinkStatus,
    health: SinkRuntimeHealth,
)
    ensures
        sinks_with(Seq::empty(), health) == 0,
        sinks_with(sinks.push(last), health) == sinks_with(sinks, health) + if last.health
            == health {
            1int
        } else {
            0int
        },
{
    let more = sinks.push(last);
    lemma_kept_same(
        |i: int| more[i].health == health,
        |i: int| sinks[i].health == health,
        sinks.len() as int,
    );
}

} // verus!
