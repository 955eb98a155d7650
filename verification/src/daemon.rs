//! The state of the daemon: what is applied, and how it reports on itself.

use crate::api::{led_error, ApiError, ErrorView, ExitCode};
use crate::apply::{ApplyResult, ApplyStep};
use crate::au_host::PluginHostInstanceStatus;
use crate::devices::DeviceDescriptor;
use crate::driver::{
    chars_in, compatible, describe_versions, driver_status_summary, is_driver_compatible, summary_of,
    versions_text, ConfigurationSummary, DriverStatusSummary, RuntimeStats,
};
use crate::external_io::{ExternalRuntimeCounters, ExternalRuntimeStatus};
use crate::feedback::{feedback_notes, feedback_risk_notes};
use crate::graph::{arrows_of, RoutingGraph};
use crate::logs::{
    answer_log_request, answered_lines, byte_len, wanted_lines, LogRequest, LogResponse,
};
use crate::matching::{
    inputs_errors, inputs_warnings, outputs_errors, outputs_warnings, resolve_externals,
    DeviceInventory, ExternalResolution,
};
use crate::plan::{
    deref_profile, merge_previous_devices, merged_inputs, merged_outputs, only_devices_differ,
    plan_changes, planned_changes, ApplyPlan, ChangeView, PlanChange, PlanChangeKind,
};
use crate::processors::PluginHostRuntimeStatus;
use crate::profile::{effective_sample_rate, Profile, DEFAULT_BUFFER_FRAMES, DEFAULT_SAMPLE_RATE};
use crate::render::{render_restart_required, restart_required};
use crate::render_loop::RenderMetrics;
use crate::sequences::{kept, lemma_views_append, lemma_views_push, views};
use crate::sink_runtime::{
    capped, SinkRuntimeHealth, SinkRuntimeSinkStatus, SinkRuntimeStatus,
};
use crate::text::{decimal, decimal_text, join_texts, joined_text};
use vstd::prelude::*;
use vstd::string::*;

verus! {

broadcast use lemma_views_push;

/// What the daemon counts.
#[derive(Debug, Clone, Copy, PartialEq, Eq, Structural)]
pub struct RuntimeCounters {
    pub underrun_count: u64,
    pub overrun_count: u64,
    pub xrun_count: u64,
    pub last_callback_ns: u64,
    pub deadline_miss_count: u64,
    pub last_cycle_ns: u64,
    pub max_cycle_ns: u64,
}

/// Nothing counted.
pub open spec fn no_counts() -> RuntimeCounters {
    RuntimeCounters {
        underrun_count: 0,
        overrun_count: 0,
        xrun_count: 0,
        last_callback_ns: 0,
        deadline_miss_count: 0,
        last_cycle_ns: 0,
        max_cycle_ns: 0,
    }
}

/// What the engine renders at.
#[derive(Debug, Clone, Copy, PartialEq, Eq, Structural)]
pub struct EngineSettings {
    pub sample_rate: u32,
    pub buffer_frames: u32,
}

/// What is applied.
#[derive(Debug)]
pub struct DaemonState {
    pub current_profile_path: Option<String>,
    pub current_profile: Option<Profile>,
    pub graph: Option<RoutingGraph>,
    pub engine: Option<EngineSettings>,
    pub devices: Vec<DeviceDescriptor>,
    pub counters: RuntimeCounters,
    pub external_runtime: ExternalRuntimeStatus,
    pub sink_runtime: SinkRuntimeStatus,
    pub plugin_runtime: PluginHostRuntimeStatus,
}

/// Whether no external device is connected and none has failed.
pub open spec fn no_external(status: ExternalRuntimeStatus) -> bool {
    &&& status.connected_inputs == 0
    &&& status.connected_outputs == 0
    &&& status.degraded_inputs == 0
    &&& status.degraded_outputs == 0
    &&& status.restart_attempts == 0
    &&& status.stream_errors@.len() == 0
}

/// Whether there are no sinks.
pub open spec fn no_sinks(status: SinkRuntimeStatus) -> bool {
    &&& status.queue_capacity == 0
    &&& status.queued_batches == 0
    &&& status.dropped_batches == 0
    &&& status.dropped_samples == 0
    &&& status.write_errors == 0
    &&& status.active_file_sinks == 0
    &&& status.active_stream_sinks == 0
    &&& status.sinks@.len() == 0
}

/// Whether there are no plugin hosts.
pub open spec fn no_plugins(status: PluginHostRuntimeStatus) -> bool {
    &&& status.active_instances == 0
    &&& status.failed_instances == 0
    &&& status.timeout_count == 0
    &&& status.error_count == 0
    &&& status.restart_count == 0
    &&& status.instances@.len() == 0
}

/// The state of the external devices where there are none.
pub fn idle_external_runtime() -> (r: ExternalRuntimeStatus)
    ensures
        no_external(r),
{
    ExternalRuntimeStatus {
        connected_inputs: 0,
        connected_outputs: 0,
        degraded_inputs: 0,
        degraded_outputs: 0,
        restart_attempts: 0,
        stream_errors: Vec::new(),
    }
}

/// The state of the sinks where there are none.
pub fn idle_sink_runtime() -> (r: SinkRuntimeStatus)
    ensures
        no_sinks(r),
{
    SinkRuntimeStatus {
        queue_capacity: 0,
        queued_batches: 0,
        dropped_batches: 0,
        dropped_samples: 0,
        write_errors: 0,
        active_file_sinks: 0,
        active_stream_sinks: 0,
        sinks: Vec::new(),
    }
}

/// The state of the plugin hosts where there are none.
pub fn idle_plugin_runtime() -> (r: PluginHostRuntimeStatus)
    ensures
        no_plugins(r),
{
    PluginHostRuntimeStatus {
        active_instances: 0,
        failed_instances: 0,
        timeout_count: 0,
        error_count: 0,
        restart_count: 0,
        instances: Vec::new(),
    }
}

/// Whether a state is one in which nothing is applied and nothing counted.
pub open spec fn pristine(state: DaemonState) -> bool {
    &&& state.current_profile_path is None
    &&& state.current_profile is None
    &&& state.graph is None
    &&& state.engine is None
    &&& state.devices@.len() == 0
    &&& state.counters == no_counts()
    &&& no_external(state.external_runtime)
    &&& no_sinks(state.sink_runtime)
    &&& no_plugins(state.plugin_runtime)
}

/// The daemon.
#[derive(Debug)]
pub struct MarsDaemon {
    pub state: DaemonState,
    pub log_path: String,
}

// ---------------------------------------------------------------------------
// Planning

/// The external devices of a profile that are missing.
pub open spec fn missing_devices(p: Profile, inventory: DeviceInventory) -> Seq<Seq<char>> {
    inputs_errors(p, inventory, p.external.inputs@.len() as int) + outputs_errors(
        p,
        inventory,
        p.external.outputs@.len() as int,
    )
}

/// What is to be said of how the external devices were matched.
pub open spec fn matching_warnings(p: Profile, inventory: DeviceInventory) -> Seq<Seq<char>> {
    inputs_warnings(p, inventory, p.external.inputs@.len() as int) + outputs_warnings(
        p,
        inventory,
        p.external.outputs@.len() as int,
    )
}

/// The answer where external devices are missing.
pub open spec fn missing_error(errors: Seq<Seq<char>>) -> ErrorView {
    ErrorView {
        message: "missing external devices: "@ + joined_text(errors, "; "@),
        exit_code: ExitCode::MissingExternal,
    }
}

/// The answer where a profile is refused.
pub fn profile_error(error: &str) -> (r: ApiError)
    ensures
        r@ == led_error(
            "profile validation failed (strict policy requires apply_mode=atomic, on_missing_external=error, and no endpoint fallback/on_missing override): "@,
            error@,
            ExitCode::InvalidInput,
        ),
{
    crate::api::lead_error(
        "profile validation failed (strict policy requires apply_mode=atomic, on_missing_external=error, and no endpoint fallback/on_missing override): ",
        error,
        ExitCode::InvalidInput,
    )
}

/// Matches the external devices of a profile; missing ones are an error.
pub fn require_externals(profile: &Profile, inventory: &DeviceInventory) -> (r: Result<
    ExternalResolution,
    ApiError,
>)
    ensures
        match r {
            Ok(resolution) => {
                &&& missing_devices(*profile, *inventory).len() == 0
                &&& crate::matching::resolution_of(*profile, *inventory, resolution)
            },
            Err(error) => {
                &&& missing_devices(*profile, *inventory).len() > 0
                &&& error@ == missing_error(missing_devices(*profile, *inventory))
            },
        },
{
    let resolution = resolve_externals(profile, inventory);
    assert(views(resolution.errors@).len() == resolution.errors@.len());
    if resolution.errors.len() > 0 {
        let mut message = String::from_str("missing external devices: ");
        message.append(join_texts(&resolution.errors, "; ").as_str());
        return Err(ApiError { message, exit_code: ExitCode::MissingExternal });
    }
    Ok(resolution)
}

fn optional_profile(profile: &Option<Profile>) -> (r: Option<&Profile>)
    ensures
        deref_profile(r) == *profile,
{
    match profile {
        Some(profile) => Some(profile),
        None => None,
    }
}

/// Whether the engine that renders can go on with other settings, or a new one is needed.
#[derive(Debug, Clone, Copy, PartialEq, Eq, Structural)]
pub enum EngineChoice {
    Fresh,
    Reuse,
}

impl MarsDaemon {
    /// A daemon in which nothing is applied.
    pub fn new(log_path: String) -> (r: MarsDaemon)
        ensures
            r.log_path == log_path,
            pristine(r.state),
    {
        MarsDaemon {
            state: DaemonState {
                current_profile_path: None,
                current_profile: None,
                graph: None,
                engine: None,
                devices: Vec::new(),
                counters: RuntimeCounters {
                    underrun_count: 0,
                    overrun_count: 0,
                    xrun_count: 0,
                    last_callback_ns: 0,
                    deadline_miss_count: 0,
                    last_cycle_ns: 0,
                    max_cycle_ns: 0,
                },
                external_runtime: idle_external_runtime(),
                sink_runtime: idle_sink_runtime(),
                plugin_runtime: idle_plugin_runtime(),
            },
            log_path,
        }
    }

    /// The moment by which a transaction has to be done.
    pub fn apply_deadline(timeout_ms: u64, now: u64) -> (r: Option<u64>)
        ensures
            r == crate::apply::deadline_of(timeout_ms, now),
    {
        crate::apply::apply_deadline(timeout_ms, now)
    }

    /// A stage is not begun behind the deadline.
    pub fn ensure_within_deadline(deadline: Option<u64>, now: u64, stage: &str) -> (r: Result<
        (),
        ApiError,
    >)
        ensures
            r is Ok <==> !crate::apply::passed(deadline, now),
            r matches Err(error) ==> error@ == crate::apply::timeout_error(stage@),
    {
        crate::apply::ensure_within_deadline(deadline, now, stage)
    }

    /// The plan for a profile, from the warnings about it and the devices that are there.
    pub fn plan_internal(
        &self,
        no_delete: bool,
        profile: &Profile,
        warnings: Vec<String>,
        listed: Result<DeviceInventory, ApiError>,
    ) -> (r: Result<ApplyPlan, ApiError>)
        ensures
            match (listed, r) {
                (Err(error), Err(answer)) => answer == error,
                (Ok(inventory), Err(answer)) => {
                    &&& missing_devices(*profile, inventory).len() > 0
                    &&& answer@ == missing_error(missing_devices(*profile, inventory))
                },
                (Ok(inventory), Ok(plan)) => {
                    &&& missing_devices(*profile, inventory).len() == 0
                    &&& views(plan.changes@) == planned_changes(
                        self.state.current_profile,
                        *profile,
                        no_delete,
                    )
                    &&& views(plan.warnings@) == views(warnings@) + matching_warnings(
                        *profile,
                        inventory,
                    )
                },
                _ => false,
            },
    {
        let inventory = match listed {
            Ok(inventory) => inventory,
            Err(error) => {
                return Err(error);
            },
        };
        match require_externals(profile, &inventory) {
            Err(error) => Err(error),
            Ok(resolution) => {
                let mut all = warnings;
                let mut more = resolution.warnings;
                proof {
                    lemma_views_append(all@, more@);
                }
                all.append(&mut more);
                Ok(
                    plan_changes(
                        optional_profile(&self.state.current_profile),
                        profile,
                        no_delete,
                        all,
                    ),
                )
            },
        }
    }

    /// The profile that is applied: where nothing is to be deleted, with the virtual devices
    /// of the one before that would otherwise go.
    pub fn effective_profile(&self, no_delete: bool, next: Profile) -> (r: Profile)
        ensures
            match self.state.current_profile {
                Some(previous) if no_delete => {
                    &&& only_devices_differ(r, next)
                    &&& r.virtual_devices.outputs@ == merged_outputs(previous, next)
                    &&& r.virtual_devices.inputs@ == merged_inputs(previous, next)
                },
                _ => r == next,
            },
    {
        if !no_delete {
            return next;
        }
        match &self.state.current_profile {
            Some(previous) => merge_previous_devices(previous, next),
            None => next,
        }
    }

    /// Whether the running engine can take a profile over.
    pub fn engine_choice(&self, next: &Profile) -> (r: EngineChoice)
        ensures
            r == (match (self.state.current_profile, self.state.engine) {
                (Some(previous), Some(_)) => if restart_required(previous, *next) {
                    EngineChoice::Fresh
                } else {
                    EngineChoice::Reuse
                },
                _ => EngineChoice::Fresh,
            }),
    {
        match &self.state.current_profile {
            Some(previous) => {
                if self.state.engine.is_none() || render_restart_required(previous, next) {
                    EngineChoice::Fresh
                } else {
                    EngineChoice::Reuse
                }
            },
            None => EngineChoice::Fresh,
        }
    }
}

// ---------------------------------------------------------------------------
// Applying

/// Whether a state has a profile applied on top of another state.
pub open spec fn applied_over(
    state: DaemonState,
    before: DaemonState,
    path: Seq<char>,
    profile: Profile,
    graph: RoutingGraph,
    devices: Vec<DeviceDescriptor>,
) -> bool {
    &&& state.current_profile_path matches Some(p) && p@ == path
    &&& state.current_profile == Some(profile)
    &&& state.graph == Some(graph)
    &&& state.engine == Some(
        EngineSettings {
            sample_rate: effective_sample_rate(profile),
            buffer_frames: profile.audio.buffer_frames,
        },
    )
    &&& state.devices == devices
    &&& state.counters == before.counters
    &&& no_external(state.external_runtime)
    &&& no_sinks(state.sink_runtime)
    &&& no_plugins(state.plugin_runtime)
}

/// What a transaction guarantees of the state at each stage: it is as it was until the
/// profile is activated, what it was is held until the transaction is over, and it is as it
/// was again where the transaction has failed.
pub open spec fn state_kept(
    step: ApplyStep,
    dry_run: bool,
    saved: Option<DaemonState>,
    initial: DaemonState,
    state: DaemonState,
) -> bool {
    match step {
        ApplyStep::LoadProfile | ApplyStep::Plan => saved is None && state == initial,
        ApplyStep::ResolveExternals
        | ApplyStep::CaptureDriver
        | ApplyStep::CheckDriver
        | ApplyStep::StopRuntime
        | ApplyStep::StageDriver
        | ApplyStep::Activate => !dry_run && saved is None && state == initial,
        ApplyStep::SyncRuntime | ApplyStep::CheckReadiness => !dry_run && saved == Some(initial),
        ApplyStep::RollBackStop | ApplyStep::RollBackDriver | ApplyStep::RollBackState => {
            !dry_run && (saved == Some(initial) || saved is None && state == initial)
        },
        ApplyStep::RollBackRuntime | ApplyStep::Fail => state == initial,
        ApplyStep::Succeed => dry_run ==> state == initial,
    }
}

impl DaemonState {
    /// What is rendered in this state, and at what: nothing where no profile is applied.
    pub fn rendered(&self) -> (r: Option<(&RoutingGraph, EngineSettings)>)
        ensures
            match (self.graph, self.engine) {
                (Some(graph), Some(settings)) => r matches Some(found) && *found.0 == graph
                    && found.1 == settings,
                _ => r is None,
            },
    {
        match (&self.graph, &self.engine) {
            (Some(graph), Some(settings)) => Some((graph, *settings)),
            _ => None,
        }
    }
}

impl MarsDaemon {
    /// Activates a profile; the state before it is handed out so that it can be restored.
    pub fn activate(
        &mut self,
        path: String,
        profile: Profile,
        graph: RoutingGraph,
        devices: Vec<DeviceDescriptor>,
    ) -> (r: DaemonState)
        ensures
            r == old(self).state,
            final(self).log_path == old(self).log_path,
            applied_over(final(self).state, old(self).state, path@, profile, graph, devices),
    {
        let settings = EngineSettings {
            sample_rate: profile.effective_sample_rate(),
            buffer_frames: profile.audio.buffer_frames,
        };
        let mut next = DaemonState {
            current_profile_path: Some(path),
            current_profile: Some(profile),
            graph: Some(graph),
            engine: Some(settings),
            devices,
            counters: self.state.counters,
            external_runtime: idle_external_runtime(),
            sink_runtime: idle_sink_runtime(),
            plugin_runtime: idle_plugin_runtime(),
        };
        core::mem::swap(&mut self.state, &mut next);
        next
    }

    /// Restores the state that was before an activation, if there was one.
    pub fn restore(&mut self, saved: Option<DaemonState>)
        ensures
            final(self).log_path == old(self).log_path,
            final(self).state == (match saved {
                Some(state) => state,
                None => old(self).state,
            }),
    {
        if let Some(state) = saved {
            self.state = state;
        }
    }

    /// Takes over what the external devices report once a profile is applied.
    pub fn commit(&mut self, external_runtime: Option<ExternalRuntimeStatus>)
        ensures
            final(self).log_path == old(self).log_path,
            final(self).state == (match external_runtime {
                Some(status) => DaemonState { external_runtime: status, ..old(self).state },
                None => old(self).state,
            }),
    {
        if let Some(status) = external_runtime {
            self.state.external_runtime = status;
        }
    }
}

/// No stage but the activation and the restoring touches the state, and a transaction that
/// fails, or that is a dry run, leaves the state as it was.
pub proof fn law_failed_apply_restores_state(
    run: crate::apply::RunView,
    failure: Option<ErrorView>,
    now: u64,
    saved: Option<DaemonState>,
    initial: DaemonState,
    state: DaemonState,
)
    requires
        state_kept(run.step, run.dry_run, saved, initial, state),
        run.step != ApplyStep::Activate,
        run.step != ApplyStep::RollBackState,
    ensures
        ({
            let next = crate::apply::run_after(run, failure, now);
            &&& state_kept(next.step, next.dry_run, saved, initial, state)
            &&& next.step == ApplyStep::Fail ==> state == initial
            &&& next.step == ApplyStep::Succeed && run.dry_run ==> state == initial
        }),
{
}

/// Activating keeps what a transaction guarantees of the state, where the stage succeeds and
/// the deadline has not passed and where it has.
pub proof fn law_activation_saves_state(
    run: crate::apply::RunView,
    now: u64,
    initial: DaemonState,
    state: DaemonState,
)
    requires
        run.step == ApplyStep::Activate,
        !run.dry_run,
    ensures
        ({
            let next = crate::apply::run_after(run, None, now);
            state_kept(next.step, next.dry_run, Some(initial), initial, state)
        }),
{
}

/// Restoring keeps what a transaction guarantees of the state: it is as it was.
pub proof fn law_restoring_brings_state_back(
    run: crate::apply::RunView,
    failure: Option<ErrorView>,
    now: u64,
    saved: Option<DaemonState>,
    initial: DaemonState,
    state: DaemonState,
)
    requires
        run.step == ApplyStep::RollBackState,
        state_kept(run.step, run.dry_run, saved, initial, state),
    ensures
        ({
            let next = crate::apply::run_after(run, failure, now);
            let restored = match saved {
                Some(before) => before,
                None => state,
            };
            state_kept(next.step, next.dry_run, None, initial, restored)
        }),
{
}

// ---------------------------------------------------------------------------
// Clearing

/// The devices that the daemon does not manage.
pub open spec fn unmanaged(devices: Seq<DeviceDescriptor>) -> Seq<DeviceDescriptor> {
    kept(|i: int| !devices[i].managed, devices.len() as int).map_values(|i: int| devices[i])
}

fn copy_devices(devices: &Vec<DeviceDescriptor>, all: bool) -> (r: Vec<DeviceDescriptor>)
    ensures
        r@ == if all {
            devices@
        } else {
            unmanaged(devices@)
        },
{
    let ghost keep = |i: int| !devices@[i].managed;
    let ghost at = |i: int| devices@[i];
    let mut copy: Vec<DeviceDescriptor> = Vec::new();
    let mut i: usize = 0;
    assert(kept(keep, 0).map_values(at) =~= Seq::<DeviceDescriptor>::empty());
    while i < devices.len()
        invariant
            i <= devices.len(),
            keep == |i: int| !devices@[i].managed,
            at == |i: int| devices@[i],
            all ==> copy@ =~= devices@.take(i as int),
            !all ==> copy@ == kept(keep, i as int).map_values(at),
        decreases devices.len() - i,
    {
        if all || !devices[i].managed {
            copy.push(devices[i].clone());
        }
        proof {
            assert(kept(keep, i + 1).map_values(at) =~= if keep(i as int) {
                kept(keep, i as int).map_values(at).push(devices@[i as int])
            } else {
                kept(keep, i as int).map_values(at)
            });
        }
        i = i + 1;
    }
    assert(all ==> copy@ =~= devices@);
    copy
}

/// Whether a state has nothing applied any more.
pub open spec fn cleared(state: DaemonState, before: DaemonState, keep_devices: bool) -> bool {
    &&& state.current_profile_path is None
    &&& state.current_profile is None
    &&& state.graph is None
    &&& state.engine is None
    &&& state.devices@ == if keep_devices {
        before.devices@
    } else {
        unmanaged(before.devices@)
    }
    &&& state.counters == before.counters
    &&& no_external(state.external_runtime)
    &&& no_sinks(state.sink_runtime)
    &&& no_plugins(state.plugin_runtime)
}

/// What clearing is answered with.
pub open spec fn clear_change(keep_devices: bool) -> ChangeView {
    ChangeView {
        kind: PlanChangeKind::UpdateGraph,
        target: "state"@,
        details: if keep_devices {
            "engine stopped, devices kept"@
        } else {
            "engine stopped, managed devices removed"@
        },
    }
}

impl MarsDaemon {
    /// Clears what is applied; the state before it is handed out so that it can be restored.
    pub fn begin_clear(&mut self, keep_devices: bool) -> (r: DaemonState)
        ensures
            r == old(self).state,
            final(self).log_path == old(self).log_path,
            cleared(final(self).state, old(self).state, keep_devices),
    {
        let mut next = DaemonState {
            current_profile_path: None,
            current_profile: None,
            graph: None,
            engine: None,
            devices: copy_devices(&self.state.devices, keep_devices),
            counters: self.state.counters,
            external_runtime: idle_external_runtime(),
            sink_runtime: idle_sink_runtime(),
            plugin_runtime: idle_plugin_runtime(),
        };
        core::mem::swap(&mut self.state, &mut next);
        next
    }

    /// Ends clearing, from what taking the devices back from the driver came to. Where that
    /// failed, the state is as it was before. Devices that are kept are not taken back.
    pub fn finish_clear(&mut self, previous: DaemonState, keep_devices: bool, outcome: Result<
        (),
        String,
    >) -> (r: Result<ApplyResult, ApiError>)
        ensures
            final(self).log_path == old(self).log_path,
            match outcome {
                Err(error) if !keep_devices => {
                    &&& final(self).state == previous
                    &&& r matches Err(answer) && answer@ == (ErrorView {
                        message: "clear failed and rolled back: "@ + error@,
                        exit_code: ExitCode::DriverUnavailable,
                    })
                },
                _ => {
                    &&& final(self).state == old(self).state
                    &&& r matches Ok(result) && {
                        &&& result.applied
                        &&& views(result.plan.changes@) == seq![clear_change(keep_devices)]
                        &&& result.plan.warnings@.len() == 0
                        &&& result.warnings@.len() == 0
                        &&& result.errors@.len() == 0
                    }
                },
            },
    {
        if !keep_devices {
            if let Err(error) = outcome {
                self.state = previous;
                return Err(
                    crate::api::lead_error(
                        "clear failed and rolled back: ",
                        error.as_str(),
                        ExitCode::DriverUnavailable,
                    ),
                );
            }
        }
        let details = if keep_devices {
            String::from_str("engine stopped, devices kept")
        } else {
            String::from_str("engine stopped, managed devices removed")
        };
        let mut changes: Vec<PlanChange> = Vec::new();
        changes.push(
            PlanChange {
                kind: PlanChangeKind::UpdateGraph,
                target: String::from_str("state"),
                details,
            },
        );
        assert(views(changes@) =~= seq![clear_change(keep_devices)]);
        Ok(
            ApplyResult {
                applied: true,
                plan: ApplyPlan { changes, warnings: Vec::new() },
                warnings: Vec::new(),
                errors: Vec::new(),
            },
        )
    }
}

/// Clearing leaves no managed device unless devices are kept, and loses none that is not
/// managed.
pub proof fn law_clear_removes_managed(state: DaemonState, before: DaemonState)
    requires
        cleared(state, before, false),
    ensures
        forall|i: int| 0 <= i < state.devices@.len() ==> !(#[trigger] state.devices@[i]).managed,
        forall|i: int|
            0 <= i < before.devices@.len() && !(#[trigger] before.devices@[i]).managed
                ==> state.devices@.contains(before.devices@[i]),
{
    let keep = |i: int| !before.devices@[i].managed;
    let n = before.devices@.len() as int;
    crate::sequences::lemma_kept(keep, n);
    assert forall|i: int| 0 <= i < state.devices@.len() implies !(
    #[trigger] state.devices@[i]).managed by {
        assert(keep(kept(keep, n)[i]));
    }
    assert forall|i: int|
        0 <= i < before.devices@.len() && !(#[trigger] before.devices@[i]).managed implies state.devices@.contains(
        before.devices@[i],
    ) by {
        assert(keep(i));
        assert(kept(keep, n).contains(i));
        let k = kept(keep, n).index_of(i);
        assert(state.devices@[k] == before.devices@[i]);
    }
}

// ---------------------------------------------------------------------------
// Reporting

/// What the running loop reports.
#[derive(Debug)]
pub struct LiveRuntime {
    pub metrics: RenderMetrics,
    pub external_counters: ExternalRuntimeCounters,
    pub external_runtime: ExternalRuntimeStatus,
    pub sink_runtime: SinkRuntimeStatus,
    pub plugin_runtime: PluginHostRuntimeStatus,
}

/// The status of the daemon.
#[derive(Debug)]
pub struct DaemonStatus {
    pub running: bool,
    pub current_profile: Option<String>,
    pub sample_rate: u32,
    pub buffer_frames: u32,
    pub graph_pipe_count: usize,
    pub devices: Vec<DeviceDescriptor>,
    pub counters: RuntimeCounters,
    pub driver: DriverStatusSummary,
    pub external_runtime: ExternalRuntimeStatus,
    pub sink_runtime: SinkRuntimeStatus,
    pub plugin_runtime: PluginHostRuntimeStatus,
    pub updated_at: String,
}

/// The counters with those of the driver in place of the stored ones.
pub open spec fn with_driver_counts(
    counters: RuntimeCounters,
    stats: Option<RuntimeStats>,
) -> RuntimeCounters {
    match stats {
        Some(stats) => RuntimeCounters {
            underrun_count: stats.underrun_count,
            overrun_count: stats.overrun_count,
            xrun_count: stats.xrun_count,
            last_callback_ns: stats.last_callback_ns,
            ..counters
        },
        None => counters,
    }
}

/// The counters with those of the running loop: its own, and those of the external devices
/// on top.
pub open spec fn with_loop_counts(
    counters: RuntimeCounters,
    metrics: RenderMetrics,
    external: ExternalRuntimeCounters,
) -> RuntimeCounters {
    RuntimeCounters {
        deadline_miss_count: metrics.deadline_miss_count,
        last_cycle_ns: metrics.last_cycle_ns,
        max_cycle_ns: metrics.max_cycle_ns,
        underrun_count: capped(counters.underrun_count, external.underrun_count as int),
        overrun_count: capped(counters.overrun_count, external.overrun_count as int),
        xrun_count: capped(counters.xrun_count, external.xrun_count as int),
        last_callback_ns: counters.last_callback_ns,
    }
}

/// Whether two reports on the external devices say the same.
pub open spec fn same_external(a: ExternalRuntimeStatus, b: ExternalRuntimeStatus) -> bool {
    &&& a.connected_inputs == b.connected_inputs
    &&& a.connected_outputs == b.connected_outputs
    &&& a.degraded_inputs == b.degraded_inputs
    &&& a.degraded_outputs == b.degraded_outputs
    &&& a.restart_attempts == b.restart_attempts
    &&& a.stream_errors@ == b.stream_errors@
}

/// Whether two reports on the sinks say the same.
pub open spec fn same_sinks(a: SinkRuntimeStatus, b: SinkRuntimeStatus) -> bool {
    &&& a.queue_capacity == b.queue_capacity
    &&& a.queued_batches == b.queued_batches
    &&& a.dropped_batches == b.dropped_batches
    &&& a.dropped_samples == b.dropped_samples
    &&& a.write_errors == b.write_errors
    &&& a.active_file_sinks == b.active_file_sinks
    &&& a.active_stream_sinks == b.active_stream_sinks
    &&& a.sinks@ == b.sinks@
}

/// Whether two reports on the plugin hosts say the same.
pub open spec fn same_plugins(a: PluginHostRuntimeStatus, b: PluginHostRuntimeStatus) -> bool {
    &&& a.active_instances == b.active_instances
    &&& a.failed_instances == b.failed_instances
    &&& a.timeout_count == b.timeout_count
    &&& a.error_count == b.error_count
    &&& a.restart_count == b.restart_count
    &&& a.instances@ == b.instances@
}

fn copy_external(status: &ExternalRuntimeStatus) -> (r: ExternalRuntimeStatus)
    ensures
        same_external(r, *status),
{
    let mut stream_errors: Vec<String> = Vec::new();
    let mut i: usize = 0;
    while i < status.stream_errors.len()
        invariant
            i <= status.stream_errors.len(),
            stream_errors@ =~= status.stream_errors@.take(i as int),
        decreases status.stream_errors.len() - i,
    {
        stream_errors.push(status.stream_errors[i].clone());
        i = i + 1;
    }
    assert(stream_errors@ =~= status.stream_errors@);
    ExternalRuntimeStatus {
        connected_inputs: status.connected_inputs,
        connected_outputs: status.connected_outputs,
        degraded_inputs: status.degraded_inputs,
        degraded_outputs: status.degraded_outputs,
        restart_attempts: status.restart_attempts,
        stream_errors,
    }
}

fn copy_sinks(status: &SinkRuntimeStatus) -> (r: SinkRuntimeStatus)
    ensures
        same_sinks(r, *status),
{
    let mut sinks: Vec<SinkRuntimeSinkStatus> = Vec::new();
    let mut i: usize = 0;
    while i < status.sinks.len()
        invariant
            i <= status.sinks.len(),
            sinks@ =~= status.sinks@.take(i as int),
        decreases status.sinks.len() - i,
    {
        sinks.push(status.sinks[i].clone());
        i = i + 1;
    }
    assert(sinks@ =~= status.sinks@);
    SinkRuntimeStatus {
        queue_capacity: status.queue_capacity,
        queued_batches: status.queued_batches,
        dropped_batches: status.dropped_batches,
        dropped_samples: status.dropped_samples,
        write_errors: status.write_errors,
        active_file_sinks: status.active_file_sinks,
        active_stream_sinks: status.active_stream_sinks,
        sinks,
    }
}

fn copy_plugins(status: &PluginHostRuntimeStatus) -> (r: PluginHostRuntimeStatus)
    ensures
        same_plugins(r, *status),
{
    let mut instances: Vec<PluginHostInstanceStatus> = Vec::new();
    let mut i: usize = 0;
    while i < status.instances.len()
        invariant
            i <= status.instances.len(),
            instances@ =~= status.instances@.take(i as int),
        decreases status.instances.len() - i,
    {
        instances.push(status.instances[i].clone());
        i = i + 1;
    }
    assert(instances@ =~= status.instances@);
    PluginHostRuntimeStatus {
        active_instances: status.active_instances,
        failed_instances: status.failed_instances,
        timeout_count: status.timeout_count,
        error_count: status.error_count,
        restart_count: status.restart_count,
        instances,
    }
}

/// Whether a status tells of a state, of what the driver reports and of the running loop,
/// which is asked before the stored state where it runs.
pub open spec fn status_tells(
    status: DaemonStatus,
    state: DaemonState,
    summary: Option<ConfigurationSummary>,
    stats: Option<RuntimeStats>,
    live: Option<LiveRuntime>,
) -> bool {
    &&& status.running == (state.engine is Some)
    &&& status.current_profile == state.current_profile_path
    &&& status.sample_rate == (match state.current_profile {
        Some(profile) => effective_sample_rate(profile),
        None => DEFAULT_SAMPLE_RATE,
    })
    &&& status.buffer_frames == (match state.current_profile {
        Some(profile) => profile.audio.buffer_frames,
        None => DEFAULT_BUFFER_FRAMES,
    })
    &&& status.graph_pipe_count == (match state.graph {
        Some(graph) => graph.edges@.len(),
        None => 0,
    })
    &&& status.devices@ == state.devices@
    &&& status.driver == summary_of(summary)
    &&& status.counters == (match live {
        Some(live) => with_loop_counts(
            with_driver_counts(state.counters, stats),
            live.metrics,
            live.external_counters,
        ),
        None => with_driver_counts(state.counters, stats),
    })
    &&& match live {
        Some(live) => {
            &&& status.external_runtime == live.external_runtime
            &&& status.sink_runtime == live.sink_runtime
            &&& status.plugin_runtime == live.plugin_runtime
        },
        None => {
            &&& same_external(status.external_runtime, state.external_runtime)
            &&& same_sinks(status.sink_runtime, state.sink_runtime)
            &&& same_plugins(status.plugin_runtime, state.plugin_runtime)
        },
    }
}

impl MarsDaemon {
    /// The status of the daemon at a moment, from what the driver reports, where it does, and
    /// from the running loop, where there is one.
    pub fn status_internal(
        &self,
        summary: Option<ConfigurationSummary>,
        stats: Option<RuntimeStats>,
        live: Option<LiveRuntime>,
        updated_at: String,
    ) -> (r: DaemonStatus)
        ensures
            status_tells(r, self.state, summary, stats, live),
            r.updated_at == updated_at,
    {
        let state = &self.state;
        let (sample_rate, buffer_frames) = match &state.current_profile {
            Some(profile) => (profile.effective_sample_rate(), profile.audio.buffer_frames),
            None => (DEFAULT_SAMPLE_RATE, DEFAULT_BUFFER_FRAMES),
        };
        let graph_pipe_count: usize = match &state.graph {
            Some(graph) => graph.edges.len(),
            None => 0,
        };
        let mut counters = state.counters;
        if let Some(stats) = stats {
            counters.underrun_count = stats.underrun_count;
            counters.overrun_count = stats.overrun_count;
            counters.xrun_count = stats.xrun_count;
            counters.last_callback_ns = stats.last_callback_ns;
        }
        let (external_runtime, sink_runtime, plugin_runtime) = match live {
            Some(live) => {
                counters.deadline_miss_count = live.metrics.deadline_miss_count;
                counters.last_cycle_ns = live.metrics.last_cycle_ns;
                counters.max_cycle_ns = live.metrics.max_cycle_ns;
                counters.underrun_count =
                counters.underrun_count.saturating_add(live.external_counters.underrun_count);
                counters.overrun_count =
                counters.overrun_count.saturating_add(live.external_counters.overrun_count);
                counters.xrun_count =
                counters.xrun_count.saturating_add(live.external_counters.xrun_count);
                (live.external_runtime, live.sink_runtime, live.plugin_runtime)
            },
            None => (
                copy_external(&state.external_runtime),
                copy_sinks(&state.sink_runtime),
                copy_plugins(&state.plugin_runtime),
            ),
        };
        DaemonStatus {
            running: state.engine.is_some(),
            current_profile: state.current_profile_path.clone(),
            sample_rate,
            buffer_frames,
            graph_pipe_count,
            devices: copy_devices(&state.devices, true),
            counters,
            driver: driver_status_summary(summary),
            external_runtime,
            sink_runtime,
            plugin_runtime,
            updated_at,
        }
    }
}

impl MarsDaemon {
    /// The answer to a request for lines of the log, from what reading the log came to.
    pub fn logs_internal(&self, read: Result<String, String>, request: &LogRequest) -> (r: Result<
        LogResponse,
        ApiError,
    >)
        ensures
            match (read, r) {
                (Ok(text), Ok(response)) => {
                    &&& views(response.lines@) == answered_lines(
                        text@,
                        request.cursor,
                        wanted_lines(request.limit) as int,
                    )
                    &&& response.next_cursor == byte_len(text@)
                },
                (Err(error), Err(answer)) => answer@ == (ErrorView {
                    message: "failed to read log file "@ + self.log_path@ + ": "@ + error@,
                    exit_code: ExitCode::InvalidInput,
                }),
                _ => false,
            },
    {
        answer_log_request(self.log_path.as_str(), read, request)
    }
}

// ---------------------------------------------------------------------------
// Diagnosis

/// What is found out for a diagnosis.
#[derive(Debug)]
pub struct DoctorFindings {
    pub driver_installed: bool,
    pub driver_loaded: bool,
    pub driver: DriverStatusSummary,
    pub driver_version: Option<String>,
    pub daemon_version: String,
    pub assume_microphone: bool,
    pub microphone_permission: Option<bool>,
}

/// A diagnosis.
#[derive(Debug)]
pub struct DoctorReport {
    pub driver_installed: bool,
    pub driver_compatible: bool,
    pub daemon_reachable: bool,
    pub microphone_permission_ok: bool,
    pub driver_version: Option<String>,
    pub daemon_version: String,
    pub mic_permission_source: String,
    pub driver: DriverStatusSummary,
    pub sink_active: usize,
    pub sink_degraded: usize,
    pub sink_failed: usize,
    pub sink_write_errors: u64,
    pub plugin_active: usize,
    pub plugin_failed: usize,
    pub plugin_timeouts: u64,
    pub plugin_errors: u64,
    pub plugin_restarts: u64,
    pub notes: Vec<String>,
}

/// How many sinks fare in a way.
pub open spec fn sinks_with(sinks: Seq<SinkRuntimeSinkStatus>, health: SinkRuntimeHealth) -> nat {
    kept(|i: int| sinks[i].health == health, sinks.len() as int).len()
}

fn count_sinks(sinks: &Vec<SinkRuntimeSinkStatus>, health: SinkRuntimeHealth) -> (r: usize)
    ensures
        r == sinks_with(sinks@, health),
{
    let ghost fares = |i: int| sinks@[i].health == health;
    let mut count: usize = 0;
    let mut i: usize = 0;
    while i < sinks.len()
        invariant
            i <= sinks.len(),
            fares == |i: int| sinks@[i].health == health,
            count == kept(fares, i as int).len(),
            count <= i,
        decreases sinks.len() - i,
    {
        if sinks[i].health == health {
            count = count + 1;
        }
        i = i + 1;
    }
    count
}

/// A note where a condition holds.
pub open spec fn note_if(holds: bool, note: Seq<char>) -> Seq<Seq<char>> {
    if holds {
        seq![note]
    } else {
        Seq::empty()
    }
}

/// Whether the microphone may be used, and how that is known.
pub open spec fn microphone_of(findings: DoctorFindings) -> (bool, Seq<char>) {
    if findings.assume_microphone {
        (true, "env_override"@)
    } else {
        match findings.microphone_permission {
            Some(granted) => (granted, "tcc"@),
            None => (false, "unknown"@),
        }
    }
}

/// The characters of an optional text.
pub open spec fn text_in(text: Option<String>) -> Option<Seq<char>> {
    match text {
        Some(text) => Some(text@),
        None => None,
    }
}

/// Whether the driver that was found fits the daemon.
pub open spec fn findings_compatible(findings: DoctorFindings) -> bool {
    compatible(
        findings.driver_installed,
        findings.driver_loaded,
        text_in(findings.driver_version),
        findings.daemon_version@,
    )
}

/// How many sinks are active.
pub open spec fn sinks_active(sinks: SinkRuntimeStatus) -> usize {
    if sinks.active_file_sinks + sinks.active_stream_sinks > usize::MAX {
        usize::MAX
    } else {
        (sinks.active_file_sinks + sinks.active_stream_sinks) as usize
    }
}

/// Whether there is something to say of the sinks.
pub open spec fn sinks_ail(sinks: SinkRuntimeStatus) -> bool {
    sinks_with(sinks.sinks@, SinkRuntimeHealth::Degraded) > 0 || sinks_with(
        sinks.sinks@,
        SinkRuntimeHealth::Failed,
    ) > 0 || sinks.write_errors > 0
}

/// What is to be said of the sinks.
pub open spec fn sinks_note(sinks: SinkRuntimeStatus) -> Seq<char> {
    "sink runtime health: active="@ + decimal(sinks_active(sinks) as nat) + " degraded="@ + decimal(
        sinks_with(sinks.sinks@, SinkRuntimeHealth::Degraded),
    ) + " failed="@ + decimal(sinks_with(sinks.sinks@, SinkRuntimeHealth::Failed))
        + " write_errors="@ + decimal(sinks.write_errors as nat)
}

/// Whether there is something to say of the plugin hosts.
pub open spec fn plugins_ail(plugins: PluginHostRuntimeStatus) -> bool {
    plugins.failed_instances > 0 || plugins.timeout_count > 0 || plugins.error_count > 0
        || plugins.restart_count > 0
}

/// What is to be said of the plugin hosts.
pub open spec fn plugins_note(plugins: PluginHostRuntimeStatus) -> Seq<char> {
    "plugin runtime health: active="@ + decimal(plugins.active_instances as nat) + " failed="@
        + decimal(plugins.failed_instances as nat) + " timeouts="@ + decimal(
        plugins.timeout_count as nat,
    ) + " errors="@ + decimal(plugins.error_count as nat) + " restarts="@ + decimal(
        plugins.restart_count as nat,
    )
}

/// The notes on the driver and the microphone.
pub open spec fn findings_notes(findings: DoctorFindings) -> Seq<Seq<char>> {
    note_if(
        !findings.driver_installed,
        "driver not found at /Library/Audio/Plug-Ins/HAL/mars.driver"@,
    ) + note_if(
        findings.driver_installed && !findings.driver_loaded,
        "mars.driver is installed but not loaded by coreaudiod; run: sudo killall -9 coreaudiod"@,
    ) + note_if(
        !microphone_of(findings).0,
        "microphone permission is not granted or could not be verified; check System Settings > Privacy & Security > Microphone"@,
    ) + note_if(
        !findings_compatible(findings),
        versions_text(
            "driver/daemon version mismatch: driver="@,
            text_in(findings.driver_version),
            findings.daemon_version@,
        ),
    ) + note_if(findings.driver.pending_change, "driver has a pending configuration change"@)
}

/// The notes of a diagnosis.
pub open spec fn doctor_notes(state: DaemonState, findings: DoctorFindings) -> Seq<Seq<char>> {
    findings_notes(findings) + note_if(sinks_ail(state.sink_runtime), sinks_note(state.sink_runtime))
        + note_if(plugins_ail(state.plugin_runtime), plugins_note(state.plugin_runtime)) + (
    match state.graph {
        None => Seq::<Seq<char>>::empty(),
        Some(graph) => feedback_notes(arrows_of(graph.edges@), views(state.devices@)),
    })
}

fn add_note(notes: &mut Vec<String>, holds: bool, note: String)
    ensures
        views(final(notes)@) == views(old(notes)@) + note_if(holds, note@),
{
    if holds {
        notes.push(note);
    }
    assert(views(notes@) =~= views(old(notes)@) + note_if(holds, note@));
}

fn describe_sinks(sinks: &SinkRuntimeStatus, active: usize, degraded: usize, failed: usize) -> (r:
    String)
    requires
        active == sinks_active(*sinks),
        degraded == sinks_with(sinks.sinks@, SinkRuntimeHealth::Degraded),
        failed == sinks_with(sinks.sinks@, SinkRuntimeHealth::Failed),
    ensures
        r@ == sinks_note(*sinks),
{
    let mut text = String::from_str("sink runtime health: active=");
    text.append(decimal_text(active as u64).as_str());
    text.append(" degraded=");
    text.append(decimal_text(degraded as u64).as_str());
    text.append(" failed=");
    text.append(decimal_text(failed as u64).as_str());
    text.append(" write_errors=");
    text.append(decimal_text(sinks.write_errors).as_str());
    text
}

fn describe_plugins(plugins: &PluginHostRuntimeStatus) -> (r: String)
    ensures
        r@ == plugins_note(*plugins),
{
    let mut text = String::from_str("plugin runtime health: active=");
    text.append(decimal_text(plugins.active_instances as u64).as_str());
    text.append(" failed=");
    text.append(decimal_text(plugins.failed_instances as u64).as_str());
    text.append(" timeouts=");
    text.append(decimal_text(plugins.timeout_count).as_str());
    text.append(" errors=");
    text.append(decimal_text(plugins.error_count).as_str());
    text.append(" restarts=");
    text.append(decimal_text(plugins.restart_count).as_str());
    text
}

fn optional_text(text: &Option<String>) -> (r: Option<&str>)
    ensures
        chars_in(r) == text_in(*text),
{
    match text {
        Some(text) => Some(text.as_str()),
        None => None,
    }
}

fn list_findings_notes(findings: &DoctorFindings) -> (r: Vec<String>)
    ensures
        views(r@) == findings_notes(*findings),
{
    let installed = findings.driver_installed;
    let loaded = findings.driver_loaded;
    let version = optional_text(&findings.driver_version);
    let daemon_version = findings.daemon_version.as_str();
    let microphone_ok = findings.assume_microphone || findings.microphone_permission == Some(true);
    let fits = is_driver_compatible(installed, loaded, version, daemon_version);
    let mut notes: Vec<String> = Vec::new();
    assert(views(notes@) + note_if(
        !installed,
        "driver not found at /Library/Audio/Plug-Ins/HAL/mars.driver"@,
    ) =~= note_if(
        !installed,
        "driver not found at /Library/Audio/Plug-Ins/HAL/mars.driver"@,
    ));
    add_note(
        &mut notes,
        !installed,
        String::from_str("driver not found at /Library/Audio/Plug-Ins/HAL/mars.driver"),
    );
    add_note(
        &mut notes,
        installed && !loaded,
        String::from_str(
            "mars.driver is installed but not loaded by coreaudiod; run: sudo killall -9 coreaudiod",
        ),
    );
    add_note(
        &mut notes,
        !microphone_ok,
        String::from_str(
            "microphone permission is not granted or could not be verified; check System Settings > Privacy & Security > Microphone",
        ),
    );
    add_note(
        &mut notes,
        !fits,
        describe_versions("driver/daemon version mismatch: driver=", version, daemon_version),
    );
    add_note(
        &mut notes,
        findings.driver.pending_change,
        String::from_str("driver has a pending configuration change"),
    );
    notes
}

impl MarsDaemon {
    /// The diagnosis of the daemon, from what was found out for it.
    pub fn doctor_report_internal(&self, findings: DoctorFindings) -> (r: DoctorReport)
        ensures
            r.driver_installed == findings.driver_installed,
            r.driver_compatible == findings_compatible(findings),
            r.daemon_reachable,
            r.microphone_permission_ok == microphone_of(findings).0,
            r.driver_version == findings.driver_version,
            r.daemon_version == findings.daemon_version,
            r.mic_permission_source@ == microphone_of(findings).1,
            r.driver == findings.driver,
            r.sink_active == sinks_active(self.state.sink_runtime),
            r.sink_degraded == sinks_with(
                self.state.sink_runtime.sinks@,
                SinkRuntimeHealth::Degraded,
            ),
            r.sink_failed == sinks_with(self.state.sink_runtime.sinks@, SinkRuntimeHealth::Failed),
            r.sink_write_errors == self.state.sink_runtime.write_errors,
            r.plugin_active == self.state.plugin_runtime.active_instances,
            r.plugin_failed == self.state.plugin_runtime.failed_instances,
            r.plugin_timeouts == self.state.plugin_runtime.timeout_count,
            r.plugin_errors == self.state.plugin_runtime.error_count,
            r.plugin_restarts == self.state.plugin_runtime.restart_count,
            views(r.notes@) == doctor_notes(self.state, findings),
    {
        let sinks = &self.state.sink_runtime;
        let plugins = &self.state.plugin_runtime;
        let sink_active = sinks.active_file_sinks.saturating_add(sinks.active_stream_sinks);
        let sink_degraded = count_sinks(&sinks.sinks, SinkRuntimeHealth::Degraded);
        let sink_failed = count_sinks(&sinks.sinks, SinkRuntimeHealth::Failed);
        let driver_compatible = is_driver_compatible(
            findings.driver_installed,
            findings.driver_loaded,
            optional_text(&findings.driver_version),
            findings.daemon_version.as_str(),
        );
        let (microphone_permission_ok, mic_permission_source) = if findings.assume_microphone {
            (true, String::from_str("env_override"))
        } else {
            match findings.microphone_permission {
                Some(granted) => (granted, String::from_str("tcc")),
                None => (false, String::from_str("unknown")),
            }
        };
        let mut notes = list_findings_notes(&findings);
        add_note(
            &mut notes,
            sink_degraded > 0 || sink_failed > 0 || sinks.write_errors > 0,
            describe_sinks(sinks, sink_active, sink_degraded, sink_failed),
        );
        add_note(
            &mut notes,
            plugins.failed_instances > 0 || plugins.timeout_count > 0 || plugins.error_count > 0
                || plugins.restart_count > 0,
            describe_plugins(plugins),
        );
        let graph = match &self.state.graph {
            Some(graph) => Some(graph),
            None => None,
        };
        let mut risks = feedback_risk_notes(graph, &self.state.devices);
        proof {
            lemma_views_append(notes@, risks@);
        }
        notes.append(&mut risks);
        DoctorReport {
            driver_installed: findings.driver_installed,
            driver_compatible,
            daemon_reachable: true,
            microphone_permission_ok,
            driver_version: findings.driver_version,
            daemon_version: findings.daemon_version,
            mic_permission_source,
            driver: findings.driver,
            sink_active,
            sink_degraded,
            sink_failed,
            sink_write_errors: sinks.write_errors,
            plugin_active: plugins.active_instances,
            plugin_failed: plugins.failed_instances,
            plugin_timeouts: plugins.timeout_count,
            plugin_errors: plugins.error_count,
            plugin_restarts: plugins.restart_count,
            notes,
        }
    }
}

} // verus!
