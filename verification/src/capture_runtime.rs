//! The taps of a profile while it is applied.

use crate::devices::{capture_aggregate_uid, tap_uid};
use crate::external_io::{ExternalEndpointHealth, ExternalInputEndpointSnapshot};
use crate::profile::{ProcessTap, ProcessTapSelector, Profile, SystemTap, SystemTapMode};
use crate::sequences::{first_place, kept, lemma_kept, lemma_views_push, stably_sorted, views};
use crate::tap::{
    by_pid, sort_processes, AudioProcessInfo, ProcessTapRequest, SystemTapRequest,
    SystemTapTarget, TapCapability, TapHandle, TapMuteBehavior,
};
use crate::text::{decimal, decimal_text};
use vstd::prelude::*;
use vstd::string::*;

verus! {

broadcast use lemma_views_push;

/// A call of a backend, with what it answered.
pub enum TapCall {
    Capability { answer: Result<TapCapability, String> },
    ListProcesses { answer: Result<Vec<AudioProcessInfo>, String> },
    CreateProcessTap { request: ProcessTapRequest, answer: Result<TapHandle, String> },
    CreateSystemTap { request: SystemTapRequest, answer: Result<TapHandle, String> },
    DestroyTap { handle: TapHandle, answer: Result<(), String> },
}

/// What makes and destroys taps.
pub trait TapBackend: Send + Sync {
    /// The calls that were made so far, in their order. Of a backend that does not say what
    /// they are, nothing is known of them but what the methods promise.
    open spec fn calls(&self) -> Seq<TapCall> {
        arbitrary::<spec_fn(&Self) -> Seq<TapCall>>()(self)
    }

    fn capability(&mut self) -> (r: Result<TapCapability, String>)
        ensures
            final(self).calls() == old(self).calls().push(TapCall::Capability { answer: r }),
    ;

    fn list_processes(&mut self) -> (r: Result<Vec<AudioProcessInfo>, String>)
        ensures
            final(self).calls() == old(self).calls().push(TapCall::ListProcesses { answer: r }),
    ;

    fn create_process_tap(&mut self, request: &ProcessTapRequest) -> (r: Result<TapHandle, String>)
        ensures
            final(self).calls() == old(self).calls().push(
                TapCall::CreateProcessTap { request: *request, answer: r },
            ),
    ;

    fn create_system_tap(&mut self, request: &SystemTapRequest) -> (r: Result<TapHandle, String>)
        ensures
            final(self).calls() == old(self).calls().push(
                TapCall::CreateSystemTap { request: *request, answer: r },
            ),
    ;

    fn destroy_tap(&mut self, handle: &TapHandle) -> (r: Result<(), String>)
        ensures
            final(self).calls() == old(self).calls().push(
                TapCall::DestroyTap { handle: *handle, answer: r },
            ),
    ;
}

/// The calls between two moments.
pub open spec fn calls_since(before: Seq<TapCall>, after: Seq<TapCall>) -> Seq<TapCall> {
    after.skip(before.len() as int)
}

/// The kinds of tap.
#[derive(Debug, Clone, Copy, PartialEq, Eq, Structural)]
pub enum CaptureRuntimeKind {
    ProcessTap,
    SystemTap,
}

/// How a tap fares.
#[derive(Debug, Clone, Copy, PartialEq, Eq, Structural)]
pub enum CaptureRuntimeHealth {
    Healthy,
    Degraded,
    Failed,
}

/// The state of one tap.
#[derive(Debug, Clone, PartialEq, Eq)]
pub struct CaptureRuntimeTapStatus {
    pub id: String,
    pub kind: CaptureRuntimeKind,
    pub health: CaptureRuntimeHealth,
    pub selector: String,
    pub tap_id: Option<u32>,
    pub aggregate_uid: Option<String>,
    pub aggregate_device_id: Option<u32>,
    pub matched_processes: usize,
    pub ingested_frames: u64,
    pub underrun_count: u64,
    pub overrun_count: u64,
    pub xrun_count: u64,
    pub restart_attempts: u64,
    pub error_ring: Vec<String>,
    pub last_error: Option<String>,
}

/// The state of all taps.
#[derive(Debug, Clone, PartialEq, Eq)]
pub struct CaptureRuntimeStatus {
    pub supported: bool,
    pub discovered_processes: usize,
    pub active_taps: usize,
    pub failed_taps: usize,
    pub taps: Vec<CaptureRuntimeTapStatus>,
    pub errors: Vec<String>,
}

/// A tap that is to be destroyed in the end.
#[derive(Debug)]
pub struct ActiveCaptureTap {
    pub id: String,
    pub handle: TapHandle,
}

// ---------------------------------------------------------------------------
// Which processes a tap captures

/// Whether a process is what the selector asks for.
pub open spec fn selected(selector: ProcessTapSelector, process: AudioProcessInfo) -> bool {
    match selector {
        ProcessTapSelector::Pid { pid } => process.pid >= 0 && process.pid == pid,
        ProcessTapSelector::BundleId { bundle_id } => process.bundle_id@ == bundle_id@,
    }
}

/// The processes that the selector asks for, in the order of the list.
pub open spec fn selected_processes(
    selector: ProcessTapSelector,
    processes: Seq<AudioProcessInfo>,
) -> Seq<AudioProcessInfo> {
    kept(|i: int| selected(selector, processes[i]), processes.len() as int).map_values(
        |i: int| processes[i],
    )
}

/// The processes that a tap captures; those of an application by their process ids.
pub open spec fn matched_processes(
    selector: ProcessTapSelector,
    processes: Seq<AudioProcessInfo>,
) -> Seq<AudioProcessInfo> {
    match selector {
        ProcessTapSelector::Pid { pid } => selected_processes(selector, processes),
        ProcessTapSelector::BundleId { bundle_id } => stably_sorted(
            selected_processes(selector, processes),
            by_pid(),
        ),
    }
}

fn is_selected(selector: &ProcessTapSelector, process: &AudioProcessInfo) -> (r: bool)
    ensures
        r == selected(*selector, *process),
{
    match selector {
        ProcessTapSelector::Pid { pid } => process.pid >= 0 && process.pid as u32 == *pid,
        ProcessTapSelector::BundleId { bundle_id } => process.bundle_id == *bundle_id,
    }
}

/// The processes that a tap captures.
pub fn resolve_process_selector(
    selector: &ProcessTapSelector,
    processes: &Vec<AudioProcessInfo>,
) -> (r: Vec<AudioProcessInfo>)
    ensures
        r@ == matched_processes(*selector, processes@),
{
    let ghost keep = |i: int| selected(*selector, processes@[i]);
    let ghost at = |i: int| processes@[i];
    let mut found: Vec<AudioProcessInfo> = Vec::new();
    assert(found@ =~= kept(keep, 0).map_values(at));
    let mut i: usize = 0;
    while i < processes.len()
        invariant
            i <= processes.len(),
            keep == |i: int| selected(*selector, processes@[i]),
            at == |i: int| processes@[i],
            found@ == kept(keep, i as int).map_values(at),
        decreases processes.len() - i,
    {
        if is_selected(selector, &processes[i]) {
            found.push(processes[i].clone());
        }
        proof {
            assert(kept(keep, i + 1).map_values(at) =~= if keep(i as int) {
                kept(keep, i as int).map_values(at).push(processes@[i as int])
            } else {
                kept(keep, i as int).map_values(at)
            });
        }
        i = i + 1;
    }
    match selector {
        ProcessTapSelector::Pid { .. } => found,
        ProcessTapSelector::BundleId { .. } => sort_processes(&found),
    }
}

// ---------------------------------------------------------------------------
// Texts

/// A selector in words.
pub open spec fn selector_text(selector: ProcessTapSelector) -> Seq<char> {
    match selector {
        ProcessTapSelector::Pid { pid } => "pid:"@ + decimal(pid as nat),
        ProcessTapSelector::BundleId { bundle_id } => "bundle:"@ + bundle_id@,
    }
}

/// A selector in words.
pub fn selector_string(selector: &ProcessTapSelector) -> (r: String)
    ensures
        r@ == selector_text(*selector),
{
    match selector {
        ProcessTapSelector::Pid { pid } => {
            let mut text = String::from_str("pid:");
            text.append(decimal_text(*pid as u64).as_str());
            text
        },
        ProcessTapSelector::BundleId { bundle_id } => {
            let mut text = String::from_str("bundle:");
            text.append(bundle_id.as_str());
            text
        },
    }
}

/// A mode in words.
pub open spec fn mode_text(mode: SystemTapMode) -> Seq<char> {
    match mode {
        SystemTapMode::DefaultOutput => "default_output"@,
        SystemTapMode::AllOutput => "all_output"@,
    }
}

/// A mode in words.
pub fn mode_string(mode: SystemTapMode) -> (r: &'static str)
    ensures
        r@ == mode_text(mode),
{
    match mode {
        SystemTapMode::DefaultOutput => "default_output",
        SystemTapMode::AllOutput => "all_output",
    }
}

/// The name of the aggregate device of a tap.
pub fn aggregate_name(tap_id: &str) -> (r: String)
    ensures
        r@ == "MARS Capture "@ + tap_id@,
{
    let mut name = String::from_str("MARS Capture ");
    name.append(tap_id);
    name
}

// ---------------------------------------------------------------------------
// Requests

/// The ids of the processes as objects.
pub open spec fn object_ids(processes: Seq<AudioProcessInfo>) -> Seq<u32> {
    Seq::new(processes.len(), |i: int| processes[i].process_object_id)
}

/// The request for a process tap, of the daemon with the given process id, that captures
/// the matched processes.
pub open spec fn is_process_request(
    request: ProcessTapRequest,
    tap: ProcessTap,
    matched: Seq<AudioProcessInfo>,
    pid: u32,
) -> bool {
    &&& request.process_object_ids@ == object_ids(matched)
    &&& request.tap_name@ == "mars process tap "@ + tap.id@
    &&& request.aggregate_uid@ == tap_uid(pid, tap.id@)
    &&& request.aggregate_name@ == "MARS Capture "@ + tap.id@
    &&& request.mono == (tap.channels == Some(1u16))
    &&& request.private_tap
    &&& request.mute_behavior == TapMuteBehavior::Unmuted
    &&& request.auto_start
}

/// The request for a system tap of the daemon with the given process id.
pub open spec fn is_system_request(request: SystemTapRequest, tap: SystemTap, pid: u32) -> bool {
    &&& request.target == (match tap.mode {
        SystemTapMode::DefaultOutput => SystemTapTarget::DefaultOutput,
        SystemTapMode::AllOutput => SystemTapTarget::AllOutput,
    })
    &&& request.tap_name@ == "mars system tap "@ + tap.id@
    &&& request.aggregate_uid@ == tap_uid(pid, tap.id@)
    &&& request.aggregate_name@ == "MARS Capture "@ + tap.id@
    &&& request.mono == (tap.channels == Some(1u16))
    &&& request.private_tap
    &&& request.mute_behavior == TapMuteBehavior::Unmuted
    &&& request.auto_start
    &&& request.stream_index == 0
}

fn is_mono(channels: Option<u16>) -> (r: bool)
    ensures
        r == (channels == Some(1u16)),
{
    match channels {
        Some(c) => c == 1,
        None => false,
    }
}

/// The request for a process tap that captures the matched processes.
pub fn process_tap_request(tap: &ProcessTap, matched: &Vec<AudioProcessInfo>, pid: u32) -> (r:
    ProcessTapRequest)
    ensures
        is_process_request(r, *tap, matched@, pid),
{
    let mut ids: Vec<u32> = Vec::new();
    let mut i: usize = 0;
    while i < matched.len()
        invariant
            i <= matched.len(),
            ids@ =~= object_ids(matched@).take(i as int),
        decreases matched.len() - i,
    {
        ids.push(matched[i].process_object_id);
        i = i + 1;
    }
    assert(ids@ =~= object_ids(matched@));
    let mut tap_name = String::from_str("mars process tap ");
    tap_name.append(tap.id.as_str());
    ProcessTapRequest {
        process_object_ids: ids,
        tap_name,
        aggregate_uid: capture_aggregate_uid(pid, tap.id.as_str()),
        aggregate_name: aggregate_name(tap.id.as_str()),
        mono: is_mono(tap.channels),
        private_tap: true,
        mute_behavior: TapMuteBehavior::Unmuted,
        auto_start: true,
    }
}

/// The request for a system tap.
pub fn system_tap_request(tap: &SystemTap, pid: u32) -> (r: SystemTapRequest)
    ensures
        is_system_request(r, *tap, pid),
{
    let mut tap_name = String::from_str("mars system tap ");
    tap_name.append(tap.id.as_str());
    SystemTapRequest {
        target: match tap.mode {
            SystemTapMode::DefaultOutput => SystemTapTarget::DefaultOutput,
            SystemTapMode::AllOutput => SystemTapTarget::AllOutput,
        },
        tap_name,
        aggregate_uid: capture_aggregate_uid(pid, tap.id.as_str()),
        aggregate_name: aggregate_name(tap.id.as_str()),
        mono: is_mono(tap.channels),
        private_tap: true,
        mute_behavior: TapMuteBehavior::Unmuted,
        auto_start: true,
        stream_index: 0,
    }
}

// ---------------------------------------------------------------------------
// States

/// The state of a tap that was just made.
pub open spec fn fresh_status(
    s: CaptureRuntimeTapStatus,
    id: Seq<char>,
    kind: CaptureRuntimeKind,
    selector: Seq<char>,
    handle: TapHandle,
    matched: nat,
) -> bool {
    &&& s.id@ == id
    &&& s.kind == kind
    &&& s.health == CaptureRuntimeHealth::Healthy
    &&& s.selector@ == selector
    &&& s.tap_id == Some(handle.tap_id)
    &&& s.aggregate_uid == Some(handle.aggregate_uid)
    &&& s.aggregate_device_id == Some(handle.aggregate_device_id)
    &&& s.matched_processes == matched
    &&& s.ingested_frames == 0
    &&& s.underrun_count == 0
    &&& s.overrun_count == 0
    &&& s.xrun_count == 0
    &&& s.restart_attempts == 0
    &&& s.error_ring@.len() == 0
    &&& s.last_error is None
}

fn make_status(
    id: &String,
    kind: CaptureRuntimeKind,
    selector: String,
    handle: &TapHandle,
    matched: usize,
) -> (r: CaptureRuntimeTapStatus)
    ensures
        fresh_status(r, id@, kind, selector@, *handle, matched as nat),
{
    CaptureRuntimeTapStatus {
        id: id.clone(),
        kind,
        health: CaptureRuntimeHealth::Healthy,
        selector,
        tap_id: Some(handle.tap_id),
        aggregate_uid: Some(handle.aggregate_uid.clone()),
        aggregate_device_id: Some(handle.aggregate_device_id),
        matched_processes: matched,
        ingested_frames: 0,
        underrun_count: 0,
        overrun_count: 0,
        xrun_count: 0,
        restart_attempts: 0,
        error_ring: Vec::new(),
        last_error: None,
    }
}

// ---------------------------------------------------------------------------
// What the backend is asked

/// The call asks for the tap at a place: the process taps of the profile, then its system
/// taps. A process tap is asked for only where its selector matches something.
pub open spec fn asks_for_tap(
    call: TapCall,
    profile: Profile,
    processes: Seq<AudioProcessInfo>,
    pid: u32,
    place: int,
    answer: Result<TapHandle, String>,
) -> bool {
    let first = profile.captures.process_taps@.len() as int;
    if place < first {
        let tap = profile.captures.process_taps@[place];
        let matched = matched_processes(tap.selector, processes);
        &&& matched.len() > 0
        &&& call matches TapCall::CreateProcessTap { request, answer: given }
            && is_process_request(request, tap, matched, pid) && given == answer
    } else {
        let tap = profile.captures.system_taps@[place - first];
        call matches TapCall::CreateSystemTap { request, answer: given } && is_system_request(
            request,
            tap,
            pid,
        ) && given == answer
    }
}

/// The id of the tap at a place.
pub open spec fn tap_id_at(profile: Profile, place: int) -> Seq<char> {
    let first = profile.captures.process_taps@.len() as int;
    if place < first {
        profile.captures.process_taps@[place].id@
    } else {
        profile.captures.system_taps@[place - first].id@
    }
}

/// The calls make the first taps of a profile, one call for each, in their order.
pub open spec fn taps_made(
    calls: Seq<TapCall>,
    profile: Profile,
    processes: Seq<AudioProcessInfo>,
    pid: u32,
    active: Seq<ActiveCaptureTap>,
) -> bool {
    &&& calls.len() == active.len()
    &&& active.len() <= configured_taps(profile)
    &&& forall|i: int|
        0 <= i < active.len() ==> {
            &&& (#[trigger] active[i]).id@ == tap_id_at(profile, i)
            &&& asks_for_tap(calls[i], profile, processes, pid, i, Ok(active[i].handle))
        }
}

/// The calls destroy each tap once, the last made first.
pub open spec fn destroyed_last_first(calls: Seq<TapCall>, active: Seq<ActiveCaptureTap>) -> bool {
    &&& calls.len() == active.len()
    &&& forall|k: int|
        0 <= k < calls.len() ==> ((#[trigger] calls[k]) matches TapCall::DestroyTap {
            handle,
            answer: _,
        } && handle == active[active.len() - 1 - k].handle)
}

/// What was answered when the taps were destroyed, by the places of the taps.
pub open spec fn destroy_answers(calls: Seq<TapCall>) -> Seq<Result<(), String>> {
    Seq::new(calls.len(), |i: int| calls[calls.len() - 1 - i]->DestroyTap_answer)
}

/// The states tell of the taps.
pub open spec fn states_tell(
    profile: Profile,
    processes: Seq<AudioProcessInfo>,
    active: Seq<ActiveCaptureTap>,
    taps: Seq<CaptureRuntimeTapStatus>,
) -> bool {
    let first = profile.captures.process_taps@.len() as int;
    &&& taps.len() == active.len()
    &&& forall|i: int|
        0 <= i < taps.len() ==> if i < first {
            let tap = profile.captures.process_taps@[i];
            fresh_status(
                #[trigger] taps[i],
                tap.id@,
                CaptureRuntimeKind::ProcessTap,
                selector_text(tap.selector),
                active[i].handle,
                matched_processes(tap.selector, processes).len(),
            )
        } else {
            let tap = profile.captures.system_taps@[i - first];
            fresh_status(
                taps[i],
                tap.id@,
                CaptureRuntimeKind::SystemTap,
                "system:"@ + mode_text(tap.mode),
                active[i].handle,
                0,
            )
        }
}

/// How many taps a profile asks for.
pub open spec fn configured_taps(profile: Profile) -> nat {
    profile.captures.process_taps@.len() + profile.captures.system_taps@.len()
}

/// The taps of a profile while it is applied.
#[derive(Debug)]
pub struct CaptureRuntime {
    pub active: Vec<ActiveCaptureTap>,
    pub status: CaptureRuntimeStatus,
}

/// The runtime on a host without taps, for a profile that asks for none.
pub open spec fn idle_runtime(rt: CaptureRuntime, capability: TapCapability) -> bool {
    &&& rt.active@.len() == 0
    &&& !rt.status.supported
    &&& rt.status.discovered_processes == 0
    &&& rt.status.active_taps == 0
    &&& rt.status.failed_taps == 0
    &&& rt.status.taps@.len() == 0
    &&& rt.status.errors@ == (match capability.reason {
        Some(reason) => seq![reason],
        None => Seq::empty(),
    })
}

/// The runtime with every tap that the profile asks for, each made by one of the calls.
pub open spec fn full_runtime(
    rt: CaptureRuntime,
    calls: Seq<TapCall>,
    profile: Profile,
    processes: Seq<AudioProcessInfo>,
    pid: u32,
) -> bool {
    &&& rt.active@.len() == configured_taps(profile)
    &&& taps_made(calls, profile, processes, pid, rt.active@)
    &&& states_tell(profile, processes, rt.active@, rt.status.taps@)
    &&& rt.status.supported
    &&& rt.status.discovered_processes == processes.len()
    &&& rt.status.active_taps == configured_taps(profile)
    &&& rt.status.failed_taps == 0
    &&& rt.status.errors@.len() == 0
}

/// The text about a selector that matches nothing.
pub open spec fn no_match_text(tap: ProcessTap) -> Seq<char> {
    "process tap '"@ + tap.id@ + "' selector '"@ + selector_text(tap.selector)
        + "' did not match any active CoreAudio process object"@
}

/// Whether the tap at a place has a selector that matches nothing.
pub open spec fn unmatched(profile: Profile, processes: Seq<AudioProcessInfo>, place: int) -> bool {
    &&& place < profile.captures.process_taps@.len()
    &&& matched_processes(profile.captures.process_taps@[place].selector, processes).len() == 0
}

/// The text about a tap that could not be made.
pub open spec fn creation_error_text(profile: Profile, place: int, error: Seq<char>) -> Seq<char> {
    (if place < profile.captures.process_taps@.len() {
        "failed to create process tap '"@
    } else {
        "failed to create system tap '"@
    }) + tap_id_at(profile, place) + "': "@ + error
}

/// The tap behind those that were made could not be made: the calls make those, ask for it
/// where its selector matches something, and destroy those again, each once and the last
/// made first. The text says why.
pub open spec fn making_failed_behind(
    active: Seq<ActiveCaptureTap>,
    calls: Seq<TapCall>,
    profile: Profile,
    processes: Seq<AudioProcessInfo>,
    pid: u32,
    text: Seq<char>,
) -> bool {
    let n = active.len() as int;
    &&& n < configured_taps(profile)
    &&& n <= calls.len()
    &&& taps_made(calls.take(n), profile, processes, pid, active)
    &&& if unmatched(profile, processes, n) {
        &&& destroyed_last_first(calls.skip(n), active)
        &&& text == no_match_text(profile.captures.process_taps@[n])
    } else {
        &&& n < calls.len()
        &&& destroyed_last_first(calls.skip(n + 1), active)
        &&& exists|error: String| #[trigger]
            asks_for_tap(calls[n], profile, processes, pid, n, Err(error)) && text
                == creation_error_text(profile, n, error@)
    }
}

/// Some tap could not be made, and everything made before it was destroyed.
pub open spec fn making_failed(
    calls: Seq<TapCall>,
    profile: Profile,
    processes: Seq<AudioProcessInfo>,
    pid: u32,
    text: Seq<char>,
) -> bool {
    exists|active: Seq<ActiveCaptureTap>| #[trigger]
        making_failed_behind(active, calls, profile, processes, pid, text)
}

/// What starting the taps comes to, and every call that was made for it.
pub open spec fn start_outcome(
    calls: Seq<TapCall>,
    profile: Profile,
    pid: u32,
    r: Result<CaptureRuntime, String>,
) -> bool {
    &&& calls.len() > 0
    &&& calls[0] matches TapCall::Capability { answer } && match answer {
        Err(error) => {
            &&& calls.len() == 1
            &&& r matches Err(text) && text@ == "tap capability check failed: "@ + error@
        },
        Ok(capability) => if !capability.supported {
            &&& calls.len() == 1
            &&& if configured_taps(profile) == 0 {
                r matches Ok(rt) && idle_runtime(rt, capability)
            } else {
                r matches Err(text) && text@ == "capture taps are unsupported: "@ + (
                match capability.reason {
                    Some(reason) => reason@,
                    None => "tap API is unavailable on this host"@,
                })
            }
        } else {
            supported_outcome(calls.skip(1), profile, pid, r)
        },
    }
}

/// What starting the taps comes to on a host that has them.
pub open spec fn supported_outcome(
    calls: Seq<TapCall>,
    profile: Profile,
    pid: u32,
    r: Result<CaptureRuntime, String>,
) -> bool {
    &&& calls.len() > 0
    &&& calls[0] matches TapCall::ListProcesses { answer } && match answer {
        Err(error) => {
            &&& calls.len() == 1
            &&& r matches Err(text) && text@ == "failed to enumerate CoreAudio process objects: "@
                + error@
        },
        Ok(found) => {
            let processes = stably_sorted(found@, by_pid());
            match r {
                Ok(rt) => full_runtime(rt, calls.skip(1), profile, processes, pid),
                Err(text) => making_failed(calls.skip(1), profile, processes, pid, text@),
            }
        },
    }
}

proof fn lemma_calls_split(
    before: Seq<TapCall>,
    made: Seq<TapCall>,
    middle: Seq<TapCall>,
    after: Seq<TapCall>,
)
    requires
        middle == before + made,
        middle.is_prefix_of(after),
    ensures
        before.is_prefix_of(after),
        calls_since(before, after).len() == made.len() + calls_since(middle, after).len(),
        calls_since(before, after).take(made.len() as int) == made,
        calls_since(before, after).skip(made.len() as int) == calls_since(middle, after),
        made.len() > 0 ==> calls_since(before, after).take(made.len() - 1) == made.drop_last(),
        made.len() > 0 ==> calls_since(before, after)[made.len() - 1] == made.last(),
{
    assert forall|k: int| 0 <= k < middle.len() implies after[k] == middle[k] by {
        assert(middle[k] == after.subrange(0, middle.len() as int)[k]);
    }
    let all = calls_since(before, after);
    assert forall|k: int| 0 <= k < made.len() implies #[trigger] all[k] == made[k] by {
        assert(middle[before.len() + k] == made[k]);
    }
    assert(before =~= after.subrange(0, before.len() as int));
    assert(all.take(made.len() as int) =~= made);
    assert(all.skip(made.len() as int) =~= calls_since(middle, after));
    if made.len() > 0 {
        assert(all.take(made.len() - 1) =~= made.drop_last());
    }
}

/// Destroys each tap, the last made first. A failure keeps none of the others.
fn cleanup_handles<B: TapBackend>(backend: &mut B, active: &Vec<ActiveCaptureTap>)
    ensures
        old(backend).calls().is_prefix_of(final(backend).calls()),
        destroyed_last_first(
            calls_since(old(backend).calls(), final(backend).calls()),
            active@,
        ),
{
    let ghost before = backend.calls();
    let ghost mut done: Seq<TapCall> = Seq::empty();
    assert(before + done =~= before);
    let mut n: usize = active.len();
    while n > 0
        invariant
            n <= active.len(),
            backend.calls() == before + done,
            done.len() == active.len() - n,
            forall|k: int|
                0 <= k < done.len() ==> ((#[trigger] done[k]) matches TapCall::DestroyTap {
                    handle,
                    answer: _,
                } && handle == active@[active@.len() - 1 - k].handle),
        decreases n,
    {
        n = n - 1;
        let answer = backend.destroy_tap(&active[n].handle);
        proof {
            let call = TapCall::DestroyTap { handle: active@[n as int].handle, answer };
            assert((before + done).push(call) =~= before + done.push(call));
            done = done.push(call);
        }
    }
    assert(calls_since(before, backend.calls()) =~= done);
}

/// The text about a tap that could not be destroyed.
pub open spec fn destroy_error_text(tap: ActiveCaptureTap, error: Seq<char>) -> Seq<char> {
    "failed to destroy capture tap '"@ + tap.id@ + "' (tap_id="@ + decimal(tap.handle.tap_id as nat)
        + ", aggregate_device_id="@ + decimal(tap.handle.aggregate_device_id as nat) + "): "@
        + error
}

/// The texts about the taps from place `n` on that could not be destroyed, last tap first.
pub open spec fn destroy_errors(
    active: Seq<ActiveCaptureTap>,
    answers: Seq<Result<(), String>>,
    n: int,
) -> Seq<Seq<char>>
    decreases active.len() - n,
{
    if n >= active.len() || n < 0 {
        Seq::empty()
    } else {
        destroy_errors(active, answers, n + 1) + (match answers[n] {
            Ok(()) => Seq::empty(),
            Err(error) => seq![destroy_error_text(active[n], error@)],
        })
    }
}

/// A tap state after something could not be destroyed.
pub open spec fn degraded_tap(
    before: CaptureRuntimeTapStatus,
    after: CaptureRuntimeTapStatus,
) -> bool {
    &&& after.health == CaptureRuntimeHealth::Degraded
    &&& match before.last_error {
        Some(error) => after.last_error == Some(error),
        None => after.last_error matches Some(error) && error@
            == "destroy operation reported an error"@,
    }
    &&& after.id == before.id
    &&& after.kind == before.kind
    &&& after.selector == before.selector
    &&& after.tap_id == before.tap_id
    &&& after.aggregate_uid == before.aggregate_uid
    &&& after.aggregate_device_id == before.aggregate_device_id
    &&& after.matched_processes == before.matched_processes
    &&& after.ingested_frames == before.ingested_frames
    &&& after.underrun_count == before.underrun_count
    &&& after.overrun_count == before.overrun_count
    &&& after.xrun_count == before.xrun_count
    &&& after.restart_attempts == before.restart_attempts
    &&& after.error_ring == before.error_ring
}

/// The state after the taps were stopped, from the answers to the destroy calls.
pub open spec fn stopped_status(
    before: CaptureRuntimeStatus,
    active: Seq<ActiveCaptureTap>,
    answers: Seq<Result<(), String>>,
    after: CaptureRuntimeStatus,
) -> bool {
    let errors = destroy_errors(active, answers, 0);
    &&& after.supported == before.supported
    &&& after.discovered_processes == before.discovered_processes
    &&& after.active_taps == 0
    &&& views(after.errors@) == views(before.errors@) + errors
    &&& after.failed_taps == if before.failed_taps + errors.len() > usize::MAX {
        usize::MAX as int
    } else {
        before.failed_taps + errors.len()
    }
    &&& after.taps@.len() == before.taps@.len()
    &&& if errors.len() == 0 {
        after.taps@ == before.taps@
    } else {
        forall|i: int|
            0 <= i < after.taps@.len() ==> degraded_tap(before.taps@[i], #[trigger] after.taps@[i])
    }
}

impl CaptureRuntime {
    /// Makes the taps that a profile asks for, in the daemon with the given process id. It
    /// makes all of them or none.
    pub fn start_with_backend<B: TapBackend>(profile: &Profile, backend: &mut B, pid: u32) -> (r:
        Result<CaptureRuntime, String>)
        ensures
            old(backend).calls().is_prefix_of(final(backend).calls()),
            start_outcome(
                calls_since(old(backend).calls(), final(backend).calls()),
                *profile,
                pid,
                r,
            ),
    {
        let ghost before = backend.calls();
        let capability = backend.capability();
        let ghost asked = seq![TapCall::Capability { answer: capability }];
        let ghost answered = capability;
        assert(calls_since(before, backend.calls()) =~= asked);
        match capability {
            Err(error) => {
                let mut text = String::from_str("tap capability check failed: ");
                text.append(error.as_str());
                Err(text)
            },
            Ok(capability) => {
                if !capability.supported {
                    if profile.captures.process_taps.len() == 0
                        && profile.captures.system_taps.len() == 0 {
                        let mut errors: Vec<String> = Vec::new();
                        match capability.reason {
                            Some(reason) => {
                                errors.push(reason);
                            },
                            None => {},
                        }
                        let rt = CaptureRuntime {
                            active: Vec::new(),
                            status: CaptureRuntimeStatus {
                                supported: false,
                                discovered_processes: 0,
                                active_taps: 0,
                                failed_taps: 0,
                                taps: Vec::new(),
                                errors,
                            },
                        };
                        proof {
                            if let Ok(answered) = answered {
                                assert(rt.status.errors@ =~= match answered.reason {
                                    Some(reason) => seq![reason],
                                    None => Seq::empty(),
                                });
                            }
                        }
                        return Ok(rt);
                    }
                    let mut text = String::from_str("capture taps are unsupported: ");
                    match capability.reason {
                        Some(reason) => {
                            text.append(reason.as_str());
                        },
                        None => {
                            text.append("tap API is unavailable on this host");
                        },
                    }
                    return Err(text);
                }
                let ghost middle = backend.calls();
                let r = Self::start_supported(profile, backend, pid);
                proof {
                    let all = calls_since(before, backend.calls());
                    assert(all.skip(1) =~= calls_since(middle, backend.calls()));
                    assert(all[0] == backend.calls()[before.len() as int]);
                    assert(backend.calls()[before.len() as int] == middle[before.len() as int]);
                }
                r
            },
        }
    }

    fn start_supported<B: TapBackend>(profile: &Profile, backend: &mut B, pid: u32) -> (r: Result<
        CaptureRuntime,
        String,
    >)
        ensures
            old(backend).calls().is_prefix_of(final(backend).calls()),
            supported_outcome(
                calls_since(old(backend).calls(), final(backend).calls()),
                *profile,
                pid,
                r,
            ),
    {
        let ghost before = backend.calls();
        let listed = backend.list_processes();
        assert(calls_since(before, backend.calls()) =~= seq![
            TapCall::ListProcesses { answer: listed },
        ]);
        match listed {
            Err(error) => {
                let mut text = String::from_str(
                    "failed to enumerate CoreAudio process objects: ",
                );
                text.append(error.as_str());
                Err(text)
            },
            Ok(found) => {
                let processes = sort_processes(&found);
                let ghost middle = backend.calls();
                let r = Self::make_taps(profile, backend, &processes, pid);
                proof {
                    let all = calls_since(before, backend.calls());
                    assert(all.skip(1) =~= calls_since(middle, backend.calls()));
                    assert(all[0] == backend.calls()[before.len() as int]);
                    assert(backend.calls()[before.len() as int] == middle[before.len() as int]);
                }
                r
            },
        }
    }

    fn make_taps<B: TapBackend>(
        profile: &Profile,
        backend: &mut B,
        processes: &Vec<AudioProcessInfo>,
        pid: u32,
    ) -> (r: Result<CaptureRuntime, String>)
        ensures
            old(backend).calls().is_prefix_of(final(backend).calls()),
            match r {
                Ok(rt) => full_runtime(
                    rt,
                    calls_since(old(backend).calls(), final(backend).calls()),
                    *profile,
                    processes@,
                    pid,
                ),
                Err(text) => making_failed(
                    calls_since(old(backend).calls(), final(backend).calls()),
                    *profile,
                    processes@,
                    pid,
                    text@,
                ),
            },
    {
        let ghost before = backend.calls();
        let ghost mut made: Seq<TapCall> = Seq::empty();
        assert(before + made =~= before);
        let mut active: Vec<ActiveCaptureTap> = Vec::new();
        let mut taps: Vec<CaptureRuntimeTapStatus> = Vec::new();
        let mut i: usize = 0;
        while i < profile.captures.process_taps.len()
            invariant
                i <= profile.captures.process_taps.len(),
                before == old(backend).calls(),
                active@.len() == i,
                backend.calls() == before + made,
                taps_made(made, *profile, processes@, pid, active@),
                states_tell(*profile, processes@, active@, taps@),
            decreases profile.captures.process_taps.len() - i,
        {
            let tap = &profile.captures.process_taps[i];
            let matched = resolve_process_selector(&tap.selector, processes);
            if matched.len() == 0 {
                let ghost middle = backend.calls();
                cleanup_handles(backend, &active);
                let mut text = String::from_str("process tap '");
                text.append(tap.id.as_str());
                text.append("' selector '");
                text.append(selector_string(&tap.selector).as_str());
                text.append("' did not match any active CoreAudio process object");
                proof {
                    let all = calls_since(before, backend.calls());
                    lemma_calls_split(before, made, middle, backend.calls());
                    assert(making_failed_behind(
                        active@,
                        all,
                        *profile,
                        processes@,
                        pid,
                        text@,
                    ));
                }
                return Err(text);
            }
            let request = process_tap_request(tap, &matched, pid);
            let answer = backend.create_process_tap(&request);
            let ghost call = TapCall::CreateProcessTap { request, answer };
            assert((before + made).push(call) =~= before + made.push(call));
            assert(asks_for_tap(call, *profile, processes@, pid, i as int, answer));
            match answer {
                Err(error) => {
                    let ghost middle = backend.calls();
                    cleanup_handles(backend, &active);
                    let mut text = String::from_str("failed to create process tap '");
                    text.append(tap.id.as_str());
                    text.append("': ");
                    text.append(error.as_str());
                    proof {
                        let all = calls_since(before, backend.calls());
                        lemma_calls_split(before, made.push(call), middle, backend.calls());
                        assert(made.push(call).drop_last() =~= made);
                        assert(making_failed_behind(
                            active@,
                            all,
                            *profile,
                            processes@,
                            pid,
                            text@,
                        ));
                    }
                    return Err(text);
                },
                Ok(handle) => {
                    taps.push(
                        make_status(
                            &tap.id,
                            CaptureRuntimeKind::ProcessTap,
                            selector_string(&tap.selector),
                            &handle,
                            matched.len(),
                        ),
                    );
                    active.push(ActiveCaptureTap { id: tap.id.clone(), handle });
                    proof {
                        made = made.push(call);
                    }
                },
            }
            i = i + 1;
        }
        let first = i;
        i = 0;
        while i < profile.captures.system_taps.len()
            invariant
                i <= profile.captures.system_taps.len(),
                first == profile.captures.process_taps@.len(),
                before == old(backend).calls(),
                active@.len() == first + i,
                backend.calls() == before + made,
                taps_made(made, *profile, processes@, pid, active@),
                states_tell(*profile, processes@, active@, taps@),
            decreases profile.captures.system_taps.len() - i,
        {
            let tap = &profile.captures.system_taps[i];
            let request = system_tap_request(tap, pid);
            let answer = backend.create_system_tap(&request);
            let ghost call = TapCall::CreateSystemTap { request, answer };
            let ghost place = first + i;
            assert((before + made).push(call) =~= before + made.push(call));
            assert(asks_for_tap(call, *profile, processes@, pid, place, answer));
            match answer {
                Err(error) => {
                    let ghost middle = backend.calls();
                    cleanup_handles(backend, &active);
                    let mut text = String::from_str("failed to create system tap '");
                    text.append(tap.id.as_str());
                    text.append("': ");
                    text.append(error.as_str());
                    proof {
                        let all = calls_since(before, backend.calls());
                        lemma_calls_split(before, made.push(call), middle, backend.calls());
                        assert(made.push(call).drop_last() =~= made);
                        assert(making_failed_behind(
                            active@,
                            all,
                            *profile,
                            processes@,
                            pid,
                            text@,
                        ));
                    }
                    return Err(text);
                },
                Ok(handle) => {
                    let mut selector = String::from_str("system:");
                    selector.append(mode_string(tap.mode));
                    taps.push(
                        make_status(
                            &tap.id,
                            CaptureRuntimeKind::SystemTap,
                            selector,
                            &handle,
                            0,
                        ),
                    );
                    active.push(ActiveCaptureTap { id: tap.id.clone(), handle });
                    proof {
                        made = made.push(call);
                    }
                },
            }
            i = i + 1;
        }
        assert(calls_since(before, backend.calls()) =~= made);
        Ok(
            CaptureRuntime {
                active,
                status: CaptureRuntimeStatus {
                    supported: true,
                    discovered_processes: processes.len(),
                    active_taps: taps.len(),
                    failed_taps: 0,
                    taps,
                    errors: Vec::new(),
                },
            },
        )
    }

    /// The state of the taps.
    #[must_use]
    pub fn status(&self) -> (r: &CaptureRuntimeStatus)
        ensures
            *r == self.status,
    {
        &self.status
    }

    /// Destroys every tap, the last made first, and gives back the state that results. A
    /// failure keeps none of the others.
    pub fn stop<B: TapBackend>(self, backend: &mut B) -> (r: CaptureRuntimeStatus)
        ensures
            old(backend).calls().is_prefix_of(final(backend).calls()),
            destroyed_last_first(
                calls_since(old(backend).calls(), final(backend).calls()),
                self.active@,
            ),
            stopped_status(
                self.status,
                self.active@,
                destroy_answers(calls_since(old(backend).calls(), final(backend).calls())),
                r,
            ),
    {
        let active = self.active;
        let ghost before = self.status;
        let ghost calls_before = backend.calls();
        let ghost mut done: Seq<TapCall> = Seq::empty();
        let mut status = self.status;
        let mut failed: usize = 0;
        let ghost mut answers: Seq<Result<(), String>> = Seq::new(
            active@.len(),
            |i: int| Ok::<(), String>(()),
        );
        let mut n: usize = active.len();
        assert(calls_before + done =~= calls_before);
        assert(destroy_errors(active@, answers, n as int) =~= Seq::<Seq<char>>::empty());
        assert(views(status.errors@) =~= views(before.errors@) + destroy_errors(
            active@,
            answers,
            n as int,
        ));
        while n > 0
            invariant
                n <= active.len(),
                active == self.active,
                calls_before == old(backend).calls(),
                backend.calls() == calls_before + done,
                done.len() == active.len() - n,
                answers.len() == active@.len(),
                forall|k: int|
                    0 <= k < done.len() ==> (#[trigger] done[k]) == (TapCall::DestroyTap {
                        handle: active@[active@.len() - 1 - k].handle,
                        answer: answers[active@.len() - 1 - k],
                    }),
                status.supported == before.supported,
                status.discovered_processes == before.discovered_processes,
                status.failed_taps == before.failed_taps,
                status.taps == before.taps,
                views(status.errors@) == views(before.errors@) + destroy_errors(
                    active@,
                    answers,
                    n as int,
                ),
                failed == destroy_errors(active@, answers, n as int).len(),
                failed <= active.len() - n,
            decreases n,
        {
            let ghost later = destroy_errors(active@, answers, n as int);
            let ghost old_answers = answers;
            n = n - 1;
            let answer = backend.destroy_tap(&active[n].handle);
            proof {
                let call = TapCall::DestroyTap { handle: active@[n as int].handle, answer };
                assert((calls_before + done).push(call) =~= calls_before + done.push(call));
                done = done.push(call);
                answers = answers.update(n as int, answer);
                lemma_destroy_errors_same(active@, old_answers, answers, n + 1);
            }
            let ghost errors_before = views(status.errors@);
            match answer {
                Ok(()) => {
                    assert(later + Seq::<Seq<char>>::empty() =~= later);
                },
                Err(error) => {
                    failed = failed + 1;
                    let mut text = String::from_str("failed to destroy capture tap '");
                    text.append(active[n].id.as_str());
                    text.append("' (tap_id=");
                    text.append(decimal_text(active[n].handle.tap_id as u64).as_str());
                    text.append(", aggregate_device_id=");
                    text.append(decimal_text(active[n].handle.aggregate_device_id as u64).as_str());
                    text.append("): ");
                    text.append(error.as_str());
                    status.errors.push(text);
                    assert(views(status.errors@) =~= views(before.errors@) + destroy_errors(
                        active@,
                        answers,
                        n as int,
                    ));
                },
            }
        }
        if failed > 0 {
            status.failed_taps = status.failed_taps.saturating_add(failed);
            let mut i: usize = 0;
            while i < status.taps.len()
                invariant
                    i <= status.taps.len(),
                    status.supported == before.supported,
                    status.discovered_processes == before.discovered_processes,
                    status.taps@.len() == before.taps@.len(),
                    views(status.errors@) == views(before.errors@) + destroy_errors(
                        active@,
                        answers,
                        0,
                    ),
                    status.failed_taps == if before.failed_taps + failed > usize::MAX {
                        usize::MAX as int
                    } else {
                        before.failed_taps + failed
                    },
                    forall|k: int|
                        0 <= k < i ==> degraded_tap(before.taps@[k], #[trigger] status.taps@[k]),
                    forall|k: int| i <= k < status.taps@.len() ==> status.taps@[k] == before.taps@[k],
                decreases status.taps.len() - i,
            {
                let tap = &mut status.taps[i];
                tap.health = CaptureRuntimeHealth::Degraded;
                if tap.last_error.is_none() {
                    tap.last_error = Some(String::from_str("destroy operation reported an error"));
                }
                i = i + 1;
            }
        }
        status.active_taps = 0;
        assert(stopped_status(before, active@, answers, status));
        assert(calls_since(calls_before, backend.calls()) =~= done);
        assert(destroy_answers(done) =~= answers);
        status
    }
}

proof fn lemma_destroy_errors_same(
    active: Seq<ActiveCaptureTap>,
    a: Seq<Result<(), String>>,
    b: Seq<Result<(), String>>,
    n: int,
)
    requires
        0 <= n,
        forall|i: int| n <= i < active.len() ==> a[i] == b[i],
    ensures
        destroy_errors(active, a, n) == destroy_errors(active, b, n),
    decreases active.len() - n,
{
    if n < active.len() {
        lemma_destroy_errors_same(active, a, b, n + 1);
    }
}

/// How many of the calls are of a kind.
pub open spec fn count_calls(calls: Seq<TapCall>, kind: spec_fn(TapCall) -> bool) -> nat
    decreases calls.len(),
{
    if calls.len() == 0 {
        0
    } else {
        count_calls(calls.drop_last(), kind) + if kind(calls.last()) {
            1nat
        } else {
            0nat
        }
    }
}

/// Whether a call made a tap.
pub open spec fn makes_tap(call: TapCall) -> bool {
    match call {
        TapCall::CreateProcessTap { request: _, answer } => answer is Ok,
        TapCall::CreateSystemTap { request: _, answer } => answer is Ok,
        _ => false,
    }
}

/// Whether a call destroys a tap.
pub open spec fn destroys_tap(call: TapCall) -> bool {
    call is DestroyTap
}

proof fn lemma_count_joined(a: Seq<TapCall>, b: Seq<TapCall>, kind: spec_fn(TapCall) -> bool)
    ensures
        count_calls(a + b, kind) == count_calls(a, kind) + count_calls(b, kind),
    decreases b.len(),
{
    if b.len() == 0 {
        assert(a + b =~= a);
    } else {
        lemma_count_joined(a, b.drop_last(), kind);
        assert((a + b).drop_last() =~= a + b.drop_last());
    }
}

proof fn lemma_count_uniform(calls: Seq<TapCall>, kind: spec_fn(TapCall) -> bool, all: bool)
    requires
        forall|k: int| 0 <= k < calls.len() ==> kind(#[trigger] calls[k]) == all,
    ensures
        count_calls(calls, kind) == if all {
            calls.len()
        } else {
            0
        },
    decreases calls.len(),
{
    if calls.len() > 0 {
        assert forall|k: int| 0 <= k < calls.drop_last().len() implies kind(
            #[trigger] calls.drop_last()[k],
        ) == all by {
            assert(calls.drop_last()[k] == calls[k]);
        }
        lemma_count_uniform(calls.drop_last(), kind, all);
    }
}

proof fn lemma_made_counts(
    calls: Seq<TapCall>,
    profile: Profile,
    processes: Seq<AudioProcessInfo>,
    pid: u32,
    active: Seq<ActiveCaptureTap>,
)
    requires
        taps_made(calls, profile, processes, pid, active),
    ensures
        count_calls(calls, |c: TapCall| makes_tap(c)) == active.len(),
        count_calls(calls, |c: TapCall| destroys_tap(c)) == 0,
{
    assert forall|k: int| 0 <= k < calls.len() implies makes_tap(#[trigger] calls[k])
        && !destroys_tap(calls[k]) by {
        assert(active[k].id@ == tap_id_at(profile, k));
    }
    lemma_count_uniform(calls, |c: TapCall| makes_tap(c), true);
    lemma_count_uniform(calls, |c: TapCall| destroys_tap(c), false);
}

proof fn lemma_destroyed_counts(calls: Seq<TapCall>, active: Seq<ActiveCaptureTap>)
    requires
        destroyed_last_first(calls, active),
    ensures
        count_calls(calls, |c: TapCall| makes_tap(c)) == 0,
        count_calls(calls, |c: TapCall| destroys_tap(c)) == active.len(),
{
    lemma_count_uniform(calls, |c: TapCall| makes_tap(c), false);
    lemma_count_uniform(calls, |c: TapCall| destroys_tap(c), true);
}

proof fn lemma_count_first(calls: Seq<TapCall>, kind: spec_fn(TapCall) -> bool)
    requires
        calls.len() > 0,
    ensures
        count_calls(calls, kind) == count_calls(calls.skip(1), kind) + if kind(calls[0]) {
            1nat
        } else {
            0nat
        },
        calls.len() == 1 ==> count_calls(calls.skip(1), kind) == 0,
{
    let one = seq![calls[0]];
    assert(calls =~= one + calls.skip(1));
    lemma_count_joined(one, calls.skip(1), kind);
    assert(one.drop_last() =~= Seq::<TapCall>::empty());
    assert(count_calls(one.drop_last(), kind) == 0);
    assert(one.last() == calls[0]);
}

proof fn lemma_failed_counts(
    active: Seq<ActiveCaptureTap>,
    calls: Seq<TapCall>,
    profile: Profile,
    processes: Seq<AudioProcessInfo>,
    pid: u32,
    text: Seq<char>,
)
    requires
        making_failed_behind(active, calls, profile, processes, pid, text),
    ensures
        count_calls(calls, |c: TapCall| makes_tap(c)) == active.len(),
        count_calls(calls, |c: TapCall| destroys_tap(c)) == active.len(),
{
    let makes = |c: TapCall| makes_tap(c);
    let destroys = |c: TapCall| destroys_tap(c);
    let n = active.len() as int;
    lemma_made_counts(calls.take(n), profile, processes, pid, active);
    assert(calls =~= calls.take(n) + calls.skip(n));
    lemma_count_joined(calls.take(n), calls.skip(n), makes);
    lemma_count_joined(calls.take(n), calls.skip(n), destroys);
    if unmatched(profile, processes, n) {
        lemma_destroyed_counts(calls.skip(n), active);
    } else {
        lemma_destroyed_counts(calls.skip(n + 1), active);
        lemma_count_first(calls.skip(n), makes);
        lemma_count_first(calls.skip(n), destroys);
        assert(calls.skip(n).skip(1) =~= calls.skip(n + 1));
        let error = choose|error: String| #[trigger]
            asks_for_tap(calls[n], profile, processes, pid, n, Err(error)) && text
                == creation_error_text(profile, n, error@);
        assert(!makes_tap(calls[n]));
        assert(!destroys_tap(calls[n]));
    }
}

/// Starting makes exactly the taps that the runtime holds and destroys none of them.
proof fn lemma_started_counts(
    calls: Seq<TapCall>,
    profile: Profile,
    pid: u32,
    r: Result<CaptureRuntime, String>,
)
    requires
        start_outcome(calls, profile, pid, r),
    ensures
        r matches Ok(rt) ==> count_calls(calls, |c: TapCall| makes_tap(c)) == rt.active@.len()
            && count_calls(calls, |c: TapCall| destroys_tap(c)) == 0,
        r is Err ==> count_calls(calls, |c: TapCall| makes_tap(c)) == count_calls(
            calls,
            |c: TapCall| destroys_tap(c),
        ),
{
    let makes = |c: TapCall| makes_tap(c);
    let destroys = |c: TapCall| destroys_tap(c);
    let rest = calls.skip(1);
    lemma_count_first(calls, makes);
    lemma_count_first(calls, destroys);
    if calls.len() > 1 {
        lemma_supported_counts(rest, profile, pid, r);
    }
}

proof fn lemma_supported_counts(
    calls: Seq<TapCall>,
    profile: Profile,
    pid: u32,
    r: Result<CaptureRuntime, String>,
)
    requires
        supported_outcome(calls, profile, pid, r),
    ensures
        r matches Ok(rt) ==> count_calls(calls, |c: TapCall| makes_tap(c)) == rt.active@.len()
            && count_calls(calls, |c: TapCall| destroys_tap(c)) == 0,
        r is Err ==> count_calls(calls, |c: TapCall| makes_tap(c)) == count_calls(
            calls,
            |c: TapCall| destroys_tap(c),
        ),
{
    let makes = |c: TapCall| makes_tap(c);
    let destroys = |c: TapCall| destroys_tap(c);
    let rest = calls.skip(1);
    lemma_count_first(calls, makes);
    lemma_count_first(calls, destroys);
    if let TapCall::ListProcesses { answer: Ok(found) } = calls[0] {
        let processes = stably_sorted(found@, by_pid());
        match r {
            Ok(rt) => {
                lemma_made_counts(rest, profile, processes, pid, rt.active@);
            },
            Err(text) => {
                let active = choose|active: Seq<ActiveCaptureTap>| #[trigger]
                    making_failed_behind(active, rest, profile, processes, pid, text@);
                lemma_failed_counts(active, rest, profile, processes, pid, text@);
            },
        }
    }
}

/// A start that fails destroys as many taps as it made.
pub proof fn law_failed_start_is_balanced(
    calls: Seq<TapCall>,
    profile: Profile,
    pid: u32,
    text: String,
)
    requires
        start_outcome(calls, profile, pid, Err(text)),
    ensures
        count_calls(calls, |c: TapCall| makes_tap(c)) == count_calls(
            calls,
            |c: TapCall| destroys_tap(c),
        ),
{
    lemma_started_counts(calls, profile, pid, Err(text));
}

/// Over a start and a stop as many taps are destroyed as are made, and each tap that was made
/// is destroyed, the last made first.
pub proof fn law_start_and_stop_are_balanced(
    started: Seq<TapCall>,
    stopped: Seq<TapCall>,
    profile: Profile,
    pid: u32,
    rt: CaptureRuntime,
)
    requires
        start_outcome(started, profile, pid, Ok(rt)),
        destroyed_last_first(stopped, rt.active@),
    ensures
        count_calls(started + stopped, |c: TapCall| makes_tap(c)) == count_calls(
            started + stopped,
            |c: TapCall| destroys_tap(c),
        ),
        count_calls(started, |c: TapCall| destroys_tap(c)) == 0,
        count_calls(stopped, |c: TapCall| makes_tap(c)) == 0,
        forall|i: int|
            0 <= i < rt.active@.len() ==> ((#[trigger] stopped[rt.active@.len() - 1 - i])
                matches TapCall::DestroyTap { handle, answer: _ } && handle
                == rt.active@[i].handle),
{
    lemma_started_counts(started, profile, pid, Ok(rt));
    lemma_destroyed_counts(stopped, rt.active@);
    lemma_count_joined(started, stopped, |c: TapCall| makes_tap(c));
    lemma_count_joined(started, stopped, |c: TapCall| destroys_tap(c));
}

/// Whether the host has taps, as the backend says.
pub fn probe_capture_capability<B: TapBackend>(backend: &mut B) -> (r: Result<
    TapCapability,
    String,
>)
    ensures
        final(backend).calls() == old(backend).calls().push(TapCall::Capability { answer: r }),
{
    backend.capability()
}

/// The processes that can be captured, as the backend lists them, ordered by their process
/// ids.
pub fn list_capture_processes<B: TapBackend>(backend: &mut B) -> (r: Result<
    Vec<AudioProcessInfo>,
    String,
>)
    ensures
        final(backend).calls().len() == old(backend).calls().len() + 1,
        final(backend).calls().drop_last() == old(backend).calls(),
        final(backend).calls().last() matches TapCall::ListProcesses { answer } && match answer {
            Err(error) => r matches Err(text) && text@
                == "failed to enumerate CoreAudio process objects: "@ + error@,
            Ok(found) => r matches Ok(list) && list@ == stably_sorted(found@, by_pid()),
        },
{
    let ghost before = backend.calls();
    let listed = backend.list_processes();
    assert(backend.calls().drop_last() =~= before);
    match listed {
        Err(error) => {
            let mut text = String::from_str("failed to enumerate CoreAudio process objects: ");
            text.append(error.as_str());
            Err(text)
        },
        Ok(found) => Ok(sort_processes(&found)),
    }
}

/// How the state of an endpoint shows on its tap.
pub open spec fn tap_health(health: ExternalEndpointHealth) -> CaptureRuntimeHealth {
    match health {
        ExternalEndpointHealth::Connected => CaptureRuntimeHealth::Healthy,
        ExternalEndpointHealth::Degraded => CaptureRuntimeHealth::Degraded,
        ExternalEndpointHealth::Reconnecting => CaptureRuntimeHealth::Degraded,
        ExternalEndpointHealth::Stopped => CaptureRuntimeHealth::Failed,
    }
}

/// The place of the first endpoint with the id of a tap.
pub open spec fn endpoint_place(
    endpoints: Seq<ExternalInputEndpointSnapshot>,
    id: Seq<char>,
) -> Option<int> {
    endpoint_place_from(endpoints, id, 0)
}

/// The place of the first endpoint of the node from a place on.
pub open spec fn endpoint_place_from(
    endpoints: Seq<ExternalInputEndpointSnapshot>,
    id: Seq<char>,
    from: int,
) -> Option<int> {
    first_place(|i: int| endpoints[i].node_id@ == id, from, endpoints.len() as int)
}

/// A tap with what its endpoint measured; a tap without an endpoint stays as it is.
pub open spec fn enriched_tap(
    before: CaptureRuntimeTapStatus,
    endpoints: Seq<ExternalInputEndpointSnapshot>,
    after: CaptureRuntimeTapStatus,
) -> bool {
    match endpoint_place(endpoints, before.id@) {
        None => after == before,
        Some(k) => {
            let e = endpoints[k];
            &&& after.id == before.id
            &&& after.kind == before.kind
            &&& after.selector == before.selector
            &&& after.tap_id == before.tap_id
            &&& after.aggregate_uid == before.aggregate_uid
            &&& after.aggregate_device_id == before.aggregate_device_id
            &&& after.matched_processes == before.matched_processes
            &&& after.health == tap_health(e.health)
            &&& after.ingested_frames == e.ingested_frames
            &&& after.underrun_count == e.underrun_count
            &&& after.overrun_count == e.overrun_count
            &&& after.xrun_count == e.xrun_count
            &&& after.restart_attempts == e.restart_attempts
            &&& after.error_ring@ == e.error_ring@
            &&& after.last_error == if e.error_ring@.len() == 0 {
                before.last_error
            } else {
                Some(e.error_ring@.last())
            }
        },
    }
}

/// Adds to the state of the taps what their endpoints measured.
pub fn enrich_capture_runtime_with_external_inputs(
    status: CaptureRuntimeStatus,
    endpoints: &Vec<ExternalInputEndpointSnapshot>,
) -> (r: CaptureRuntimeStatus)
    ensures
        r.supported == status.supported,
        r.discovered_processes == status.discovered_processes,
        r.active_taps == status.active_taps,
        r.failed_taps == status.failed_taps,
        r.errors == status.errors,
        r.taps@.len() == status.taps@.len(),
        forall|i: int|
            0 <= i < r.taps@.len() ==> enriched_tap(
                status.taps@[i],
                endpoints@,
                #[trigger] r.taps@[i],
            ),
{
    let ghost before = status;
    let mut status = status;
    let mut i: usize = 0;
    while i < status.taps.len()
        invariant
            i <= status.taps.len(),
            status.supported == before.supported,
            status.discovered_processes == before.discovered_processes,
            status.active_taps == before.active_taps,
            status.failed_taps == before.failed_taps,
            status.errors == before.errors,
            status.taps@.len() == before.taps@.len(),
            forall|k: int|
                0 <= k < i ==> enriched_tap(before.taps@[k], endpoints@, #[trigger] status.taps@[k]),
            forall|k: int| i <= k < status.taps@.len() ==> status.taps@[k] == before.taps@[k],
        decreases status.taps.len() - i,
    {
        let found = find_endpoint(endpoints, &status.taps[i].id);
        if let Some(k) = found {
            let endpoint = &endpoints[k];
            let mut error_ring: Vec<String> = Vec::new();
            let mut j: usize = 0;
            while j < endpoint.error_ring.len()
                invariant
                    j <= endpoint.error_ring.len(),
                    error_ring@ =~= endpoint.error_ring@.take(j as int),
                decreases endpoint.error_ring.len() - j,
            {
                error_ring.push(endpoint.error_ring[j].clone());
                j = j + 1;
            }
            assert(error_ring@ =~= endpoint.error_ring@);
            let tap = &mut status.taps[i];
            tap.health = match endpoint.health {
                ExternalEndpointHealth::Connected => CaptureRuntimeHealth::Healthy,
                ExternalEndpointHealth::Degraded => CaptureRuntimeHealth::Degraded,
                ExternalEndpointHealth::Reconnecting => CaptureRuntimeHealth::Degraded,
                ExternalEndpointHealth::Stopped => CaptureRuntimeHealth::Failed,
            };
            tap.ingested_frames = endpoint.ingested_frames;
            tap.underrun_count = endpoint.underrun_count;
            tap.overrun_count = endpoint.overrun_count;
            tap.xrun_count = endpoint.xrun_count;
            tap.restart_attempts = endpoint.restart_attempts;
            if error_ring.len() > 0 {
                tap.last_error = Some(error_ring[error_ring.len() - 1].clone());
            }
            tap.error_ring = error_ring;
        }
        i = i + 1;
    }
    status
}

fn find_endpoint(endpoints: &Vec<ExternalInputEndpointSnapshot>, id: &String) -> (r: Option<usize>)
    ensures
        match r {
            Some(k) => k < endpoints@.len() && endpoint_place(endpoints@, id@) == Some(k as int),
            None => endpoint_place(endpoints@, id@) is None,
        },
{
    let ghost named = |i: int| endpoints@[i].node_id@ == id@;
    let mut k: usize = 0;
    while k < endpoints.len()
        invariant
            k <= endpoints.len(),
            named == |i: int| endpoints@[i].node_id@ == id@,
            first_place(named, 0, endpoints@.len() as int) == first_place(
                named,
                k as int,
                endpoints@.len() as int,
            ),
        decreases endpoints.len() - k,
    {
        if endpoints[k].node_id == *id {
            return Some(k);
        }
        k = k + 1;
    }
    None
}

// ---------------------------------------------------------------------------
// Laws of taps

/// A tap of processes takes the processes that its selector names, in their order, from a tap
/// and a device that are its own. It takes one channel only where one is asked for, and lets
/// the processes be heard.
pub proof fn law_process_tap_requests(
    request: ProcessTapRequest,
    tap: ProcessTap,
    matched: Seq<AudioProcessInfo>,
    pid: u32,
    i: int,
)
    requires
        is_process_request(request, tap, matched, pid),
    ensures
        request.process_object_ids@.len() == matched.len(),
        0 <= i < matched.len() ==> request.process_object_ids@[i] == matched[i].process_object_id,
        request.mono <==> tap.channels is Some && tap.channels->0 == 1,
        request.private_tap,
        request.auto_start,
        request.mute_behavior == TapMuteBehavior::Unmuted,
        request.tap_name@ == "mars process tap "@ + tap.id@,
        request.aggregate_name@ == "MARS Capture "@ + tap.id@,
        request.aggregate_uid@ == "mars.capture.aggregate."@ + decimal(pid as nat) + "."@ + tap.id@,
{
}

/// A tap of the system takes what its mode says, from a tap and a device that are its own.
pub proof fn law_system_tap_requests(request: SystemTapRequest, tap: SystemTap, pid: u32)
    requires
        is_system_request(request, tap, pid),
    ensures
        tap.mode == SystemTapMode::DefaultOutput <==> request.target
            == SystemTapTarget::DefaultOutput,
        tap.mode == SystemTapMode::AllOutput <==> request.target == SystemTapTarget::AllOutput,
        request.mono <==> tap.channels is Some && tap.channels->0 == 1,
        request.private_tap,
        request.auto_start,
        request.mute_behavior == TapMuteBehavior::Unmuted,
        request.stream_index == 0,
        request.tap_name@ == "mars system tap "@ + tap.id@,
        request.aggregate_name@ == "MARS Capture "@ + tap.id@,
        request.aggregate_uid@ == "mars.capture.aggregate."@ + decimal(pid as nat) + "."@ + tap.id@,
{
}

proof fn lemma_matched(
    selector: ProcessTapSelector,
    processes: Seq<AudioProcessInfo>,
    process: AudioProcessInfo,
)
    ensures
        selected_processes(selector, processes).contains(process) <==> processes.contains(process)
            && selected(selector, process),
{
    let keep = |i: int| selected(selector, processes[i]);
    lemma_kept(keep, processes.len() as int);
    let places = kept(keep, processes.len() as int);
    let list = selected_processes(selector, processes);
    if processes.contains(process) && selected(selector, process) {
        let i = processes.index_of(process);
        assert(keep(i));
        assert(places.contains(i));
        assert(list[places.index_of(i)] == process);
    }
    if list.contains(process) {
        let k = list.index_of(process);
        assert(keep(places[k]));
        assert(processes[places[k]] == process);
    }
}

/// A selector matches exactly the processes that it names: the one with its process id, or all
/// with its bundle id, and these by their process ids.
pub proof fn law_selectors_match_what_they_name(
    selector: ProcessTapSelector,
    processes: Seq<AudioProcessInfo>,
    process: AudioProcessInfo,
)
    ensures
        matched_processes(selector, processes).contains(process) <==> processes.contains(process)
            && match selector {
            ProcessTapSelector::Pid { pid } => process.pid >= 0 && process.pid == pid,
            ProcessTapSelector::BundleId { bundle_id } => process.bundle_id@ == bundle_id@,
        },
{
    lemma_matched(selector, processes, process);
    if selector is BundleId {
        let list = selected_processes(selector, processes);
        let sorted = stably_sorted(list, by_pid());
        crate::sequences::lemma_stably_sorted(list, by_pid());
        list.to_multiset_ensures();
        sorted.to_multiset_ensures();
        assert(list.contains(process) <==> list.to_multiset().count(process) > 0);
        assert(sorted.contains(process) <==> sorted.to_multiset().count(process) > 0);
    }
}

/// Once taps are started every tap of the profile is live: a tap of processes was asked for with
/// the processes that it names, a tap of the system with its mode, and the handle that was given
/// is held under the id of the tap.
pub proof fn law_started_taps_are_live(
    rt: CaptureRuntime,
    calls: Seq<TapCall>,
    profile: Profile,
    processes: Seq<AudioProcessInfo>,
    pid: u32,
    i: int,
)
    requires
        full_runtime(rt, calls, profile, processes, pid),
        0 <= i < rt.active@.len(),
    ensures
        rt.active@.len() == profile.captures.process_taps@.len()
            + profile.captures.system_taps@.len(),
        rt.status.active_taps == rt.active@.len(),
        rt.status.failed_taps == 0,
        rt.status.taps@.len() == rt.active@.len(),
        rt.status.taps@[i].health == CaptureRuntimeHealth::Healthy,
        rt.status.taps@[i].tap_id == Some(rt.active@[i].handle.tap_id),
        rt.status.taps@[i].id@ == rt.active@[i].id@,
        i < profile.captures.process_taps@.len() ==> {
            let tap = profile.captures.process_taps@[i];
            &&& rt.active@[i].id@ == tap.id@
            &&& rt.status.taps@[i].kind == CaptureRuntimeKind::ProcessTap
            &&& rt.status.taps@[i].matched_processes == matched_processes(
                tap.selector,
                processes,
            ).len()
            &&& matched_processes(tap.selector, processes).len() > 0
            &&& calls[i] is CreateProcessTap
            &&& calls[i]->CreateProcessTap_answer == Ok::<TapHandle, String>(rt.active@[i].handle)
        },
        i >= profile.captures.process_taps@.len() ==> {
            let tap = profile.captures.system_taps@[i - profile.captures.process_taps@.len()];
            &&& rt.active@[i].id@ == tap.id@
            &&& rt.status.taps@[i].kind == CaptureRuntimeKind::SystemTap
            &&& calls[i] is CreateSystemTap
            &&& calls[i]->CreateSystemTap_answer == Ok::<TapHandle, String>(rt.active@[i].handle)
        },
{
    assert(rt.active@[i].id@ == tap_id_at(profile, i));
    let status = rt.status.taps@[i];
}

/// Where the host has no taps a profile that asks for some is refused, and one that asks for none
/// is started without any.
pub proof fn law_hosts_without_taps(
    calls: Seq<TapCall>,
    profile: Profile,
    pid: u32,
    r: Result<CaptureRuntime, String>,
    capability: TapCapability,
)
    requires
        start_outcome(calls, profile, pid, r),
        calls[0] == (TapCall::Capability { answer: Ok(capability) }),
        !capability.supported,
    ensures
        calls.len() == 1,
        profile.captures.process_taps@.len() + profile.captures.system_taps@.len() > 0 ==> r is Err,
        profile.captures.process_taps@.len() + profile.captures.system_taps@.len() == 0 ==> (
        r matches Ok(rt) && rt.active@.len() == 0 && !rt.status.supported),
{
}

/// After a stop no tap is live, and every tap that could not be destroyed is told of once.
pub proof fn law_stopping_tells_what_failed(
    before: CaptureRuntimeStatus,
    active: Seq<ActiveCaptureTap>,
    answers: Seq<Result<(), String>>,
    after: CaptureRuntimeStatus,
    i: int,
)
    requires
        stopped_status(before, active, answers, after),
        answers.len() == active.len(),
        before.errors@.len() == 0,
        before.failed_taps == 0,
        active.len() <= usize::MAX,
        0 <= i < active.len(),
    ensures
        after.active_taps == 0,
        after.failed_taps == after.errors@.len(),
        after.errors@.len() <= active.len(),
        answers[i] is Err ==> after.failed_taps > 0,
        (forall|k: int| 0 <= k < answers.len() ==> (#[trigger] answers[k]) is Ok)
            ==> after.errors@.len() == 0 && after.taps@ == before.taps@,
        answers[i] is Err ==> forall|k: int|
            0 <= k < after.taps@.len() ==> (#[trigger] after.taps@[k]).health
                == CaptureRuntimeHealth::Degraded,
{
    lemma_destroy_errors(active, answers, 0, i);
    assert(views(after.errors@).len() == after.errors@.len());
    assert(views(before.errors@).len() == 0);
}

proof fn lemma_destroy_errors(
    active: Seq<ActiveCaptureTap>,
    answers: Seq<Result<(), String>>,
    n: int,
    i: int,
)
    requires
        answers.len() == active.len(),
        0 <= n <= active.len(),
    ensures
        destroy_errors(active, answers, n).len() <= active.len() - n,
        n <= i < active.len() && answers[i] is Err ==> destroy_errors(active, answers, n).len() > 0,
        (forall|k: int| n <= k < answers.len() ==> (#[trigger] answers[k]) is Ok)
            ==> destroy_errors(active, answers, n).len() == 0,
    decreases active.len() - n,
{
    if n < active.len() {
        lemma_destroy_errors(active, answers, n + 1, i);
    }
}

} // verus!
