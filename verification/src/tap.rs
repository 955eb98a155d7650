//! The control plane of audio taps: what is asked of the tap bridge, and what its answers
//! mean.

use crate::sequences::{
    lemma_placed, lemma_stably_sorted, stably_sorted, weak_order,
};
use crate::text::{chars_of, signed_decimal, signed_decimal_text};
use vstd::prelude::*;
use vstd::string::*;

verus! {

/// The status of a call that succeeded.
pub const NO_ERR: i32 = 0;

/// The status of a call on an object that there is not: `!obj`.
pub const BAD_OBJECT_ERROR: i32 = 0x216F_626A;

/// The status of a call on a device that there is not: `!dev`.
pub const BAD_DEVICE_ERROR: i32 = 0x2164_6576;

/// Whether the host has taps, and if not, why.
#[derive(Debug, PartialEq, Eq)]
pub struct TapCapability {
    pub supported: bool,
    pub reason: Option<String>,
}

/// A process that the audio system knows.
#[derive(Debug, PartialEq, Eq)]
pub struct AudioProcessInfo {
    pub process_object_id: u32,
    pub pid: i32,
    pub bundle_id: String,
    pub is_running: bool,
    pub is_running_input: bool,
    pub is_running_output: bool,
}

impl Clone for AudioProcessInfo {
    fn clone(&self) -> (r: AudioProcessInfo)
        ensures
            r == *self,
    {
        AudioProcessInfo {
            process_object_id: self.process_object_id,
            pid: self.pid,
            bundle_id: self.bundle_id.clone(),
            is_running: self.is_running,
            is_running_input: self.is_running_input,
            is_running_output: self.is_running_output,
        }
    }
}

/// A tap and the aggregate device that carries its audio.
#[derive(Debug, PartialEq, Eq)]
pub struct TapHandle {
    pub tap_id: u32,
    pub tap_uid: String,
    pub aggregate_device_id: u32,
    pub aggregate_uid: String,
}

impl Clone for TapHandle {
    fn clone(&self) -> (r: TapHandle)
        ensures
            r == *self,
    {
        TapHandle {
            tap_id: self.tap_id,
            tap_uid: self.tap_uid.clone(),
            aggregate_device_id: self.aggregate_device_id,
            aggregate_uid: self.aggregate_uid.clone(),
        }
    }
}

/// Whether what is tapped is still heard.
#[derive(Debug, Clone, Copy, PartialEq, Eq, Structural)]
pub enum TapMuteBehavior {
    Unmuted,
    Muted,
    MutedWhenTapped,
}

impl TapMuteBehavior {
    /// The number that the bridge knows the behaviour by.
    pub open spec fn number(self) -> i32 {
        match self {
            TapMuteBehavior::Unmuted => 0,
            TapMuteBehavior::Muted => 1,
            TapMuteBehavior::MutedWhenTapped => 2,
        }
    }

    /// The number that the bridge knows the behaviour by.
    pub fn as_i32(self) -> (r: i32)
        ensures
            r == self.number(),
    {
        match self {
            TapMuteBehavior::Unmuted => 0,
            TapMuteBehavior::Muted => 1,
            TapMuteBehavior::MutedWhenTapped => 2,
        }
    }
}

impl Default for TapMuteBehavior {
    fn default() -> (r: TapMuteBehavior)
        ensures
            r == TapMuteBehavior::Unmuted,
    {
        TapMuteBehavior::Unmuted
    }
}

/// A tap on processes.
#[derive(Debug, PartialEq, Eq)]
pub struct ProcessTapRequest {
    pub process_object_ids: Vec<u32>,
    pub tap_name: String,
    pub aggregate_uid: String,
    pub aggregate_name: String,
    pub mono: bool,
    pub private_tap: bool,
    pub mute_behavior: TapMuteBehavior,
    pub auto_start: bool,
}

/// Which output of the system is tapped.
#[derive(Debug, Clone, Copy, PartialEq, Eq, Structural)]
pub enum SystemTapTarget {
    DefaultOutput,
    AllOutput,
}

/// A tap on the output of the system.
#[derive(Debug, PartialEq, Eq)]
pub struct SystemTapRequest {
    pub target: SystemTapTarget,
    pub tap_name: String,
    pub aggregate_uid: String,
    pub aggregate_name: String,
    pub mono: bool,
    pub private_tap: bool,
    pub mute_behavior: TapMuteBehavior,
    pub auto_start: bool,
    pub stream_index: i32,
}

/// Why a tap operation failed.
#[derive(Debug, PartialEq, Eq)]
pub enum TapError {
    InvalidArgument(String),
    Unsupported(String),
    CoreAudio { operation: &'static str, status: i32, message: String },
    Decode(String),
}

/// What a tap error says.
pub enum TapErrorView {
    InvalidArgument(Seq<char>),
    Unsupported(Seq<char>),
    CoreAudio { operation: Seq<char>, status: i32, message: Seq<char> },
    Decode(Seq<char>),
}

impl View for TapError {
    type V = TapErrorView;

    open spec fn view(&self) -> TapErrorView {
        match *self {
            TapError::InvalidArgument(text) => TapErrorView::InvalidArgument(text@),
            TapError::Unsupported(text) => TapErrorView::Unsupported(text@),
            TapError::CoreAudio { operation, status, message } => TapErrorView::CoreAudio {
                operation: operation@,
                status,
                message: message@,
            },
            TapError::Decode(text) => TapErrorView::Decode(text@),
        }
    }
}

/// The text of a tap error.
pub open spec fn tap_error_text(e: TapErrorView) -> Seq<char> {
    match e {
        TapErrorView::InvalidArgument(text) => "invalid tap request: "@ + text,
        TapErrorView::Unsupported(text) => "tap backend reported unsupported capability: "@ + text,
        TapErrorView::CoreAudio { operation, status, message } => "coreaudio operation '"@
            + operation + "' failed (status="@ + signed_decimal(status as int) + "): "@ + message,
        TapErrorView::Decode(text) => "bridge decode failed: "@ + text,
    }
}

impl TapError {
    /// The text of the error.
    pub fn message(&self) -> (r: String)
        ensures
            r@ == tap_error_text(self@),
    {
        match self {
            TapError::InvalidArgument(text) => {
                let mut r = String::from_str("invalid tap request: ");
                r.append(text.as_str());
                r
            },
            TapError::Unsupported(text) => {
                let mut r = String::from_str("tap backend reported unsupported capability: ");
                r.append(text.as_str());
                r
            },
            TapError::CoreAudio { operation, status, message } => {
                let mut r = String::from_str("coreaudio operation '");
                r.append(operation);
                r.append("' failed (status=");
                r.append(signed_decimal_text(*status as i64).as_str());
                r.append("): ");
                r.append(message.as_str());
                r
            },
            TapError::Decode(text) => {
                let mut r = String::from_str("bridge decode failed: ");
                r.append(text.as_str());
                r
            },
        }
    }
}

/// Whether what was to be destroyed was gone already.
pub open spec fn already_gone(status: i32) -> bool {
    status == BAD_OBJECT_ERROR || status == BAD_DEVICE_ERROR
}

/// Whether what was to be destroyed was gone already.
pub fn is_destroy_idempotent_status(status: i32) -> (r: bool)
    ensures
        r == already_gone(status),
{
    status == BAD_OBJECT_ERROR || status == BAD_DEVICE_ERROR
}

/// The error of a bridge call: what the bridge said, or that it said nothing.
pub open spec fn bridge_error(operation: Seq<char>, status: i32, message: Option<String>) -> TapErrorView {
    TapErrorView::CoreAudio {
        operation,
        status,
        message: match message {
            Some(text) => text@,
            None => operation + " failed without bridge error details"@,
        },
    }
}

/// The error of a bridge call.
pub fn from_bridge_error(operation: &'static str, status: i32, message: Option<String>) -> (r:
    TapError)
    ensures
        r@ == bridge_error(operation@, status, message),
{
    let message = match message {
        Some(text) => text,
        None => {
            let mut text = String::from_str(operation);
            text.append(" failed without bridge error details");
            text
        },
    };
    TapError::CoreAudio { operation, status, message }
}

/// Whether a text holds the character that ends a text for the bridge.
pub open spec fn has_nul(text: Seq<char>) -> bool {
    text.contains('\0')
}

fn contains_nul(text: &str) -> (r: bool)
    ensures
        r == has_nul(text@),
{
    let chars = chars_of(text);
    let mut i: usize = 0;
    while i < chars.len()
        invariant
            chars@ == text@,
            i <= chars.len(),
            forall|k: int| 0 <= k < i ==> text@[k] != '\0',
        decreases chars.len() - i,
    {
        if chars[i] == '\0' {
            assert(text@[i as int] == '\0');
            return true;
        }
        i = i + 1;
    }
    false
}

/// The error of a text that cannot be handed to the bridge.
pub open spec fn nul_error(field: Seq<char>) -> TapErrorView {
    TapErrorView::InvalidArgument(
        field + " contains an embedded NUL byte which is not supported"@,
    )
}

fn check_text(value: &str, field: &str) -> (r: Result<(), TapError>)
    ensures
        r is Err <==> has_nul(value@),
        r matches Err(e) ==> e@ == nul_error(field@),
{
    if contains_nul(value) {
        let mut text = String::from_str(field);
        text.append(" contains an embedded NUL byte which is not supported");
        Err(TapError::InvalidArgument(text))
    } else {
        Ok(())
    }
}

/// Why the names of a tap cannot be handed to the bridge.
pub open spec fn names_error(
    tap_name: Seq<char>,
    aggregate_uid: Seq<char>,
    aggregate_name: Seq<char>,
) -> Option<TapErrorView> {
    if has_nul(tap_name) {
        Some(nul_error("tap_name"@))
    } else if has_nul(aggregate_uid) {
        Some(nul_error("aggregate_uid"@))
    } else if has_nul(aggregate_name) {
        Some(nul_error("aggregate_name"@))
    } else {
        None
    }
}

fn check_names(tap_name: &str, aggregate_uid: &str, aggregate_name: &str) -> (r: Result<
    (),
    TapError,
>)
    ensures
        match r {
            Ok(()) => names_error(tap_name@, aggregate_uid@, aggregate_name@) is None,
            Err(e) => names_error(tap_name@, aggregate_uid@, aggregate_name@) == Some(e@),
        },
{
    match check_text(tap_name, "tap_name") {
        Err(e) => {
            return Err(e);
        },
        Ok(()) => {},
    }
    match check_text(aggregate_uid, "aggregate_uid") {
        Err(e) => {
            return Err(e);
        },
        Ok(()) => {},
    }
    check_text(aggregate_name, "aggregate_name")
}

/// Whether a process stands before another: by process id, then by object id.
pub open spec fn by_pid() -> spec_fn(AudioProcessInfo, AudioProcessInfo) -> bool {
    |a: AudioProcessInfo, b: AudioProcessInfo|
        a.pid < b.pid || (a.pid == b.pid && a.process_object_id < b.process_object_id)
}

/// Processes by process id, then by object id.
pub proof fn lemma_by_pid_orders()
    ensures
        weak_order(by_pid()),
{
}

fn comes_before(a: &AudioProcessInfo, b: &AudioProcessInfo) -> (r: bool)
    ensures
        r == by_pid()(*a, *b),
{
    a.pid < b.pid || (a.pid == b.pid && a.process_object_id < b.process_object_id)
}

/// Puts processes in the order of their process ids, then object ids.
pub fn sort_processes(list: &Vec<AudioProcessInfo>) -> (r: Vec<AudioProcessInfo>)
    ensures
        r@ == stably_sorted(list@, by_pid()),
{
    let mut sorted: Vec<AudioProcessInfo> = Vec::new();
    proof {
        lemma_by_pid_orders();
        assert(list@.take(0) =~= Seq::<AudioProcessInfo>::empty());
    }
    let mut i: usize = 0;
    while i < list.len()
        invariant
            i <= list.len(),
            weak_order(by_pid()),
            sorted@ == stably_sorted(list@.take(i as int), by_pid()),
        decreases list.len() - i,
    {
        let x = list[i].clone();
        proof {
            assert(list@.take(i + 1).drop_last() =~= list@.take(i as int));
            lemma_stably_sorted(list@.take(i as int), by_pid());
        }
        let mut place: usize = 0;
        while place < sorted.len() && !comes_before(&x, &sorted[place])
            invariant
                place <= sorted.len(),
                forall|k: int| 0 <= k < place ==> !by_pid()(x, #[trigger] sorted@[k]),
            decreases sorted.len() - place,
        {
            place = place + 1;
        }
        proof {
            lemma_placed(sorted@, x, by_pid(), place as int);
        }
        sorted.insert(place, x);
        i = i + 1;
    }
    assert(list@.take(i as int) =~= list@);
    sorted
}

/// What to ask of the bridge next.
#[derive(Debug)]
pub enum TapStep {
    /// The uid of the default output device.
    QueryDefaultOutput,
    /// A tap, on the device with the uid where there is one.
    CreateTap { device_uid: Option<String> },
    /// The aggregate device for a tap.
    CreateAggregate { tap_id: u32, tap_uid: String },
    /// The end of a tap that has no aggregate device; the error is why.
    DestroyTap { tap_id: u32, error: TapError },
    /// Nothing: the tap is there.
    Ready(TapHandle),
    /// Nothing: there is no tap.
    Failed(TapError),
}

/// What to ask of the bridge next.
pub enum TapStepView {
    QueryDefaultOutput,
    CreateTap { device_uid: Option<Seq<char>> },
    CreateAggregate { tap_id: u32, tap_uid: Seq<char> },
    DestroyTap { tap_id: u32, error: TapErrorView },
    Ready { tap_id: u32, tap_uid: Seq<char>, aggregate_device_id: u32, aggregate_uid: Seq<char> },
    Failed(TapErrorView),
}

impl View for TapStep {
    type V = TapStepView;

    open spec fn view(&self) -> TapStepView {
        match *self {
            TapStep::QueryDefaultOutput => TapStepView::QueryDefaultOutput,
            TapStep::CreateTap { device_uid } => TapStepView::CreateTap {
                device_uid: match device_uid {
                    Some(uid) => Some(uid@),
                    None => None,
                },
            },
            TapStep::CreateAggregate { tap_id, tap_uid } => TapStepView::CreateAggregate {
                tap_id,
                tap_uid: tap_uid@,
            },
            TapStep::DestroyTap { tap_id, error } => TapStepView::DestroyTap {
                tap_id,
                error: error@,
            },
            TapStep::Ready(handle) => TapStepView::Ready {
                tap_id: handle.tap_id,
                tap_uid: handle.tap_uid@,
                aggregate_device_id: handle.aggregate_device_id,
                aggregate_uid: handle.aggregate_uid@,
            },
            TapStep::Failed(error) => TapStepView::Failed(error@),
        }
    }
}

/// What came of asking the bridge.
#[derive(Debug)]
pub enum TapEvent {
    /// Nothing was asked yet.
    Start,
    /// The answer to the question for the default output device.
    DefaultOutput { status: i32, uid: Option<String>, message: Option<String> },
    /// The answer to the request for a tap.
    TapCreated { status: i32, tap_id: u32, new_uid: Option<String>, message: Option<String> },
    /// The answer to the request for an aggregate device.
    AggregateCreated {
        tap_id: u32,
        tap_uid: String,
        status: i32,
        device_id: u32,
        message: Option<String>,
    },
    /// The tap was destroyed, as well as that could be done.
    TapDestroyed { error: TapError },
}

/// The uid of the default output device, from the answer of the bridge.
pub open spec fn default_output_outcome(
    status: i32,
    uid: Option<String>,
    message: Option<String>,
) -> Result<Seq<char>, TapErrorView> {
    if status != NO_ERR {
        Err(bridge_error("default_output_device_uid"@, status, message))
    } else {
        match uid {
            Some(uid) => Ok(uid@),
            None => Err(TapErrorView::Decode("bridge returned empty default output UID"@)),
        }
    }
}

/// The steps that follow once the bridge was asked for a tap, by the name of the request
/// and the uid of the aggregate device.
pub open spec fn later_tap_step(
    operation: Seq<char>,
    aggregate_uid: Seq<char>,
    event: TapEvent,
) -> TapStepView {
    match event {
        TapEvent::TapCreated { status, tap_id, new_uid, message } => if status != NO_ERR {
            TapStepView::Failed(bridge_error(operation, status, message))
        } else {
            match new_uid {
                None => TapStepView::Failed(TapErrorView::Decode("bridge returned empty tap UID"@)),
                Some(uid) => if has_nul(uid@) {
                    TapStepView::DestroyTap { tap_id, error: nul_error("tap_uid"@) }
                } else {
                    TapStepView::CreateAggregate { tap_id, tap_uid: uid@ }
                },
            }
        },
        TapEvent::AggregateCreated { tap_id, tap_uid, status, device_id, message } => if status
            != NO_ERR {
            TapStepView::DestroyTap {
                tap_id,
                error: bridge_error("create_private_aggregate_device"@, status, message),
            }
        } else {
            TapStepView::Ready {
                tap_id,
                tap_uid: tap_uid@,
                aggregate_device_id: device_id,
                aggregate_uid,
            }
        },
        TapEvent::TapDestroyed { error } => TapStepView::Failed(error@),
        TapEvent::DefaultOutput { status, uid, message } => match default_output_outcome(
            status,
            uid,
            message,
        ) {
            Err(e) => TapStepView::Failed(e),
            Ok(uid) => if has_nul(uid) {
                TapStepView::Failed(nul_error("default_output_device_uid"@))
            } else {
                TapStepView::CreateTap { device_uid: Some(uid) }
            },
        },
        TapEvent::Start => TapStepView::CreateTap { device_uid: None },
    }
}

/// The steps to a tap on processes.
pub open spec fn process_tap_step(request: ProcessTapRequest, event: TapEvent) -> TapStepView {
    if event is Start {
        if request.process_object_ids@.len() == 0 {
            TapStepView::Failed(
                TapErrorView::InvalidArgument(
                    "process_tap requires at least one process object id"@,
                ),
            )
        } else {
            match names_error(
                request.tap_name@,
                request.aggregate_uid@,
                request.aggregate_name@,
            ) {
                Some(e) => TapStepView::Failed(e),
                None => TapStepView::CreateTap { device_uid: None },
            }
        }
    } else {
        later_tap_step("create_process_tap"@, request.aggregate_uid@, event)
    }
}

/// The steps to a tap on the output of the system.
pub open spec fn system_tap_step(request: SystemTapRequest, event: TapEvent) -> TapStepView {
    if event is Start {
        match names_error(request.tap_name@, request.aggregate_uid@, request.aggregate_name@) {
            Some(e) => TapStepView::Failed(e),
            None => match request.target {
                SystemTapTarget::AllOutput => TapStepView::CreateTap { device_uid: None },
                SystemTapTarget::DefaultOutput => TapStepView::QueryDefaultOutput,
            },
        }
    } else {
        later_tap_step("create_system_tap"@, request.aggregate_uid@, event)
    }
}

/// Decides over taps from the answers of the bridge.
#[derive(Debug, Clone, Copy)]
pub struct CoreAudioTapController;

impl Default for CoreAudioTapController {
    fn default() -> (r: CoreAudioTapController)
        ensures
            r == CoreAudioTapController,
    {
        CoreAudioTapController
    }
}

impl CoreAudioTapController {
    /// A controller.
    #[must_use]
    pub fn new() -> (r: CoreAudioTapController)
        ensures
            r == CoreAudioTapController,
    {
        CoreAudioTapController
    }

    /// Whether the host has taps, from the answer of the bridge.
    pub fn capability(&self, status: i32, supported: u8, message: Option<String>) -> (r: Result<
        TapCapability,
        TapError,
    >)
        ensures
            match r {
                Ok(c) => status == NO_ERR && c.supported == (supported != 0) && c.reason == message,
                Err(e) => status != NO_ERR && e@ == bridge_error(
                    "check_capability"@,
                    status,
                    message,
                ),
            },
    {
        if status != NO_ERR {
            return Err(from_bridge_error("check_capability", status, message));
        }
        Ok(TapCapability { supported: supported != 0, reason: message })
    }

    /// The processes, from the answer of the bridge: its status, and the records that its
    /// JSON text holds, nothing where there was no text, or why the text holds none.
    pub fn list_processes(
        &self,
        status: i32,
        message: Option<String>,
        records: Option<Result<Vec<AudioProcessInfo>, String>>,
    ) -> (r: Result<Vec<AudioProcessInfo>, TapError>)
        ensures
            match r {
                Ok(list) => status == NO_ERR && (records matches Some(Ok(found)) && list@
                    == stably_sorted(found@, by_pid())),
                Err(e) => if status != NO_ERR {
                    e@ == bridge_error("list_processes"@, status, message)
                } else {
                    match records {
                        None => e@ == TapErrorView::Decode("bridge returned empty process JSON"@),
                        Some(Err(text)) => e@ == TapErrorView::Decode(text@),
                        Some(Ok(_)) => false,
                    }
                },
            },
    {
        if status != NO_ERR {
            return Err(from_bridge_error("list_processes", status, message));
        }
        match records {
            None => Err(
                TapError::Decode(String::from_str("bridge returned empty process JSON")),
            ),
            Some(Err(text)) => Err(TapError::Decode(text)),
            Some(Ok(found)) => Ok(sort_processes(&found)),
        }
    }

    /// The uid of the default output device, from the answer of the bridge.
    pub fn default_output_device_uid(
        &self,
        status: i32,
        uid: Option<String>,
        message: Option<String>,
    ) -> (r: Result<String, TapError>)
        ensures
            match r {
                Ok(found) => default_output_outcome(status, uid, message) == Ok::<
                    Seq<char>,
                    TapErrorView,
                >(found@),
                Err(e) => default_output_outcome(status, uid, message) == Err::<
                    Seq<char>,
                    TapErrorView,
                >(e@),
            },
    {
        if status != NO_ERR {
            return Err(from_bridge_error("default_output_device_uid", status, message));
        }
        match uid {
            Some(uid) => Ok(uid),
            None => Err(
                TapError::Decode(String::from_str("bridge returned empty default output UID")),
            ),
        }
    }

    fn later_step(&self, operation: &'static str, aggregate_uid: &String, event: TapEvent) -> (r:
        TapStep)
        ensures
            r@ == later_tap_step(operation@, aggregate_uid@, event),
    {
        match event {
            TapEvent::TapCreated { status, tap_id, new_uid, message } => {
                if status != NO_ERR {
                    return TapStep::Failed(from_bridge_error(operation, status, message));
                }
                match new_uid {
                    None => TapStep::Failed(
                        TapError::Decode(String::from_str("bridge returned empty tap UID")),
                    ),
                    Some(tap_uid) => match check_text(tap_uid.as_str(), "tap_uid") {
                        Err(error) => TapStep::DestroyTap { tap_id, error },
                        Ok(()) => TapStep::CreateAggregate { tap_id, tap_uid },
                    },
                }
            },
            TapEvent::AggregateCreated { tap_id, tap_uid, status, device_id, message } => {
                if status != NO_ERR {
                    return TapStep::DestroyTap {
                        tap_id,
                        error: from_bridge_error(
                            "create_private_aggregate_device",
                            status,
                            message,
                        ),
                    };
                }
                TapStep::Ready(
                    TapHandle {
                        tap_id,
                        tap_uid,
                        aggregate_device_id: device_id,
                        aggregate_uid: aggregate_uid.clone(),
                    },
                )
            },
            TapEvent::TapDestroyed { error } => TapStep::Failed(error),
            TapEvent::DefaultOutput { status, uid, message } => {
                match self.default_output_device_uid(status, uid, message) {
                    Err(error) => TapStep::Failed(error),
                    Ok(uid) => match check_text(uid.as_str(), "default_output_device_uid") {
                        Err(error) => TapStep::Failed(error),
                        Ok(()) => TapStep::CreateTap { device_uid: Some(uid) },
                    },
                }
            },
            TapEvent::Start => TapStep::CreateTap { device_uid: None },
        }
    }

    /// What to ask of the bridge next on the way to a tap on processes.
    pub fn create_process_tap(&self, request: &ProcessTapRequest, event: TapEvent) -> (r: TapStep)
        ensures
            r@ == process_tap_step(*request, event),
    {
        match event {
            TapEvent::Start => {
                if request.process_object_ids.len() == 0 {
                    return TapStep::Failed(
                        TapError::InvalidArgument(
                            String::from_str("process_tap requires at least one process object id"),
                        ),
                    );
                }
                match check_names(
                    request.tap_name.as_str(),
                    request.aggregate_uid.as_str(),
                    request.aggregate_name.as_str(),
                ) {
                    Err(error) => TapStep::Failed(error),
                    Ok(()) => TapStep::CreateTap { device_uid: None },
                }
            },
            _ => self.later_step("create_process_tap", &request.aggregate_uid, event),
        }
    }

    /// What to ask of the bridge next on the way to a tap on the output of the system.
    pub fn create_system_tap(&self, request: &SystemTapRequest, event: TapEvent) -> (r: TapStep)
        ensures
            r@ == system_tap_step(*request, event),
    {
        match event {
            TapEvent::Start => {
                match check_names(
                    request.tap_name.as_str(),
                    request.aggregate_uid.as_str(),
                    request.aggregate_name.as_str(),
                ) {
                    Err(error) => TapStep::Failed(error),
                    Ok(()) => match request.target {
                        SystemTapTarget::AllOutput => TapStep::CreateTap { device_uid: None },
                        SystemTapTarget::DefaultOutput => TapStep::QueryDefaultOutput,
                    },
                }
            },
            _ => self.later_step("create_system_tap", &request.aggregate_uid, event),
        }
    }

    /// What to do next to destroy a tap. The aggregate device goes first; only where that is
    /// gone is the tap destroyed.
    pub fn destroy_tap(&self, handle: &TapHandle, event: DestroyEvent) -> (r: DestroyStep)
        ensures
            destroy_step(*handle, event, r),
    {
        match event {
            DestroyEvent::Start => DestroyStep::DestroyAggregate {
                device_id: handle.aggregate_device_id,
            },
            DestroyEvent::AggregateDestroyed { status, message } => {
                if status != NO_ERR && !is_destroy_idempotent_status(status) {
                    return DestroyStep::Failed(
                        from_bridge_error("destroy_aggregate_device", status, message),
                    );
                }
                DestroyStep::DestroyProcessTap { tap_id: handle.tap_id }
            },
            DestroyEvent::TapDestroyed { status, message } => {
                if status != NO_ERR && !is_destroy_idempotent_status(status) {
                    return DestroyStep::Failed(
                        from_bridge_error("destroy_process_tap", status, message),
                    );
                }
                DestroyStep::Destroyed
            },
        }
    }
}

/// What to ask of the bridge next to destroy a tap.
#[derive(Debug)]
pub enum DestroyStep {
    /// The end of the aggregate device.
    DestroyAggregate { device_id: u32 },
    /// The end of the tap itself.
    DestroyProcessTap { tap_id: u32 },
    /// Nothing: the tap is gone.
    Destroyed,
    /// Nothing: something is still there.
    Failed(TapError),
}

/// What the bridge answered while a tap is destroyed.
#[derive(Debug)]
pub enum DestroyEvent {
    /// Nothing was asked yet.
    Start,
    AggregateDestroyed { status: i32, message: Option<String> },
    TapDestroyed { status: i32, message: Option<String> },
}

/// Whether an answer of the bridge leaves nothing behind.
pub open spec fn gone(status: i32) -> bool {
    status == NO_ERR || already_gone(status)
}

/// Whether a step follows an answer while a tap is destroyed.
pub open spec fn destroy_step(handle: TapHandle, event: DestroyEvent, step: DestroyStep) -> bool {
    match event {
        DestroyEvent::Start => step == DestroyStep::DestroyAggregate {
            device_id: handle.aggregate_device_id,
        },
        DestroyEvent::AggregateDestroyed { status, message } => if gone(status) {
            step == DestroyStep::DestroyProcessTap { tap_id: handle.tap_id }
        } else {
            step matches DestroyStep::Failed(error) && error@ == bridge_error(
                "destroy_aggregate_device"@,
                status,
                message,
            )
        },
        DestroyEvent::TapDestroyed { status, message } => if gone(status) {
            step == DestroyStep::Destroyed
        } else {
            step matches DestroyStep::Failed(error) && error@ == bridge_error(
                "destroy_process_tap"@,
                status,
                message,
            )
        },
    }
}

/// A tap is destroyed only once its aggregate device is gone.
pub proof fn law_aggregate_goes_first(
    handle: TapHandle,
    event: DestroyEvent,
    step: DestroyStep,
    tap_id: u32,
)
    requires
        destroy_step(handle, event, step),
        step == (DestroyStep::DestroyProcessTap { tap_id }),
    ensures
        tap_id == handle.tap_id,
        event matches DestroyEvent::AggregateDestroyed { status, message } && gone(status),
{
}

/// Where no aggregate device comes about, the tap is destroyed before the failure is
/// reported.
pub proof fn law_orphaned_tap_is_destroyed(
    request: ProcessTapRequest,
    tap_id: u32,
    tap_uid: String,
    status: i32,
    device_id: u32,
    message: Option<String>,
)
    requires
        status != NO_ERR,
    ensures
        process_tap_step(
            request,
            (TapEvent::AggregateCreated { tap_id, tap_uid, status, device_id, message }),
        ) matches TapStepView::DestroyTap { tap_id: id, error } && id == tap_id,
{
}

/// Something counts as destroyed where destroying it succeeded or it was not there any more, and
/// nowhere else: the two other answers that are taken are those for a bad object and for a bad
/// device.
pub proof fn law_gone_is_destroyed_or_never_there(status: i32)
    ensures
        gone(status) <==> status == 0 || status == 0x216F_626A || status == 0x2164_6576,
{
}

/// A tap of processes is made in order: it is asked for where some process is named and no name
/// holds a zero, then its aggregate device is asked for, and it is ready with what both were
/// given. What fails on the way is told, and a tap that was made is not left behind.
pub proof fn law_process_taps_are_made_in_order(
    request: ProcessTapRequest,
    status: i32,
    tap_id: u32,
    uid: String,
    device_id: u32,
    message: Option<String>,
)
    ensures
        request.process_object_ids@.len() == 0 ==> process_tap_step(request, TapEvent::Start)
            is Failed,
        request.process_object_ids@.len() > 0 && !request.tap_name@.contains('\0')
            && !request.aggregate_uid@.contains('\0') && !request.aggregate_name@.contains('\0')
            ==> process_tap_step(request, TapEvent::Start) == (TapStepView::CreateTap {
            device_uid: None,
        }),
        request.tap_name@.contains('\0') || request.aggregate_uid@.contains('\0')
            || request.aggregate_name@.contains('\0') ==> process_tap_step(
            request,
            TapEvent::Start,
        ) is Failed,
        !uid@.contains('\0') ==> process_tap_step(
            request,
            (TapEvent::TapCreated { status: 0, tap_id, new_uid: Some(uid), message }),
        ) == (TapStepView::CreateAggregate { tap_id, tap_uid: uid@ }),
        uid@.contains('\0') ==> (process_tap_step(
            request,
            (TapEvent::TapCreated { status: 0, tap_id, new_uid: Some(uid), message }),
        ) matches TapStepView::DestroyTap { tap_id: lost, error: _ } && lost == tap_id),
        status != 0 ==> process_tap_step(
            request,
            (TapEvent::TapCreated { status, tap_id, new_uid: Some(uid), message }),
        ) is Failed,
        process_tap_step(
            request,
            (TapEvent::AggregateCreated { tap_id, tap_uid: uid, status: 0, device_id, message }),
        ) == (TapStepView::Ready {
            tap_id,
            tap_uid: uid@,
            aggregate_device_id: device_id,
            aggregate_uid: request.aggregate_uid@,
        }),
        status != 0 ==> (process_tap_step(
            request,
            (TapEvent::AggregateCreated { tap_id, tap_uid: uid, status, device_id, message }),
        ) matches TapStepView::DestroyTap { tap_id: lost, error: _ } && lost == tap_id),
{
}

/// A tap of the system: of the default output only once that device is known, and on it; of all
/// outputs at once, and on no device.
pub proof fn law_system_taps_are_made_on_their_device(
    request: SystemTapRequest,
    uid: String,
    message: Option<String>,
)
    requires
        !request.tap_name@.contains('\0'),
        !request.aggregate_uid@.contains('\0'),
        !request.aggregate_name@.contains('\0'),
    ensures
        request.target == SystemTapTarget::DefaultOutput ==> system_tap_step(
            request,
            TapEvent::Start,
        ) is QueryDefaultOutput,
        request.target == SystemTapTarget::AllOutput ==> system_tap_step(request, TapEvent::Start)
            == (TapStepView::CreateTap { device_uid: None }),
        !uid@.contains('\0') ==> system_tap_step(
            request,
            (TapEvent::DefaultOutput { status: 0, uid: Some(uid), message }),
        ) == (TapStepView::CreateTap { device_uid: Some(uid@) }),
        system_tap_step(
            request,
            (TapEvent::DefaultOutput { status: 0, uid: None, message }),
        ) is Failed,
{
}

/// Processes are listed by their process ids, and those of one by the ids of their objects; none
/// is lost and none is made up.
pub proof fn law_processes_are_listed_by_pid(list: Seq<AudioProcessInfo>, i: int, j: int)
    requires
        0 <= i < j < list.len(),
    ensures
        ({
            let sorted = stably_sorted(list, by_pid());
            &&& sorted.len() == list.len()
            &&& sorted.to_multiset() == list.to_multiset()
            &&& sorted[i].pid < sorted[j].pid || (sorted[i].pid == sorted[j].pid
                && sorted[i].process_object_id <= sorted[j].process_object_id)
        }),
{
    lemma_stably_sorted(list, by_pid());
    let sorted = stably_sorted(list, by_pid());
    assert(!by_pid()(sorted[j], sorted[i]));
}

} // verus!
