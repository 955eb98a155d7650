//! Plugin hosts: the worker that talks to one, what the answers mean, and where it listens.

use crate::sequences::{lemma_views_push, views};
use crate::text::{
    chars_of, decimal, decimal_text, lemma_numeral_len, numeral, numeral_text, split_words,
    trim_text, trimmed, words_from,
};
use std::collections::hash_map::DefaultHasher;
use std::hash::Hasher;
use vstd::prelude::*;
use vstd::std_specs::hash::DefaultHasherAdditionalSpecFns;
use vstd::string::*;
use vstd::utf8::encode_utf8;

verus! {

broadcast use lemma_views_push;

/// The programming interfaces of plugins.
#[derive(Debug, Clone, Copy, PartialEq, Eq, Structural)]
pub enum AuPluginApi {
    Auv2,
    Auv3,
}

/// How a plugin host fares.
#[derive(Debug, Clone, Copy, PartialEq, Eq, Structural)]
pub enum PluginHostHealth {
    Healthy,
    Degraded,
    Failed,
}

/// The state of one plugin host.
#[derive(Debug, PartialEq, Eq)]
pub struct PluginHostInstanceStatus {
    pub id: String,
    pub api: AuPluginApi,
    pub health: PluginHostHealth,
    pub loaded: bool,
    pub host_pid: Option<u32>,
    pub process_calls: u64,
    pub timeout_count: u64,
    pub error_count: u64,
    pub restart_count: u64,
    pub last_error: Option<String>,
}

impl Clone for PluginHostInstanceStatus {
    fn clone(&self) -> (r: PluginHostInstanceStatus)
        ensures
            r == *self,
    {
        PluginHostInstanceStatus {
            id: self.id.clone(),
            api: self.api,
            health: self.health,
            loaded: self.loaded,
            host_pid: self.host_pid,
            process_calls: self.process_calls,
            timeout_count: self.timeout_count,
            error_count: self.error_count,
            restart_count: self.restart_count,
            last_error: self.last_error.clone(),
        }
    }
}

/// Samples to be processed, by their bit patterns.
#[derive(Debug, Clone)]
pub struct AuProcessRequest {
    pub frames: usize,
    pub channels: usize,
    pub samples: Vec<u32>,
}

/// Why samples were not taken.
#[derive(Debug, Clone, Copy, PartialEq, Eq, Structural)]
pub enum AuSubmitError {
    Full,
    Disconnected,
}

/// Why talking to a plugin host failed.
#[derive(Debug, PartialEq, Eq)]
pub enum HostSessionError {
    Timeout(String),
    Io(String),
}

impl HostSessionError {
    /// What the error says.
    pub open spec fn text(self) -> Seq<char> {
        match self {
            HostSessionError::Timeout(message) => message@,
            HostSessionError::Io(message) => message@,
        }
    }

    /// Whether the host took too long.
    pub fn is_timeout(&self) -> (r: bool)
        ensures
            r == (self is Timeout),
    {
        matches!(self, HostSessionError::Timeout(_))
    }

    /// What the error says.
    pub fn message(&self) -> (r: String)
        ensures
            r@ == self.text(),
    {
        match self {
            HostSessionError::Timeout(message) => message.clone(),
            HostSessionError::Io(message) => message.clone(),
        }
    }
}

/// A counter that stops at its largest value.
pub open spec fn stepped(count: u64) -> u64 {
    if count == u64::MAX {
        u64::MAX
    } else {
        (count + 1) as u64
    }
}

fn step(count: u64) -> (r: u64)
    ensures
        r == stepped(count),
{
    count.saturating_add(1)
}

// ---------------------------------------------------------------------------
// The worker

/// What came of handing samples to the worker.
#[derive(Debug, Clone, Copy, PartialEq, Eq, Structural)]
pub enum SubmitOutcome {
    Taken,
    Full,
    Disconnected,
}

/// What the worker does next with the samples at hand.
#[derive(Debug, Clone, Copy, PartialEq, Eq, Structural)]
pub enum WorkerAction {
    /// Start a host.
    StartSession,
    /// Have the host process the samples.
    Process,
    /// Hand the processed samples back.
    ReturnProcessed,
    /// Hand the samples back as they came.
    ReturnUnchanged,
    /// End the host, then hand the samples back as they came.
    TerminateAndReturnUnchanged,
}

/// The worker of one plugin host.
#[derive(Debug)]
pub struct AuWorkerState {
    pub status: PluginHostInstanceStatus,
    pub session: bool,
}

/// The state of a worker whose host runs.
pub open spec fn host_runs(
    before: PluginHostInstanceStatus,
    after: PluginHostInstanceStatus,
    pid: u32,
) -> bool {
    &&& after.loaded
    &&& after.health == PluginHostHealth::Healthy
    &&& after.host_pid == Some(pid)
    &&& after.last_error is None
    &&& after.id == before.id
    &&& after.api == before.api
    &&& after.process_calls == before.process_calls
    &&& after.timeout_count == before.timeout_count
    &&& after.error_count == before.error_count
    &&& after.restart_count == before.restart_count
}

/// The state of a worker whose host could not be started.
pub open spec fn host_missing(
    before: PluginHostInstanceStatus,
    after: PluginHostInstanceStatus,
    error: Seq<char>,
) -> bool {
    &&& !after.loaded
    &&& after.health == PluginHostHealth::Failed
    &&& after.host_pid is None
    &&& after.last_error matches Some(text) && text@ == error
    &&& after.error_count == stepped(before.error_count)
    &&& after.id == before.id
    &&& after.api == before.api
    &&& after.process_calls == before.process_calls
    &&& after.timeout_count == before.timeout_count
    &&& after.restart_count == before.restart_count
}

/// The state of a worker whose host failed while it ran.
pub open spec fn host_failed(
    before: PluginHostInstanceStatus,
    after: PluginHostInstanceStatus,
    error: HostSessionError,
) -> bool {
    &&& !after.loaded
    &&& after.health == if error is Timeout {
        PluginHostHealth::Degraded
    } else {
        PluginHostHealth::Failed
    }
    &&& after.host_pid is None
    &&& after.last_error matches Some(text) && text@ == error.text()
    &&& after.error_count == stepped(before.error_count)
    &&& after.timeout_count == if error is Timeout {
        stepped(before.timeout_count)
    } else {
        before.timeout_count
    }
    &&& after.restart_count == stepped(before.restart_count)
    &&& after.id == before.id
    &&& after.api == before.api
    &&& after.process_calls == before.process_calls
}

impl AuWorkerState {
    /// A worker whose host was not started yet.
    pub fn new(processor_id: &String, api: AuPluginApi) -> (r: AuWorkerState)
        ensures
            r.status.id == *processor_id,
            r.status.api == api,
            r.status.health == PluginHostHealth::Degraded,
            !r.status.loaded,
            r.status.host_pid is None,
            r.status.process_calls == 0,
            r.status.timeout_count == 0,
            r.status.error_count == 0,
            r.status.restart_count == 0,
            r.status.last_error is None,
            !r.session,
    {
        AuWorkerState {
            status: PluginHostInstanceStatus {
                id: processor_id.clone(),
                api,
                health: PluginHostHealth::Degraded,
                loaded: false,
                host_pid: None,
                process_calls: 0,
                timeout_count: 0,
                error_count: 0,
                restart_count: 0,
                last_error: None,
            },
            session: false,
        }
    }

    /// Notes what came of handing samples to the worker: a full queue counts as a timeout,
    /// a worker that is gone as an error.
    pub fn try_submit(&mut self, outcome: SubmitOutcome) -> (r: Result<(), AuSubmitError>)
        ensures
            final(self).session == old(self).session,
            final(self).status.id == old(self).status.id,
            final(self).status.api == old(self).status.api,
            final(self).status.process_calls == old(self).status.process_calls,
            final(self).status.restart_count == old(self).status.restart_count,
            match outcome {
                SubmitOutcome::Taken => r is Ok && *final(self) == *old(self),
                SubmitOutcome::Full => {
                    &&& r == Err::<(), AuSubmitError>(AuSubmitError::Full)
                    &&& final(self).status.timeout_count == stepped(old(self).status.timeout_count)
                    &&& final(self).status.error_count == old(self).status.error_count
                    &&& final(self).status.health == PluginHostHealth::Degraded
                    &&& final(self).status.loaded == old(self).status.loaded
                    &&& final(self).status.host_pid == old(self).status.host_pid
                    &&& final(self).status.last_error matches Some(text) && text@
                        == "plugin host rt queue full"@
                },
                SubmitOutcome::Disconnected => {
                    &&& r == Err::<(), AuSubmitError>(AuSubmitError::Disconnected)
                    &&& final(self).status.timeout_count == old(self).status.timeout_count
                    &&& final(self).status.error_count == stepped(old(self).status.error_count)
                    &&& final(self).status.health == PluginHostHealth::Failed
                    &&& !final(self).status.loaded
                    &&& final(self).status.host_pid is None
                    &&& final(self).status.last_error matches Some(text) && text@
                        == "plugin host worker disconnected"@
                },
            },
    {
        match outcome {
            SubmitOutcome::Taken => Ok(()),
            SubmitOutcome::Full => {
                self.status.timeout_count = step(self.status.timeout_count);
                self.status.health = PluginHostHealth::Degraded;
                self.status.last_error = Some(String::from_str("plugin host rt queue full"));
                Err(AuSubmitError::Full)
            },
            SubmitOutcome::Disconnected => {
                self.status.error_count = step(self.status.error_count);
                self.status.health = PluginHostHealth::Failed;
                self.status.loaded = false;
                self.status.host_pid = None;
                self.status.last_error = Some(String::from_str("plugin host worker disconnected"));
                Err(AuSubmitError::Disconnected)
            },
        }
    }

    /// Takes samples in; a host is started first where there is none.
    pub fn begin_request(&mut self) -> (r: WorkerAction)
        ensures
            r == if old(self).session {
                WorkerAction::Process
            } else {
                WorkerAction::StartSession
            },
            final(self).session == old(self).session,
            final(self).status == (PluginHostInstanceStatus {
                process_calls: stepped(old(self).status.process_calls),
                ..old(self).status
            }),
    {
        self.status.process_calls = step(self.status.process_calls);
        if self.session {
            WorkerAction::Process
        } else {
            WorkerAction::StartSession
        }
    }

    /// Notes whether a host started, by its process id; without one the samples go back.
    pub fn session_started(&mut self, outcome: Result<u32, HostSessionError>) -> (r: WorkerAction)
        ensures
            match outcome {
                Ok(pid) => {
                    &&& r == WorkerAction::Process
                    &&& final(self).session
                    &&& host_runs(old(self).status, final(self).status, pid)
                },
                Err(error) => {
                    &&& r == WorkerAction::ReturnUnchanged
                    &&& !final(self).session
                    &&& host_missing(old(self).status, final(self).status, error.text())
                },
            },
    {
        match outcome {
            Ok(pid) => {
                self.status.loaded = true;
                self.status.health = PluginHostHealth::Healthy;
                self.status.host_pid = Some(pid);
                self.status.last_error = None;
                self.session = true;
                WorkerAction::Process
            },
            Err(error) => {
                self.status.loaded = false;
                self.status.host_pid = None;
                self.status.health = PluginHostHealth::Failed;
                self.status.error_count = step(self.status.error_count);
                self.status.last_error = Some(error.message());
                self.session = false;
                WorkerAction::ReturnUnchanged
            },
        }
    }

    /// Notes whether the host processed the samples. A host that failed is ended, and the
    /// next samples start another.
    pub fn request_processed(&mut self, outcome: Result<u32, HostSessionError>) -> (r: WorkerAction)
        ensures
            match outcome {
                Ok(pid) => {
                    &&& r == WorkerAction::ReturnProcessed
                    &&& final(self).session == old(self).session
                    &&& host_runs(old(self).status, final(self).status, pid)
                },
                Err(error) => {
                    &&& r == WorkerAction::TerminateAndReturnUnchanged
                    &&& !final(self).session
                    &&& host_failed(old(self).status, final(self).status, error)
                },
            },
    {
        match outcome {
            Ok(pid) => {
                self.status.loaded = true;
                self.status.health = PluginHostHealth::Healthy;
                self.status.host_pid = Some(pid);
                self.status.last_error = None;
                WorkerAction::ReturnProcessed
            },
            Err(error) => {
                self.status.error_count = step(self.status.error_count);
                if error.is_timeout() {
                    self.status.timeout_count = step(self.status.timeout_count);
                    self.status.health = PluginHostHealth::Degraded;
                } else {
                    self.status.health = PluginHostHealth::Failed;
                }
                self.status.loaded = false;
                self.status.host_pid = None;
                self.status.last_error = Some(error.message());
                self.status.restart_count = step(self.status.restart_count);
                self.session = false;
                WorkerAction::TerminateAndReturnUnchanged
            },
        }
    }

    /// The state of the host.
    pub fn status_snapshot(&self) -> (r: PluginHostInstanceStatus)
        ensures
            r == self.status,
    {
        self.status.clone()
    }
}

/// The state of the host of a processor, from its worker. Without a worker the host has
/// failed where the processor was made ready, else it is degraded.
pub fn plugin_status(
    id: &String,
    api: AuPluginApi,
    prepared: bool,
    worker: Option<&AuWorkerState>,
) -> (r: PluginHostInstanceStatus)
    ensures
        match worker {
            Some(worker) => r == worker.status,
            None => {
                &&& r.id == *id
                &&& r.api == api
                &&& r.health == if prepared {
                    PluginHostHealth::Failed
                } else {
                    PluginHostHealth::Degraded
                }
                &&& !r.loaded
                &&& r.host_pid is None
                &&& r.process_calls == 0
                &&& r.timeout_count == 0
                &&& r.error_count == 0
                &&& r.restart_count == 0
                &&& r.last_error is None
            },
        },
{
    match worker {
        Some(worker) => worker.status_snapshot(),
        None => PluginHostInstanceStatus {
            id: id.clone(),
            api,
            health: if prepared {
                PluginHostHealth::Failed
            } else {
                PluginHostHealth::Degraded
            },
            loaded: false,
            host_pid: None,
            process_calls: 0,
            timeout_count: 0,
            error_count: 0,
            restart_count: 0,
            last_error: None,
        },
    }
}

/// Of the results that came in, the last.
pub fn drain_latest_result(results: Vec<Vec<u32>>) -> (r: Option<Vec<u32>>)
    ensures
        match r {
            Some(latest) => results@.len() > 0 && latest == results@.last(),
            None => results@.len() == 0,
        },
{
    let mut results = results;
    results.pop()
}

/// What leaves a plugin processor: the latest result where it has the length of what comes
/// in, else what comes in.
pub open spec fn chosen_output(input: Seq<u32>, latest: Option<Vec<u32>>) -> Seq<u32> {
    match latest {
        Some(processed) if processed@.len() == input.len() => processed@,
        _ => input,
    }
}

/// What leaves a plugin processor.
pub fn choose_output(input: &Vec<u32>, latest: Option<Vec<u32>>) -> (r: Vec<u32>)
    ensures
        r@ == chosen_output(input@, latest),
{
    match latest {
        Some(processed) => {
            if processed.len() == input.len() {
                return processed;
            }
        },
        None => {},
    }
    let mut copy: Vec<u32> = Vec::new();
    let mut i: usize = 0;
    while i < input.len()
        invariant
            i <= input.len(),
            copy@ =~= input@.take(i as int),
        decreases input.len() - i,
    {
        copy.push(input[i]);
        i = i + 1;
    }
    assert(copy@ =~= input@);
    copy
}

// ---------------------------------------------------------------------------
// The protocol

/// The version of the protocol that the worker speaks.
pub const PLUGIN_HOST_PROTOCOL_VERSION: u32 = 1;

/// What a host answers.
#[derive(Debug)]
pub enum PluginHostResponse {
    Handshake { protocol_version: u32 },
    Ack,
    Processed { samples: Vec<u32> },
    Error { message: String },
}

/// An error of input or output with a text.
pub open spec fn is_io_error(e: HostSessionError, text: Seq<char>) -> bool {
    e matches HostSessionError::Io(message) && message@ == text
}

fn io_error(head: &str, tail: &str) -> (r: HostSessionError)
    ensures
        is_io_error(r, head@ + tail@),
{
    let mut text = String::from_str(head);
    text.append(tail);
    HostSessionError::Io(text)
}

/// The first answer has to agree on the protocol. An answer of another kind is named in
/// words.
pub fn check_handshake(response: &PluginHostResponse, described: &str) -> (r: Result<
    (),
    HostSessionError,
>)
    ensures
        match r {
            Ok(()) => response matches PluginHostResponse::Handshake { protocol_version }
                && protocol_version == PLUGIN_HOST_PROTOCOL_VERSION,
            Err(e) => match *response {
                PluginHostResponse::Handshake { protocol_version } => protocol_version
                    != PLUGIN_HOST_PROTOCOL_VERSION && is_io_error(
                    e,
                    "plugin host protocol mismatch: expected "@ + decimal(
                        PLUGIN_HOST_PROTOCOL_VERSION as nat,
                    ) + ", got "@ + decimal(protocol_version as nat),
                ),
                PluginHostResponse::Error { message } => is_io_error(e, message@),
                _ => is_io_error(e, "unexpected handshake response: "@ + described@),
            },
        },
{
    match response {
        PluginHostResponse::Handshake { protocol_version } => {
            if *protocol_version == PLUGIN_HOST_PROTOCOL_VERSION {
                Ok(())
            } else {
                let mut text = String::from_str("plugin host protocol mismatch: expected ");
                text.append(decimal_text(PLUGIN_HOST_PROTOCOL_VERSION as u64).as_str());
                text.append(", got ");
                text.append(decimal_text(*protocol_version as u64).as_str());
                Err(HostSessionError::Io(text))
            }
        },
        PluginHostResponse::Error { message } => Err(HostSessionError::Io(message.clone())),
        _ => Err(io_error("unexpected handshake response: ", described)),
    }
}

/// The answer to a load or a prepare has to be an acknowledgement.
pub fn expect_ack(response: &PluginHostResponse, operation: &str, described: &str) -> (r: Result<
    (),
    HostSessionError,
>)
    ensures
        match r {
            Ok(()) => response is Ack,
            Err(e) => match *response {
                PluginHostResponse::Ack => false,
                PluginHostResponse::Error { message } => is_io_error(
                    e,
                    "plugin host "@ + operation@ + " failed: "@ + message@,
                ),
                _ => is_io_error(e, "unexpected "@ + operation@ + " response: "@ + described@),
            },
        },
{
    match response {
        PluginHostResponse::Ack => Ok(()),
        PluginHostResponse::Error { message } => {
            let mut text = String::from_str("plugin host ");
            text.append(operation);
            text.append(" failed: ");
            text.append(message.as_str());
            Err(HostSessionError::Io(text))
        },
        _ => {
            let mut text = String::from_str("unexpected ");
            text.append(operation);
            text.append(" response: ");
            text.append(described);
            Err(HostSessionError::Io(text))
        },
    }
}

/// The samples of the answer to a process request.
pub fn processed_samples(response: PluginHostResponse, described: &str) -> (r: Result<
    Vec<u32>,
    HostSessionError,
>)
    ensures
        match r {
            Ok(samples) => response == (PluginHostResponse::Processed { samples }),
            Err(e) => match response {
                PluginHostResponse::Processed { samples } => false,
                PluginHostResponse::Error { message } => is_io_error(e, message@),
                _ => is_io_error(e, "unexpected process response: "@ + described@),
            },
        },
{
    match response {
        PluginHostResponse::Processed { samples } => Ok(samples),
        PluginHostResponse::Error { message } => Err(HostSessionError::Io(message)),
        _ => Err(io_error("unexpected process response: ", described)),
    }
}

/// The kinds of error of input and output that matter here.
#[derive(Debug, Clone, Copy, PartialEq, Eq, Structural)]
pub enum IoErrorKind {
    WouldBlock,
    TimedOut,
    Other,
}

/// An error of input or output: one that stands for waiting too long is a timeout.
pub fn map_io_timeout(kind: IoErrorKind, error: &str) -> (r: HostSessionError)
    ensures
        match kind {
            IoErrorKind::Other => is_io_error(r, "plugin host io error: "@ + error@),
            _ => r matches HostSessionError::Timeout(message) && message@
                == "plugin host request timed out: "@ + error@,
        },
{
    match kind {
        IoErrorKind::Other => io_error("plugin host io error: ", error),
        _ => {
            let mut text = String::from_str("plugin host request timed out: ");
            text.append(error);
            HostSessionError::Timeout(text)
        },
    }
}

/// How long a host may take to listen, in milliseconds.
pub const HOST_STARTUP_TIMEOUT_MS: u64 = 2_000;

/// Whether to try again to reach a host that does not listen yet; the error where it took
/// too long.
pub fn retry_connect(elapsed_ms: u64, error: &str) -> (r: Result<(), HostSessionError>)
    ensures
        r is Ok <==> elapsed_ms < HOST_STARTUP_TIMEOUT_MS,
        r matches Err(e) ==> (e matches HostSessionError::Timeout(message) && message@
            == "plugin host did not accept connection in "@ + decimal(
            HOST_STARTUP_TIMEOUT_MS as nat,
        ) + "ms: "@ + error@),
{
    if elapsed_ms < HOST_STARTUP_TIMEOUT_MS {
        return Ok(());
    }
    let mut text = String::from_str("plugin host did not accept connection in ");
    text.append(decimal_text(HOST_STARTUP_TIMEOUT_MS).as_str());
    text.append("ms: ");
    text.append(error);
    Err(HostSessionError::Timeout(text))
}

// ---------------------------------------------------------------------------
// Starting a host

/// A program and its arguments.
#[derive(Debug, PartialEq, Eq)]
pub struct HostCommand {
    pub program: String,
    pub args: Vec<String>,
}

/// The program of a plugin host: the configured one with its arguments, else the one that
/// the environment names, else the default one, with the arguments from the environment.
pub fn plugin_host_command(
    host_command: &str,
    host_args: &Vec<String>,
    env_program: Option<String>,
    env_args: Option<String>,
) -> (r: HostCommand)
    ensures
        if trimmed(host_command@).len() > 0 {
            r.program@ == trimmed(host_command@) && r.args@ == host_args@
        } else {
            &&& r.program@ == (match env_program {
                Some(program) => program@,
                None => "mars-plugin-host"@,
            })
            &&& views(r.args@) == (match env_args {
                Some(args) => words_from(args@, 0),
                None => Seq::<Seq<char>>::empty(),
            })
        },
{
    let configured = trim_text(host_command);
    if configured.as_str().unicode_len() > 0 {
        let mut args: Vec<String> = Vec::new();
        let mut i: usize = 0;
        while i < host_args.len()
            invariant
                i <= host_args.len(),
                args@ =~= host_args@.take(i as int),
            decreases host_args.len() - i,
        {
            args.push(host_args[i].clone());
            i = i + 1;
        }
        assert(args@ =~= host_args@);
        return HostCommand { program: configured, args };
    }
    let program = match env_program {
        Some(program) => program,
        None => String::from_str("mars-plugin-host"),
    };
    let args = match env_args {
        Some(args) => split_words(args.as_str()),
        None => {
            let none: Vec<String> = Vec::new();
            assert(views(none@) =~= Seq::<Seq<char>>::empty());
            none
        },
    };
    HostCommand { program, args }
}

// ---------------------------------------------------------------------------
// Where a host listens

/// The longest path of a socket.
pub const UNIX_SOCKET_PATH_LIMIT: usize = 103;

/// Whether a character may stand in the name of a socket.
pub open spec fn socket_char(c: char) -> bool {
    ('a' <= c <= 'z') || ('A' <= c <= 'Z') || ('0' <= c <= '9') || c == '-' || c == '_'
}

/// The start of an id, with an underscore for every character that may not stand in a name.
pub open spec fn safe_id(id: Seq<char>) -> Seq<char> {
    Seq::new(
        if id.len() < 16 {
            id.len()
        } else {
            16
        },
        |i: int|
            if socket_char(id[i]) {
                id[i]
            } else {
                '_'
            },
    )
}

/// The usual path of a socket.
pub open spec fn usual_socket_path(id: Seq<char>, pid: u32, nanos: u128) -> Seq<char> {
    "/tmp/marsph-"@ + decimal(pid as nat) + "-"@ + safe_id(id) + "-"@ + numeral(nanos as nat, 16)
        + ".sock"@
}

/// The digest of an id: of its bytes, and of a byte behind them that no text holds.
pub open spec fn id_digest(id: Seq<char>) -> u64 {
    DefaultHasher::spec_finish(seq![encode_utf8(id), seq![0xffu8]])
}

fn digest_id(id: &str) -> (r: u64)
    ensures
        r == id_digest(id@),
{
    let mut hasher = DefaultHasher::new();
    hasher.write(id.as_bytes());
    let end: [u8; 1] = [0xff];
    hasher.write(&end);
    assert(hasher@[1] =~= seq![0xffu8]);
    assert(hasher@ =~= seq![encode_utf8(id@), seq![0xffu8]]);
    hasher.finish()
}

/// The path of a socket: the usual one, or a shorter one with a digest of the id.
pub open spec fn socket_path(id: Seq<char>, pid: u32, nanos: u128) -> Seq<char> {
    if usual_socket_path(id, pid, nanos).len() <= UNIX_SOCKET_PATH_LIMIT {
        usual_socket_path(id, pid, nanos)
    } else {
        "/tmp/mph-"@ + decimal(pid as nat) + "-"@ + numeral(id_digest(id) as nat, 16) + "-"@ + numeral(
            nanos as nat,
            16,
        ) + ".sock"@
    }
}

fn make_safe_id(id: &str) -> (r: String)
    ensures
        r@ == safe_id(id@),
{
    let chars = chars_of(id);
    let limit = if chars.len() < 16 {
        chars.len()
    } else {
        16
    };
    let mut r = String::new();
    proof {
        reveal_strlit("_");
    }
    let mut i: usize = 0;
    while i < limit
        invariant
            chars@ == id@,
            i <= limit <= chars.len(),
            limit == if chars@.len() < 16 {
                chars@.len()
            } else {
                16
            },
            "_"@ == seq!['_'],
            r@ == safe_id(id@).take(i as int),
        decreases limit - i,
    {
        let c = chars[i];
        if ('a' <= c && c <= 'z') || ('A' <= c && c <= 'Z') || ('0' <= c && c <= '9') || c == '-'
            || c == '_' {
            r.append(id.substring_char(i, i + 1));
        } else {
            r.append("_");
        }
        assert(r@ =~= safe_id(id@).take(i + 1));
        i = i + 1;
    }
    assert(r@ =~= safe_id(id@));
    r
}

/// The path of the socket of a plugin host, from the id of its processor, the process id and
/// the time in nanoseconds.
pub fn make_socket_path(processor_id: &str, pid: u32, nanos: u128) -> (r: String)
    ensures
        r@ == socket_path(processor_id@, pid, nanos),
        r@.len() <= UNIX_SOCKET_PATH_LIMIT,
{
    proof {
        law_socket_path_fits(processor_id@, pid, nanos);
    }
    let mut path = String::from_str("/tmp/marsph-");
    path.append(decimal_text(pid as u64).as_str());
    path.append("-");
    path.append(make_safe_id(processor_id).as_str());
    path.append("-");
    path.append(numeral_text(nanos, 16).as_str());
    path.append(".sock");
    if path.as_str().unicode_len() <= UNIX_SOCKET_PATH_LIMIT {
        return path;
    }
    let mut short = String::from_str("/tmp/mph-");
    short.append(decimal_text(pid as u64).as_str());
    short.append("-");
    short.append(numeral_text(digest_id(processor_id) as u128, 16).as_str());
    short.append("-");
    short.append(numeral_text(nanos, 16).as_str());
    short.append(".sock");
    short
}

/// The path of a socket is never longer than it may be.
pub proof fn law_socket_path_fits(id: Seq<char>, pid: u32, nanos: u128)
    ensures
        socket_path(id, pid, nanos).len() <= UNIX_SOCKET_PATH_LIMIT,
{
    reveal_strlit("/tmp/marsph-");
    reveal_strlit("-");
    reveal_strlit(".sock");
    reveal_strlit("/tmp/mph-");
    assert(vstd::arithmetic::power::pow(10, 10) == 10_000_000_000) by {
        reveal_with_fuel(vstd::arithmetic::power::pow, 11);
    }
    assert(vstd::arithmetic::power::pow(16, 32) == 0x1_0000_0000_0000_0000_0000_0000_0000_0000) by {
        reveal_with_fuel(vstd::arithmetic::power::pow, 33);
    }
    assert(vstd::arithmetic::power::pow(16, 16) == 0x1_0000_0000_0000_0000) by {
        reveal_with_fuel(vstd::arithmetic::power::pow, 17);
    }
    lemma_numeral_len(pid as nat, 10, 10);
    lemma_numeral_len(nanos as nat, 16, 32);
    lemma_numeral_len(id_digest(id) as nat, 16, 16);
}

// ---------------------------------------------------------------------------
// Laws

/// A host that runs is healthy, with its process and without an error; one that could not be
/// started has failed; one that failed while it ran is degraded where it was only late, and is
/// started again. Every failure is counted and told.
pub proof fn law_hosts_fare_as_they_ran(
    before: PluginHostInstanceStatus,
    runs: PluginHostInstanceStatus,
    missing: PluginHostInstanceStatus,
    failed: PluginHostInstanceStatus,
    pid: u32,
    text: Seq<char>,
    error: HostSessionError,
)
    requires
        host_runs(before, runs, pid),
        host_missing(before, missing, text),
        host_failed(before, failed, error),
        before.error_count < u64::MAX,
        before.timeout_count < u64::MAX,
        before.restart_count < u64::MAX,
    ensures
        runs.loaded && runs.health == PluginHostHealth::Healthy && runs.host_pid == Some(pid)
            && runs.last_error is None && runs.error_count == before.error_count,
        !missing.loaded && missing.health == PluginHostHealth::Failed && missing.host_pid is None
            && missing.error_count == before.error_count + 1 && missing.restart_count
            == before.restart_count,
        missing.last_error is Some && missing.last_error->0@ == text,
        !failed.loaded && failed.host_pid is None && failed.error_count == before.error_count + 1
            && failed.restart_count == before.restart_count + 1,
        error is Timeout ==> failed.health == PluginHostHealth::Degraded && failed.timeout_count
            == before.timeout_count + 1,
        !(error is Timeout) ==> failed.health == PluginHostHealth::Failed && failed.timeout_count
            == before.timeout_count,
        failed.last_error is Some,
        runs.id == before.id && missing.id == before.id && failed.id == before.id,
{
}

/// A host is taken where it speaks the first version of the protocol, acknowledges what it is
/// told and gives samples where it is to process them; anything else is an error.
pub proof fn law_hosts_have_to_answer_rightly(
    response: PluginHostResponse,
    described: &str,
    operation: &str,
    shaken: Result<(), HostSessionError>,
    acknowledged: Result<(), HostSessionError>,
    processed: Result<Vec<u32>, HostSessionError>,
)
    requires
        call_ensures(check_handshake, (&response, described), shaken),
        call_ensures(expect_ack, (&response, operation, described), acknowledged),
        call_ensures(processed_samples, (response, described), processed),
    ensures
        shaken is Ok <==> response is Handshake && response->protocol_version == 1,
        acknowledged is Ok <==> response is Ack,
        processed is Ok <==> response is Processed,
        processed is Ok ==> processed->Ok_0 == response->samples,
{
}

/// A plugin plays what its host gave back last, where that is as long as what came in, and else
/// what came in; of several results the last one counts.
pub proof fn law_plugins_play_the_last_result(
    input: Vec<u32>,
    latest: Option<Vec<u32>>,
    r: Vec<u32>,
    results: Vec<Vec<u32>>,
    last: Option<Vec<u32>>,
)
    requires
        call_ensures(choose_output, (&input, latest), r),
        call_ensures(drain_latest_result, (results,), last),
    ensures
        r@.len() == input@.len(),
        latest is Some && latest->0@.len() == input@.len() ==> r@ == latest->0@,
        latest is None || latest->0@.len() != input@.len() ==> r@ == input@,
        results@.len() > 0 ==> last == Some(results@.last()),
        results@.len() == 0 ==> last is None,
{
}

/// The host is the one that the plugin names, with its arguments; else the one that the
/// environment names, and else the usual one.
pub proof fn law_hosts_are_those_named(
    host_command: &str,
    host_args: Vec<String>,
    env_program: Option<String>,
    env_args: Option<String>,
    r: HostCommand,
)
    requires
        call_ensures(
            plugin_host_command,
            (host_command, &host_args, env_program, env_args),
            r,
        ),
    ensures
        trimmed(host_command@).len() > 0 ==> r.program@ == trimmed(host_command@) && r.args@
            == host_args@,
        trimmed(host_command@).len() == 0 && env_program is Some ==> r.program@ == env_program->0@,
        trimmed(host_command@).len() == 0 && env_program is None ==> r.program@
            == "mars-plugin-host"@,
        trimmed(host_command@).len() == 0 && env_args is None ==> r.args@.len() == 0,
{
    assert(views(r.args@).len() == r.args@.len());
}

/// A host is waited for up to two seconds, and a request that takes too long is late, not
/// broken.
pub proof fn law_hosts_are_waited_for(
    elapsed_ms: u64,
    error: &str,
    kind: IoErrorKind,
    retried: Result<(), HostSessionError>,
    mapped: HostSessionError,
)
    requires
        call_ensures(retry_connect, (elapsed_ms, error), retried),
        call_ensures(map_io_timeout, (kind, error), mapped),
    ensures
        retried is Ok <==> elapsed_ms < 2_000,
        retried is Err ==> retried->Err_0 is Timeout,
        mapped is Timeout <==> kind is WouldBlock || kind is TimedOut,
{
}

/// The part of an id that a socket is named by holds letters, digits, hyphens and underscores
/// alone, and at most sixteen of them.
pub proof fn law_sockets_have_safe_names(id: Seq<char>, i: int)
    requires
        0 <= i < safe_id(id).len(),
    ensures
        safe_id(id).len() <= 16,
        safe_id(id).len() <= id.len(),
        ({
            let c = safe_id(id)[i];
            ('a' <= c <= 'z') || ('A' <= c <= 'Z') || ('0' <= c <= '9') || c == '-' || c == '_'
        }),
        ({
            let c = id[i];
            (('a' <= c <= 'z') || ('A' <= c <= 'Z') || ('0' <= c <= '9') || c == '-' || c == '_')
                ==> safe_id(id)[i] == c
        }),
        id.len() <= 16 ==> safe_id(id).len() == id.len(),
{
}

} // verus!
