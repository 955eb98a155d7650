//! The command line: what its commands ask of the daemon, and what they report.

use crate::api::ExitCode;
use crate::apply::{ApplyRequest, ApplyResult};
use crate::daemon::{DaemonStatus, DoctorReport};
use crate::logs::{LogRequest, DEFAULT_LOG_LIMIT};
use crate::matching::DeviceInventory;
use crate::plan::ApplyPlan;
use crate::sequences::{lemma_views_push, views};
use crate::text::{decimal, decimal_text, join_texts, joined_text, trim_text, trimmed};
use crate::tap::AudioProcessInfo;
use vstd::prelude::*;
use vstd::string::*;
use vstd::utf8::encode_utf8;

verus! {

broadcast use lemma_views_push;

/// How many bytes the name of a profile has at most.
pub const PROFILE_NAME_MAX_LEN: usize = 64;

/// How often a daemon that was just started is asked whether it is there.
pub const DAEMON_PING_RETRY_COUNT: usize = 50;

/// How often the daemon is asked whether it is there before it is started.
pub const INITIAL_PING_RETRY_COUNT: usize = 5;

/// How many milliseconds pass between two such questions.
pub const DAEMON_PING_RETRY_INTERVAL_MS: u64 = 100;

/// How many milliseconds pass between two looks at the log.
pub const LOG_FOLLOW_POLL_INTERVAL_MS: u64 = 1_000;

/// How many milliseconds a command waits for the daemon where it does not say.
pub const DEFAULT_REQUEST_TIMEOUT_MS: u64 = 5_000;

// ---------------------------------------------------------------------------
// Errors

/// Why a command failed.
#[derive(Debug, PartialEq, Eq)]
pub enum CliError {
    WithExit { message: String, exit_code: ExitCode },
    Io(String),
    Serde(String),
    Yaml(String),
}

/// What a failed command says and ends with.
#[verifier::ext_equal]
pub struct CliErrorView {
    pub message: Seq<char>,
    pub exit_code: ExitCode,
}

impl View for CliError {
    type V = CliErrorView;

    open spec fn view(&self) -> CliErrorView {
        match self {
            CliError::WithExit { message, exit_code } => CliErrorView {
                message: message@,
                exit_code: *exit_code,
            },
            CliError::Io(text) => CliErrorView {
                message: "io error: "@ + text@,
                exit_code: ExitCode::DaemonCommunication,
            },
            CliError::Serde(text) => CliErrorView {
                message: "serialization error: "@ + text@,
                exit_code: ExitCode::DaemonCommunication,
            },
            CliError::Yaml(text) => CliErrorView {
                message: "yaml error: "@ + text@,
                exit_code: ExitCode::DaemonCommunication,
            },
        }
    }
}

/// A failure with this message and code.
pub open spec fn with_exit(message: Seq<char>, exit_code: ExitCode) -> CliErrorView {
    CliErrorView { message, exit_code }
}

/// Whether a result is a failure with this message and code.
pub open spec fn fails_with<T>(r: Result<T, CliError>, message: Seq<char>, exit_code: ExitCode) -> bool {
    r matches Err(error) && error is WithExit && error@ == with_exit(message, exit_code)
}

/// A failure with this message and code.
pub fn fail_with(message: &str, exit_code: ExitCode) -> (r: CliError)
    ensures
        r is WithExit,
        r@ == with_exit(message@, exit_code),
{
    CliError::WithExit { message: String::from_str(message), exit_code }
}

impl CliError {
    /// What a failed command says.
    pub fn message(&self) -> (r: String)
        ensures
            r@ == self@.message,
    {
        match self {
            CliError::WithExit { message, exit_code: _ } => message.clone(),
            CliError::Io(text) => {
                let mut shown = String::from_str("io error: ");
                shown.append(text.as_str());
                shown
            },
            CliError::Serde(text) => {
                let mut shown = String::from_str("serialization error: ");
                shown.append(text.as_str());
                shown
            },
            CliError::Yaml(text) => {
                let mut shown = String::from_str("yaml error: ");
                shown.append(text.as_str());
                shown
            },
        }
    }

    /// What a failed command ends with.
    pub fn exit_code(&self) -> (r: ExitCode)
        ensures
            r == self@.exit_code,
    {
        match self {
            CliError::WithExit { message: _, exit_code } => *exit_code,
            _ => ExitCode::DaemonCommunication,
        }
    }
}

/// What the end of a connection was.
#[derive(Debug, Clone, Copy, PartialEq, Eq, Structural)]
pub enum ConnectionErrorKind {
    NotFound,
    ConnectionRefused,
    Other,
}

/// Why the daemon could not be asked.
#[derive(Debug, PartialEq, Eq)]
pub enum IpcError {
    Io { kind: ConnectionErrorKind, shown: String },
    Timeout,
    DaemonError { message: String, exit_code: Option<ExitCode> },
    Other { shown: String },
}

/// The text about a daemon that could not be asked.
pub open spec fn ipc_error_text(error: IpcError) -> Seq<char> {
    match error {
        IpcError::Io { kind: _, shown } => shown@,
        IpcError::Timeout => "request timed out"@,
        IpcError::DaemonError { message, exit_code: _ } => message@,
        IpcError::Other { shown } => shown@,
    }
}

impl IpcError {
    /// The text about a daemon that could not be asked.
    pub fn message(&self) -> (r: String)
        ensures
            r@ == ipc_error_text(*self),
    {
        match self {
            IpcError::Io { kind: _, shown } => shown.clone(),
            IpcError::Timeout => String::from_str("request timed out"),
            IpcError::DaemonError { message, exit_code: _ } => message.clone(),
            IpcError::Other { shown } => shown.clone(),
        }
    }
}

/// Whether nobody listens at the socket.
pub open spec fn stale_socket(error: IpcError) -> bool {
    error matches IpcError::Io { kind, shown } && (kind == ConnectionErrorKind::NotFound || kind
        == ConnectionErrorKind::ConnectionRefused)
}

/// Whether nobody listens at the socket.
pub fn is_stale_socket_error(error: &IpcError) -> (r: bool)
    ensures
        r == stale_socket(*error),
{
    match error {
        IpcError::Io { kind, shown: _ } => match kind {
            ConnectionErrorKind::NotFound | ConnectionErrorKind::ConnectionRefused => true,
            ConnectionErrorKind::Other => false,
        },
        _ => false,
    }
}

/// What a command ends with where the daemon could not be asked: what the daemon said, if it
/// said anything.
pub fn ipc_to_cli_error(error: IpcError) -> (r: CliError)
    ensures
        r is WithExit,
        r@ == with_exit(
            ipc_error_text(error),
            match error {
                IpcError::DaemonError { message: _, exit_code: Some(code) } => code,
                _ => ExitCode::DaemonCommunication,
            },
        ),
{
    match error {
        IpcError::DaemonError { message, exit_code } => CliError::WithExit {
            message,
            exit_code: exit_code.unwrap_or(ExitCode::DaemonCommunication),
        },
        other => CliError::WithExit {
            message: other.message(),
            exit_code: ExitCode::DaemonCommunication,
        },
    }
}

// ---------------------------------------------------------------------------
// Profile names

/// Whether a character is an ASCII letter or digit.
pub open spec fn alphanumeric(c: char) -> bool {
    '0' <= c <= '9' || 'A' <= c <= 'Z' || 'a' <= c <= 'z'
}

/// Whether a name names a profile: a letter or digit, then letters, digits, dashes and
/// underscores, not too long.
pub open spec fn valid_name(name: Seq<char>) -> bool {
    &&& 0 < name.len()
    &&& encode_utf8(name).len() <= PROFILE_NAME_MAX_LEN
    &&& alphanumeric(name[0])
    &&& forall|i: int|
        1 <= i < name.len() ==> alphanumeric(#[trigger] name[i]) || name[i] == '-' || name[i]
            == '_'
}

fn is_alphanumeric(c: char) -> (r: bool)
    ensures
        r == alphanumeric(c),
{
    ('0' <= c && c <= '9') || ('A' <= c && c <= 'Z') || ('a' <= c && c <= 'z')
}

/// Whether a name names a profile.
pub fn is_valid_profile_name(profile_name: &str) -> (r: bool)
    ensures
        r == valid_name(profile_name@),
{
    let bytes = profile_name.as_bytes().len();
    let length = profile_name.unicode_len();
    if length == 0 || bytes > PROFILE_NAME_MAX_LEN {
        return false;
    }
    if !is_alphanumeric(profile_name.get_char(0)) {
        return false;
    }
    let mut i: usize = 1;
    while i < length
        invariant
            length == profile_name@.len(),
            1 <= i <= length,
            forall|k: int|
                1 <= k < i ==> alphanumeric(#[trigger] profile_name@[k]) || profile_name@[k] == '-'
                    || profile_name@[k] == '_',
        decreases length - i,
    {
        let c = profile_name.get_char(i);
        if !(is_alphanumeric(c) || c == '-' || c == '_') {
            assert(profile_name@[i as int] == c);
            return false;
        }
        i = i + 1;
    }
    true
}

/// A name that leads out of the directory of the profiles is no name of a profile.
pub proof fn law_names_stay_in_directory(name: Seq<char>)
    requires
        valid_name(name),
    ensures
        !name.contains('/'),
        !name.contains('.'),
        !name.contains('\0'),
        name.len() <= PROFILE_NAME_MAX_LEN,
{
    assert forall|i: int| 0 <= i < name.len() implies name[i] != '/' && name[i] != '.' && name[i]
        != '\0' by {
        if i > 0 {
            assert(alphanumeric(name[i]) || name[i] == '-' || name[i] == '_');
        }
    }
    lemma_bytes_cover_chars(name);
}

proof fn lemma_bytes_cover_chars(text: Seq<char>)
    ensures
        text.len() <= encode_utf8(text).len(),
    decreases text.len(),
{
    if text.len() > 0 {
        lemma_bytes_cover_chars(text.drop_first());
    }
}

/// What is wrong with a name.
pub open spec fn name_problem(name: Seq<char>) -> Option<Seq<char>> {
    if trimmed(name).len() == 0 {
        Some("profile name cannot be empty"@)
    } else if !valid_name(name) {
        Some("invalid profile name: must match [a-zA-Z0-9][a-zA-Z0-9-_]{0,63}"@)
    } else {
        None
    }
}

/// A command takes only names of profiles.
pub fn validate_profile_name(profile_name: &str) -> (r: Result<(), CliError>)
    ensures
        match name_problem(profile_name@) {
            None => r is Ok,
            Some(problem) => fails_with(r, problem, ExitCode::InvalidInput),
        },
{
    let rest = trim_text(profile_name);
    if rest.as_str().is_empty() {
        return Err(fail_with("profile name cannot be empty", ExitCode::InvalidInput));
    }
    if !is_valid_profile_name(profile_name) {
        return Err(
            fail_with(
                "invalid profile name: must match [a-zA-Z0-9][a-zA-Z0-9-_]{0,63}",
                ExitCode::InvalidInput,
            ),
        );
    }
    Ok(())
}

/// Where a profile is kept, from the directory of the profiles, which is not known where the
/// home directory is not.
pub fn profile_path(profile_name: &str, directory: Option<&str>) -> (r: Result<String, CliError>)
    ensures
        match (name_problem(profile_name@), directory) {
            (Some(problem), _) => fails_with(r, problem, ExitCode::InvalidInput),
            (None, None) => fails_with(
                r,
                "cannot determine home directory"@,
                ExitCode::InvalidInput,
            ),
            (None, Some(directory)) => r matches Ok(path) && path@ == directory@ + "/"@
                + profile_name@ + ".yaml"@,
        },
{
    match validate_profile_name(profile_name) {
        Err(error) => {
            return Err(error);
        },
        Ok(_) => {},
    }
    match directory {
        None => Err(fail_with("cannot determine home directory", ExitCode::InvalidInput)),
        Some(directory) => {
            let mut path = String::from_str(directory);
            path.append("/");
            path.append(profile_name);
            path.append(".yaml");
            Ok(path)
        },
    }
}

/// A text that names something.
pub open spec fn naming(lead: Seq<char>, named: Seq<char>, tail: Seq<char>) -> Seq<char> {
    lead + "'"@ + named + "'"@ + tail
}

fn quoted_failure(lead: &str, text: &str, tail: &str, exit_code: ExitCode) -> (r: CliError)
    ensures
        r is WithExit,
        r@ == with_exit(naming(lead@, text@, tail@), exit_code),
{
    let mut message = String::from_str(lead);
    message.append("'");
    message.append(text);
    message.append("'");
    message.append(tail);
    CliError::WithExit { message, exit_code }
}

/// A profile is created from a known template, and over an existing one only by force.
pub fn check_create(
    template: &str,
    template_known: bool,
    path: Result<String, CliError>,
    exists: bool,
    force: bool,
) -> (r: Result<String, CliError>)
    ensures
        if !template_known {
            fails_with(
                r,
                naming("unsupported template "@, template@, ""@),
                ExitCode::InvalidInput,
            )
        } else {
            match path {
                Err(error) => r == Err::<String, CliError>(error),
                Ok(path) => if exists && !force {
                    fails_with(
                        r,
                        naming("profile already exists: "@, path@, " (use --force to overwrite)"@),
                        ExitCode::InvalidInput,
                    )
                } else {
                    r == Ok::<String, CliError>(path)
                },
            }
        },
{
    if !template_known {
        return Err(quoted_failure("unsupported template ", template, "", ExitCode::InvalidInput));
    }
    match path {
        Err(error) => Err(error),
        Ok(path) => if exists && !force {
            Err(
                quoted_failure(
                    "profile already exists: ",
                    path.as_str(),
                    " (use --force to overwrite)",
                    ExitCode::InvalidInput,
                ),
            )
        } else {
            Ok(path)
        },
    }
}

/// A command on a profile needs the profile.
pub fn check_profile_exists(path: Result<String, CliError>, exists: bool) -> (r: Result<
    String,
    CliError,
>)
    ensures
        match path {
            Err(error) => r == Err::<String, CliError>(error),
            Ok(path) => if exists {
                r == Ok::<String, CliError>(path)
            } else {
                fails_with(
                    r,
                    naming("profile not found: "@, path@, ""@),
                    ExitCode::InvalidInput,
                )
            },
        },
{
    match path {
        Err(error) => Err(error),
        Ok(path) => if exists {
            Ok(path)
        } else {
            Err(quoted_failure("profile not found: ", path.as_str(), "", ExitCode::InvalidInput))
        },
    }
}

/// The arguments that open a profile, in an editor if one is named.
pub fn open_arguments(editor: Option<&str>, path: &str) -> (r: Vec<String>)
    ensures
        views(r@) == (match editor {
            Some(editor) => seq!["-a"@, editor@, path@],
            None => seq![path@],
        }),
{
    let mut arguments: Vec<String> = Vec::new();
    if let Some(editor) = editor {
        arguments.push(String::from_str("-a"));
        arguments.push(String::from_str(editor));
    }
    arguments.push(String::from_str(path));
    assert(views(arguments@) =~= (match editor {
        Some(editor) => seq!["-a"@, editor@, path@],
        None => seq![path@],
    }));
    arguments
}

/// Opening a profile has to succeed.
pub fn check_opened(path: &str, success: bool) -> (r: Result<(), CliError>)
    ensures
        if success {
            r is Ok
        } else {
            fails_with(
                r,
                naming("failed to open profile: "@, path@, ""@),
                ExitCode::InvalidInput,
            )
        },
{
    if success {
        return Ok(());
    }
    Err(quoted_failure("failed to open profile: ", path, "", ExitCode::InvalidInput))
}

// ---------------------------------------------------------------------------
// Asking the daemon

/// What the daemon can be asked.
#[derive(Debug)]
pub enum DaemonRequest {
    Ping,
    Validate { profile_path: String },
    Plan { profile_path: String, no_delete: bool },
    Apply(ApplyRequest),
    Clear { keep_devices: bool },
    Status,
    Devices,
    Processes,
    Logs(LogRequest),
    Doctor,
}

/// The commands that ask the daemon one thing.
#[derive(Debug)]
pub enum DaemonCommand {
    Apply { profile_path: String, dry_run: bool, no_delete: bool, timeout_ms: u64 },
    Clear { keep_devices: bool },
    Validate { profile_path: String },
    Plan { profile_path: String, no_delete: bool },
    Status,
    Devices,
    Processes,
    Logs,
    Doctor,
}

/// How many milliseconds a command waits for the daemon.
pub open spec fn patience(command: DaemonCommand) -> u64 {
    match command {
        DaemonCommand::Apply { profile_path: _, dry_run: _, no_delete: _, timeout_ms } => timeout_ms,
        _ => DEFAULT_REQUEST_TIMEOUT_MS,
    }
}

/// How many milliseconds a command waits for the daemon.
pub fn client_timeout_ms(command: &DaemonCommand) -> (r: u64)
    ensures
        r == patience(*command),
{
    match command {
        DaemonCommand::Apply { profile_path: _, dry_run: _, no_delete: _, timeout_ms } => *timeout_ms,
        _ => DEFAULT_REQUEST_TIMEOUT_MS,
    }
}

/// What a command asks the daemon.
pub fn request_for(command: DaemonCommand) -> (r: DaemonRequest)
    ensures
        r == (match command {
            DaemonCommand::Apply { profile_path, dry_run, no_delete, timeout_ms } => {
                DaemonRequest::Apply(
                    ApplyRequest { profile_path, no_delete, dry_run, timeout_ms },
                )
            },
            DaemonCommand::Clear { keep_devices } => DaemonRequest::Clear { keep_devices },
            DaemonCommand::Validate { profile_path } => DaemonRequest::Validate { profile_path },
            DaemonCommand::Plan { profile_path, no_delete } => {
                DaemonRequest::Plan { profile_path, no_delete }
            },
            DaemonCommand::Status => DaemonRequest::Status,
            DaemonCommand::Devices => DaemonRequest::Devices,
            DaemonCommand::Processes => DaemonRequest::Processes,
            DaemonCommand::Logs => DaemonRequest::Logs(
                LogRequest { follow: false, cursor: None, limit: Some(DEFAULT_LOG_LIMIT) },
            ),
            DaemonCommand::Doctor => DaemonRequest::Doctor,
        }),
{
    match command {
        DaemonCommand::Apply { profile_path, dry_run, no_delete, timeout_ms } => {
            DaemonRequest::Apply(ApplyRequest { profile_path, no_delete, dry_run, timeout_ms })
        },
        DaemonCommand::Clear { keep_devices } => DaemonRequest::Clear { keep_devices },
        DaemonCommand::Validate { profile_path } => DaemonRequest::Validate { profile_path },
        DaemonCommand::Plan { profile_path, no_delete } => {
            DaemonRequest::Plan { profile_path, no_delete }
        },
        DaemonCommand::Status => DaemonRequest::Status,
        DaemonCommand::Devices => DaemonRequest::Devices,
        DaemonCommand::Processes => DaemonRequest::Processes,
        DaemonCommand::Logs => DaemonRequest::Logs(
            LogRequest { follow: false, cursor: None, limit: Some(DEFAULT_LOG_LIMIT) },
        ),
        DaemonCommand::Doctor => DaemonRequest::Doctor,
    }
}

/// What following the log asks: first for the last lines, then for those behind the place
/// that the last answer gave.
pub fn follow_request(cursor: Option<u64>) -> (r: LogRequest)
    ensures
        r == (match cursor {
            None => LogRequest { follow: true, cursor: None, limit: Some(DEFAULT_LOG_LIMIT) },
            Some(place) => LogRequest { follow: true, cursor: Some(place), limit: None },
        }),
{
    match cursor {
        None => LogRequest { follow: true, cursor: None, limit: Some(DEFAULT_LOG_LIMIT) },
        Some(place) => LogRequest { follow: true, cursor: Some(place), limit: None },
    }
}

/// The kinds of answer of the daemon.
#[derive(Debug, Clone, Copy, PartialEq, Eq, Structural)]
pub enum ResponseKind {
    Pong,
    Validate,
    Plan,
    Apply,
    Clear,
    Status,
    Devices,
    Processes,
    Logs,
    Doctor,
}

/// How a kind of answer is called.
pub open spec fn kind_name(kind: ResponseKind) -> Seq<char> {
    match kind {
        ResponseKind::Pong => "ping"@,
        ResponseKind::Validate => "validate"@,
        ResponseKind::Plan => "plan"@,
        ResponseKind::Apply => "apply"@,
        ResponseKind::Clear => "clear"@,
        ResponseKind::Status => "status"@,
        ResponseKind::Devices => "devices"@,
        ResponseKind::Processes => "processes"@,
        ResponseKind::Logs => "logs"@,
        ResponseKind::Doctor => "doctor"@,
    }
}

/// The daemon has to answer what it was asked.
pub fn check_response(asked: ResponseKind, answered: ResponseKind) -> (r: Result<(), CliError>)
    ensures
        if asked == answered {
            r is Ok
        } else {
            fails_with(
                r,
                "unexpected daemon response for "@ + kind_name(asked),
                ExitCode::DaemonCommunication,
            )
        },
{
    if asked == answered {
        return Ok(());
    }
    let mut message = String::from_str("unexpected daemon response for ");
    let name = match asked {
        ResponseKind::Pong => "ping",
        ResponseKind::Validate => "validate",
        ResponseKind::Plan => "plan",
        ResponseKind::Apply => "apply",
        ResponseKind::Clear => "clear",
        ResponseKind::Status => "status",
        ResponseKind::Devices => "devices",
        ResponseKind::Processes => "processes",
        ResponseKind::Logs => "logs",
        ResponseKind::Doctor => "doctor",
    };
    message.append(name);
    Err(CliError::WithExit { message, exit_code: ExitCode::DaemonCommunication })
}

/// Following the log has no structured form.
pub fn check_logs_command(json: bool, follow: bool) -> (r: Result<(), CliError>)
    ensures
        if json && follow {
            fails_with(
                r,
                "logs --follow does not support --json output"@,
                ExitCode::InvalidInput,
            )
        } else {
            r is Ok
        },
{
    if json && follow {
        return Err(
            fail_with("logs --follow does not support --json output", ExitCode::InvalidInput),
        );
    }
    Ok(())
}

/// Devices are chosen for the test of a route only.
pub fn check_test_command(route: bool, mic_chosen: bool, speaker_chosen: bool) -> (r: Result<
    (),
    CliError,
>)
    ensures
        if !route && (mic_chosen || speaker_chosen) {
            fails_with(
                r,
                "`--mic` and `--speaker` require `mars test --route`"@,
                ExitCode::InvalidInput,
            )
        } else {
            r is Ok
        },
{
    if !route && (mic_chosen || speaker_chosen) {
        return Err(
            fail_with(
                "`--mic` and `--speaker` require `mars test --route`",
                ExitCode::InvalidInput,
            ),
        );
    }
    Ok(())
}

// ---------------------------------------------------------------------------
// Reports

/// The text about a profile that was applied.
pub open spec fn apply_text(result: ApplyResult) -> Seq<char> {
    "apply "@ + (if result.applied {
        "succeeded"@
    } else {
        "dry-run"@
    }) + " (changes: "@ + decimal(result.plan.changes@.len()) + ", warnings: "@ + decimal(
        result.warnings@.len(),
    ) + ", errors: "@ + decimal(result.errors@.len()) + ")"@
}

/// What applying a profile reports and ends with.
pub fn report_apply(result: &ApplyResult) -> (r: (String, ExitCode))
    ensures
        r.0@ == apply_text(*result),
        r.1 == if result.errors@.len() == 0 {
            ExitCode::Success
        } else {
            ExitCode::ApplyFailed
        },
{
    let mut text = String::from_str("apply ");
    text.append(
        if result.applied {
            "succeeded"
        } else {
            "dry-run"
        },
    );
    text.append(" (changes: ");
    text.append(decimal_text(result.plan.changes.len() as u64).as_str());
    text.append(", warnings: ");
    text.append(decimal_text(result.warnings.len() as u64).as_str());
    text.append(", errors: ");
    text.append(decimal_text(result.errors.len() as u64).as_str());
    text.append(")");
    let code = if result.errors.len() == 0 {
        ExitCode::Success
    } else {
        ExitCode::ApplyFailed
    };
    (text, code)
}

/// What validating a profile reports and ends with.
pub fn report_validation(valid: bool, errors: &Vec<String>) -> (r: (String, ExitCode))
    ensures
        r.0@ == if valid {
            "profile is valid"@
        } else {
            "profile is invalid: "@ + joined_text(views(errors@), "; "@)
        },
        r.1 == if valid {
            ExitCode::Success
        } else {
            ExitCode::InvalidInput
        },
{
    if valid {
        return (String::from_str("profile is valid"), ExitCode::Success);
    }
    let mut text = String::from_str("profile is invalid: ");
    text.append(join_texts(errors, "; ").as_str());
    (text, ExitCode::InvalidInput)
}

/// What planning reports.
pub fn report_plan(plan: &ApplyPlan) -> (r: String)
    ensures
        r@ == "plan generated: "@ + decimal(plan.changes@.len()) + " changes"@,
{
    let mut text = String::from_str("plan generated: ");
    text.append(decimal_text(plan.changes.len() as u64).as_str());
    text.append(" changes");
    text
}

/// A truth value as text.
pub open spec fn truth(value: bool) -> Seq<char> {
    if value {
        "true"@
    } else {
        "false"@
    }
}

/// A truth value as text.
pub fn truth_text(value: bool) -> (r: &'static str)
    ensures
        r@ == truth(value),
{
    if value {
        "true"
    } else {
        "false"
    }
}

/// The text about the status of the daemon.
pub open spec fn status_text(status: DaemonStatus) -> Seq<char> {
    "running="@ + truth(status.running) + " profile="@ + (match status.current_profile {
        Some(path) => path@,
        None => "<none>"@,
    }) + " pipes="@ + decimal(status.graph_pipe_count as nat) + " driver_gen="@ + decimal(
        status.driver.generation as nat,
    ) + " driver_pending="@ + truth(status.driver.pending_change)
}

/// What asking for the status reports.
pub fn report_status(status: &DaemonStatus) -> (r: String)
    ensures
        r@ == status_text(*status),
{
    let mut text = String::from_str("running=");
    text.append(truth_text(status.running));
    text.append(" profile=");
    match &status.current_profile {
        Some(path) => text.append(path.as_str()),
        None => text.append("<none>"),
    }
    text.append(" pipes=");
    text.append(decimal_text(status.graph_pipe_count as u64).as_str());
    text.append(" driver_gen=");
    text.append(decimal_text(status.driver.generation).as_str());
    text.append(" driver_pending=");
    text.append(truth_text(status.driver.pending_change));
    text
}

/// What asking for the devices reports.
pub fn report_devices(inventory: &DeviceInventory) -> (r: String)
    ensures
        r@ == "inputs="@ + decimal(inventory.inputs@.len()) + " outputs="@ + decimal(
            inventory.outputs@.len(),
        ),
{
    let mut text = String::from_str("inputs=");
    text.append(decimal_text(inventory.inputs.len() as u64).as_str());
    text.append(" outputs=");
    text.append(decimal_text(inventory.outputs.len() as u64).as_str());
    text
}

/// What asking for the processes that can be captured reports.
pub fn report_processes(processes: &Vec<AudioProcessInfo>) -> (r: String)
    ensures
        r@ == "processes="@ + decimal(processes@.len()),
{
    let mut text = String::from_str("processes=");
    text.append(decimal_text(processes.len() as u64).as_str());
    text
}

/// The text about a diagnosis.
pub open spec fn doctor_text(report: DoctorReport) -> Seq<char> {
    "driver_installed="@ + truth(report.driver_installed) + " daemon_reachable="@ + truth(
        report.daemon_reachable,
    ) + " mic_permission="@ + truth(report.microphone_permission_ok) + " mic_source="@
        + report.mic_permission_source@ + " driver_version="@ + (match report.driver_version {
        Some(version) => version@,
        None => "<unknown>"@,
    }) + " daemon_version="@ + report.daemon_version@ + " driver_gen="@ + decimal(
        report.driver.generation as nat,
    ) + " driver_pending="@ + truth(report.driver.pending_change)
}

/// What a diagnosis reports and ends with.
pub fn report_doctor(report: &DoctorReport) -> (r: (String, ExitCode))
    ensures
        r.0@ == doctor_text(*report),
        r.1 == if report.driver_installed && report.driver_compatible {
            ExitCode::Success
        } else {
            ExitCode::DriverUnavailable
        },
{
    let mut text = String::from_str("driver_installed=");
    text.append(truth_text(report.driver_installed));
    text.append(" daemon_reachable=");
    text.append(truth_text(report.daemon_reachable));
    text.append(" mic_permission=");
    text.append(truth_text(report.microphone_permission_ok));
    text.append(" mic_source=");
    text.append(report.mic_permission_source.as_str());
    text.append(" driver_version=");
    match &report.driver_version {
        Some(version) => text.append(version.as_str()),
        None => text.append("<unknown>"),
    }
    text.append(" daemon_version=");
    text.append(report.daemon_version.as_str());
    text.append(" driver_gen=");
    text.append(decimal_text(report.driver.generation).as_str());
    text.append(" driver_pending=");
    text.append(truth_text(report.driver.pending_change));
    let code = if report.driver_installed && report.driver_compatible {
        ExitCode::Success
    } else {
        ExitCode::DriverUnavailable
    };
    (text, code)
}

// ---------------------------------------------------------------------------
// Laws

/// A socket is stale where nobody is at it: it is not there, or the connection is refused.
pub proof fn law_stale_sockets_have_nobody_at_them(error: IpcError)
    ensures
        stale_socket(error) <==> error is Io && (error->kind == ConnectionErrorKind::NotFound
            || error->kind == ConnectionErrorKind::ConnectionRefused),
{
}

/// An error of the daemon keeps its text and its code; any other failure to reach it is one of
/// communication.
pub proof fn law_errors_of_the_daemon_keep_their_code(error: IpcError, r: CliError)
    requires
        call_ensures(ipc_to_cli_error, (error,), r),
    ensures
        error is DaemonError && error->exit_code is Some ==> r@.exit_code == error->exit_code->0,
        !(error is DaemonError) || error->exit_code is None ==> r@.exit_code
            == ExitCode::DaemonCommunication,
        error is DaemonError ==> r@.message == error->message@,
        error is Timeout ==> r@.message == "request timed out"@,
{
}

/// A command waits for as long as it is told where it applies a profile, and for five seconds
/// elsewhere.
pub proof fn law_applying_waits_as_long_as_told(command: DaemonCommand)
    ensures
        command is Apply ==> patience(command) == command->timeout_ms,
        !(command is Apply) ==> patience(command) == 5_000,
{
}

/// The name of a profile is taken where it has one to sixty-four characters, letters, digits,
/// hyphens and underscores, of which the first is a letter or a digit; anything else is
/// refused.
pub proof fn law_names_of_profiles(name: Seq<char>, i: int)
    requires
        name_problem(name) is None,
        0 <= i < name.len(),
    ensures
        1 <= name.len() <= 64,
        'a' <= name[0] <= 'z' || 'A' <= name[0] <= 'Z' || '0' <= name[0] <= '9',
        'a' <= name[i] <= 'z' || 'A' <= name[i] <= 'Z' || '0' <= name[i] <= '9' || name[i] == '-'
            || name[i] == '_',
{
    law_names_stay_in_directory(name);
}

/// Following the log begins with the last lines, and goes on behind the place that was told.
pub proof fn law_following_goes_on_where_it_was(cursor: Option<u64>, r: LogRequest)
    requires
        call_ensures(follow_request, (cursor,), r),
    ensures
        r.follow,
        r.cursor == cursor,
        cursor is None ==> r.limit == Some(200u32),
        cursor is Some ==> r.limit is None,
{
}

/// A profile is created only from a known template and over no other, unless that is forced; it
/// is opened only where it is there.
pub proof fn law_profiles_are_not_overwritten(
    template: &str,
    template_known: bool,
    path: String,
    there: bool,
    force: bool,
    created: Result<String, CliError>,
    opened: Result<String, CliError>,
)
    requires
        call_ensures(
            check_create,
            (template, template_known, Ok::<String, CliError>(path), there, force),
            created,
        ),
        call_ensures(check_profile_exists, (Ok::<String, CliError>(path), there), opened),
    ensures
        created is Ok <==> template_known && (!there || force),
        created is Ok ==> created->Ok_0 == path,
        opened is Ok <==> there,
        opened is Ok ==> opened->Ok_0 == path,
{
}

/// A test takes devices only where it tests a route, and the log is not followed as data.
pub proof fn law_flags_that_do_not_go_together(
    a: bool,
    b: bool,
    c: bool,
    test: Result<(), CliError>,
    logs: Result<(), CliError>,
)
    requires
        call_ensures(check_test_command, (a, b, c), test),
        call_ensures(check_logs_command, (a, b), logs),
    ensures
        test is Ok <==> a || (!b && !c),
        logs is Ok <==> !(a && b),
{
}

} // verus!
