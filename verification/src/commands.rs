//! The commands: what each of them does, and what it makes of the answer.

use crate::api::ExitCode;
use crate::apply::{ApplyRequest, ApplyResult};
use crate::cli::{
    apply_text, check_create, check_logs_command, check_profile_exists, check_response, doctor_text,
    fails_with, follow_request, kind_name, naming, name_problem, open_arguments, patience,
    profile_path, report_apply, report_devices, report_doctor, report_plan, report_processes,
    report_status, report_validation, request_for, status_text, CliError, DaemonCommand, DaemonRequest,
    ResponseKind, DEFAULT_REQUEST_TIMEOUT_MS,
};
use crate::daemon::{DaemonStatus, DoctorReport};
use crate::logs::{LogRequest, LogResponse, DEFAULT_LOG_LIMIT};
use crate::matching::DeviceInventory;
use crate::plan::ApplyPlan;
use crate::sequences::views;
use crate::tap::AudioProcessInfo;
use crate::text::{decimal, join_texts, joined_text};
use vstd::prelude::*;
use vstd::string::*;

verus! {

/// The commands.
#[derive(Debug, PartialEq, Eq)]
pub enum Commands {
    Create { profile_name: String, template: String, force: bool },
    Open { profile_name: String, editor: Option<String>, print_path: bool },
    Apply { profile_name: String, dry_run: bool, no_delete: bool, timeout: u64 },
    Clear { keep_devices: bool },
    Validate { profile_name: String },
    Plan { profile_name: String, no_delete: bool },
    Status,
    Devices,
    Processes,
    Test {
        route: bool,
        mic: Option<String>,
        speaker: Option<String>,
        sample_rate: u32,
        buffer_frames: u32,
    },
    Logs { follow: bool },
    Doctor,
}

/// What a command needs to know before it does anything: whether its template is known, the
/// directory of the profiles, and whether its profile is there.
#[derive(Debug, PartialEq, Eq)]
pub struct CommandFacts {
    pub template_known: bool,
    pub profile_directory: Option<String>,
    pub profile_exists: bool,
}

/// What a command does.
#[derive(Debug)]
pub enum CommandPlan {
    WriteProfile { path: String },
    PrintPath { path: String },
    OpenProfile { path: String, arguments: Vec<String> },
    /// Ask the daemon, wait so many milliseconds, and expect this kind of answer.
    Ask { request: DaemonRequest, timeout_ms: u64, expected: ResponseKind },
    /// Test the router, once the daemon is there.
    Test { timeout_ms: u64 },
    /// Follow the log, beginning with this request.
    Follow { first_request: LogRequest, timeout_ms: u64 },
}

/// The name of the profile of a command.
pub open spec fn profile_of(command: Commands) -> Option<Seq<char>> {
    match command {
        Commands::Create { profile_name, template: _, force: _ } => Some(profile_name@),
        Commands::Open { profile_name, editor: _, print_path: _ } => Some(profile_name@),
        Commands::Apply { profile_name, dry_run: _, no_delete: _, timeout: _ } => Some(
            profile_name@,
        ),
        Commands::Validate { profile_name } => Some(profile_name@),
        Commands::Plan { profile_name, no_delete: _ } => Some(profile_name@),
        _ => None,
    }
}

/// Where a profile is kept.
pub open spec fn kept_at(directory: Seq<char>, name: Seq<char>) -> Seq<char> {
    directory + "/"@ + name + ".yaml"@
}

/// Why a command does nothing. A template is looked at before the name of the profile, and
/// the name before the directory.
pub open spec fn refusal(command: Commands, json: bool, facts: CommandFacts) -> Option<Seq<char>> {
    match command {
        Commands::Create { profile_name: _, template, force: _ } if !facts.template_known => Some(
            naming("unsupported template "@, template@, ""@),
        ),
        Commands::Logs { follow } => if json && follow {
            Some("logs --follow does not support --json output"@)
        } else {
            None
        },
        _ => match profile_of(command) {
            None => None,
            Some(name) => match (name_problem(name), facts.profile_directory) {
                (Some(problem), _) => Some(problem),
                (None, None) => Some("cannot determine home directory"@),
                (None, Some(directory)) => match command {
                    Commands::Create { profile_name: _, template: _, force } => {
                        if facts.profile_exists && !force {
                            Some(
                                naming(
                                    "profile already exists: "@,
                                    kept_at(directory@, name),
                                    " (use --force to overwrite)"@,
                                ),
                            )
                        } else {
                            None
                        }
                    },
                    _ => if facts.profile_exists {
                        None
                    } else {
                        Some(naming("profile not found: "@, kept_at(directory@, name), ""@))
                    },
                },
            },
        },
    }
}

/// Whether a plan asks the daemon this, with this patience, and expects this answer.
pub open spec fn asks(
    plan: CommandPlan,
    timeout: u64,
    kind: ResponseKind,
) -> bool {
    plan matches CommandPlan::Ask { request, timeout_ms, expected } && timeout_ms == timeout
        && expected == kind
}

/// Whether a plan is the one of a command that is not refused.
pub open spec fn plan_fits(plan: CommandPlan, command: Commands, facts: CommandFacts) -> bool {
    let path = match (facts.profile_directory, profile_of(command)) {
        (Some(directory), Some(name)) => kept_at(directory@, name),
        _ => Seq::empty(),
    };
    match command {
        Commands::Create { profile_name: _, template: _, force: _ } => {
            plan matches CommandPlan::WriteProfile { path: p } && p@ == path
        },
        Commands::Open { profile_name: _, editor, print_path } => if print_path {
            plan matches CommandPlan::PrintPath { path: p } && p@ == path
        } else {
            plan matches CommandPlan::OpenProfile { path: p, arguments } && p@ == path && views(
                arguments@,
            ) == (match editor {
                Some(editor) => seq!["-a"@, editor@, path],
                None => seq![path],
            })
        },
        Commands::Apply { profile_name: _, dry_run, no_delete, timeout } => {
            &&& asks(plan, timeout, ResponseKind::Apply)
            &&& plan->Ask_request matches DaemonRequest::Apply(request) && request.profile_path@ == path
                && request.no_delete == no_delete && request.dry_run == dry_run
                && request.timeout_ms == timeout
        },
        Commands::Clear { keep_devices } => {
            &&& asks(plan, DEFAULT_REQUEST_TIMEOUT_MS, ResponseKind::Clear)
            &&& plan->Ask_request == DaemonRequest::Clear { keep_devices }
        },
        Commands::Validate { profile_name: _ } => {
            &&& asks(plan, DEFAULT_REQUEST_TIMEOUT_MS, ResponseKind::Validate)
            &&& plan->Ask_request matches DaemonRequest::Validate { profile_path } && profile_path@
                == path
        },
        Commands::Plan { profile_name: _, no_delete } => {
            &&& asks(plan, DEFAULT_REQUEST_TIMEOUT_MS, ResponseKind::Plan)
            &&& plan->Ask_request matches DaemonRequest::Plan { profile_path, no_delete: keep }
                && profile_path@ == path && keep == no_delete
        },
        Commands::Status => {
            &&& asks(plan, DEFAULT_REQUEST_TIMEOUT_MS, ResponseKind::Status)
            &&& plan->Ask_request == DaemonRequest::Status
        },
        Commands::Devices => {
            &&& asks(plan, DEFAULT_REQUEST_TIMEOUT_MS, ResponseKind::Devices)
            &&& plan->Ask_request == DaemonRequest::Devices
        },
        Commands::Processes => {
            &&& asks(plan, DEFAULT_REQUEST_TIMEOUT_MS, ResponseKind::Processes)
            &&& plan->Ask_request == DaemonRequest::Processes
        },
        Commands::Test { route: _, mic: _, speaker: _, sample_rate: _, buffer_frames: _ } => {
            plan == CommandPlan::Test { timeout_ms: DEFAULT_REQUEST_TIMEOUT_MS }
        },
        Commands::Logs { follow } => if follow {
            plan == (CommandPlan::Follow {
                first_request: LogRequest { follow: true, cursor: None, limit: Some(DEFAULT_LOG_LIMIT) },
                timeout_ms: DEFAULT_REQUEST_TIMEOUT_MS,
            })
        } else {
            &&& asks(plan, DEFAULT_REQUEST_TIMEOUT_MS, ResponseKind::Logs)
            &&& plan->Ask_request == DaemonRequest::Logs(
                LogRequest { follow: false, cursor: None, limit: Some(DEFAULT_LOG_LIMIT) },
            )
        },
        Commands::Doctor => {
            &&& asks(plan, DEFAULT_REQUEST_TIMEOUT_MS, ResponseKind::Doctor)
            &&& plan->Ask_request == DaemonRequest::Doctor
        },
    }
}

fn ask(command: DaemonCommand, expected: ResponseKind) -> (r: CommandPlan)
    ensures
        asks(r, patience(command), expected),
        r->Ask_request == (match command {
            DaemonCommand::Apply { profile_path, dry_run, no_delete, timeout_ms } => {
                DaemonRequest::Apply(
                    ApplyRequest { profile_path, no_delete, dry_run, timeout_ms },
                )
            },
            DaemonCommand::Clear { keep_devices } => DaemonRequest::Clear { keep_devices },
            DaemonCommand::Validate { profile_path } => DaemonRequest::Validate { profile_path },
            DaemonCommand::Plan { profile_path, no_delete } => {
                DaemonRequest::Plan { profile_path, no_delete }
            },
            DaemonCommand::Status => DaemonRequest::Status,
            DaemonCommand::Devices => DaemonRequest::Devices,
            DaemonCommand::Processes => DaemonRequest::Processes,
            DaemonCommand::Logs => DaemonRequest::Logs(
                LogRequest { follow: false, cursor: None, limit: Some(DEFAULT_LOG_LIMIT) },
            ),
            DaemonCommand::Doctor => DaemonRequest::Doctor,
        }),
{
    let timeout_ms = crate::cli::client_timeout_ms(&command);
    CommandPlan::Ask { request: request_for(command), timeout_ms, expected }
}

fn existing_profile(name: &String, facts: &CommandFacts) -> (r: Result<String, CliError>)
    ensures
        match (name_problem(name@), facts.profile_directory) {
            (Some(problem), _) => fails_with(r, problem, ExitCode::InvalidInput),
            (None, None) => fails_with(
                r,
                "cannot determine home directory"@,
                ExitCode::InvalidInput,
            ),
            (None, Some(directory)) => if facts.profile_exists {
                r matches Ok(path) && path@ == kept_at(directory@, name@)
            } else {
                fails_with(
                    r,
                    naming("profile not found: "@, kept_at(directory@, name@), ""@),
                    ExitCode::InvalidInput,
                )
            },
        },
{
    let directory = match &facts.profile_directory {
        Some(directory) => Some(directory.as_str()),
        None => None,
    };
    check_profile_exists(profile_path(name.as_str(), directory), facts.profile_exists)
}

/// What a command does, or why it does nothing.
pub fn plan_command(command: Commands, json: bool, facts: &CommandFacts) -> (r: Result<
    CommandPlan,
    CliError,
>)
    ensures
        match refusal(command, json, *facts) {
            Some(message) => fails_with(r, message, ExitCode::InvalidInput),
            None => r matches Ok(plan) && plan_fits(plan, command, *facts),
        },
{
    match command {
        Commands::Create { profile_name, template, force } => {
            let directory = match &facts.profile_directory {
                Some(directory) => Some(directory.as_str()),
                None => None,
            };
            match check_create(
                template.as_str(),
                facts.template_known,
                profile_path(profile_name.as_str(), directory),
                facts.profile_exists,
                force,
            ) {
                Err(error) => Err(error),
                Ok(path) => Ok(CommandPlan::WriteProfile { path }),
            }
        },
        Commands::Open { profile_name, editor, print_path } => match existing_profile(
            &profile_name,
            facts,
        ) {
            Err(error) => Err(error),
            Ok(path) => if print_path {
                Ok(CommandPlan::PrintPath { path })
            } else {
                let arguments = match &editor {
                    Some(editor) => open_arguments(Some(editor.as_str()), path.as_str()),
                    None => open_arguments(None, path.as_str()),
                };
                Ok(CommandPlan::OpenProfile { path, arguments })
            },
        },
        Commands::Apply { profile_name, dry_run, no_delete, timeout } => match existing_profile(
            &profile_name,
            facts,
        ) {
            Err(error) => Err(error),
            Ok(path) => Ok(
                ask(
                    DaemonCommand::Apply {
                        profile_path: path,
                        dry_run,
                        no_delete,
                        timeout_ms: timeout,
                    },
                    ResponseKind::Apply,
                ),
            ),
        },
        Commands::Clear { keep_devices } => Ok(
            ask(DaemonCommand::Clear { keep_devices }, ResponseKind::Clear),
        ),
        Commands::Validate { profile_name } => match existing_profile(&profile_name, facts) {
            Err(error) => Err(error),
            Ok(path) => Ok(
                ask(DaemonCommand::Validate { profile_path: path }, ResponseKind::Validate),
            ),
        },
        Commands::Plan { profile_name, no_delete } => match existing_profile(&profile_name, facts) {
            Err(error) => Err(error),
            Ok(path) => Ok(
                ask(DaemonCommand::Plan { profile_path: path, no_delete }, ResponseKind::Plan),
            ),
        },
        Commands::Status => Ok(ask(DaemonCommand::Status, ResponseKind::Status)),
        Commands::Devices => Ok(ask(DaemonCommand::Devices, ResponseKind::Devices)),
        Commands::Processes => Ok(ask(DaemonCommand::Processes, ResponseKind::Processes)),
        Commands::Test { route: _, mic: _, speaker: _, sample_rate: _, buffer_frames: _ } => Ok(
            CommandPlan::Test { timeout_ms: DEFAULT_REQUEST_TIMEOUT_MS },
        ),
        Commands::Logs { follow } => {
            match check_logs_command(json, follow) {
                Err(error) => {
                    return Err(error);
                },
                Ok(_) => {},
            }
            if follow {
                Ok(
                    CommandPlan::Follow {
                        first_request: follow_request(None),
                        timeout_ms: DEFAULT_REQUEST_TIMEOUT_MS,
                    },
                )
            } else {
                Ok(ask(DaemonCommand::Logs, ResponseKind::Logs))
            }
        },
        Commands::Doctor => Ok(ask(DaemonCommand::Doctor, ResponseKind::Doctor)),
    }
}

/// Whatever a command does, it does to a file in the directory of the profiles: where it
/// names a profile and is not refused, that name is one of a profile.
pub proof fn law_commands_stay_in_directory(command: Commands, json: bool, facts: CommandFacts, name: Seq<char>)
    requires
        refusal(command, json, facts) is None,
        profile_of(command) == Some(name),
    ensures
        crate::cli::valid_name(name),
        facts.profile_directory is Some,
{
}

// ---------------------------------------------------------------------------
// Answers

/// What the daemon answers.
#[derive(Debug)]
pub enum DaemonResponse {
    Pong,
    Validate { valid: bool, errors: Vec<String> },
    Plan(ApplyPlan),
    Apply(ApplyResult),
    Clear(ApplyResult),
    Status(DaemonStatus),
    Devices(DeviceInventory),
    Processes(Vec<AudioProcessInfo>),
    Logs(LogResponse),
    Doctor(DoctorReport),
}

/// The kind of an answer.
pub open spec fn kind_of(response: DaemonResponse) -> ResponseKind {
    match response {
        DaemonResponse::Pong => ResponseKind::Pong,
        DaemonResponse::Validate { valid: _, errors: _ } => ResponseKind::Validate,
        DaemonResponse::Plan(_) => ResponseKind::Plan,
        DaemonResponse::Apply(_) => ResponseKind::Apply,
        DaemonResponse::Clear(_) => ResponseKind::Clear,
        DaemonResponse::Status(_) => ResponseKind::Status,
        DaemonResponse::Devices(_) => ResponseKind::Devices,
        DaemonResponse::Processes(_) => ResponseKind::Processes,
        DaemonResponse::Logs(_) => ResponseKind::Logs,
        DaemonResponse::Doctor(_) => ResponseKind::Doctor,
    }
}

impl DaemonResponse {
    /// The kind of an answer.
    pub fn kind(&self) -> (r: ResponseKind)
        ensures
            r == kind_of(*self),
    {
        match self {
            DaemonResponse::Pong => ResponseKind::Pong,
            DaemonResponse::Validate { valid: _, errors: _ } => ResponseKind::Validate,
            DaemonResponse::Plan(_) => ResponseKind::Plan,
            DaemonResponse::Apply(_) => ResponseKind::Apply,
            DaemonResponse::Clear(_) => ResponseKind::Clear,
            DaemonResponse::Status(_) => ResponseKind::Status,
            DaemonResponse::Devices(_) => ResponseKind::Devices,
            DaemonResponse::Processes(_) => ResponseKind::Processes,
            DaemonResponse::Logs(_) => ResponseKind::Logs,
            DaemonResponse::Doctor(_) => ResponseKind::Doctor,
        }
    }
}

/// What a command prints of an answer.
pub open spec fn answer_text(response: DaemonResponse) -> Seq<char> {
    match response {
        DaemonResponse::Pong => "pong"@,
        DaemonResponse::Validate { valid, errors } => if valid {
            "profile is valid"@
        } else {
            "profile is invalid: "@ + joined_text(views(errors@), "; "@)
        },
        DaemonResponse::Plan(plan) => "plan generated: "@ + decimal(plan.changes@.len())
            + " changes"@,
        DaemonResponse::Apply(result) => apply_text(result),
        DaemonResponse::Clear(_) => "clear completed"@,
        DaemonResponse::Status(status) => status_text(status),
        DaemonResponse::Devices(inventory) => "inputs="@ + decimal(inventory.inputs@.len())
            + " outputs="@ + decimal(inventory.outputs@.len()),
        DaemonResponse::Processes(processes) => "processes="@ + decimal(processes@.len()),
        DaemonResponse::Logs(logs) => joined_text(views(logs.lines@), "\n"@),
        DaemonResponse::Doctor(report) => doctor_text(report),
    }
}

/// What a command ends with after an answer.
pub open spec fn answer_code(response: DaemonResponse) -> ExitCode {
    match response {
        DaemonResponse::Validate { valid: false, errors: _ } => ExitCode::InvalidInput,
        DaemonResponse::Apply(result) if result.errors@.len() > 0 => ExitCode::ApplyFailed,
        DaemonResponse::Doctor(report) if !(report.driver_installed && report.driver_compatible) => {
            ExitCode::DriverUnavailable
        },
        _ => ExitCode::Success,
    }
}

/// What a command prints of the answer and ends with; an answer of another kind than the one
/// that is expected is a failure.
pub fn report_response(expected: ResponseKind, response: &DaemonResponse) -> (r: Result<
    (String, ExitCode),
    CliError,
>)
    ensures
        if kind_of(*response) == expected {
            r matches Ok(report) && report.0@ == answer_text(*response) && report.1 == answer_code(
                *response,
            )
        } else {
            fails_with(
                r,
                "unexpected daemon response for "@ + kind_name(expected),
                ExitCode::DaemonCommunication,
            )
        },
{
    match check_response(expected, response.kind()) {
        Err(error) => {
            return Err(error);
        },
        Ok(_) => {},
    }
    match response {
        DaemonResponse::Pong => Ok((String::from_str("pong"), ExitCode::Success)),
        DaemonResponse::Validate { valid, errors } => Ok(report_validation(*valid, errors)),
        DaemonResponse::Plan(plan) => Ok((report_plan(plan), ExitCode::Success)),
        DaemonResponse::Apply(result) => Ok(report_apply(result)),
        DaemonResponse::Clear(_) => Ok((String::from_str("clear completed"), ExitCode::Success)),
        DaemonResponse::Status(status) => Ok((report_status(status), ExitCode::Success)),
        DaemonResponse::Devices(inventory) => Ok((report_devices(inventory), ExitCode::Success)),
        DaemonResponse::Processes(processes) => Ok(
            (report_processes(processes), ExitCode::Success),
        ),
        DaemonResponse::Logs(logs) => Ok((join_texts(&logs.lines, "\n"), ExitCode::Success)),
        DaemonResponse::Doctor(report) => Ok(report_doctor(report)),
    }
}

// ---------------------------------------------------------------------------
// Laws

/// A command asks the daemon for what it says, of the profile that it names, with the flags that
/// it has, and expects an answer of that kind.
pub proof fn law_commands_ask_for_what_they_say(
    command: Commands,
    json: bool,
    facts: CommandFacts,
    r: Result<CommandPlan, CliError>,
)
    requires
        call_ensures(plan_command, (command, json, &facts), r),
        r is Ok,
    ensures
        command matches Commands::Apply { profile_name, dry_run, no_delete, timeout } ==> {
            &&& r->Ok_0 is Ask
            &&& r->Ok_0->expected == ResponseKind::Apply
            &&& r->Ok_0->Ask_timeout_ms == timeout
            &&& r->Ok_0->request is Apply
            &&& r->Ok_0->request->Apply_0.dry_run == dry_run
            &&& r->Ok_0->request->Apply_0.no_delete == no_delete
            &&& r->Ok_0->request->Apply_0.timeout_ms == timeout
            &&& r->Ok_0->request->Apply_0.profile_path@ == facts.profile_directory->0@ + "/"@
                + profile_name@ + ".yaml"@
        },
        command matches Commands::Plan { profile_name, no_delete } ==> {
            &&& r->Ok_0 is Ask
            &&& r->Ok_0->expected == ResponseKind::Plan
            &&& r->Ok_0->request is Plan
            &&& r->Ok_0->request->Plan_no_delete == no_delete
            &&& r->Ok_0->request->Plan_profile_path@ == facts.profile_directory->0@ + "/"@
                + profile_name@ + ".yaml"@
        },
        command matches Commands::Validate { profile_name } ==> {
            &&& r->Ok_0 is Ask
            &&& r->Ok_0->expected == ResponseKind::Validate
            &&& r->Ok_0->request is Validate
            &&& r->Ok_0->request->Validate_profile_path@ == facts.profile_directory->0@ + "/"@
                + profile_name@ + ".yaml"@
        },
        command matches Commands::Clear { keep_devices } ==> {
            &&& r->Ok_0 is Ask
            &&& r->Ok_0->expected == ResponseKind::Clear
            &&& r->Ok_0->request is Clear
            &&& r->Ok_0->request->keep_devices == keep_devices
        },
        command is Status ==> r->Ok_0 is Ask && r->Ok_0->expected == ResponseKind::Status
            && r->Ok_0->request is Status,
        command is Devices ==> r->Ok_0 is Ask && r->Ok_0->expected == ResponseKind::Devices
            && r->Ok_0->request is Devices,
        command is Processes ==> r->Ok_0 is Ask && r->Ok_0->expected == ResponseKind::Processes
            && r->Ok_0->request is Processes,
        command is Doctor ==> r->Ok_0 is Ask && r->Ok_0->expected == ResponseKind::Doctor
            && r->Ok_0->request is Doctor,
        command is Test ==> r->Ok_0 is Test,
        command matches Commands::Logs { follow } ==> {
            &&& follow <==> r->Ok_0 is Follow
            &&& follow ==> r->Ok_0->first_request.follow && r->Ok_0->first_request.cursor is None
            &&& !follow ==> r->Ok_0 is Ask && r->Ok_0->expected == ResponseKind::Logs
                && r->Ok_0->request is Logs && !r->Ok_0->request->Logs_0.follow
        },
        command matches Commands::Create { profile_name, template, force } ==> {
            &&& r->Ok_0 is WriteProfile
            &&& r->Ok_0->WriteProfile_path@ == facts.profile_directory->0@ + "/"@ + profile_name@
                + ".yaml"@
        },
        command matches Commands::Open { profile_name, editor, print_path } ==> {
            &&& print_path <==> r->Ok_0 is PrintPath
            &&& !print_path <==> r->Ok_0 is OpenProfile
        },
{
}

/// A command about a profile is refused where the name is none, where the profile is not there,
/// or where one that is there would be overwritten without being told to; nothing else about a
/// profile is refused.
pub proof fn law_commands_need_their_profile(
    command: Commands,
    json: bool,
    facts: CommandFacts,
    r: Result<CommandPlan, CliError>,
)
    requires
        call_ensures(plan_command, (command, json, &facts), r),
    ensures
        command matches Commands::Apply { profile_name, dry_run, no_delete, timeout } ==> (r is Ok
            <==> crate::cli::name_problem(profile_name@) is None && facts.profile_directory is Some
            && facts.profile_exists),
        command matches Commands::Plan { profile_name, no_delete } ==> (r is Ok
            <==> crate::cli::name_problem(profile_name@) is None && facts.profile_directory is Some
            && facts.profile_exists),
        command matches Commands::Validate { profile_name } ==> (r is Ok
            <==> crate::cli::name_problem(profile_name@) is None && facts.profile_directory is Some
            && facts.profile_exists),
        command matches Commands::Open { profile_name, editor, print_path } ==> (r is Ok
            <==> crate::cli::name_problem(profile_name@) is None && facts.profile_directory is Some
            && facts.profile_exists),
        command matches Commands::Create { profile_name, template, force } ==> (r is Ok
            <==> facts.template_known && crate::cli::name_problem(profile_name@) is None
            && facts.profile_directory is Some && (!facts.profile_exists || force)),
        command is Status || command is Devices || command is Processes || command is Doctor
            || command is Clear || command is Test ==> r is Ok,
        command matches Commands::Logs { follow } ==> (r is Ok <==> !(json && follow)),
        r is Err ==> r->Err_0@.exit_code == ExitCode::InvalidInput,
{
}

/// An answer is reported where it is of the kind that was asked for, and fails where a profile is
/// invalid, where applying left errors, or where the driver is not there or does not fit.
pub proof fn law_answers_fail_where_something_failed(
    expected: ResponseKind,
    response: DaemonResponse,
    r: Result<(String, ExitCode), CliError>,
)
    requires
        call_ensures(report_response, (expected, &response), r),
    ensures
        response is Pong ==> (r is Ok <==> expected == ResponseKind::Pong),
        response is Apply ==> (r is Ok <==> expected == ResponseKind::Apply),
        response is Status ==> (r is Ok <==> expected == ResponseKind::Status),
        response is Plan ==> (r is Ok <==> expected == ResponseKind::Plan),
        response is Clear ==> (r is Ok <==> expected == ResponseKind::Clear),
        response is Logs ==> (r is Ok <==> expected == ResponseKind::Logs),
        response is Doctor ==> (r is Ok <==> expected == ResponseKind::Doctor),
        response is Devices ==> (r is Ok <==> expected == ResponseKind::Devices),
        response is Processes ==> (r is Ok <==> expected == ResponseKind::Processes),
        response is Validate ==> (r is Ok <==> expected == ResponseKind::Validate),
        r is Ok && response is Validate ==> (r->Ok_0.1 == ExitCode::Success <==> response->valid),
        r is Ok && response is Validate && !response->valid ==> r->Ok_0.1
            == ExitCode::InvalidInput,
        r is Ok && response is Apply ==> (r->Ok_0.1 == ExitCode::Success
            <==> response->Apply_0.errors@.len() == 0),
        r is Ok && response is Apply && response->Apply_0.errors@.len() > 0 ==> r->Ok_0.1
            == ExitCode::ApplyFailed,
        r is Ok && response is Doctor ==> (r->Ok_0.1 == ExitCode::Success
            <==> response->Doctor_0.driver_installed && response->Doctor_0.driver_compatible),
        r is Ok && !(response is Validate) && !(response is Apply) && !(response is Doctor)
            ==> r->Ok_0.1 == ExitCode::Success,
{
}

} // verus!
