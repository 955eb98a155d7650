//! Making sure that the daemon runs before it is asked.

use crate::api::ExitCode;
use crate::cli::{
    ipc_error_text, is_stale_socket_error, stale_socket, with_exit, CliError, IpcError,
    DAEMON_PING_RETRY_COUNT, INITIAL_PING_RETRY_COUNT,
};
use crate::sequences::{lemma_views_push, views};
use vstd::prelude::*;
use vstd::string::*;

verus! {

broadcast use lemma_views_push;

/// The longest time to wait for an answer to the question whether the daemon is there.
pub const MAX_PING_TIMEOUT_MS: u64 = 200;

/// How long to wait for an answer to the question whether the daemon is there: no longer
/// than the command waits, where it has a limit.
pub fn normalized_ping_timeout(timeout_ms: u64) -> (r: u64)
    ensures
        r == if timeout_ms == 0 || timeout_ms > MAX_PING_TIMEOUT_MS {
            MAX_PING_TIMEOUT_MS
        } else {
            timeout_ms
        },
{
    if timeout_ms == 0 || timeout_ms > MAX_PING_TIMEOUT_MS {
        MAX_PING_TIMEOUT_MS
    } else {
        timeout_ms
    }
}

// ---------------------------------------------------------------------------
// Waiting for the daemon

/// What asking the daemon whether it is there came to.
#[derive(Debug)]
pub enum PingOutcome {
    Pong,
    Unexpected,
    Failed(IpcError),
}

/// What became of waiting for the daemon so far.
#[derive(Debug)]
pub enum PingWait {
    /// Ask so many times more.
    Ask { left: usize, last_error: Option<IpcError> },
    Reached,
    GaveUp { error: IpcError },
}

/// The error where the daemon answers something else.
pub open spec fn unexpected_pong(error: IpcError) -> bool {
    error matches IpcError::DaemonError { message, exit_code } && message@
        == "unexpected daemon response to ping"@ && exit_code == Some(
        ExitCode::DaemonCommunication,
    )
}

/// Whether an error tells of what asking came to.
pub open spec fn error_tells(error: IpcError, outcome: PingOutcome) -> bool {
    match outcome {
        PingOutcome::Pong => false,
        PingOutcome::Unexpected => unexpected_pong(error),
        PingOutcome::Failed(cause) => error == cause,
    }
}

/// Begins to wait; without a single question the waiting is over at once.
pub fn begin_wait(retries: usize) -> (r: PingWait)
    ensures
        r == if retries == 0 {
            PingWait::GaveUp { error: IpcError::Timeout }
        } else {
            PingWait::Ask { left: retries, last_error: None }
        },
{
    if retries == 0 {
        PingWait::GaveUp { error: IpcError::Timeout }
    } else {
        PingWait::Ask { left: retries, last_error: None }
    }
}

/// Whether waiting goes on as it should after one more question: it is over with an answer,
/// and it is over without one when there is no question left.
pub open spec fn wait_goes_on(before: PingWait, outcome: PingOutcome, after: PingWait) -> bool {
    match before {
        PingWait::Ask { left, last_error: _ } => match (outcome, after) {
            (PingOutcome::Pong, _) => after is Reached,
            (_, PingWait::Ask { left: now_left, last_error }) => {
                &&& left > 1
                &&& now_left == left - 1
                &&& last_error matches Some(error) && error_tells(error, outcome)
            },
            (_, PingWait::GaveUp { error }) => left <= 1 && error_tells(error, outcome),
            _ => false,
        },
        _ => after == before,
    }
}

/// Goes on waiting after a question.
pub fn after_ping(wait: PingWait, outcome: PingOutcome) -> (r: PingWait)
    ensures
        wait_goes_on(wait, outcome, r),
{
    match wait {
        PingWait::Ask { left, last_error: _ } => {
            let error = match outcome {
                PingOutcome::Pong => {
                    return PingWait::Reached;
                },
                PingOutcome::Unexpected => IpcError::DaemonError {
                    message: String::from_str("unexpected daemon response to ping"),
                    exit_code: Some(ExitCode::DaemonCommunication),
                },
                PingOutcome::Failed(cause) => cause,
            };
            if left <= 1 {
                PingWait::GaveUp { error }
            } else {
                PingWait::Ask { left: left - 1, last_error: Some(error) }
            }
        },
        PingWait::Reached => PingWait::Reached,
        PingWait::GaveUp { error } => PingWait::GaveUp { error },
    }
}

// ---------------------------------------------------------------------------
// Starting the daemon

/// A way to start the daemon.
#[derive(Debug, PartialEq, Eq)]
pub struct LaunchCommand {
    pub program: String,
    pub args: Vec<String>,
    pub cwd: Option<String>,
}

/// A way to start the daemon, in characters.
#[verifier::ext_equal]
pub struct LaunchView {
    pub program: Seq<char>,
    pub args: Seq<Seq<char>>,
    pub cwd: Option<Seq<char>>,
}

impl View for LaunchCommand {
    type V = LaunchView;

    open spec fn view(&self) -> LaunchView {
        LaunchView {
            program: self.program@,
            args: views(self.args@),
            cwd: match self.cwd {
                Some(cwd) => Some(cwd@),
                None => None,
            },
        }
    }
}

/// The daemon itself, told to serve.
pub open spec fn serving(program: Seq<char>) -> LaunchView {
    LaunchView { program, args: seq!["--serve"@], cwd: None }
}

/// The daemon built and run from its sources in a directory.
pub open spec fn built_from_sources(cwd: Seq<char>) -> LaunchView {
    LaunchView {
        program: "cargo"@,
        args: seq!["run"@, "-p"@, "mars-daemon"@, "--bin"@, "marsd"@, "--"@, "--serve"@],
        cwd: Some(cwd),
    }
}

/// The way that an optional program gives.
pub open spec fn serving_if(program: Option<Seq<char>>) -> Seq<LaunchView> {
    match program {
        Some(program) => seq![serving(program)],
        None => Seq::empty(),
    }
}

/// The characters of an optional text.
pub open spec fn text_of(text: Option<String>) -> Option<Seq<char>> {
    match text {
        Some(text) => Some(text@),
        None => None,
    }
}

/// The ways to start the daemon in the order in which they are tried.
pub open spec fn launch_order(
    configured: Option<Seq<char>>,
    sibling: Option<Seq<char>>,
    installed: bool,
    sources: Option<Seq<char>>,
) -> Seq<LaunchView> {
    serving_if(configured) + serving_if(sibling) + serving_if(
        if installed {
            Some("/usr/local/bin/marsd"@)
        } else {
            None
        },
    ) + seq![serving("marsd"@)] + (match sources {
        Some(cwd) => seq![built_from_sources(cwd)],
        None => Seq::empty(),
    })
}

fn serve_with(program: String) -> (r: LaunchCommand)
    ensures
        r@ == serving(program@),
{
    let mut args: Vec<String> = Vec::new();
    args.push(String::from_str("--serve"));
    assert(views(args@) =~= seq!["--serve"@]);
    LaunchCommand { program, args, cwd: None }
}

/// The ways to start the daemon: the configured program, the one beside this program, the
/// installed one, one on the path, and the sources where this is their directory.
pub fn daemon_launch_candidates(
    configured: Option<String>,
    sibling: Option<String>,
    installed: bool,
    sources: Option<String>,
) -> (r: Vec<LaunchCommand>)
    ensures
        views(r@) == launch_order(text_of(configured), text_of(sibling), installed, text_of(sources)),
{
    let ghost wanted = launch_order(
        text_of(configured),
        text_of(sibling),
        installed,
        text_of(sources),
    );
    let mut candidates: Vec<LaunchCommand> = Vec::new();
    if let Some(program) = configured {
        candidates.push(serve_with(program));
    }
    assert(views(candidates@) =~= serving_if(text_of(configured)));
    if let Some(program) = sibling {
        candidates.push(serve_with(program));
    }
    assert(views(candidates@) =~= serving_if(text_of(configured)) + serving_if(text_of(sibling)));
    if installed {
        candidates.push(serve_with(String::from_str("/usr/local/bin/marsd")));
    }
    assert(views(candidates@) =~= serving_if(text_of(configured)) + serving_if(text_of(sibling))
        + serving_if(
        if installed {
            Some("/usr/local/bin/marsd"@)
        } else {
            None
        },
    ));
    candidates.push(serve_with(String::from_str("marsd")));
    if let Some(cwd) = sources {
        let mut args: Vec<String> = Vec::new();
        args.push(String::from_str("run"));
        args.push(String::from_str("-p"));
        args.push(String::from_str("mars-daemon"));
        args.push(String::from_str("--bin"));
        args.push(String::from_str("marsd"));
        args.push(String::from_str("--"));
        args.push(String::from_str("--serve"));
        assert(views(args@) =~= seq![
            "run"@,
            "-p"@,
            "mars-daemon"@,
            "--bin"@,
            "marsd"@,
            "--"@,
            "--serve"@,
        ]);
        candidates.push(
            LaunchCommand { program: String::from_str("cargo"), args, cwd: Some(cwd) },
        );
    }
    assert(views(candidates@) =~= wanted);
    candidates
}

/// What became of starting the daemon so far.
#[derive(Debug, PartialEq, Eq)]
pub enum LaunchStep {
    /// Try this way.
    Try { index: usize },
    Launched,
    Failed { error: String },
}

/// The text where a way to start the daemon fails.
pub open spec fn launch_failure(program: Seq<char>, error: Seq<char>) -> Seq<char> {
    "failed to start marsd with '"@ + program + "': "@ + error
}

/// The first way to try.
pub fn first_launch(candidates: &Vec<LaunchCommand>) -> (r: LaunchStep)
    ensures
        candidates@.len() > 0 ==> r == (LaunchStep::Try { index: 0 }),
        candidates@.len() == 0 ==> (r matches LaunchStep::Failed { error } && error@
            == "failed to start marsd"@),
{
    if candidates.len() == 0 {
        LaunchStep::Failed { error: String::from_str("failed to start marsd") }
    } else {
        LaunchStep::Try { index: 0 }
    }
}

/// What follows a way that was tried: the daemon is started, the next way is tried, or the
/// last way has failed.
pub fn after_launch(candidates: &Vec<LaunchCommand>, index: usize, outcome: Result<(), String>) -> (r:
    LaunchStep)
    requires
        index < candidates@.len(),
    ensures
        match outcome {
            Ok(_) => r == LaunchStep::Launched,
            Err(error) => if index + 1 < candidates@.len() {
                r == (LaunchStep::Try { index: (index + 1) as usize })
            } else {
                r matches LaunchStep::Failed { error: text } && text@ == launch_failure(
                    candidates@[index as int].program@,
                    error@,
                )
            },
        },
{
    match outcome {
        Ok(_) => LaunchStep::Launched,
        Err(error) => if candidates.len() - index > 1 {
            LaunchStep::Try { index: index + 1 }
        } else {
            let mut text = String::from_str("failed to start marsd with '");
            text.append(candidates[index].program.as_str());
            text.append("': ");
            text.append(error.as_str());
            LaunchStep::Failed { error: text }
        },
    }
}

// ---------------------------------------------------------------------------
// All together

/// The steps of making sure that the daemon runs.
#[derive(Debug, Clone, Copy, PartialEq, Eq, Structural)]
pub enum EnsureStep {
    /// Wait for a daemon that may be running.
    WaitInitially,
    Launch,
    WaitAfterLaunch,
    /// Remove a socket at which nobody listens.
    RemoveSocket,
    Relaunch,
    WaitAfterCleanup,
    Running,
    Failed,
}

/// What a step came to.
#[derive(Debug)]
pub enum EnsureOutcome {
    Done,
    /// Waiting was in vain; the socket may still be there.
    NotReached { error: IpcError, socket_exists: bool },
    /// Starting the daemon or removing the socket failed.
    Refused { error: String },
}

/// Making sure that the daemon runs.
#[derive(Debug)]
pub struct EnsureRun {
    pub step: EnsureStep,
    pub initial_error: Option<String>,
    pub failure: Option<CliError>,
}

/// How often a step asks the daemon whether it is there.
pub fn ping_retries(step: EnsureStep) -> (r: usize)
    ensures
        r == if step == EnsureStep::WaitInitially {
            INITIAL_PING_RETRY_COUNT
        } else {
            DAEMON_PING_RETRY_COUNT
        },
{
    match step {
        EnsureStep::WaitInitially => INITIAL_PING_RETRY_COUNT,
        _ => DAEMON_PING_RETRY_COUNT,
    }
}

/// The step that follows, from what a step came to.
pub open spec fn ensure_after(step: EnsureStep, outcome: EnsureOutcome) -> EnsureStep {
    match (step, outcome) {
        (EnsureStep::WaitInitially, EnsureOutcome::Done) => EnsureStep::Running,
        (EnsureStep::WaitInitially, _) => EnsureStep::Launch,
        (EnsureStep::Launch, EnsureOutcome::Done) => EnsureStep::WaitAfterLaunch,
        (EnsureStep::WaitAfterLaunch, EnsureOutcome::Done) => EnsureStep::Running,
        (
            EnsureStep::WaitAfterLaunch,
            EnsureOutcome::NotReached { error, socket_exists },
        ) => if socket_exists && stale_socket(error) {
            EnsureStep::RemoveSocket
        } else {
            EnsureStep::Failed
        },
        (EnsureStep::RemoveSocket, EnsureOutcome::Done) => EnsureStep::Relaunch,
        (EnsureStep::Relaunch, EnsureOutcome::Done) => EnsureStep::WaitAfterCleanup,
        (EnsureStep::WaitAfterCleanup, EnsureOutcome::Done) => EnsureStep::Running,
        (EnsureStep::Running, _) => EnsureStep::Running,
        _ => EnsureStep::Failed,
    }
}

/// What a step says where it fails.
pub open spec fn outcome_text(outcome: EnsureOutcome) -> Seq<char> {
    match outcome {
        EnsureOutcome::Done => ""@,
        EnsureOutcome::NotReached { error, socket_exists: _ } => ipc_error_text(error),
        EnsureOutcome::Refused { error } => error@,
    }
}

/// What the command fails with where a step leads to failure.
pub open spec fn ensure_failure(
    step: EnsureStep,
    outcome: EnsureOutcome,
    initial: Option<Seq<char>>,
    socket: Seq<char>,
) -> Seq<char> {
    let first = match initial {
        Some(text) => text,
        None => "unknown"@,
    };
    match step {
        EnsureStep::WaitAfterLaunch => "failed to reach marsd after launch: "@ + outcome_text(outcome)
            + "; initial ping error: "@ + first,
        EnsureStep::RemoveSocket => "failed to remove stale marsd socket "@ + socket + ": "@
            + outcome_text(outcome),
        EnsureStep::WaitAfterCleanup => "failed to reach marsd after stale socket cleanup: "@
            + outcome_text(outcome) + "; initial ping error: "@ + first,
        _ => outcome_text(outcome),
    }
}

fn describe_outcome(outcome: &EnsureOutcome) -> (r: String)
    ensures
        r@ == outcome_text(*outcome),
{
    match outcome {
        EnsureOutcome::Done => String::from_str(""),
        EnsureOutcome::NotReached { error, socket_exists: _ } => error.message(),
        EnsureOutcome::Refused { error } => error.clone(),
    }
}

fn next_ensure_step(step: EnsureStep, outcome: &EnsureOutcome) -> (r: EnsureStep)
    ensures
        r == ensure_after(step, *outcome),
{
    let done = matches!(*outcome, EnsureOutcome::Done);
    match step {
        EnsureStep::WaitInitially => if done {
            EnsureStep::Running
        } else {
            EnsureStep::Launch
        },
        EnsureStep::Launch => if done {
            EnsureStep::WaitAfterLaunch
        } else {
            EnsureStep::Failed
        },
        EnsureStep::WaitAfterLaunch => match outcome {
            EnsureOutcome::Done => EnsureStep::Running,
            EnsureOutcome::NotReached { error, socket_exists } => {
                if *socket_exists && is_stale_socket_error(error) {
                    EnsureStep::RemoveSocket
                } else {
                    EnsureStep::Failed
                }
            },
            EnsureOutcome::Refused { error: _ } => EnsureStep::Failed,
        },
        EnsureStep::RemoveSocket => if done {
            EnsureStep::Relaunch
        } else {
            EnsureStep::Failed
        },
        EnsureStep::Relaunch => if done {
            EnsureStep::WaitAfterCleanup
        } else {
            EnsureStep::Failed
        },
        EnsureStep::WaitAfterCleanup => if done {
            EnsureStep::Running
        } else {
            EnsureStep::Failed
        },
        EnsureStep::Running => EnsureStep::Running,
        EnsureStep::Failed => EnsureStep::Failed,
    }
}

impl EnsureRun {
    /// Begins to make sure that the daemon runs.
    pub fn begin() -> (r: EnsureRun)
        ensures
            r.step == EnsureStep::WaitInitially,
            r.initial_error is None,
            r.failure is None,
    {
        EnsureRun { step: EnsureStep::WaitInitially, initial_error: None, failure: None }
    }

    /// Goes on after a step. The error of the first wait is remembered, and the failure that
    /// ends it all tells of it.
    pub fn advance(&mut self, outcome: EnsureOutcome, socket: &str)
        ensures
            final(self).step == ensure_after(old(self).step, outcome),
            old(self).step == EnsureStep::WaitInitially && !(outcome is Done) ==> text_of(
                final(self).initial_error,
            ) == Some(outcome_text(outcome)),
            old(self).step != EnsureStep::WaitInitially || outcome is Done
                ==> final(self).initial_error == old(self).initial_error,
            old(self).step != EnsureStep::Failed && final(self).step == EnsureStep::Failed ==> {
                &&& final(self).failure matches Some(error) && error is WithExit && error@
                    == with_exit(
                    ensure_failure(
                        old(self).step,
                        outcome,
                        text_of(old(self).initial_error),
                        socket@,
                    ),
                    ExitCode::DaemonCommunication,
                )
            },
            old(self).step == EnsureStep::Failed || final(self).step != EnsureStep::Failed
                ==> final(self).failure == old(self).failure,
    {
        let step = self.step;
        let next = next_ensure_step(step, &outcome);
        let text = describe_outcome(&outcome);
        let failed_now = match step {
            EnsureStep::Failed => false,
            _ => matches!(next, EnsureStep::Failed),
        };
        if failed_now {
            let first = match &self.initial_error {
                Some(error) => error.clone(),
                None => String::from_str("unknown"),
            };
            let message = match step {
                EnsureStep::WaitAfterLaunch => {
                    let mut message = String::from_str("failed to reach marsd after launch: ");
                    message.append(text.as_str());
                    message.append("; initial ping error: ");
                    message.append(first.as_str());
                    message
                },
                EnsureStep::RemoveSocket => {
                    let mut message = String::from_str("failed to remove stale marsd socket ");
                    message.append(socket);
                    message.append(": ");
                    message.append(text.as_str());
                    message
                },
                EnsureStep::WaitAfterCleanup => {
                    let mut message = String::from_str(
                        "failed to reach marsd after stale socket cleanup: ",
                    );
                    message.append(text.as_str());
                    message.append("; initial ping error: ");
                    message.append(first.as_str());
                    message
                },
                _ => text.clone(),
            };
            self.failure = Some(
                CliError::WithExit { message, exit_code: ExitCode::DaemonCommunication },
            );
        }
        match (step, outcome) {
            (EnsureStep::WaitInitially, EnsureOutcome::Done) => {},
            (EnsureStep::WaitInitially, _) => {
                self.initial_error = Some(text);
            },
            _ => {},
        }
        self.step = next;
    }
}

/// How many steps are left at most.
pub open spec fn ensure_steps_left(step: EnsureStep) -> int {
    match step {
        EnsureStep::WaitInitially => 6,
        EnsureStep::Launch => 5,
        EnsureStep::WaitAfterLaunch => 4,
        EnsureStep::RemoveSocket => 3,
        EnsureStep::Relaunch => 2,
        EnsureStep::WaitAfterCleanup => 1,
        EnsureStep::Running => 0,
        EnsureStep::Failed => 0,
    }
}

/// Making sure that the daemon runs ends, and the daemon is held to run only where it
/// answered.
pub proof fn law_ensuring_ends(step: EnsureStep, outcome: EnsureOutcome)
    ensures
        ensure_steps_left(step) > 0 ==> ensure_steps_left(ensure_after(step, outcome))
            < ensure_steps_left(step),
        ensure_after(step, outcome) == EnsureStep::Running && step != EnsureStep::Running
            ==> outcome is Done && (step == EnsureStep::WaitInitially || step
            == EnsureStep::WaitAfterLaunch || step == EnsureStep::WaitAfterCleanup),
{
}

/// A socket is removed only where it is there and nobody listens at it.
pub proof fn law_only_stale_sockets_are_removed(step: EnsureStep, outcome: EnsureOutcome)
    requires
        ensure_after(step, outcome) == EnsureStep::RemoveSocket,
    ensures
        outcome matches EnsureOutcome::NotReached { error, socket_exists } && socket_exists
            && stale_socket(error),
{
}

/// The daemon is asked for first, and started only where it does not answer; where it still does
/// not answer and its socket is stale, that is removed and it is started once more. Whatever else
/// fails ends in failure.
pub proof fn law_daemon_is_started_where_it_does_not_answer(
    error: IpcError,
    socket_exists: bool,
    refusal: String,
)
    ensures
        ensure_after(EnsureStep::WaitInitially, EnsureOutcome::Done) is Running,
        ensure_after(
            EnsureStep::WaitInitially,
            (EnsureOutcome::NotReached { error, socket_exists }),
        ) is Launch,
        ensure_after(EnsureStep::Launch, EnsureOutcome::Done) is WaitAfterLaunch,
        ensure_after(EnsureStep::Launch, (EnsureOutcome::Refused { error: refusal })) is Failed,
        ensure_after(EnsureStep::WaitAfterLaunch, EnsureOutcome::Done) is Running,
        socket_exists && (error matches IpcError::Io { kind, shown } && (kind
            == crate::cli::ConnectionErrorKind::NotFound || kind
            == crate::cli::ConnectionErrorKind::ConnectionRefused)) ==> ensure_after(
            EnsureStep::WaitAfterLaunch,
            (EnsureOutcome::NotReached { error, socket_exists }),
        ) is RemoveSocket,
        !socket_exists || error is Timeout ==> ensure_after(
            EnsureStep::WaitAfterLaunch,
            (EnsureOutcome::NotReached { error, socket_exists }),
        ) is Failed,
        ensure_after(EnsureStep::RemoveSocket, EnsureOutcome::Done) is Relaunch,
        ensure_after(EnsureStep::RemoveSocket, (EnsureOutcome::Refused { error: refusal }))
            is Failed,
        ensure_after(EnsureStep::Relaunch, EnsureOutcome::Done) is WaitAfterCleanup,
        ensure_after(EnsureStep::WaitAfterCleanup, EnsureOutcome::Done) is Running,
        ensure_after(
            EnsureStep::WaitAfterCleanup,
            (EnsureOutcome::NotReached { error, socket_exists }),
        ) is Failed,
{
}

spec fn all_serve(commands: Seq<LaunchView>) -> bool {
    forall|i: int|
        0 <= i < commands.len() ==> (#[trigger] commands[i]).args.len() > 0
            && commands[i].args.last() == "--serve"@
}

proof fn lemma_joined_serve(front: Seq<LaunchView>, back: Seq<LaunchView>)
    requires
        all_serve(front),
        all_serve(back),
    ensures
        all_serve(front + back),
{
    assert forall|i: int| 0 <= i < (front + back).len() implies (#[trigger] (front
        + back)[i]).args.len() > 0 && (front + back)[i].args.last() == "--serve"@ by {
        if i < front.len() {
            assert((front + back)[i] == front[i]);
        } else {
            assert((front + back)[i] == back[i - front.len()]);
        }
    }
}

/// The daemon is started as configured first, then as it lies beside the command, then as it is
/// installed, then by its name, and last from its sources; it is always told to serve.
#[verifier::spinoff_prover]
pub proof fn law_daemon_is_started_as_configured_first(
    configured: Option<Seq<char>>,
    sibling: Option<Seq<char>>,
    installed: bool,
    sources: Option<Seq<char>>,
    i: int,
)
    ensures
        ({
            let order = launch_order(configured, sibling, installed, sources);
            &&& order.len() > 0
            &&& configured is Some ==> order[0].program == configured->0
            &&& configured is None && sibling is Some ==> order[0].program == sibling->0
            &&& configured is None && sibling is None && installed ==> order[0].program
                == "/usr/local/bin/marsd"@
            &&& configured is None && sibling is None && !installed ==> order[0].program
                == "marsd"@
            &&& sources is None ==> order.last().program == "marsd"@
            &&& sources is Some ==> order.last().program == "cargo"@ && order.last().cwd == sources
            &&& 0 <= i < order.len() ==> order[i].args.len() > 0 && order[i].args.last()
                == "--serve"@
        }),
{
    let first = serving_if(configured);
    let second = serving_if(sibling);
    let third = serving_if(
        if installed {
            Some("/usr/local/bin/marsd"@)
        } else {
            None
        },
    );
    let named = seq![serving("marsd"@)];
    let built = match sources {
        Some(cwd) => seq![built_from_sources(cwd)],
        None => Seq::empty(),
    };
    let order = launch_order(configured, sibling, installed, sources);
    assert(order == first + second + third + named + built);
    lemma_joined_serve(first, second);
    lemma_joined_serve(first + second, third);
    lemma_joined_serve(first + second + third, named);
    lemma_joined_serve(first + second + third + named, built);
    assert(order.last() == (if built.len() > 0 {
        built[0]
    } else {
        named[0]
    }));
}

/// The daemon is asked again until it answers or has been asked as often as it should be; one
/// that was reached stays reached.
pub proof fn law_daemon_is_asked_so_often(
    before: PingWait,
    outcome: PingOutcome,
    after: PingWait,
    begun: PingWait,
    retries: usize,
)
    requires
        wait_goes_on(before, outcome, after),
        call_ensures(begin_wait, (retries,), begun),
    ensures
        before is Ask && outcome is Pong ==> after is Reached,
        before is Ask && !(outcome is Pong) && before->left > 1 ==> after is Ask && after->left
            == before->left - 1,
        before is Ask && !(outcome is Pong) && before->left <= 1 ==> after is GaveUp,
        before is Reached ==> after is Reached,
        retries > 0 ==> begun is Ask && begun->left == retries,
        retries == 0 ==> begun is GaveUp,
{
}

} // verus!
