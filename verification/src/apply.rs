//! The transaction that applies a profile: its stages, its deadline and its rollback.

use crate::api::{ApiError, ErrorView, ExitCode};
use crate::plan::ApplyPlan;
use crate::sequences::{lemma_views_push, views};
use crate::text::{join_texts, joined_text};
use vstd::prelude::*;
use vstd::string::*;

verus! {

broadcast use lemma_views_push;

/// A request to apply a profile.
#[derive(Debug, PartialEq, Eq)]
pub struct ApplyRequest {
    pub profile_path: String,
    pub no_delete: bool,
    pub dry_run: bool,
    pub timeout_ms: u64,
}

/// What came of a request to apply or to clear.
#[derive(Debug, PartialEq, Eq)]
pub struct ApplyResult {
    pub applied: bool,
    pub plan: ApplyPlan,
    pub warnings: Vec<String>,
    pub errors: Vec<String>,
}

// ---------------------------------------------------------------------------
// The deadline

/// The moment by which a transaction has to be done: none without a timeout, nor where
/// there is no such moment. Moments are counted in milliseconds.
pub open spec fn deadline_of(timeout_ms: u64, now: u64) -> Option<u64> {
    if timeout_ms == 0 || now + timeout_ms > u64::MAX {
        None
    } else {
        Some((now + timeout_ms) as u64)
    }
}

/// Whether the deadline has passed.
pub open spec fn passed(deadline: Option<u64>, now: u64) -> bool {
    deadline matches Some(deadline) && now > deadline
}

/// The answer to a transaction whose deadline passed before a stage.
pub open spec fn timeout_error(stage: Seq<char>) -> ErrorView {
    ErrorView {
        message: "apply timeout exceeded during stage: "@ + stage,
        exit_code: ExitCode::ApplyFailed,
    }
}

/// The moment by which a transaction has to be done.
pub fn apply_deadline(timeout_ms: u64, now: u64) -> (r: Option<u64>)
    ensures
        r == deadline_of(timeout_ms, now),
{
    if timeout_ms == 0 {
        None
    } else {
        now.checked_add(timeout_ms)
    }
}

/// A stage is not begun behind the deadline.
pub fn ensure_within_deadline(deadline: Option<u64>, now: u64, stage: &str) -> (r: Result<
    (),
    ApiError,
>)
    ensures
        r is Ok <==> !passed(deadline, now),
        r matches Err(error) ==> error@ == timeout_error(stage@),
{
    match deadline {
        Some(deadline) if now > deadline => {
            let mut message = String::from_str("apply timeout exceeded during stage: ");
            message.append(stage);
            Err(ApiError { message, exit_code: ExitCode::ApplyFailed })
        },
        _ => Ok(()),
    }
}

// ---------------------------------------------------------------------------
// The stages

/// The stages of a transaction.
#[derive(Debug, Clone, Copy, PartialEq, Eq, Structural)]
pub enum ApplyStep {
    LoadProfile,
    Plan,
    ResolveExternals,
    CaptureDriver,
    CheckDriver,
    StopRuntime,
    StageDriver,
    Activate,
    SyncRuntime,
    CheckReadiness,
    RollBackStop,
    RollBackDriver,
    RollBackState,
    RollBackRuntime,
    Succeed,
    Fail,
}

/// A transaction under way.
#[derive(Debug)]
pub struct ApplyRun {
    pub step: ApplyStep,
    pub deadline: Option<u64>,
    pub dry_run: bool,
    /// The stage that failed, or was not begun because the deadline had passed.
    pub failed_at: Option<ApplyStep>,
    pub failure: Option<ApiError>,
    pub issues: Vec<String>,
}

/// A transaction under way, in characters.
#[verifier::ext_equal]
pub struct RunView {
    pub step: ApplyStep,
    pub deadline: Option<u64>,
    pub dry_run: bool,
    pub failed_at: Option<ApplyStep>,
    pub failure: Option<ErrorView>,
    pub issues: Seq<Seq<char>>,
}

impl View for ApplyRun {
    type V = RunView;

    open spec fn view(&self) -> RunView {
        RunView {
            step: self.step,
            deadline: self.deadline,
            dry_run: self.dry_run,
            failed_at: self.failed_at,
            failure: match self.failure {
                Some(error) => Some(error@),
                None => None,
            },
            issues: views(self.issues@),
        }
    }
}

/// The name of a stage that is not begun behind the deadline.
pub open spec fn timed_stage(step: ApplyStep) -> Option<Seq<char>> {
    match step {
        ApplyStep::LoadProfile => Some("profile-validate"@),
        ApplyStep::Plan => Some("plan"@),
        ApplyStep::ResolveExternals => Some("external-resolve"@),
        ApplyStep::CheckDriver => Some("driver-compatibility"@),
        ApplyStep::StageDriver => Some("driver-stage"@),
        ApplyStep::Activate => Some("graph-activate"@),
        ApplyStep::CheckReadiness => Some("runtime-ready"@),
        _ => None,
    }
}

/// Whether nothing has been changed yet at a stage.
pub open spec fn untouched(step: ApplyStep) -> bool {
    match step {
        ApplyStep::LoadProfile
        | ApplyStep::Plan
        | ApplyStep::ResolveExternals
        | ApplyStep::CaptureDriver
        | ApplyStep::CheckDriver
        | ApplyStep::StopRuntime => true,
        _ => false,
    }
}

/// The transaction after a failure: it is over where nothing has been changed yet, else it
/// is rolled back.
pub open spec fn failed_at(run: RunView, step: ApplyStep, error: ErrorView) -> RunView {
    RunView {
        step: if untouched(step) {
            ApplyStep::Fail
        } else {
            ApplyStep::RollBackStop
        },
        failed_at: Some(step),
        failure: Some(error),
        ..run
    }
}

/// The transaction as it goes into a stage, or fails because its deadline has passed.
pub open spec fn entering(run: RunView, step: ApplyStep, now: u64) -> RunView {
    match timed_stage(step) {
        Some(stage) if passed(run.deadline, now) => failed_at(run, step, timeout_error(stage)),
        _ => RunView { step, ..run },
    }
}

/// The stage that follows where nothing fails.
pub open spec fn following(step: ApplyStep, dry_run: bool) -> ApplyStep {
    match step {
        ApplyStep::LoadProfile => ApplyStep::Plan,
        ApplyStep::Plan => if dry_run {
            ApplyStep::Succeed
        } else {
            ApplyStep::ResolveExternals
        },
        ApplyStep::ResolveExternals => ApplyStep::CaptureDriver,
        ApplyStep::CaptureDriver => ApplyStep::CheckDriver,
        ApplyStep::CheckDriver => ApplyStep::StopRuntime,
        ApplyStep::StopRuntime => ApplyStep::StageDriver,
        ApplyStep::StageDriver => ApplyStep::Activate,
        ApplyStep::Activate => ApplyStep::SyncRuntime,
        ApplyStep::SyncRuntime => ApplyStep::CheckReadiness,
        ApplyStep::CheckReadiness => ApplyStep::Succeed,
        ApplyStep::RollBackStop => ApplyStep::RollBackDriver,
        ApplyStep::RollBackDriver => ApplyStep::RollBackState,
        ApplyStep::RollBackState => ApplyStep::RollBackRuntime,
        ApplyStep::RollBackRuntime => ApplyStep::Fail,
        ApplyStep::Succeed => ApplyStep::Succeed,
        ApplyStep::Fail => ApplyStep::Fail,
    }
}

/// What is noted where a stage of the rollback fails.
pub open spec fn rollback_issue(step: ApplyStep, message: Seq<char>) -> Option<Seq<char>> {
    match step {
        ApplyStep::RollBackDriver => Some("driver rollback failed: "@ + message),
        ApplyStep::RollBackRuntime => Some("render runtime rollback failed: "@ + message),
        _ => None,
    }
}

/// Whether a stage belongs to the rollback, or to the end.
pub open spec fn past_failing(step: ApplyStep) -> bool {
    match step {
        ApplyStep::RollBackStop
        | ApplyStep::RollBackDriver
        | ApplyStep::RollBackState
        | ApplyStep::RollBackRuntime
        | ApplyStep::Succeed
        | ApplyStep::Fail => true,
        _ => false,
    }
}

/// The transaction after a stage, from what the stage failed with, if it did.
pub open spec fn run_after(run: RunView, failure: Option<ErrorView>, now: u64) -> RunView {
    if past_failing(run.step) {
        RunView {
            step: following(run.step, run.dry_run),
            issues: match failure {
                Some(error) => match rollback_issue(run.step, error.message) {
                    Some(issue) => run.issues.push(issue),
                    None => run.issues,
                },
                None => run.issues,
            },
            ..run
        }
    } else {
        match failure {
            Some(error) => failed_at(run, run.step, error),
            None => entering(run, following(run.step, run.dry_run), now),
        }
    }
}

/// What a stage failed with, in characters.
pub open spec fn error_of(outcome: Result<(), ApiError>) -> Option<ErrorView> {
    match outcome {
        Ok(_) => None,
        Err(error) => Some(error@),
    }
}

/// A transaction that has just begun.
pub open spec fn begun(request: ApplyRequest, now: u64) -> RunView {
    entering(
        RunView {
            step: ApplyStep::LoadProfile,
            deadline: deadline_of(request.timeout_ms, now),
            dry_run: request.dry_run,
            failed_at: None,
            failure: None,
            issues: Seq::empty(),
        },
        ApplyStep::LoadProfile,
        now,
    )
}

/// What a failed transaction is answered with: the first failure as it is where nothing had
/// been changed, else with what came of the rollback.
pub open spec fn failure_answer(failure: ErrorView, rolled_back: bool, issues: Seq<Seq<char>>) -> ErrorView {
    if !rolled_back {
        failure
    } else if issues.len() == 0 {
        ErrorView {
            message: "apply failed and rolled back: "@ + failure.message,
            exit_code: failure.exit_code,
        }
    } else {
        ErrorView {
            message: "apply failed and rollback encountered issues: "@ + failure.message + "; "@
                + joined_text(issues, "; "@),
            exit_code: failure.exit_code,
        }
    }
}

/// What a transaction that was rolled back is answered with.
pub fn rollback_error(failure: ApiError, issues: &Vec<String>) -> (r: ApiError)
    ensures
        r@ == failure_answer(failure@, true, views(issues@)),
{
    if issues.len() == 0 {
        let mut message = String::from_str("apply failed and rolled back: ");
        message.append(failure.message.as_str());
        ApiError { message, exit_code: failure.exit_code }
    } else {
        let mut message = String::from_str("apply failed and rollback encountered issues: ");
        message.append(failure.message.as_str());
        message.append("; ");
        message.append(join_texts(issues, "; ").as_str());
        ApiError { message, exit_code: failure.exit_code }
    }
}

fn is_untouched(step: ApplyStep) -> (r: bool)
    ensures
        r == untouched(step),
{
    matches!(
        step,
        ApplyStep::LoadProfile | ApplyStep::Plan | ApplyStep::ResolveExternals
            | ApplyStep::CaptureDriver | ApplyStep::CheckDriver | ApplyStep::StopRuntime
    )
}

/// What a transaction that failed at a stage is answered with: the failure as it is where
/// nothing had been changed yet, else with what came of the rollback.
pub fn failure_response(failed_at: ApplyStep, failure: ApiError, issues: &Vec<String>) -> (r:
    ApiError)
    ensures
        r@ == failure_answer(failure@, !untouched(failed_at), views(issues@)),
{
    if is_untouched(failed_at) {
        failure
    } else {
        rollback_error(failure, issues)
    }
}

fn timed_stage_name(step: ApplyStep) -> (r: Option<&'static str>)
    ensures
        match r {
            Some(name) => timed_stage(step) == Some(name@),
            None => timed_stage(step) is None,
        },
{
    match step {
        ApplyStep::LoadProfile => Some("profile-validate"),
        ApplyStep::Plan => Some("plan"),
        ApplyStep::ResolveExternals => Some("external-resolve"),
        ApplyStep::CheckDriver => Some("driver-compatibility"),
        ApplyStep::StageDriver => Some("driver-stage"),
        ApplyStep::Activate => Some("graph-activate"),
        ApplyStep::CheckReadiness => Some("runtime-ready"),
        _ => None,
    }
}

fn following_step(step: ApplyStep, dry_run: bool) -> (r: ApplyStep)
    ensures
        r == following(step, dry_run),
{
    match step {
        ApplyStep::LoadProfile => ApplyStep::Plan,
        ApplyStep::Plan => if dry_run {
            ApplyStep::Succeed
        } else {
            ApplyStep::ResolveExternals
        },
        ApplyStep::ResolveExternals => ApplyStep::CaptureDriver,
        ApplyStep::CaptureDriver => ApplyStep::CheckDriver,
        ApplyStep::CheckDriver => ApplyStep::StopRuntime,
        ApplyStep::StopRuntime => ApplyStep::StageDriver,
        ApplyStep::StageDriver => ApplyStep::Activate,
        ApplyStep::Activate => ApplyStep::SyncRuntime,
        ApplyStep::SyncRuntime => ApplyStep::CheckReadiness,
        ApplyStep::CheckReadiness => ApplyStep::Succeed,
        ApplyStep::RollBackStop => ApplyStep::RollBackDriver,
        ApplyStep::RollBackDriver => ApplyStep::RollBackState,
        ApplyStep::RollBackState => ApplyStep::RollBackRuntime,
        ApplyStep::RollBackRuntime => ApplyStep::Fail,
        ApplyStep::Succeed => ApplyStep::Succeed,
        ApplyStep::Fail => ApplyStep::Fail,
    }
}

impl ApplyRun {
    /// Begins a transaction.
    pub fn begin(request: &ApplyRequest, now: u64) -> (r: ApplyRun)
        ensures
            r@ == begun(*request, now),
    {
        let mut run = ApplyRun {
            step: ApplyStep::LoadProfile,
            deadline: apply_deadline(request.timeout_ms, now),
            dry_run: request.dry_run,
            failed_at: None,
            failure: None,
            issues: Vec::new(),
        };
        assert(views(run.issues@) =~= Seq::<Seq<char>>::empty());
        run.enter(ApplyStep::LoadProfile, now);
        run
    }

    fn fail_at(&mut self, step: ApplyStep, error: ApiError)
        ensures
            final(self)@ == failed_at(old(self)@, step, error@),
    {
        self.step = if is_untouched(step) {
            ApplyStep::Fail
        } else {
            ApplyStep::RollBackStop
        };
        self.failed_at = Some(step);
        self.failure = Some(error);
    }

    fn enter(&mut self, step: ApplyStep, now: u64)
        ensures
            final(self)@ == entering(old(self)@, step, now),
    {
        match timed_stage_name(step) {
            Some(stage) => match ensure_within_deadline(self.deadline, now, stage) {
                Ok(_) => {
                    self.step = step;
                },
                Err(error) => self.fail_at(step, error),
            },
            None => {
                self.step = step;
            },
        }
    }

    /// Goes on after a stage, from what it came to.
    pub fn advance(&mut self, outcome: Result<(), ApiError>, now: u64)
        ensures
            final(self)@ == run_after(old(self)@, error_of(outcome), now),
    {
        let next = following_step(self.step, self.dry_run);
        match self.step {
            ApplyStep::RollBackDriver => {
                if let Err(error) = outcome {
                    let mut issue = String::from_str("driver rollback failed: ");
                    issue.append(error.message.as_str());
                    self.issues.push(issue);
                }
                self.step = next;
            },
            ApplyStep::RollBackRuntime => {
                if let Err(error) = outcome {
                    let mut issue = String::from_str("render runtime rollback failed: ");
                    issue.append(error.message.as_str());
                    self.issues.push(issue);
                }
                self.step = next;
            },
            ApplyStep::RollBackStop
            | ApplyStep::RollBackState
            | ApplyStep::Succeed
            | ApplyStep::Fail => {
                self.step = next;
            },
            _ => match outcome {
                Err(error) => {
                    let step = self.step;
                    self.fail_at(step, error);
                },
                Ok(_) => self.enter(next, now),
            },
        }
    }
}

fn copy_texts(texts: &Vec<String>) -> (r: Vec<String>)
    ensures
        r@ == texts@,
{
    let mut copy: Vec<String> = Vec::new();
    let mut i: usize = 0;
    while i < texts.len()
        invariant
            i <= texts.len(),
            copy@ =~= texts@.take(i as int),
        decreases texts.len() - i,
    {
        copy.push(texts[i].clone());
        i = i + 1;
    }
    assert(copy@ =~= texts@);
    copy
}

/// What a transaction that succeeded is answered with: a dry run applies nothing and repeats
/// no warnings.
pub fn success_answer(dry_run: bool, plan: ApplyPlan) -> (r: ApplyResult)
    ensures
        r.applied == !dry_run,
        r.plan == plan,
        r.warnings@ == if dry_run {
            Seq::<String>::empty()
        } else {
            plan.warnings@
        },
        r.errors@.len() == 0,
{
    let warnings = if dry_run {
        Vec::new()
    } else {
        copy_texts(&plan.warnings)
    };
    assert(dry_run ==> warnings@ =~= Seq::<String>::empty());
    ApplyResult { applied: !dry_run, plan, warnings, errors: Vec::new() }
}

// ---------------------------------------------------------------------------
// Laws

/// How many stages a transaction has left at most.
pub open spec fn stages_left(step: ApplyStep) -> int {
    match step {
        ApplyStep::LoadProfile => 15,
        ApplyStep::Plan => 14,
        ApplyStep::ResolveExternals => 13,
        ApplyStep::CaptureDriver => 12,
        ApplyStep::CheckDriver => 11,
        ApplyStep::StopRuntime => 10,
        ApplyStep::StageDriver => 9,
        ApplyStep::Activate => 8,
        ApplyStep::SyncRuntime => 7,
        ApplyStep::CheckReadiness => 6,
        ApplyStep::RollBackStop => 5,
        ApplyStep::RollBackDriver => 4,
        ApplyStep::RollBackState => 3,
        ApplyStep::RollBackRuntime => 2,
        ApplyStep::Succeed => 0,
        ApplyStep::Fail => 0,
    }
}

/// A transaction ends, whatever its stages come to.
pub proof fn law_apply_ends(run: RunView, failure: Option<ErrorView>, now: u64)
    ensures
        run.step == ApplyStep::Succeed || run.step == ApplyStep::Fail || stages_left(
            run_after(run, failure, now).step,
        ) < stages_left(run.step),
{
}

/// Once something may have been changed, a transaction fails only after all of the rollback.
pub proof fn law_changes_are_rolled_back(run: RunView, failure: Option<ErrorView>, now: u64)
    ensures
        run_after(run, failure, now).step == ApplyStep::Fail ==> untouched(run.step) || run.step
            == ApplyStep::RollBackRuntime || run.step == ApplyStep::Fail,
        run_after(run, failure, now).step == ApplyStep::RollBackRuntime ==> run.step
            == ApplyStep::RollBackState,
        run_after(run, failure, now).step == ApplyStep::RollBackState ==> run.step
            == ApplyStep::RollBackDriver,
        run_after(run, failure, now).step == ApplyStep::RollBackDriver ==> run.step
            == ApplyStep::RollBackStop,
{
}

/// A dry run goes no further than the plan.
pub proof fn law_dry_run_changes_nothing(run: RunView, failure: Option<ErrorView>, now: u64)
    requires
        run.dry_run,
        run.step == ApplyStep::LoadProfile || run.step == ApplyStep::Plan || run.step
            == ApplyStep::Succeed || run.step == ApplyStep::Fail,
    ensures
        ({
            let next = run_after(run, failure, now).step;
            next == ApplyStep::Plan || next == ApplyStep::Succeed || next == ApplyStep::Fail
        }),
{
}

/// A transaction that has failed or is being rolled back holds a failure: the first one,
/// which nothing later replaces.
pub proof fn law_first_failure_is_kept(run: RunView, failure: Option<ErrorView>, now: u64)
    requires
        run.failure is Some <==> past_failing(run.step) && run.step != ApplyStep::Succeed,
        run.failed_at is Some <==> run.failure is Some,
    ensures
        ({
            let next = run_after(run, failure, now);
            &&& next.failure is Some <==> past_failing(next.step) && next.step
                != ApplyStep::Succeed
            &&& next.failed_at is Some <==> next.failure is Some
            &&& run.failure is Some ==> next.failure == run.failure && next.failed_at
                == run.failed_at
        }),
{
}

/// A failure is answered as rolled back exactly where a rollback is begun for it.
pub proof fn law_rollback_is_reported(run: RunView, failure: Option<ErrorView>, now: u64)
    requires
        !past_failing(run.step),
        run.failure is None,
        run_after(run, failure, now).failure is Some,
    ensures
        ({
            let next = run_after(run, failure, now);
            &&& next.failed_at matches Some(step) && {
                &&& untouched(step) <==> next.step == ApplyStep::Fail
                &&& !untouched(step) <==> next.step == ApplyStep::RollBackStop
            }
        }),
{
}

/// Without a timeout no stage is refused for being late.
pub proof fn law_no_timeout_never_late(run: RunView, step: ApplyStep, started: u64, now: u64)
    requires
        run.deadline == deadline_of(0, started),
    ensures
        entering(run, step, now) == (RunView { step, ..run }),
{
}

/// A transaction fails without a rollback only while the stage that failed had changed nothing:
/// loading, planning, resolving, taking down the state of the driver, checking it, or stopping
/// what runs. A failure of a later stage, or a deadline that has passed before one, begins a
/// rollback.
pub proof fn law_late_failures_begin_a_rollback(run: RunView, failure: Option<ErrorView>, now: u64)
    ensures
        ({
            let next = run_after(run, failure, now);
            &&& failure is Some && (run.step == ApplyStep::StageDriver || run.step
                == ApplyStep::Activate || run.step == ApplyStep::SyncRuntime || run.step
                == ApplyStep::CheckReadiness) ==> next.step == ApplyStep::RollBackStop
                && next.failure == failure
            &&& failure is Some && (run.step == ApplyStep::LoadProfile || run.step
                == ApplyStep::Plan || run.step == ApplyStep::ResolveExternals || run.step
                == ApplyStep::CaptureDriver || run.step == ApplyStep::CheckDriver || run.step
                == ApplyStep::StopRuntime) ==> next.step == ApplyStep::Fail && next.failure
                == failure
            &&& failure is None && (run.deadline matches Some(deadline) && now > deadline) && (
            run.step == ApplyStep::StopRuntime || run.step == ApplyStep::StageDriver || run.step
                == ApplyStep::SyncRuntime) ==> next.step == ApplyStep::RollBackStop
                && next.failure is Some
            &&& next.step == ApplyStep::Fail && run.step != ApplyStep::Fail && run.step
                != ApplyStep::RollBackRuntime ==> (next.failed_at matches Some(step) && (step
                == ApplyStep::LoadProfile || step == ApplyStep::Plan || step
                == ApplyStep::ResolveExternals || step == ApplyStep::CaptureDriver || step
                == ApplyStep::CheckDriver || step == ApplyStep::StopRuntime))
        }),
{
}

/// A rollback goes through all of its stages, whatever they come to: it stops what runs, then
/// restores the driver, then the state, then what ran, and only then the transaction is over.
pub proof fn law_rollback_goes_through_its_stages(
    run: RunView,
    a: Option<ErrorView>,
    b: Option<ErrorView>,
    c: Option<ErrorView>,
    d: Option<ErrorView>,
    now: u64,
)
    requires
        run.step == ApplyStep::RollBackStop,
    ensures
        ({
            let driver = run_after(run, a, now);
            let state = run_after(driver, b, now);
            let runtime = run_after(state, c, now);
            let end = run_after(runtime, d, now);
            &&& driver.step == ApplyStep::RollBackDriver
            &&& state.step == ApplyStep::RollBackState
            &&& runtime.step == ApplyStep::RollBackRuntime
            &&& end.step == ApplyStep::Fail
            &&& end.failure == run.failure
            &&& end.failed_at == run.failed_at
            &&& end.issues.len() == run.issues.len() + (if b is Some {
                1int
            } else {
                0int
            }) + (if d is Some {
                1int
            } else {
                0int
            })
            &&& b matches Some(error) ==> end.issues[run.issues.len() as int]
                == "driver rollback failed: "@ + error.message
            &&& d matches Some(error) ==> end.issues.last() == "render runtime rollback failed: "@
                + error.message
        }),
{
}

/// A transaction without a deadline in which nothing fails goes through its stages in order: the
/// driver is staged once it was taken down and checked and what runs was stopped, the profile is
/// activated once the driver is staged, and success comes after what was started is ready.
pub proof fn law_stages_come_in_order(run: RunView, now: u64)
    requires
        run.deadline is None,
        !run.dry_run,
    ensures
        ({
            let next = run_after(run, None, now);
            &&& run.step == ApplyStep::LoadProfile <==> next.step == ApplyStep::Plan
            &&& run.step == ApplyStep::Plan <==> next.step == ApplyStep::ResolveExternals
            &&& run.step == ApplyStep::ResolveExternals <==> next.step == ApplyStep::CaptureDriver
            &&& run.step == ApplyStep::CaptureDriver <==> next.step == ApplyStep::CheckDriver
            &&& run.step == ApplyStep::CheckDriver <==> next.step == ApplyStep::StopRuntime
            &&& run.step == ApplyStep::StopRuntime <==> next.step == ApplyStep::StageDriver
            &&& run.step == ApplyStep::StageDriver <==> next.step == ApplyStep::Activate
            &&& run.step == ApplyStep::Activate <==> next.step == ApplyStep::SyncRuntime
            &&& run.step == ApplyStep::SyncRuntime <==> next.step == ApplyStep::CheckReadiness
            &&& next.step == ApplyStep::Succeed <==> run.step == ApplyStep::CheckReadiness
                || run.step == ApplyStep::Succeed
            &&& next.deadline is None
            &&& !next.dry_run
        }),
{
}

/// A stage that has a deadline is not begun once the deadline has passed, and the failure names
/// it. Taking down the state of the driver, stopping what runs and starting it have none.
pub proof fn law_deadline_stops_the_next_stage(run: RunView, now: u64)
    requires
        !run.dry_run,
        run.deadline matches Some(deadline) && now > deadline,
    ensures
        ({
            let next = run_after(run, None, now);
            let late = |stage: Seq<char>|
                next.failure == Some(
                    ErrorView {
                        message: "apply timeout exceeded during stage: "@ + stage,
                        exit_code: ExitCode::ApplyFailed,
                    },
                );
            &&& run.step == ApplyStep::LoadProfile ==> late("plan"@) && next.step
                == ApplyStep::Fail
            &&& run.step == ApplyStep::Plan ==> late("external-resolve"@) && next.step
                == ApplyStep::Fail
            &&& run.step == ApplyStep::ResolveExternals ==> next.step == ApplyStep::CaptureDriver
            &&& run.step == ApplyStep::CaptureDriver ==> late("driver-compatibility"@)
                && next.step == ApplyStep::Fail
            &&& run.step == ApplyStep::CheckDriver ==> next.step == ApplyStep::StopRuntime
            &&& run.step == ApplyStep::StopRuntime ==> late("driver-stage"@) && next.step
                == ApplyStep::RollBackStop
            &&& run.step == ApplyStep::StageDriver ==> late("graph-activate"@) && next.step
                == ApplyStep::RollBackStop
            &&& run.step == ApplyStep::Activate ==> next.step == ApplyStep::SyncRuntime
            &&& run.step == ApplyStep::SyncRuntime ==> late("runtime-ready"@) && next.step
                == ApplyStep::RollBackStop
        }),
{
}

/// The deadline is the start plus the timeout: a transaction is late after it and not before,
/// and a timeout of nothing, or one beyond the end of time, is no deadline.
pub proof fn law_deadline_is_start_plus_timeout(timeout_ms: u64, started: u64, now: u64)
    ensures
        passed(deadline_of(timeout_ms, started), now) <==> timeout_ms > 0 && started + timeout_ms
            <= u64::MAX && now > started + timeout_ms,
{
}

/// A transaction begins with loading the profile, whatever its timeout, and with nothing failed.
pub proof fn law_transaction_begins_with_the_profile(request: ApplyRequest, now: u64)
    ensures
        begun(request, now).step == ApplyStep::LoadProfile,
        begun(request, now).failure is None,
        begun(request, now).failed_at is None,
        begun(request, now).issues.len() == 0,
        begun(request, now).dry_run == request.dry_run,
        begun(request, now).deadline is Some <==> request.timeout_ms > 0 && now + request.timeout_ms
            <= u64::MAX,
{
}

/// What a failed transaction is answered with: the failure word for word where the stage that
/// failed had changed nothing, else a text that says it was rolled back and ends with the
/// failure, or names every issue of the rollback. The exit code is that of the failure.
pub proof fn law_answer_tells_of_the_rollback(
    step: ApplyStep,
    failure: ErrorView,
    issues: Seq<Seq<char>>,
)
    ensures
        ({
            let answer = failure_answer(failure, !untouched(step), issues);
            let changed = step == ApplyStep::StageDriver || step == ApplyStep::Activate || step
                == ApplyStep::SyncRuntime || step == ApplyStep::CheckReadiness;
            let unchanged = step == ApplyStep::LoadProfile || step == ApplyStep::Plan || step
                == ApplyStep::ResolveExternals || step == ApplyStep::CaptureDriver || step
                == ApplyStep::CheckDriver || step == ApplyStep::StopRuntime;
            &&& answer.exit_code == failure.exit_code
            &&& unchanged ==> answer == failure
            &&& changed && issues.len() == 0 ==> answer.message
                == "apply failed and rolled back: "@ + failure.message
            &&& changed && issues.len() > 0 ==> answer.message
                == "apply failed and rollback encountered issues: "@ + failure.message + "; "@
                + joined_text(issues, "; "@)
        }),
{
}

/// A transaction goes on as its stage came out: a stage that changed something begins a rollback
/// where it fails, one that changed nothing ends the transaction, and the stages of the rollback
/// follow each other whatever comes of them.
pub proof fn law_advance(run: &mut ApplyRun, outcome: Result<(), ApiError>, now: u64)
    requires
        call_ensures(ApplyRun::advance, (run, outcome, now), ()),
    ensures
        outcome is Err && (old(run).step == ApplyStep::StageDriver || old(run).step
            == ApplyStep::Activate || old(run).step == ApplyStep::SyncRuntime || old(run).step
            == ApplyStep::CheckReadiness) ==> final(run).step == ApplyStep::RollBackStop,
        outcome is Err && (old(run).step == ApplyStep::LoadProfile || old(run).step
            == ApplyStep::Plan || old(run).step == ApplyStep::ResolveExternals || old(run).step
            == ApplyStep::CaptureDriver || old(run).step == ApplyStep::CheckDriver || old(run).step
            == ApplyStep::StopRuntime) ==> final(run).step == ApplyStep::Fail,
        outcome is Ok && old(run).deadline is None && !old(run).dry_run ==> {
            &&& old(run).step == ApplyStep::LoadProfile ==> final(run).step == ApplyStep::Plan
            &&& old(run).step == ApplyStep::Plan ==> final(run).step
                == ApplyStep::ResolveExternals
            &&& old(run).step == ApplyStep::ResolveExternals ==> final(run).step
                == ApplyStep::CaptureDriver
            &&& old(run).step == ApplyStep::CaptureDriver ==> final(run).step
                == ApplyStep::CheckDriver
            &&& old(run).step == ApplyStep::CheckDriver ==> final(run).step
                == ApplyStep::StopRuntime
            &&& old(run).step == ApplyStep::StopRuntime ==> final(run).step
                == ApplyStep::StageDriver
            &&& old(run).step == ApplyStep::StageDriver ==> final(run).step == ApplyStep::Activate
            &&& old(run).step == ApplyStep::Activate ==> final(run).step == ApplyStep::SyncRuntime
            &&& old(run).step == ApplyStep::SyncRuntime ==> final(run).step
                == ApplyStep::CheckReadiness
            &&& old(run).step == ApplyStep::CheckReadiness ==> final(run).step
                == ApplyStep::Succeed
        },
        old(run).dry_run && old(run).step == ApplyStep::Plan && outcome is Ok ==> final(run).step
            == ApplyStep::Succeed,
        old(run).step == ApplyStep::RollBackStop ==> final(run).step == ApplyStep::RollBackDriver,
        old(run).step == ApplyStep::RollBackDriver ==> final(run).step == ApplyStep::RollBackState,
        old(run).step == ApplyStep::RollBackState ==> final(run).step
            == ApplyStep::RollBackRuntime,
        old(run).step == ApplyStep::RollBackRuntime ==> final(run).step == ApplyStep::Fail,
        outcome is Ok && !old(run).dry_run && old(run).deadline is Some && now
            > old(run).deadline->0 && (old(run).step == ApplyStep::StopRuntime || old(run).step
            == ApplyStep::StageDriver || old(run).step == ApplyStep::SyncRuntime)
            ==> final(run).step == ApplyStep::RollBackStop,
        final(run).dry_run == old(run).dry_run,
        final(run).deadline == old(run).deadline,
{
    law_late_failures_begin_a_rollback(old(run)@, error_of(outcome), now);
    if old(run).deadline is None && !old(run).dry_run {
        law_stages_come_in_order(old(run)@, now);
    }
    let next = final(run)@;
}

/// The answer to a failed transaction: word for word the failure where nothing had been changed,
/// else one that says that it was rolled back.
pub proof fn law_failure_response(
    failed_at: ApplyStep,
    failure: ApiError,
    issues: Vec<String>,
    r: ApiError,
)
    requires
        call_ensures(failure_response, (failed_at, failure, &issues), r),
    ensures
        r.exit_code == failure.exit_code,
        failed_at == ApplyStep::LoadProfile || failed_at == ApplyStep::Plan || failed_at
            == ApplyStep::ResolveExternals || failed_at == ApplyStep::CaptureDriver || failed_at
            == ApplyStep::CheckDriver || failed_at == ApplyStep::StopRuntime ==> r.message@
            == failure.message@,
        (failed_at == ApplyStep::StageDriver || failed_at == ApplyStep::Activate || failed_at
            == ApplyStep::SyncRuntime || failed_at == ApplyStep::CheckReadiness) && issues@.len()
            == 0 ==> r.message@ == "apply failed and rolled back: "@ + failure.message@,
        (failed_at == ApplyStep::StageDriver || failed_at == ApplyStep::Activate || failed_at
            == ApplyStep::SyncRuntime || failed_at == ApplyStep::CheckReadiness) && issues@.len()
            > 0 ==> r.message@ == "apply failed and rollback encountered issues: "@
            + failure.message@ + "; "@ + joined_text(views(issues@), "; "@),
{
    law_answer_tells_of_the_rollback(failed_at, failure@, views(issues@));
    assert(views(issues@).len() == issues@.len());
    assert(r@.message == r.message@);
}

/// A transaction that succeeded has applied the profile unless it was a dry run, and tells of the
/// plan and its warnings.
pub proof fn law_success_answer(dry_run: bool, plan: ApplyPlan, r: ApplyResult)
    requires
        call_ensures(success_answer, (dry_run, plan), r),
    ensures
        r.applied <==> !dry_run,
        r.plan == plan,
        r.errors@.len() == 0,
        !dry_run ==> r.warnings@ == plan.warnings@,
        dry_run ==> r.warnings@.len() == 0,
{
}

/// A transaction begins with loading the profile.
pub proof fn law_begin(request: ApplyRequest, now: u64, r: ApplyRun)
    requires
        call_ensures(ApplyRun::begin, (&request, now), r),
    ensures
        r.step == ApplyStep::LoadProfile,
        r.dry_run == request.dry_run,
        r.failure is None,
        r.issues@.len() == 0,
        request.timeout_ms == 0 ==> r.deadline is None,
        request.timeout_ms > 0 && now + request.timeout_ms <= u64::MAX ==> r.deadline == Some(
            (now + request.timeout_ms) as u64,
        ),
{
    law_transaction_begins_with_the_profile(request, now);
    assert(r@.step == r.step && r@.deadline == r.deadline);
    assert(views(r.issues@).len() == r.issues@.len());
}

} // verus!
