//! Recovering runs whose processing was interrupted.
//!
//! What an interrupted run needs follows from its status file alone. Without one the
//! staged files are processed again; with a valid one only the move is missing.

use vstd::prelude::*;

use crate::failure;
use crate::failure::Failure;
use crate::inputs::ProcessingError;
use crate::model::{Document, Lookup, Nickname, RunId, RunState, RunStatus};
use crate::phases;
use crate::phases::ProcessorLockAttempt;
use crate::process;
use crate::text;
use crate::version;
use crate::version::{current_purgery_version, VersionProbe};

verus! {

/// Why a run was not recovered.
#[derive(Debug)]
pub enum RecoveryError {
    /// The run has a status of a missing or incompatible version. It is left in place
    /// for the operator: not migrated, not replaced, not moved to failed.
    IncompatibleStatus { message: String },
    /// Anything else that went wrong. The run is to be failed.
    Other(Failure),
}

/// Why a run was not recovered, as characters.
pub enum RecoveryErrorView {
    IncompatibleStatus { message: Seq<char> },
    Other(failure::FailureView),
}

impl View for RecoveryError {
    type V = RecoveryErrorView;

    open spec fn view(&self) -> RecoveryErrorView {
        match self {
            RecoveryError::IncompatibleStatus { message } =>
            RecoveryErrorView::IncompatibleStatus { message: message@ },
            RecoveryError::Other(failure) => RecoveryErrorView::Other(failure@),
        }
    }
}

impl RecoveryError {
    /// The text of the error.
    pub fn text(&self) -> (s: String)
        ensures
            s@ == (match self {
                RecoveryError::IncompatibleStatus { message } => message@,
                RecoveryError::Other(failure) => failure.message@,
            }),
    {
        match self {
            RecoveryError::IncompatibleStatus { message } => message.clone(),
            RecoveryError::Other(failure) => failure.message.clone(),
        }
    }
}

impl From<Failure> for RecoveryError {
    fn from(failure: Failure) -> (error: RecoveryError) {
        RecoveryError::Other(failure)
    }
}

impl vstd::std_specs::convert::FromSpecImpl<Failure> for RecoveryError {
    open spec fn obeys_from_spec() -> bool {
        true
    }

    open spec fn from_spec(failure: Failure) -> RecoveryError {
        RecoveryError::Other(failure)
    }
}

impl From<ProcessingError> for RecoveryError {
    fn from(error: ProcessingError) -> (converted: RecoveryError) {
        match error {
            ProcessingError::Incompatible { path, message } => RecoveryError::IncompatibleStatus {
                message,
            },
            ProcessingError::Other(failure) => RecoveryError::Other(failure),
        }
    }
}

impl vstd::std_specs::convert::FromSpecImpl<ProcessingError> for RecoveryError {
    open spec fn obeys_from_spec() -> bool {
        true
    }

    open spec fn from_spec(error: ProcessingError) -> RecoveryError {
        match error {
            ProcessingError::Incompatible { path, message } => RecoveryError::IncompatibleStatus {
                message,
            },
            ProcessingError::Other(failure) => RecoveryError::Other(failure),
        }
    }
}

/// What an interrupted run needs.
#[derive(Debug)]
pub enum RecoveryPlan {
    /// Process the staged files again.
    Replay,
    /// Leave the run as it is and say why.
    Refuse { message: String },
    /// Publish that the run failed, with this error.
    Fail { message: String },
    /// Move the run to where its published state belongs.
    Settle(RunState),
    /// The status cannot be read.
    GiveUp(Failure),
}

/// What an interrupted run needs, as characters.
pub enum RecoveryPlanView {
    Replay,
    Refuse { message: Seq<char> },
    Fail { message: Seq<char> },
    Settle(RunState),
    GiveUp(failure::FailureView),
}

impl View for RecoveryPlan {
    type V = RecoveryPlanView;

    open spec fn view(&self) -> RecoveryPlanView {
        match self {
            RecoveryPlan::Replay => RecoveryPlanView::Replay,
            RecoveryPlan::Refuse { message } => RecoveryPlanView::Refuse { message: message@ },
            RecoveryPlan::Fail { message } => RecoveryPlanView::Fail { message: message@ },
            RecoveryPlan::Settle(state) => RecoveryPlanView::Settle(*state),
            RecoveryPlan::GiveUp(failure) => RecoveryPlanView::GiveUp(failure@),
        }
    }
}

/// What an interrupted run needs, by its status file.
pub open spec fn recovery_plan(
    status: Lookup<RunStatus>,
    nickname: Seq<char>,
    run_id: Seq<char>,
    status_path: Seq<char>,
) -> RecoveryPlanView {
    match status {
        Lookup::Missing(_) => RecoveryPlanView::Replay,
        Lookup::Unreadable(error) => RecoveryPlanView::GiveUp(
            failure::plain("failed to read processing status: "@ + status_path + ": "@ + error@),
        ),
        Lookup::Found(document) => match document.version@ {
            version::ProbeView::Missing => RecoveryPlanView::Refuse {
                message: "status file '"@ + status_path
                    + "' is missing purgery_version (too old); leaving in place for operator inspection"@,
            },
            version::ProbeView::Invalid(_) => RecoveryPlanView::Fail {
                message: "interrupted processing had malformed status file '"@ + status_path
                    + "'"@,
            },
            version::ProbeView::Version(v) => if !version::compatible(v) {
                RecoveryPlanView::Refuse {
                    message: "status file '"@ + status_path
                        + "' has incompatible purgery_version: producer "@ + v + ", current "@
                        + version::current_version()
                        + "; leaving in place for operator inspection"@,
                }
            } else {
                match document.parsed {
                    Err(error) => RecoveryPlanView::Fail {
                        message: "interrupted processing had malformed status file '"@
                            + status_path + "': "@ + error@,
                    },
                    Ok(status) => if !status.belongs_to(nickname, run_id) {
                        RecoveryPlanView::Fail {
                            message: "interrupted processing had mismatched status envelope"@,
                        }
                    } else {
                        RecoveryPlanView::Settle(status.state)
                    },
                }
            },
        },
    }
}

/// Decides what an interrupted run needs, by its status file.
pub fn recover_or_process_processing_run(
    status: &Lookup<RunStatus>,
    nickname: &Nickname,
    run_id: &RunId,
    status_path: &str,
) -> (plan: RecoveryPlan)
    ensures
        plan@ == recovery_plan(*status, nickname@, run_id@, status_path@),
{
    match status {
        Lookup::Missing(_) => RecoveryPlan::Replay,
        Lookup::Unreadable(error) => RecoveryPlan::GiveUp(
            Failure::new(
                text::cat4(
                    "failed to read processing status: ",
                    status_path,
                    ": ",
                    error.as_str(),
                ),
            ),
        ),
        Lookup::Found(document) => match &document.version {
            VersionProbe::Missing => RecoveryPlan::Refuse {
                message: text::cat3(
                    "status file '",
                    status_path,
                    "' is missing purgery_version (too old); leaving in place for operator inspection",
                ),
            },
            VersionProbe::Invalid(_) => RecoveryPlan::Fail {
                message: text::cat3(
                    "interrupted processing had malformed status file '",
                    status_path,
                    "'",
                ),
            },
            VersionProbe::Version(v) => {
                if !version::is_compatible(v.as_str()) {
                    return RecoveryPlan::Refuse {
                        message: text::cat7(
                            "status file '",
                            status_path,
                            "' has incompatible purgery_version: producer ",
                            v.as_str(),
                            ", current ",
                            current_purgery_version(),
                            "; leaving in place for operator inspection",
                        ),
                    };
                }
                match &document.parsed {
                    Err(error) => RecoveryPlan::Fail {
                        message: text::cat4(
                            "interrupted processing had malformed status file '",
                            status_path,
                            "': ",
                            error.as_str(),
                        ),
                    },
                    Ok(status) => {
                        if status.is_for(nickname, run_id) {
                            RecoveryPlan::Settle(status.state)
                        } else {
                            RecoveryPlan::Fail {
                                message: "interrupted processing had mismatched status envelope"
                                    .to_owned(),
                            }
                        }
                    },
                }
            },
        },
    }
}

/// What recovering a run must answer, given its plan and how carrying the plan out
/// went.
pub open spec fn recovery_answer_view(
    plan: RecoveryPlanView,
    carried_out: Result<(), ProcessingError>,
) -> Result<(), RecoveryErrorView> {
    match plan {
        RecoveryPlanView::Refuse { message } => Err(
            RecoveryErrorView::IncompatibleStatus { message },
        ),
        RecoveryPlanView::GiveUp(failure) => Err(RecoveryErrorView::Other(failure)),
        _ => match carried_out {
            Ok(_) => Ok(()),
            Err(ProcessingError::Incompatible { message, .. }) => Err(
                RecoveryErrorView::IncompatibleStatus { message: message@ },
            ),
            Err(ProcessingError::Other(failure)) => Err(RecoveryErrorView::Other(failure@)),
        },
    }
}

/// What recovering a run answers, once its plan was carried out. A plan that leaves
/// the run in place needs no carrying out.
pub fn recovery_answer(plan: RecoveryPlan, carried_out: Result<(), ProcessingError>) -> (answer:
    Result<(), RecoveryError>)
    ensures
        match recovery_answer_view(plan@, carried_out) {
            Ok(_) => answer is Ok,
            Err(error) => answer matches Err(e) && e@ == error,
        },
{
    match plan {
        RecoveryPlan::Refuse { message } => Err(RecoveryError::IncompatibleStatus { message }),
        RecoveryPlan::GiveUp(failure) => Err(RecoveryError::Other(failure)),
        _ => match carried_out {
            Ok(()) => Ok(()),
            Err(error) => Err(RecoveryError::from(error)),
        },
    }
}

// ---------------------------------------------------------------------------
// Recovery under the lock
// ---------------------------------------------------------------------------

/// How the recovery of a run went.
#[derive(Clone, Copy, PartialEq, Eq, Structural, Debug)]
pub enum RecoveryVerdict {
    Recovered,
    Incompatible,
    Failed,
}

/// What the answer of a recovery amounts to.
pub fn judge_recovery(answer: &Result<(), RecoveryError>) -> (verdict: RecoveryVerdict)
    ensures
        verdict == (match answer {
            Ok(_) => RecoveryVerdict::Recovered,
            Err(RecoveryError::IncompatibleStatus { .. }) => RecoveryVerdict::Incompatible,
            Err(RecoveryError::Other(_)) => RecoveryVerdict::Failed,
        }),
{
    match answer {
        Ok(_) => RecoveryVerdict::Recovered,
        Err(RecoveryError::IncompatibleStatus { .. }) => RecoveryVerdict::Incompatible,
        Err(RecoveryError::Other(_)) => RecoveryVerdict::Failed,
    }
}

/// How an attempt to recover a run ends.
#[derive(Clone, Copy, PartialEq, Eq, Structural, Debug)]
pub enum ProcessingTargetOutcome {
    /// The run came to rest in a terminal phase.
    Recovered,
    /// Another processor is at work on the run.
    ActiveProcessor,
    /// The run is of another release line and stays where it is.
    Incompatible,
    /// The run is not in processing any more.
    NotFound,
    /// Recovery failed, and the failure was published under the lock.
    FailedPublished,
    /// Recovery failed, and so did publishing the failure.
    FailurePublishFailed,
    /// The lock could not be checked.
    LockError,
}

/// The next thing to do on the way to a recovery.
#[derive(Clone, Copy, PartialEq, Eq, Structural, Debug)]
pub enum RecoverStep {
    LookForProcessing,
    TryLock,
    Recover,
    /// See whether a failed recovery left the run in processing.
    LookAgain,
    PublishFailure,
    ReleaseLock(ProcessingTargetOutcome),
    Over(ProcessingTargetOutcome),
}

/// What doing it gave.
#[derive(Clone, Copy, PartialEq, Eq, Structural, Debug)]
pub enum RecoverEvent {
    Found(bool),
    Locked(ProcessorLockAttempt),
    LockError,
    Recovered(RecoveryVerdict),
    Done(bool),
}

/// The step behind an event. An event that does not belong to the step leaves it as
/// it is.
pub open spec fn recover_after(step: RecoverStep, event: RecoverEvent) -> RecoverStep {
    match (step, event) {
        (RecoverStep::LookForProcessing, RecoverEvent::Found(there)) => if there {
            RecoverStep::TryLock
        } else {
            RecoverStep::Over(ProcessingTargetOutcome::NotFound)
        },
        (RecoverStep::TryLock, RecoverEvent::Locked(attempt)) => match attempt {
            ProcessorLockAttempt::Acquired => RecoverStep::Recover,
            ProcessorLockAttempt::Busy => RecoverStep::Over(
                ProcessingTargetOutcome::ActiveProcessor,
            ),
            ProcessorLockAttempt::Missing => RecoverStep::Over(ProcessingTargetOutcome::NotFound),
        },
        (RecoverStep::TryLock, RecoverEvent::LockError) => RecoverStep::Over(
            ProcessingTargetOutcome::LockError,
        ),
        (RecoverStep::Recover, RecoverEvent::Recovered(verdict)) => match verdict {
            RecoveryVerdict::Recovered => RecoverStep::ReleaseLock(
                ProcessingTargetOutcome::Recovered,
            ),
            RecoveryVerdict::Incompatible => RecoverStep::ReleaseLock(
                ProcessingTargetOutcome::Incompatible,
            ),
            RecoveryVerdict::Failed => RecoverStep::LookAgain,
        },
        (RecoverStep::LookAgain, RecoverEvent::Found(there)) => if there {
            RecoverStep::PublishFailure
        } else {
            RecoverStep::ReleaseLock(ProcessingTargetOutcome::FailedPublished)
        },
        (RecoverStep::PublishFailure, RecoverEvent::Done(ok)) => RecoverStep::ReleaseLock(
            if ok {
                ProcessingTargetOutcome::FailedPublished
            } else {
                ProcessingTargetOutcome::FailurePublishFailed
            },
        ),
        (RecoverStep::ReleaseLock(end), RecoverEvent::Done(_)) => RecoverStep::Over(end),
        _ => step,
    }
}

/// The step of a recovery behind the given one. A recovery starts with
/// `RecoverStep::LookForProcessing`. Nothing is done while another process holds the
/// lock, and a failure is published before the lock is released.
pub fn recover_processing_run_if_unlocked(step: RecoverStep, event: RecoverEvent) -> (next:
    RecoverStep)
    ensures
        next == recover_after(step, event),
{
    match (step, event) {
        (RecoverStep::LookForProcessing, RecoverEvent::Found(there)) => if there {
            RecoverStep::TryLock
        } else {
            RecoverStep::Over(ProcessingTargetOutcome::NotFound)
        },
        (RecoverStep::TryLock, RecoverEvent::Locked(attempt)) => match attempt {
            ProcessorLockAttempt::Acquired => RecoverStep::Recover,
            ProcessorLockAttempt::Busy => RecoverStep::Over(
                ProcessingTargetOutcome::ActiveProcessor,
            ),
            ProcessorLockAttempt::Missing => RecoverStep::Over(ProcessingTargetOutcome::NotFound),
        },
        (RecoverStep::TryLock, RecoverEvent::LockError) => RecoverStep::Over(
            ProcessingTargetOutcome::LockError,
        ),
        (RecoverStep::Recover, RecoverEvent::Recovered(verdict)) => match verdict {
            RecoveryVerdict::Recovered => RecoverStep::ReleaseLock(
                ProcessingTargetOutcome::Recovered,
            ),
            RecoveryVerdict::Incompatible => RecoverStep::ReleaseLock(
                ProcessingTargetOutcome::Incompatible,
            ),
            RecoveryVerdict::Failed => RecoverStep::LookAgain,
        },
        (RecoverStep::LookAgain, RecoverEvent::Found(there)) => if there {
            RecoverStep::PublishFailure
        } else {
            RecoverStep::ReleaseLock(ProcessingTargetOutcome::FailedPublished)
        },
        (RecoverStep::PublishFailure, RecoverEvent::Done(ok)) => {
            let end = if ok {
                ProcessingTargetOutcome::FailedPublished
            } else {
                ProcessingTargetOutcome::FailurePublishFailed
            };
            RecoverStep::ReleaseLock(end)
        },
        (RecoverStep::ReleaseLock(end), RecoverEvent::Done(_)) => RecoverStep::Over(end),
        (step, _) => step,
    }
}

/// Why the lock of a run in processing could not be checked.
pub fn recovery_lock_message(nickname: &Nickname, run_id: &RunId, detail: &str) -> (m: String)
    ensures
        m@ == "failed to check processor lock on processing run "@ + nickname@ + "/"@ + run_id@
            + ": "@ + detail@,
{
    let mut m = text::cat5(
        "failed to check processor lock on processing run ",
        nickname.as_str(),
        "/",
        run_id.as_str(),
        ": ",
    );
    m.append(detail);
    m
}

/// The error under which a failed recovery is published.
pub fn recovery_failure_message(error: &Failure) -> (m: String)
    ensures
        m@ == "processing recovery failed: "@ + error.message@,
{
    text::cat2("processing recovery failed: ", error.message.as_str())
}

// ---------------------------------------------------------------------------
// Laws of recovery
// ---------------------------------------------------------------------------

/// A recovery on its way, with what its events say of the world: whether the lock is
/// held, and whether the run was touched.
pub struct RecoverHistory {
    pub step: RecoverStep,
    pub locked: bool,
    pub touched: bool,
}

/// What an event adds to the history of a recovery.
pub open spec fn recover_observe(h: RecoverHistory, event: RecoverEvent) -> RecoverHistory {
    RecoverHistory {
        step: recover_after(h.step, event),
        locked: match (h.step, event) {
            (
                RecoverStep::TryLock,
                RecoverEvent::Locked(ProcessorLockAttempt::Acquired),
            ) => true,
            (RecoverStep::ReleaseLock(_), RecoverEvent::Done(_)) => false,
            _ => h.locked,
        },
        touched: match (h.step, event) {
            (RecoverStep::Recover, RecoverEvent::Recovered(verdict)) => !(
            verdict is Incompatible),
            (RecoverStep::PublishFailure, RecoverEvent::Done(_)) => true,
            _ => h.touched,
        },
    }
}

/// The history of a recovery after a number of events.
pub open spec fn recover_history(events: Seq<RecoverEvent>) -> RecoverHistory
    decreases events.len(),
{
    if events.len() == 0 {
        RecoverHistory { step: RecoverStep::LookForProcessing, locked: false, touched: false }
    } else {
        recover_observe(recover_history(events.drop_last()), events.last())
    }
}

spec fn untouched_end(end: ProcessingTargetOutcome) -> bool {
    end is ActiveProcessor || end is NotFound || end is LockError || end is Incompatible
}

spec fn history_fits(h: RecoverHistory) -> bool {
    match h.step {
        RecoverStep::LookForProcessing | RecoverStep::TryLock => !h.locked && !h.touched,
        RecoverStep::Recover => h.locked && !h.touched,
        RecoverStep::LookAgain | RecoverStep::PublishFailure => h.locked,
        RecoverStep::ReleaseLock(end) => h.locked && (untouched_end(end) ==> !h.touched),
        RecoverStep::Over(end) => !h.locked && (untouched_end(end) ==> !h.touched),
    }
}

proof fn lemma_history_fits(events: Seq<RecoverEvent>)
    ensures
        history_fits(recover_history(events)),
    decreases events.len(),
{
    if events.len() > 0 {
        lemma_history_fits(events.drop_last());
    }
}

/// A run is recovered, and its failure published, only under the lock; a recovery
/// that is over has released it.
pub proof fn recovery_happens_under_the_lock(events: Seq<RecoverEvent>)
    ensures
        recover_history(events).step is Recover || recover_history(events).step is PublishFailure
            ==> recover_history(events).locked,
        recover_history(events).step is Over ==> !recover_history(events).locked,
{
    lemma_history_fits(events);
}

/// A run on which another processor is at work, and a run of another release line,
/// are left exactly as they were found.
pub proof fn busy_and_foreign_runs_are_left_alone(events: Seq<RecoverEvent>)
    ensures
        recover_history(events).step matches RecoverStep::Over(end) ==> (end is ActiveProcessor
            || end is Incompatible || end is LockError ==> !recover_history(events).touched),
{
    lemma_history_fits(events);
}

/// How many steps a recovery still needs at most.
pub open spec fn recover_distance(step: RecoverStep) -> nat {
    match step {
        RecoverStep::LookForProcessing => 6,
        RecoverStep::TryLock => 5,
        RecoverStep::Recover => 4,
        RecoverStep::LookAgain => 3,
        RecoverStep::PublishFailure => 2,
        RecoverStep::ReleaseLock(_) => 1,
        RecoverStep::Over(_) => 0,
    }
}

/// An event that reports on the step.
pub open spec fn answers(step: RecoverStep, event: RecoverEvent) -> bool {
    match step {
        RecoverStep::LookForProcessing | RecoverStep::LookAgain => event is Found,
        RecoverStep::TryLock => event is Locked || event is LockError,
        RecoverStep::Recover => event is Recovered,
        RecoverStep::PublishFailure | RecoverStep::ReleaseLock(_) => event is Done,
        RecoverStep::Over(_) => false,
    }
}

/// Every report brings a recovery nearer to its end.
pub proof fn recoveries_end(step: RecoverStep, event: RecoverEvent)
    requires
        answers(step, event),
    ensures
        recover_distance(recover_after(step, event)) < recover_distance(step),
{
}

/// A run that was interrupted after its status was published is not processed again:
/// recovery moves it to where the published state belongs.
pub proof fn published_runs_are_only_moved(
    document: Document<RunStatus>,
    status: RunStatus,
    nickname: Seq<char>,
    run_id: Seq<char>,
    outcomes: Seq<crate::entry::EntryOutcome>,
    status_path: Seq<char>,
)
    requires
        process::is_status_of(status, nickname, run_id, outcomes),
        document.version@ == version::ProbeView::Version(status.purgery_version@),
        document.parsed == Ok::<RunStatus, String>(status),
    ensures
        recovery_plan(Lookup::Found(document), nickname, run_id, status_path)
            == RecoveryPlanView::Settle(
            process::state_of(process::imported_count(outcomes), outcomes.len() as int),
        ),
{
    version::own_version_is_compatible();
}

/// A run that was interrupted after its failure was published comes to rest in
/// failed.
pub proof fn published_failures_are_only_moved(
    document: Document<RunStatus>,
    status: RunStatus,
    nickname: Seq<char>,
    run_id: Seq<char>,
    error: Seq<char>,
    status_path: Seq<char>,
)
    requires
        phases::is_failure_status(status, nickname, run_id, error),
        document.version@ == version::ProbeView::Version(status.purgery_version@),
        document.parsed == Ok::<RunStatus, String>(status),
    ensures
        recovery_plan(Lookup::Found(document), nickname, run_id, status_path)
            == RecoveryPlanView::Settle(RunState::Failed),
{
    version::own_version_is_compatible();
}

/// A status of another release line is never replaced: the run is refused, and the
/// plan asks for no change.
pub proof fn foreign_statuses_are_refused(
    document: Document<RunStatus>,
    nickname: Seq<char>,
    run_id: Seq<char>,
    status_path: Seq<char>,
    carried_out: Result<(), ProcessingError>,
)
    requires
        document.version@ is Missing || (document.version@ matches version::ProbeView::Version(v)
            && !version::compatible(v)),
    ensures
        recovery_plan(Lookup::Found(document), nickname, run_id, status_path) is Refuse,
        recovery_answer_view(
            recovery_plan(Lookup::Found(document), nickname, run_id, status_path),
            carried_out,
        ) matches Err(RecoveryErrorView::IncompatibleStatus { .. }),
{
}

/// A recovery on its way, with what was reported of each of its steps: whether the run was
/// there, how the trial to lock ended (an empty answer: it failed), how the recovery went,
/// whether the run was still there, whether its failure was published, and whether the
/// lock was released.
pub struct RecoverRecord {
    pub step: RecoverStep,
    pub found: Option<bool>,
    pub lock: Option<Option<ProcessorLockAttempt>>,
    pub verdict: Option<RecoveryVerdict>,
    pub left: Option<bool>,
    pub published: Option<bool>,
    pub released: bool,
}

/// The record of a recovery after a number of events.
pub open spec fn recover_record(events: Seq<RecoverEvent>) -> RecoverRecord
    decreases events.len(),
{
    if events.len() == 0 {
        RecoverRecord {
            step: RecoverStep::LookForProcessing,
            found: None,
            lock: None,
            verdict: None,
            left: None,
            published: None,
            released: false,
        }
    } else {
        let r = recover_record(events.drop_last());
        let at = RecoverRecord { step: recover_after(r.step, events.last()), ..r };
        match (r.step, events.last()) {
            (RecoverStep::LookForProcessing, RecoverEvent::Found(there)) => RecoverRecord {
                found: Some(there),
                ..at
            },
            (RecoverStep::TryLock, RecoverEvent::Locked(attempt)) => RecoverRecord {
                lock: Some(Some(attempt)),
                ..at
            },
            (RecoverStep::TryLock, RecoverEvent::LockError) => RecoverRecord {
                lock: Some(None),
                ..at
            },
            (RecoverStep::Recover, RecoverEvent::Recovered(verdict)) => RecoverRecord {
                verdict: Some(verdict),
                ..at
            },
            (RecoverStep::LookAgain, RecoverEvent::Found(there)) => RecoverRecord {
                left: Some(there),
                ..at
            },
            (RecoverStep::PublishFailure, RecoverEvent::Done(ok)) => RecoverRecord {
                published: Some(ok),
                ..at
            },
            (RecoverStep::ReleaseLock(_), RecoverEvent::Done(_)) => RecoverRecord {
                released: true,
                ..at
            },
            _ => at,
        }
    }
}

/// Whether a recovery that was under the lock came to an end.
spec fn locked_end(r: RecoverRecord, end: ProcessingTargetOutcome) -> bool {
    &&& r.found == Some(true)
    &&& r.lock == Some(Some(ProcessorLockAttempt::Acquired))
    &&& match end {
        ProcessingTargetOutcome::Recovered => r.verdict == Some(RecoveryVerdict::Recovered)
            && r.left is None && r.published is None,
        ProcessingTargetOutcome::Incompatible => r.verdict == Some(RecoveryVerdict::Incompatible)
            && r.left is None && r.published is None,
        ProcessingTargetOutcome::FailedPublished => r.verdict == Some(RecoveryVerdict::Failed) && (
        r.left == Some(false) && r.published is None || r.left == Some(true) && r.published == Some(
            true,
        )),
        ProcessingTargetOutcome::FailurePublishFailed => r.verdict == Some(RecoveryVerdict::Failed)
            && r.left == Some(true) && r.published == Some(false),
        _ => false,
    }
}

spec fn record_fits(r: RecoverRecord) -> bool {
    let fresh = r.verdict is None && r.left is None && r.published is None && !r.released;
    let locked = r.found == Some(true) && r.lock == Some(Some(ProcessorLockAttempt::Acquired));
    match r.step {
        RecoverStep::LookForProcessing => r.found is None && r.lock is None && fresh,
        RecoverStep::TryLock => r.found == Some(true) && r.lock is None && fresh,
        RecoverStep::Recover => locked && fresh,
        RecoverStep::LookAgain => locked && r.verdict == Some(RecoveryVerdict::Failed) && r.left
            is None && r.published is None && !r.released,
        RecoverStep::PublishFailure => locked && r.verdict == Some(RecoveryVerdict::Failed)
            && r.left == Some(true) && r.published is None && !r.released,
        RecoverStep::ReleaseLock(end) => locked_end(r, end) && !r.released,
        RecoverStep::Over(end) => match end {
            ProcessingTargetOutcome::NotFound => fresh && (r.found == Some(false) && r.lock is None
                || r.found == Some(true) && r.lock == Some(Some(ProcessorLockAttempt::Missing))),
            ProcessingTargetOutcome::ActiveProcessor => fresh && r.found == Some(true) && r.lock
                == Some(Some(ProcessorLockAttempt::Busy)),
            ProcessingTargetOutcome::LockError => fresh && r.found == Some(true) && r.lock == Some(
                None::<ProcessorLockAttempt>,
            ),
            _ => locked_end(r, end) && r.released,
        },
    }
}

proof fn lemma_record_fits(events: Seq<RecoverEvent>)
    ensures
        record_fits(recover_record(events)),
    decreases events.len(),
{
    if events.len() > 0 {
        lemma_record_fits(events.drop_last());
    }
}

/// The end of a recovery tells what happened. A run counts as recovered if and only if its
/// recovery under the lock succeeded; as failed only if the recovery failed and either the
/// failure was published or the run had left processing; and a run that is gone, held by
/// another or of another release line was left as it was. A lock that was got is released.
pub proof fn recoveries_tell_what_happened(events: Seq<RecoverEvent>)
    ensures
        ({
            let r = recover_record(events);
            let locked = r.lock == Some(Some(ProcessorLockAttempt::Acquired));
            r.step matches RecoverStep::Over(end) ==> {
                &&& r.released <==> locked
                &&& r.verdict is Some <==> locked
                &&& end is Recovered <==> r.verdict == Some(RecoveryVerdict::Recovered)
                &&& end is Incompatible <==> r.verdict == Some(RecoveryVerdict::Incompatible)
                &&& end is FailedPublished <==> r.verdict == Some(RecoveryVerdict::Failed) && (r.left
                    == Some(false) || r.published == Some(true))
                &&& end is FailurePublishFailed <==> r.verdict == Some(RecoveryVerdict::Failed)
                    && r.published == Some(false)
                &&& r.published is Some <==> r.left == Some(true)
                &&& r.left is Some <==> r.verdict == Some(RecoveryVerdict::Failed)
                &&& end is ActiveProcessor <==> r.lock == Some(Some(ProcessorLockAttempt::Busy))
                &&& end is LockError <==> r.lock == Some(None::<ProcessorLockAttempt>)
                &&& end is NotFound <==> r.found == Some(false) || r.lock == Some(
                    Some(ProcessorLockAttempt::Missing),
                )
            }
        }),
{
    lemma_record_fits(events);
}

/// What an interrupted run needs follows from its status file. Without one it is processed
/// again, and only so; one that cannot be looked at decides nothing; one without a version
/// of this release line is left alone; one that cannot be read or belongs to another run
/// fails the run; and any other moves it to where its state belongs.
pub proof fn interrupted_runs_go_by_their_status(
    status: Lookup<RunStatus>,
    nickname: Seq<char>,
    run_id: Seq<char>,
    status_path: Seq<char>,
    state: RunState,
)
    ensures
        ({
            let plan = recovery_plan(status, nickname, run_id, status_path);
            &&& plan is Replay <==> status is Missing
            &&& plan is GiveUp <==> status is Unreadable
            &&& plan is Refuse <==> (status matches Lookup::Found(document) && match document.version@ {
                version::ProbeView::Missing => true,
                version::ProbeView::Version(v) => !"0.1."@.is_prefix_of(v),
                version::ProbeView::Invalid(_) => false,
            })
            &&& plan == RecoveryPlanView::Settle(state) <==> (status matches Lookup::Found(document)
                && (document.version@ matches version::ProbeView::Version(v)
                && "0.1."@.is_prefix_of(v)) && (document.parsed matches Ok(published)
                && published.nickname@ == nickname && published.run_id@ == run_id && published.state
                == state))
            &&& plan is Fail <==> (status matches Lookup::Found(document) && match document.version@ {
                version::ProbeView::Missing => false,
                version::ProbeView::Version(v) => "0.1."@.is_prefix_of(v) && (
                document.parsed matches Ok(published) ==> published.nickname@ != nickname
                    || published.run_id@ != run_id),
                version::ProbeView::Invalid(_) => true,
            })
        }),
{
    match status {
        Lookup::Found(document) => match document.version@ {
            version::ProbeView::Version(v) => {
                version::compatible_versions_begin_alike(v);
            },
            _ => {},
        },
        _ => {},
    }
}

/// A recovery succeeds if and only if its plan was one to carry out and was carried out.
pub proof fn recoveries_succeed_with_their_plan(
    plan: RecoveryPlanView,
    carried_out: Result<(), ProcessingError>,
)
    ensures
        recovery_answer_view(plan, carried_out) is Ok <==> carried_out is Ok && (plan is Replay
            || plan is Fail || plan is Settle),
        (recovery_answer_view(plan, carried_out) matches Err(
            RecoveryErrorView::IncompatibleStatus { .. },
        )) <==> plan is Refuse || !(plan is GiveUp) && (carried_out matches Err(
            ProcessingError::Incompatible { .. },
        )),
{
}

/// Plans and errors of a recovery are told in full.
pub proof fn recoveries_keep_their_words(plan: RecoveryPlan, error: RecoveryError)
    ensures
        plan is Replay <==> plan@ is Replay,
        plan matches RecoveryPlan::Settle(state) ==> plan@ == RecoveryPlanView::Settle(state),
        plan matches RecoveryPlan::Refuse { message } ==> plan@ == (RecoveryPlanView::Refuse {
            message: message@,
        }),
        plan matches RecoveryPlan::Fail { message } ==> plan@ == (RecoveryPlanView::Fail {
            message: message@,
        }),
        plan matches RecoveryPlan::GiveUp(failure) ==> plan@ == RecoveryPlanView::GiveUp(failure@),
        error matches RecoveryError::IncompatibleStatus { message } ==> error@ == (
        RecoveryErrorView::IncompatibleStatus { message: message@ }),
        error matches RecoveryError::Other(failure) ==> error@ == RecoveryErrorView::Other(failure@),
{
}

} // verus!
