//! Moving runs between phases: locks, leases, beginning and finishing uploads, and
//! the steps by which a run comes to rest in a terminal phase.

use vstd::prelude::*;

use crate::failure;
use crate::failure::Failure;
use crate::model::{
    LeaseFile, Lookup, Nickname, RunId, RunPhase, RunState, RunStatus, ServerConfig,
};
use crate::paths;
use crate::protocol::BeginRunResponse;
use crate::text;
use crate::version;
use crate::version::{
    current_purgery_version, VersionProbe, LEASE_FILE_VERSION, PROTOCOL_VERSION,
};

verus! {

// ---------------------------------------------------------------------------
// The processor lock
// ---------------------------------------------------------------------------

/// What asking the system for an exclusive, non-blocking lock gave.
#[derive(Debug)]
pub enum FlockReply {
    Granted,
    WouldBlock,
    Refused(String),
}

/// Outcome of trying to lock a run directory.
#[derive(Clone, Copy, PartialEq, Eq, Structural, Debug)]
pub enum ProcessorLockAttempt {
    /// The lock is held. The caller may change the run.
    Acquired,
    /// Another process holds the lock. The caller must not touch the run.
    Busy,
    /// The directory is gone. The caller looks again where the run is.
    Missing,
}

/// What was seen while trying to lock a run directory: whether the directory is
/// there, whether its lock file could be opened, and the system's reply.
#[derive(Debug)]
pub struct LockTrial {
    pub directory_exists: bool,
    pub opened: Result<(), String>,
    pub reply: FlockReply,
}

/// What a trial to lock must come to.
pub open spec fn lock_attempt(trial: LockTrial, lock_path: Seq<char>) -> Result<
    ProcessorLockAttempt,
    failure::FailureView,
> {
    if !trial.directory_exists {
        Ok(ProcessorLockAttempt::Missing)
    } else {
        match trial.opened {
            Err(error) => Err(
                failure::plain(
                    "failed to open processor lock file "@ + lock_path + ": "@ + error@,
                ),
            ),
            Ok(_) => match trial.reply {
                FlockReply::Granted => Ok(ProcessorLockAttempt::Acquired),
                FlockReply::WouldBlock => Ok(ProcessorLockAttempt::Busy),
                FlockReply::Refused(error) => Err(
                    failure::caused("failed to lock processor: "@ + lock_path, error@),
                ),
            },
        }
    }
}

/// Judges a trial to lock an existing run directory.
pub fn try_lock_existing_run_dir_processor(trial: &LockTrial, lock_path: &str) -> (r: Result<
    ProcessorLockAttempt,
    Failure,
>)
    ensures
        failure::agrees(r, lock_attempt(*trial, lock_path@)),
{
    if !trial.directory_exists {
        return Ok(ProcessorLockAttempt::Missing);
    }
    match &trial.opened {
        Err(error) => Err(
            Failure::new(
                text::cat4(
                    "failed to open processor lock file ",
                    lock_path,
                    ": ",
                    error.as_str(),
                ),
            ),
        ),
        Ok(_) => match &trial.reply {
            FlockReply::Granted => Ok(ProcessorLockAttempt::Acquired),
            FlockReply::WouldBlock => Ok(ProcessorLockAttempt::Busy),
            FlockReply::Refused(error) => Err(
                Failure::with_cause(
                    text::cat2("failed to lock processor: ", lock_path),
                    error.as_str(),
                ),
            ),
        },
    }
}

/// What opening the lock file without creating it gave.
#[derive(Debug)]
pub enum LockFileOpen {
    Opened,
    NotFound,
    Refused(String),
}

/// What was seen while probing a lock: whether the run directory and its lock file
/// are there, whether the file could be opened, and the system's reply.
#[derive(Debug)]
pub struct LockProbeTrial {
    pub directory_exists: bool,
    pub file_exists: bool,
    pub opened: LockFileOpen,
    pub reply: FlockReply,
}

/// What probing a lock must say: nothing without a directory, otherwise whether a
/// processor is active.
pub open spec fn lock_probe(trial: LockProbeTrial, lock_path: Seq<char>) -> Result<
    Option<bool>,
    failure::FailureView,
> {
    if !trial.directory_exists {
        Ok(None)
    } else if !trial.file_exists {
        Ok(Some(false))
    } else {
        match trial.opened {
            LockFileOpen::NotFound => Ok(Some(false)),
            LockFileOpen::Refused(error) => Err(
                failure::plain(
                    "failed to open processor lock for probe: "@ + lock_path + ": "@ + error@,
                ),
            ),
            LockFileOpen::Opened => match trial.reply {
                FlockReply::Granted => Ok(Some(false)),
                FlockReply::WouldBlock => Ok(Some(true)),
                FlockReply::Refused(error) => Err(
                    failure::caused("failed to probe processor lock: "@ + lock_path, error@),
                ),
            },
        }
    }
}

/// Judges a probe of the lock. A probe never creates the lock file: without one, or
/// with a free one, no processor is active.
pub fn probe_processor_lock_readonly(trial: &LockProbeTrial, lock_path: &str) -> (r: Result<
    Option<bool>,
    Failure,
>)
    ensures
        failure::agrees(r, lock_probe(*trial, lock_path@)),
{
    if !trial.directory_exists {
        return Ok(None);
    }
    if !trial.file_exists {
        return Ok(Some(false));
    }
    match &trial.opened {
        LockFileOpen::NotFound => Ok(Some(false)),
        LockFileOpen::Refused(error) => Err(
            Failure::new(
                text::cat4(
                    "failed to open processor lock for probe: ",
                    lock_path,
                    ": ",
                    error.as_str(),
                ),
            ),
        ),
        LockFileOpen::Opened => match &trial.reply {
            FlockReply::Granted => Ok(Some(false)),
            FlockReply::WouldBlock => Ok(Some(true)),
            FlockReply::Refused(error) => Err(
                Failure::with_cause(
                    text::cat2("failed to probe processor lock: ", lock_path),
                    error.as_str(),
                ),
            ),
        },
    }
}

// ---------------------------------------------------------------------------
// Statuses and the way to a terminal phase
// ---------------------------------------------------------------------------

/// Whether a status records that a run as a whole failed.
pub open spec fn is_failure_status(
    status: RunStatus,
    nickname: Seq<char>,
    run_id: Seq<char>,
    error: Seq<char>,
) -> bool {
    &&& status.purgery_version@ == version::current_version()
    &&& status.belongs_to(nickname, run_id)
    &&& status.state is Failed
    &&& status.entries@.len() == 0
    &&& text::opt_text(status.error) == Some(error)
}

/// The status of a run that failed as a whole.
pub fn failure_status(nickname: &Nickname, run_id: &RunId, error: &str) -> (status: RunStatus)
    ensures
        is_failure_status(status, nickname@, run_id@, error@),
{
    RunStatus {
        purgery_version: current_purgery_version().to_owned(),
        run_id: run_id.clone(),
        nickname: nickname.clone(),
        state: RunState::Failed,
        entries: Vec::new(),
        error: Some(error.to_owned()),
    }
}

/// The status of an upload whose client stopped renewing its lease.
pub fn abandoned_status(nickname: &Nickname, run_id: &RunId) -> (status: RunStatus)
    ensures
        is_failure_status(
            status,
            nickname@,
            run_id@,
            "incoming lease expired before the run was finished"@,
        ),
{
    failure_status(nickname, run_id, "incoming lease expired before the run was finished")
}

/// The steps by which a run directory moves to another phase. A step is carried out
/// and its success reported; the lock file is removed at the end, and whether that
/// succeeds does not matter.
#[derive(Clone, Copy, PartialEq, Eq, Structural, Debug)]
pub enum MoveStep {
    CreateParent,
    Rename,
    RemoveLock,
    Finished,
    ParentFailed,
    RenameFailed,
}

impl MoveStep {
    pub open spec fn after(self, ok: bool) -> MoveStep {
        match self {
            MoveStep::CreateParent => if ok {
                MoveStep::Rename
            } else {
                MoveStep::ParentFailed
            },
            MoveStep::Rename => if ok {
                MoveStep::RemoveLock
            } else {
                MoveStep::RenameFailed
            },
            MoveStep::RemoveLock => MoveStep::Finished,
            other => other,
        }
    }

    pub open spec fn over(self) -> bool {
        self is Finished || self is ParentFailed || self is RenameFailed
    }

    /// The step behind this one.
    pub fn advance(self, ok: bool) -> (next: MoveStep)
        ensures
            next == self.after(ok),
    {
        match self {
            MoveStep::CreateParent => if ok {
                MoveStep::Rename
            } else {
                MoveStep::ParentFailed
            },
            MoveStep::Rename => if ok {
                MoveStep::RemoveLock
            } else {
                MoveStep::RenameFailed
            },
            MoveStep::RemoveLock => MoveStep::Finished,
            other => other,
        }
    }
}

/// The phase to which a processed run moves.
pub fn finalize_processing_run(state: RunState) -> (phase: RunPhase)
    ensures
        phase == state.resting_phase(),
        phase.is_terminal(),
{
    match state {
        RunState::Done | RunState::Partial => RunPhase::Done,
        RunState::Failed => RunPhase::Failed,
    }
}

/// What went wrong when a run could not be moved to its terminal phase.
pub fn finalize_message(step: MoveStep, phase: RunPhase, from: &str, to: &str, parent: &str) -> (m:
    String)
    ensures
        m@ == (if step is ParentFailed {
            "failed to create "@ + phase.name() + " parent: "@ + parent@
        } else {
            "failed to move run to "@ + phase.name() + ": "@ + from@ + " -> "@ + to@
        }),
{
    match step {
        MoveStep::ParentFailed => text::cat4("failed to create ", phase.as_str(), " parent: ", parent),
        _ => {
            let mut m = text::cat5("failed to move run to ", phase.as_str(), ": ", from, " -> ");
            m.append(to);
            m
        },
    }
}

/// How a failed run gets out of the way: not at all if it is not being processed,
/// otherwise by moving it to failed.
pub fn move_to_failed(processing_exists: bool) -> (step: MoveStep)
    ensures
        step == (if processing_exists {
            MoveStep::CreateParent
        } else {
            MoveStep::Finished
        }),
{
    if processing_exists {
        MoveStep::CreateParent
    } else {
        MoveStep::Finished
    }
}

/// The steps by which the failure of a run as a whole is published: the status is
/// written beside its place and renamed into it, and only then does the run move.
#[derive(Clone, Copy, PartialEq, Eq, Structural, Debug)]
pub enum FailureStep {
    WriteStatus,
    PublishStatus,
    Move(MoveStep),
    WriteFailed,
    PublishFailed,
}

impl FailureStep {
    pub open spec fn after(self, ok: bool) -> FailureStep {
        match self {
            FailureStep::WriteStatus => if ok {
                FailureStep::PublishStatus
            } else {
                FailureStep::WriteFailed
            },
            FailureStep::PublishStatus => if ok {
                FailureStep::Move(MoveStep::CreateParent)
            } else {
                FailureStep::PublishFailed
            },
            FailureStep::Move(step) => FailureStep::Move(step.after(ok)),
            other => other,
        }
    }

    pub open spec fn over(self) -> bool {
        match self {
            FailureStep::Move(step) => step.over(),
            FailureStep::WriteFailed | FailureStep::PublishFailed => true,
            _ => false,
        }
    }

    pub open spec fn succeeded(self) -> bool {
        self == FailureStep::Move(MoveStep::Finished)
    }

    /// The step behind this one.
    pub fn advance(self, ok: bool) -> (next: FailureStep)
        ensures
            next == self.after(ok),
    {
        match self {
            FailureStep::WriteStatus => if ok {
                FailureStep::PublishStatus
            } else {
                FailureStep::WriteFailed
            },
            FailureStep::PublishStatus => if ok {
                FailureStep::Move(MoveStep::CreateParent)
            } else {
                FailureStep::PublishFailed
            },
            FailureStep::Move(step) => FailureStep::Move(step.advance(ok)),
            other => other,
        }
    }
}

/// The first step of publishing the failure of a run, together with its status.
pub fn write_run_failure(nickname: &Nickname, run_id: &RunId, error: &str) -> (start: (
    FailureStep,
    RunStatus,
))
    ensures
        start.0 is WriteStatus,
        is_failure_status(start.1, nickname@, run_id@, error@),
{
    (FailureStep::WriteStatus, failure_status(nickname, run_id, error))
}

/// What went wrong when a failure could not be published.
pub open spec fn run_failure_text(
    step: FailureStep,
    processing: Seq<char>,
    failed: Seq<char>,
    tmp: Seq<char>,
    status: Seq<char>,
    parent: Seq<char>,
) -> Seq<char> {
    match step {
        FailureStep::WriteFailed => "failed to write temporary run failure status: "@ + tmp,
        FailureStep::PublishFailed => "failed to finalize run failure status: "@ + status,
        FailureStep::Move(MoveStep::ParentFailed) => "failed to create failed parent: "@ + parent,
        _ => "failed to move run-level failure to failed: "@ + processing + " -> "@ + failed,
    }
}

/// What went wrong when a failure could not be published.
pub fn run_failure_message(
    step: FailureStep,
    processing: &str,
    failed: &str,
    tmp: &str,
    status: &str,
    parent: &str,
) -> (m: String)
    ensures
        m@ == run_failure_text(step, processing@, failed@, tmp@, status@, parent@),
{
    match step {
        FailureStep::WriteFailed => text::cat2(
            "failed to write temporary run failure status: ",
            tmp,
        ),
        FailureStep::PublishFailed => text::cat2("failed to finalize run failure status: ", status),
        FailureStep::Move(MoveStep::ParentFailed) => text::cat2(
            "failed to create failed parent: ",
            parent,
        ),
        _ => text::cat4(
            "failed to move run-level failure to failed: ",
            processing,
            " -> ",
            failed,
        ),
    }
}

/// The step that publishing a failure has reached after a number of reports.
pub open spec fn failure_step(reports: Seq<bool>) -> FailureStep
    decreases reports.len(),
{
    if reports.len() == 0 {
        FailureStep::WriteStatus
    } else {
        failure_step(reports.drop_last()).after(reports.last())
    }
}

/// A run moves to failed only behind a status that was written and published.
pub proof fn failures_are_published_before_the_move(reports: Seq<bool>)
    requires
        failure_step(reports) is Move,
    ensures
        reports.len() >= 2,
        reports[0],
        reports[1],
    decreases reports.len(),
{
    let before = reports.drop_last();
    match failure_step(before) {
        FailureStep::Move(_) => {
            failures_are_published_before_the_move(before);
        },
        FailureStep::PublishStatus => {
            lemma_publishing_follows_writing(before);
        },
        _ => {},
    }
}

proof fn lemma_publishing_follows_writing(reports: Seq<bool>)
    requires
        failure_step(reports) is PublishStatus,
    ensures
        reports.len() == 1,
        reports[0],
    decreases reports.len(),
{
    let before = reports.drop_last();
    if before.len() > 0 {
        assert(failure_step(before) is WriteStatus);
        lemma_nothing_returns_to_writing(before);
    }
}

proof fn lemma_nothing_returns_to_writing(reports: Seq<bool>)
    requires
        reports.len() > 0,
    ensures
        !(failure_step(reports) is WriteStatus),
{
}

/// The steps by which an abandoned upload is failed: its failure is published where it
/// is, what was uploaded is removed, and only then does the run move to failed.
#[derive(Clone, Copy, PartialEq, Eq, Structural, Debug)]
pub enum AbandonStep {
    WriteStatus,
    PublishStatus,
    /// Remove the uploaded files with everything below. That there are none is a
    /// success.
    DropUpload,
    Move(MoveStep),
    WriteFailed,
    PublishFailed,
    DropFailed,
}

impl AbandonStep {
    pub open spec fn after(self, ok: bool) -> AbandonStep {
        match self {
            AbandonStep::WriteStatus => if ok {
                AbandonStep::PublishStatus
            } else {
                AbandonStep::WriteFailed
            },
            AbandonStep::PublishStatus => if ok {
                AbandonStep::DropUpload
            } else {
                AbandonStep::PublishFailed
            },
            AbandonStep::DropUpload => if ok {
                AbandonStep::Move(MoveStep::CreateParent)
            } else {
                AbandonStep::DropFailed
            },
            AbandonStep::Move(step) => AbandonStep::Move(step.after(ok)),
            other => other,
        }
    }

    /// The step behind this one.
    pub fn advance(self, ok: bool) -> (next: AbandonStep)
        ensures
            next == self.after(ok),
    {
        match self {
            AbandonStep::WriteStatus => if ok {
                AbandonStep::PublishStatus
            } else {
                AbandonStep::WriteFailed
            },
            AbandonStep::PublishStatus => if ok {
                AbandonStep::DropUpload
            } else {
                AbandonStep::PublishFailed
            },
            AbandonStep::DropUpload => if ok {
                AbandonStep::Move(MoveStep::CreateParent)
            } else {
                AbandonStep::DropFailed
            },
            AbandonStep::Move(step) => AbandonStep::Move(step.advance(ok)),
            other => other,
        }
    }
}

/// The first step of failing an abandoned upload, together with its status.
pub fn fail_abandoned_upload(nickname: &Nickname, run_id: &RunId) -> (start: (
    AbandonStep,
    RunStatus,
))
    ensures
        start.0 is WriteStatus,
        is_failure_status(
            start.1,
            nickname@,
            run_id@,
            "incoming lease expired before the run was finished"@,
        ),
{
    (AbandonStep::WriteStatus, abandoned_status(nickname, run_id))
}

/// What went wrong when an abandoned upload could not be failed. `files` is where the
/// upload lies.
pub fn abandon_message(
    step: AbandonStep,
    incoming: &str,
    failed: &str,
    files: &str,
    tmp: &str,
    status: &str,
    parent: &str,
) -> (m: String)
    ensures
        m@ == match step {
            AbandonStep::DropFailed => "failed to remove abandoned upload: "@ + files@,
            AbandonStep::WriteFailed => run_failure_text(
                FailureStep::WriteFailed,
                incoming@,
                failed@,
                tmp@,
                status@,
                parent@,
            ),
            AbandonStep::PublishFailed => run_failure_text(
                FailureStep::PublishFailed,
                incoming@,
                failed@,
                tmp@,
                status@,
                parent@,
            ),
            AbandonStep::Move(moving) => run_failure_text(
                FailureStep::Move(moving),
                incoming@,
                failed@,
                tmp@,
                status@,
                parent@,
            ),
            _ => run_failure_text(
                FailureStep::WriteStatus,
                incoming@,
                failed@,
                tmp@,
                status@,
                parent@,
            ),
        },
{
    let told = match step {
        AbandonStep::DropFailed => {
            return text::cat2("failed to remove abandoned upload: ", files);
        },
        AbandonStep::WriteFailed => FailureStep::WriteFailed,
        AbandonStep::PublishFailed => FailureStep::PublishFailed,
        AbandonStep::Move(moving) => FailureStep::Move(moving),
        _ => FailureStep::WriteStatus,
    };
    run_failure_message(told, incoming, failed, tmp, status, parent)
}

/// An abandoned upload on its way to failed, with what the reports say of the disk:
/// whether the failure status is in place, whether the uploaded files are there, and
/// whether the run is in failed.
pub struct AbandonHistory {
    pub step: AbandonStep,
    pub published: bool,
    pub files: bool,
    pub in_failed: bool,
}

/// The history of an abandoned upload after a number of reports.
pub open spec fn abandon_history(reports: Seq<bool>) -> AbandonHistory
    decreases reports.len(),
{
    if reports.len() == 0 {
        AbandonHistory {
            step: AbandonStep::WriteStatus,
            published: false,
            files: true,
            in_failed: false,
        }
    } else {
        let h = abandon_history(reports.drop_last());
        let ok = reports.last();
        AbandonHistory {
            step: h.step.after(ok),
            published: h.published || (h.step is PublishStatus && ok),
            files: h.files && !(h.step is DropUpload && ok),
            in_failed: h.in_failed || (h.step == AbandonStep::Move(MoveStep::Rename) && ok),
        }
    }
}

spec fn abandon_fits(h: AbandonHistory) -> bool {
    match h.step {
        AbandonStep::WriteStatus
        | AbandonStep::PublishStatus
        | AbandonStep::WriteFailed
        | AbandonStep::PublishFailed => !h.published && h.files && !h.in_failed,
        AbandonStep::DropUpload | AbandonStep::DropFailed => h.published && h.files
            && !h.in_failed,
        AbandonStep::Move(step) => h.published && !h.files && (h.in_failed <==> step is RemoveLock
            || step is Finished),
    }
}

proof fn lemma_abandon_fits(reports: Seq<bool>)
    ensures
        abandon_fits(abandon_history(reports)),
    decreases reports.len(),
{
    if reports.len() > 0 {
        lemma_abandon_fits(reports.drop_last());
    }
}

/// A run that was failed as abandoned is in failed with a published status and without
/// its upload.
pub proof fn abandoned_runs_lose_their_upload(reports: Seq<bool>)
    requires
        abandon_history(reports).step == AbandonStep::Move(MoveStep::Finished),
    ensures
        abandon_history(reports).in_failed,
        abandon_history(reports).published,
        !abandon_history(reports).files,
{
    lemma_abandon_fits(reports);
}

/// At no moment is an abandoned run in failed without a published status or with its
/// upload, and its upload is removed only behind a published status.
pub proof fn abandoned_runs_move_last(reports: Seq<bool>)
    ensures
        abandon_history(reports).in_failed ==> abandon_history(reports).published
            && !abandon_history(reports).files,
        !abandon_history(reports).files ==> abandon_history(reports).published,
{
    lemma_abandon_fits(reports);
}

/// A move has finished if and only if the parent was created and the run renamed, whatever
/// became of the lock file; a move that failed names the first of the two that did.
pub proof fn moves_finish_behind_the_rename(first: bool, second: bool, third: bool)
    ensures
        MoveStep::CreateParent.after(first).after(second).after(third) == (if !first {
            MoveStep::ParentFailed
        } else if !second {
            MoveStep::RenameFailed
        } else {
            MoveStep::Finished
        }),
        MoveStep::CreateParent.after(true) is Rename,
        MoveStep::CreateParent.after(true).after(true) is RemoveLock,
        MoveStep::CreateParent.after(first).after(second).after(third).over(),
        MoveStep::CreateParent.after(false).over(),
        MoveStep::CreateParent.after(true).after(false).over(),
        !MoveStep::CreateParent.after(true).over(),
        !MoveStep::CreateParent.after(true).after(true).over(),
{
}

/// The failure of a run is published if and only if its status was written and renamed
/// into its place and the run was moved, each of which was reported as done; otherwise the
/// first that was not is named, and nothing is done behind it.
pub proof fn failures_are_published_step_by_step(reports: Seq<bool>)
    ensures
        ({
            let n = reports.len();
            let step = failure_step(reports);
            &&& step is WriteStatus <==> n == 0
            &&& step is PublishStatus <==> n == 1 && reports[0]
            &&& step is WriteFailed <==> n >= 1 && !reports[0]
            &&& step is PublishFailed <==> n >= 2 && reports[0] && !reports[1]
            &&& step == FailureStep::Move(MoveStep::CreateParent) <==> n == 2 && reports[0]
                && reports[1]
            &&& step == FailureStep::Move(MoveStep::Rename) <==> n == 3 && reports[0] && reports[1]
                && reports[2]
            &&& step == FailureStep::Move(MoveStep::ParentFailed) <==> n >= 3 && reports[0]
                && reports[1] && !reports[2]
            &&& step == FailureStep::Move(MoveStep::RenameFailed) <==> n >= 4 && reports[0]
                && reports[1] && reports[2] && !reports[3]
            &&& step == FailureStep::Move(MoveStep::RemoveLock) <==> n == 4 && reports[0]
                && reports[1] && reports[2] && reports[3]
            &&& step.succeeded() <==> n >= 5 && reports[0] && reports[1] && reports[2] && reports[3]
            &&& step.over() <==> n >= 5 || exists|k: int| 0 <= k < n && k < 4 && !reports[k]
        }),
    decreases reports.len(),
{
    if reports.len() > 0 {
        let shorter = reports.drop_last();
        failures_are_published_step_by_step(shorter);
        assert(forall|k: int| 0 <= k < shorter.len() ==> shorter[k] == reports[k]);
        if exists|k: int| 0 <= k < shorter.len() && k < 4 && !shorter[k] {
            let k = choose|k: int| 0 <= k < shorter.len() && k < 4 && !shorter[k];
            assert(!reports[k]);
        }
    }
}

/// An abandoned upload is failed if and only if its status was written and published, its
/// files were removed, and it was moved, each of which was reported as done; otherwise the
/// first that was not is named.
pub proof fn abandoned_uploads_are_failed_step_by_step(reports: Seq<bool>)
    ensures
        ({
            let n = reports.len();
            let step = abandon_history(reports).step;
            &&& step is WriteStatus <==> n == 0
            &&& step is PublishStatus <==> n == 1 && reports[0]
            &&& step is DropUpload <==> n == 2 && reports[0] && reports[1]
            &&& step is WriteFailed <==> n >= 1 && !reports[0]
            &&& step is PublishFailed <==> n >= 2 && reports[0] && !reports[1]
            &&& step is DropFailed <==> n >= 3 && reports[0] && reports[1] && !reports[2]
            &&& step == AbandonStep::Move(MoveStep::CreateParent) <==> n == 3 && reports[0]
                && reports[1] && reports[2]
            &&& step == AbandonStep::Move(MoveStep::Rename) <==> n == 4 && reports[0] && reports[1]
                && reports[2] && reports[3]
            &&& step == AbandonStep::Move(MoveStep::ParentFailed) <==> n >= 4 && reports[0]
                && reports[1] && reports[2] && !reports[3]
            &&& step == AbandonStep::Move(MoveStep::RenameFailed) <==> n >= 5 && reports[0]
                && reports[1] && reports[2] && reports[3] && !reports[4]
            &&& step == AbandonStep::Move(MoveStep::RemoveLock) <==> n == 5 && reports[0]
                && reports[1] && reports[2] && reports[3] && reports[4]
            &&& step == AbandonStep::Move(MoveStep::Finished) <==> n >= 6 && reports[0]
                && reports[1] && reports[2] && reports[3] && reports[4]
        }),
    decreases reports.len(),
{
    if reports.len() > 0 {
        let shorter = reports.drop_last();
        abandoned_uploads_are_failed_step_by_step(shorter);
        assert(forall|k: int| 0 <= k < shorter.len() ==> shorter[k] == reports[k]);
    }
}

// ---------------------------------------------------------------------------
// Finding runs
// ---------------------------------------------------------------------------

/// A name in a directory.
#[derive(Debug)]
pub struct DirectoryName {
    pub name: String,
    pub is_dir: bool,
}

/// A name at the top of the work directory, with what its phase directories hold.
#[derive(Debug)]
pub struct ClientDirectory {
    pub entry: DirectoryName,
    pub ready: Vec<DirectoryName>,
    pub processing: Vec<DirectoryName>,
}

/// A directory whose name is a valid name.
pub open spec fn usable(entry: DirectoryName) -> bool {
    entry.is_dir && crate::model::valid_name(entry.name@)
}

/// The runs among the names of a phase directory.
pub open spec fn runs_among(client: Seq<char>, entries: Seq<DirectoryName>) -> Seq<
    (Seq<char>, Seq<char>),
>
    decreases entries.len(),
{
    if entries.len() == 0 {
        Seq::empty()
    } else if usable(entries.last()) {
        runs_among(client, entries.drop_last()).push((client, entries.last().name@))
    } else {
        runs_among(client, entries.drop_last())
    }
}

/// The entries of a client in one of the two phases that are worked on.
pub open spec fn phase_entries(client: ClientDirectory, ready: bool) -> Seq<DirectoryName> {
    if ready {
        client.ready@
    } else {
        client.processing@
    }
}

/// The runs of all clients in a phase.
pub open spec fn runs_in(clients: Seq<ClientDirectory>, ready: bool) -> Seq<(Seq<char>, Seq<char>)>
    decreases clients.len(),
{
    if clients.len() == 0 {
        Seq::empty()
    } else if usable(clients.last().entry) {
        runs_in(clients.drop_last(), ready) + runs_among(
            clients.last().entry.name@,
            phase_entries(clients.last(), ready),
        )
    } else {
        runs_in(clients.drop_last(), ready)
    }
}

/// Runs as characters.
pub open spec fn run_views(runs: Seq<(Nickname, RunId)>) -> Seq<(Seq<char>, Seq<char>)> {
    runs.map_values(|run: (Nickname, RunId)| (run.0@, run.1@))
}

fn append_runs(
    nickname: &Nickname,
    entries: &Vec<DirectoryName>,
    runs: &mut Vec<(Nickname, RunId)>,
)
    ensures
        run_views(final(runs)@) == run_views(old(runs)@) + runs_among(nickname@, entries@),
{
    let ghost start = run_views(runs@);
    let mut i: usize = 0;
    assert(entries@.take(0) =~= Seq::<DirectoryName>::empty());
    assert(start =~= start + runs_among(nickname@, entries@.take(0)));
    while i < entries.len()
        invariant
            i <= entries.len(),
            run_views(runs@) == start + runs_among(nickname@, entries@.take(i as int)),
        decreases entries.len() - i,
    {
        proof {
            assert(entries@.take(i + 1).drop_last() =~= entries@.take(i as int));
            assert(entries@.take(i + 1).last() == entries@[i as int]);
        }
        let ghost before = runs@;
        if entries[i].is_dir {
            match RunId::new(entries[i].name.clone()) {
                Ok(run_id) => {
                    runs.push((nickname.clone(), run_id));
                    assert(run_views(runs@) =~= run_views(before).push(
                        (nickname@, entries@[i as int].name@),
                    ));
                    assert(run_views(runs@) =~= start + runs_among(
                        nickname@,
                        entries@.take(i + 1),
                    ));
                },
                Err(_) => {},
            }
        }
        i = i + 1;
    }
    assert(entries@.take(i as int) =~= entries@);
}

fn find_runs_in_phase(clients: &Vec<ClientDirectory>, ready: bool) -> (runs: Vec<
    (Nickname, RunId),
>)
    ensures
        run_views(runs@) == runs_in(clients@, ready),
{
    let mut runs: Vec<(Nickname, RunId)> = Vec::new();
    let mut i: usize = 0;
    assert(clients@.take(0) =~= Seq::<ClientDirectory>::empty());
    assert(run_views(runs@) =~= Seq::<(Seq<char>, Seq<char>)>::empty());
    while i < clients.len()
        invariant
            i <= clients.len(),
            run_views(runs@) == runs_in(clients@.take(i as int), ready),
        decreases clients.len() - i,
    {
        proof {
            assert(clients@.take(i + 1).drop_last() =~= clients@.take(i as int));
            assert(clients@.take(i + 1).last() == clients@[i as int]);
        }
        if clients[i].entry.is_dir {
            match Nickname::new(clients[i].entry.name.clone()) {
                Ok(nickname) => {
                    if ready {
                        append_runs(&nickname, &clients[i].ready, &mut runs);
                    } else {
                        append_runs(&nickname, &clients[i].processing, &mut runs);
                    }
                },
                Err(_) => {},
            }
        }
        i = i + 1;
    }
    assert(clients@.take(i as int) =~= clients@);
    runs
}

/// The runs that wait to be processed, in the order of the listing. Whatever is not
/// a directory or has no valid name is passed over.
pub fn find_ready_runs(clients: &Vec<ClientDirectory>) -> (runs: Vec<(Nickname, RunId)>)
    ensures
        run_views(runs@) == runs_in(clients@, true),
{
    find_runs_in_phase(clients, true)
}

/// The runs that are, or were when the server stopped, being processed.
pub fn find_processing_runs(clients: &Vec<ClientDirectory>) -> (runs: Vec<(Nickname, RunId)>)
    ensures
        run_views(runs@) == runs_in(clients@, false),
{
    find_runs_in_phase(clients, false)
}

/// The runs of one listing are the directories with a valid name, each at its place: what
/// comes back are their positions.
proof fn lemma_runs_among(client: Seq<char>, entries: Seq<DirectoryName>) -> (at: Seq<int>)
    ensures
        at.len() == runs_among(client, entries).len(),
        forall|k: int|
            0 <= k < at.len() ==> {
                &&& 0 <= #[trigger] at[k] < entries.len()
                &&& entries[at[k]].is_dir
                &&& crate::model::valid_name(entries[at[k]].name@)
                &&& runs_among(client, entries)[k] == (client, entries[at[k]].name@)
            },
        forall|j: int, k: int| 0 <= j < k < at.len() ==> at[j] < at[k],
        forall|e: int|
            0 <= e < entries.len() && entries[e].is_dir && crate::model::valid_name(
                entries[e].name@,
            ) ==> #[trigger] at.contains(e),
    decreases entries.len(),
{
    if entries.len() == 0 {
        Seq::empty()
    } else {
        let shorter = lemma_runs_among(client, entries.drop_last());
        if entries.last().is_dir && crate::model::valid_name(entries.last().name@) {
            let at = shorter.push(entries.len() - 1);
            assert forall|e: int|
                0 <= e < entries.len() && entries[e].is_dir && crate::model::valid_name(
                    entries[e].name@,
                ) implies #[trigger] at.contains(e) by {
                if e < entries.len() - 1 {
                    assert(entries.drop_last()[e] == entries[e]);
                    assert(shorter.contains(e));
                    let k = choose|k: int| 0 <= k < shorter.len() && shorter[k] == e;
                    assert(at[k] == e);
                } else {
                    assert(at[shorter.len() as int] == e);
                }
            }
            at
        } else {
            assert forall|e: int|
                0 <= e < entries.len() && entries[e].is_dir && crate::model::valid_name(
                    entries[e].name@,
                ) implies #[trigger] shorter.contains(e) by {
                assert(entries.drop_last()[e] == entries[e]);
            }
            shorter
        }
    }
}

/// Every run that is listed is found, once for each time it is listed and in the order of
/// the listing, and nothing else is: a run stands wherever a directory with a valid name
/// holds, in the phase, a directory with a valid name. What comes back are the positions
/// of the runs that were found.
pub proof fn listed_runs_are_found_in_order(clients: Seq<ClientDirectory>, ready: bool) -> (at: Seq<
    (int, int),
>)
    ensures
        at.len() == runs_in(clients, ready).len(),
        forall|k: int|
            0 <= k < at.len() ==> {
                let client = clients[(#[trigger] at[k]).0];
                let listing = if ready {
                    client.ready@
                } else {
                    client.processing@
                };
                let run = listing[at[k].1];
                &&& 0 <= at[k].0 < clients.len()
                &&& 0 <= at[k].1 < listing.len()
                &&& client.entry.is_dir && crate::model::valid_name(client.entry.name@)
                &&& run.is_dir && crate::model::valid_name(run.name@)
                &&& runs_in(clients, ready)[k] == (client.entry.name@, run.name@)
            },
        forall|j: int, k: int|
            0 <= j < k < at.len() ==> {
                ||| (#[trigger] at[j]).0 < (#[trigger] at[k]).0
                ||| at[j].0 == at[k].0 && at[j].1 < at[k].1
            },
        forall|c: int, e: int|
            {
                let listing = if ready {
                    clients[c].ready@
                } else {
                    clients[c].processing@
                };
                &&& 0 <= c < clients.len()
                &&& 0 <= e < listing.len()
                &&& clients[c].entry.is_dir && crate::model::valid_name(clients[c].entry.name@)
                &&& listing[e].is_dir && crate::model::valid_name(listing[e].name@)
            } ==> #[trigger] at.contains((c, e)),
    decreases clients.len(),
{
    if clients.len() == 0 {
        Seq::empty()
    } else {
        let shorter = listed_runs_are_found_in_order(clients.drop_last(), ready);
        let client = clients.last();
        let last = clients.len() - 1;
        let listing = if ready {
            client.ready@
        } else {
            client.processing@
        };
        if client.entry.is_dir && crate::model::valid_name(client.entry.name@) {
            let inner = lemma_runs_among(client.entry.name@, listing);
            let tail = inner.map_values(|e: int| (last, e));
            let at = shorter + tail;
            assert forall|k: int| shorter.len() <= k < at.len() implies #[trigger] at[k] == (
                last,
                inner[k - shorter.len()],
            ) by {}
            assert forall|c: int, e: int|
                {
                    let listing = if ready {
                        clients[c].ready@
                    } else {
                        clients[c].processing@
                    };
                    &&& 0 <= c < clients.len()
                    &&& 0 <= e < listing.len()
                    &&& clients[c].entry.is_dir && crate::model::valid_name(
                        clients[c].entry.name@,
                    )
                    &&& listing[e].is_dir && crate::model::valid_name(listing[e].name@)
                } implies #[trigger] at.contains((c, e)) by {
                if c < last {
                    assert(clients.drop_last()[c] == clients[c]);
                    assert(shorter.contains((c, e)));
                    let k = choose|k: int| 0 <= k < shorter.len() && shorter[k] == (c, e);
                    assert(at[k] == (c, e));
                } else {
                    assert(inner.contains(e));
                    let k = choose|k: int| 0 <= k < inner.len() && inner[k] == e;
                    assert(at[shorter.len() + k] == (c, e));
                }
            }
            at
        } else {
            assert forall|c: int, e: int|
                {
                    let listing = if ready {
                        clients[c].ready@
                    } else {
                        clients[c].processing@
                    };
                    &&& 0 <= c < clients.len()
                    &&& 0 <= e < listing.len()
                    &&& clients[c].entry.is_dir && crate::model::valid_name(
                        clients[c].entry.name@,
                    )
                    &&& listing[e].is_dir && crate::model::valid_name(listing[e].name@)
                } implies #[trigger] shorter.contains((c, e)) by {
                assert(clients.drop_last()[c] == clients[c]);
            }
            shorter
        }
    }
}

/// Whether a run is listed at a position: in the directory of its client, among the names
/// of the phase.
pub open spec fn lists_at(
    clients: Seq<ClientDirectory>,
    ready: bool,
    c: int,
    e: int,
    nickname: Seq<char>,
    run_id: Seq<char>,
) -> bool {
    let listing = if ready {
        clients[c].ready@
    } else {
        clients[c].processing@
    };
    &&& 0 <= c < clients.len()
    &&& 0 <= e < listing.len()
    &&& clients[c].entry.is_dir && clients[c].entry.name@ == nickname
    &&& listing[e].is_dir && listing[e].name@ == run_id
}

/// A run is found if and only if a listed client holds it in the phase and both have
/// valid names.
pub proof fn runs_are_found_where_they_are_listed(
    clients: Seq<ClientDirectory>,
    ready: bool,
    nickname: Seq<char>,
    run_id: Seq<char>,
)
    ensures
        runs_in(clients, ready).contains((nickname, run_id)) <==> {
            &&& crate::model::valid_name(nickname) && crate::model::valid_name(run_id)
            &&& exists|c: int, e: int| lists_at(clients, ready, c, e, nickname, run_id)
        },
{
    let at = listed_runs_are_found_in_order(clients, ready);
    let runs = runs_in(clients, ready);
    if runs.contains((nickname, run_id)) {
        let k = choose|k: int| 0 <= k < runs.len() && runs[k] == (nickname, run_id);
        assert(lists_at(clients, ready, at[k].0, at[k].1, nickname, run_id));
    }
    if crate::model::valid_name(nickname) && crate::model::valid_name(run_id) {
        assert forall|c: int, e: int|
            lists_at(clients, ready, c, e, nickname, run_id) implies runs.contains(
            (nickname, run_id),
        ) by {
            assert(at.contains((c, e)));
            let k = choose|k: int| 0 <= k < at.len() && at[k] == (c, e);
            assert(runs[k] == (nickname, run_id));
        }
    }
}

// ---------------------------------------------------------------------------
// Beginning and finishing an upload
// ---------------------------------------------------------------------------

/// In which phases a directory of the run was seen.
#[derive(Clone, Copy, PartialEq, Eq, Structural, Debug)]
pub struct PhasePresence {
    pub incoming: bool,
    pub ready: bool,
    pub processing: bool,
    pub done: bool,
    pub failed: bool,
}

impl PhasePresence {
    pub open spec fn has(self, phase: RunPhase) -> bool {
        match phase {
            RunPhase::Incoming => self.incoming,
            RunPhase::Ready => self.ready,
            RunPhase::Processing => self.processing,
            RunPhase::Done => self.done,
            RunPhase::Failed => self.failed,
        }
    }

    /// The earliest phase behind incoming.
    pub open spec fn later(self) -> Option<RunPhase> {
        if self.ready {
            Some(RunPhase::Ready)
        } else if self.processing {
            Some(RunPhase::Processing)
        } else if self.done {
            Some(RunPhase::Done)
        } else if self.failed {
            Some(RunPhase::Failed)
        } else {
            None
        }
    }

    /// The earliest phase.
    pub open spec fn earliest(self) -> Option<RunPhase> {
        if self.incoming {
            Some(RunPhase::Incoming)
        } else {
            self.later()
        }
    }

    pub fn find_later(self) -> (phase: Option<RunPhase>)
        ensures
            phase == self.later(),
    {
        if self.ready {
            Some(RunPhase::Ready)
        } else if self.processing {
            Some(RunPhase::Processing)
        } else if self.done {
            Some(RunPhase::Done)
        } else if self.failed {
            Some(RunPhase::Failed)
        } else {
            None
        }
    }

    pub fn find_earliest(self) -> (phase: Option<RunPhase>)
        ensures
            phase == self.earliest(),
    {
        if self.incoming {
            Some(RunPhase::Incoming)
        } else {
            self.find_later()
        }
    }
}

/// Whether a lease is the one that a run gets at a moment.
pub open spec fn is_fresh_lease(
    lease: LeaseFile,
    nickname: Seq<char>,
    run_id: Seq<char>,
    lease_secs: u64,
    now: u64,
) -> bool {
    &&& lease.protocol_version == LEASE_FILE_VERSION
    &&& lease.purgery_version@ == version::current_version()
    &&& lease.nickname@ == nickname
    &&& lease.run_id@ == run_id
    &&& lease.created_at_unix_secs == now
    &&& lease.last_heartbeat_unix_secs == now
    &&& lease.expires_at_unix_secs == now + lease_secs
}

/// Whether an answer tells the client where to upload.
pub open spec fn is_begin_response(
    response: BeginRunResponse,
    nickname: Seq<char>,
    run_id: Seq<char>,
    incoming: Seq<char>,
    heartbeat_secs: u64,
) -> bool {
    &&& response.protocol_version == PROTOCOL_VERSION
    &&& response.purgery_version@ == version::current_version()
    &&& response.nickname@ == nickname
    &&& response.run_id@ == run_id
    &&& response.incoming_dir@ == incoming
    &&& response.files_dir@ == paths::path_join(incoming, "files"@)
    &&& response.run_config_path@ == paths::path_join(incoming, "run.toml"@)
    &&& response.manifest_path@ == paths::path_join(incoming, "manifest.toml"@)
    &&& response.heartbeat_interval_secs == heartbeat_secs
}

/// Why a run cannot begin, if it cannot: it exists already, in whatever phase.
pub open spec fn begin_refusal(
    work_dir: Seq<char>,
    nickname: Seq<char>,
    run_id: Seq<char>,
    present: PhasePresence,
) -> Option<failure::FailureView> {
    match present.earliest() {
        Some(phase) => Some(
            failure::plain(
                "run "@ + nickname + "/"@ + run_id + " already exists in '"@ + phase.name()
                    + "' phase at '"@ + paths::run_dir_path(work_dir, nickname, run_id, phase)
                    + "'"@,
            ),
        ),
        None => None,
    }
}

/// What beginning a run needs: its lease and the answer to the client.
#[derive(Debug)]
pub struct BeginRunPlan {
    pub lease: LeaseFile,
    pub response: BeginRunResponse,
}

/// Decides whether a run may begin, and with what lease.
pub fn begin_run(
    config: &ServerConfig,
    nickname: &Nickname,
    run_id: &RunId,
    present: PhasePresence,
    now: u64,
) -> (r: Result<BeginRunPlan, Failure>)
    requires
        present.earliest() is None ==> now + config.gc.incoming_lease_secs <= u64::MAX,
    ensures
        failure::refuses(r, begin_refusal(config.work_dir@, nickname@, run_id@, present)),
        r matches Ok(plan) ==> {
            &&& is_fresh_lease(
                plan.lease,
                nickname@,
                run_id@,
                config.gc.incoming_lease_secs,
                now,
            )
            &&& is_begin_response(
                plan.response,
                nickname@,
                run_id@,
                paths::run_dir_path(config.work_dir@, nickname@, run_id@, RunPhase::Incoming),
                config.gc.heartbeat_interval_secs,
            )
        },
{
    match present.find_earliest() {
        Some(phase) => {
            let dir = paths::run_dir(config.work_dir.as_str(), nickname, run_id, phase);
            let mut m = text::cat5(
                "run ",
                nickname.as_str(),
                "/",
                run_id.as_str(),
                " already exists in '",
            );
            m.append(phase.as_str());
            m.append("' phase at '");
            m.append(dir.as_str());
            m.append("'");
            return Err(Failure::new(m));
        },
        None => {},
    }
    let incoming = paths::run_dir(config.work_dir.as_str(), nickname, run_id, RunPhase::Incoming);
    let lease = LeaseFile {
        protocol_version: LEASE_FILE_VERSION,
        purgery_version: current_purgery_version().to_owned(),
        nickname: nickname.as_str().to_owned(),
        run_id: run_id.as_str().to_owned(),
        created_at_unix_secs: now,
        last_heartbeat_unix_secs: now,
        expires_at_unix_secs: now + config.gc.incoming_lease_secs,
    };
    let response = BeginRunResponse {
        protocol_version: PROTOCOL_VERSION,
        purgery_version: current_purgery_version().to_owned(),
        nickname: nickname.as_str().to_owned(),
        run_id: run_id.as_str().to_owned(),
        files_dir: paths::join(incoming.as_str(), "files"),
        run_config_path: paths::join(incoming.as_str(), "run.toml"),
        manifest_path: paths::join(incoming.as_str(), "manifest.toml"),
        incoming_dir: incoming,
        heartbeat_interval_secs: config.gc.heartbeat_interval_secs,
    };
    Ok(BeginRunPlan { lease, response })
}

/// The steps by which an upload is set up. The incoming directory is created on its
/// own, so that of two requests for the same run only one succeeds; a set-up that
/// fails behind it is undone.
#[derive(Clone, Copy, PartialEq, Eq, Structural, Debug)]
pub enum BeginStep {
    CreateParent,
    CreateIncoming,
    CreateFiles,
    EncodeLease,
    WriteLease,
    PublishLease,
    EncodeResponse,
    Begun,
    /// Remove the incoming directory, then refuse because of the step.
    Undo(BeginFault),
    Refused(BeginFault),
}

/// The step at which setting up an upload failed.
#[derive(Clone, Copy, PartialEq, Eq, Structural, Debug)]
pub enum BeginFault {
    Parent,
    Incoming,
    Files,
    LeaseEncoding,
    Lease,
    ResponseEncoding,
}

impl BeginStep {
    pub open spec fn after(self, ok: bool) -> BeginStep {
        match self {
            BeginStep::CreateParent => if ok {
                BeginStep::CreateIncoming
            } else {
                BeginStep::Refused(BeginFault::Parent)
            },
            BeginStep::CreateIncoming => if ok {
                BeginStep::CreateFiles
            } else {
                BeginStep::Refused(BeginFault::Incoming)
            },
            BeginStep::CreateFiles => if ok {
                BeginStep::EncodeLease
            } else {
                BeginStep::Undo(BeginFault::Files)
            },
            BeginStep::EncodeLease => if ok {
                BeginStep::WriteLease
            } else {
                BeginStep::Refused(BeginFault::LeaseEncoding)
            },
            BeginStep::WriteLease => if ok {
                BeginStep::PublishLease
            } else {
                BeginStep::Undo(BeginFault::Lease)
            },
            BeginStep::PublishLease => if ok {
                BeginStep::EncodeResponse
            } else {
                BeginStep::Undo(BeginFault::Lease)
            },
            BeginStep::EncodeResponse => if ok {
                BeginStep::Begun
            } else {
                BeginStep::Undo(BeginFault::ResponseEncoding)
            },
            BeginStep::Undo(fault) => BeginStep::Refused(fault),
            other => other,
        }
    }

    /// The step behind this one.
    pub fn advance(self, ok: bool) -> (next: BeginStep)
        ensures
            next == self.after(ok),
    {
        match self {
            BeginStep::CreateParent => if ok {
                BeginStep::CreateIncoming
            } else {
                BeginStep::Refused(BeginFault::Parent)
            },
            BeginStep::CreateIncoming => if ok {
                BeginStep::CreateFiles
            } else {
                BeginStep::Refused(BeginFault::Incoming)
            },
            BeginStep::CreateFiles => if ok {
                BeginStep::EncodeLease
            } else {
                BeginStep::Undo(BeginFault::Files)
            },
            BeginStep::EncodeLease => if ok {
                BeginStep::WriteLease
            } else {
                BeginStep::Refused(BeginFault::LeaseEncoding)
            },
            BeginStep::WriteLease => if ok {
                BeginStep::PublishLease
            } else {
                BeginStep::Undo(BeginFault::Lease)
            },
            BeginStep::PublishLease => if ok {
                BeginStep::EncodeResponse
            } else {
                BeginStep::Undo(BeginFault::Lease)
            },
            BeginStep::EncodeResponse => if ok {
                BeginStep::Begun
            } else {
                BeginStep::Undo(BeginFault::ResponseEncoding)
            },
            BeginStep::Undo(fault) => BeginStep::Refused(fault),
            other => other,
        }
    }
}

/// A set-up on its way, with what its reports say of the disk: whether the incoming
/// directory stands, and whether its lease was published.
pub struct BeginHistory {
    pub step: BeginStep,
    pub created: bool,
    pub leased: bool,
}

/// What a report adds to the history of a set-up.
pub open spec fn begin_observe(h: BeginHistory, ok: bool) -> BeginHistory {
    BeginHistory {
        step: h.step.after(ok),
        created: match h.step {
            BeginStep::CreateIncoming => ok,
            BeginStep::Undo(_) => h.created && !ok,
            _ => h.created,
        },
        leased: match h.step {
            BeginStep::PublishLease => ok,
            _ => h.leased,
        },
    }
}

/// The history of a set-up after a number of reports.
pub open spec fn begin_history(reports: Seq<bool>) -> BeginHistory
    decreases reports.len(),
{
    if reports.len() == 0 {
        BeginHistory { step: BeginStep::CreateParent, created: false, leased: false }
    } else {
        begin_observe(begin_history(reports.drop_last()), reports.last())
    }
}

spec fn begin_fits(h: BeginHistory) -> bool {
    match h.step {
        BeginStep::CreateParent | BeginStep::CreateIncoming => !h.created && !h.leased,
        BeginStep::CreateFiles
        | BeginStep::EncodeLease
        | BeginStep::WriteLease
        | BeginStep::PublishLease => h.created && !h.leased,
        BeginStep::EncodeResponse | BeginStep::Begun => h.created && h.leased,
        BeginStep::Undo(_) => h.created,
        BeginStep::Refused(fault) => fault is Parent || fault is Incoming ==> !h.created,
    }
}

proof fn lemma_begin_fits(reports: Seq<bool>)
    ensures
        begin_fits(begin_history(reports)),
    decreases reports.len(),
{
    if reports.len() > 0 {
        lemma_begin_fits(reports.drop_last());
        let h = begin_history(reports.drop_last());
        match h.step {
            BeginStep::Undo(fault) => {
                lemma_undone_faults(reports.drop_last(), fault);
            },
            _ => {},
        }
    }
}

proof fn lemma_undone_faults(reports: Seq<bool>, fault: BeginFault)
    requires
        begin_history(reports).step == BeginStep::Undo(fault),
    ensures
        !(fault is Parent) && !(fault is Incoming) && !(fault is LeaseEncoding),
{
}

/// A run that has begun has its incoming directory and its lease.
pub proof fn begun_runs_are_set_up(reports: Seq<bool>)
    requires
        begin_history(reports).step is Begun,
    ensures
        begin_history(reports).created,
        begin_history(reports).leased,
{
    lemma_begin_fits(reports);
}

/// A set-up that fails behind the creation of the incoming directory is undone before
/// it is refused, unless the lease could not be put into words.
pub proof fn refused_set_ups_are_undone(reports: Seq<bool>, fault: BeginFault)
    requires
        reports.len() > 0,
        begin_history(reports).step == BeginStep::Refused(fault),
        !(begin_history(reports.drop_last()).step is Refused),
        !(fault is LeaseEncoding),
    ensures
        begin_history(reports.drop_last()).created ==> begin_history(reports.drop_last()).step
            == BeginStep::Undo(fault),
        reports.last() ==> !begin_history(reports).created,
{
    lemma_begin_fits(reports);
    lemma_begin_fits(reports.drop_last());
}

/// What went wrong when an upload could not be set up.
pub open spec fn begin_fault_text(
    fault: BeginFault,
    parent: Seq<char>,
    incoming: Seq<char>,
    files: Seq<char>,
) -> Seq<char> {
    match fault {
        BeginFault::Parent => "failed to create incoming parent: "@ + parent,
        BeginFault::Incoming => "failed to create incoming dir '"@ + incoming
            + "' (race: run may have been created concurrently)"@,
        BeginFault::Files => "failed to create files dir: "@ + files,
        BeginFault::LeaseEncoding => "failed to serialize lease"@,
        BeginFault::Lease => "failed to write lease file"@,
        BeginFault::ResponseEncoding => "failed to serialize begin-run response"@,
    }
}

/// What went wrong when an upload could not be set up.
pub fn begin_fault_message(fault: BeginFault, parent: &str, incoming: &str, files: &str) -> (m:
    String)
    ensures
        m@ == begin_fault_text(fault, parent@, incoming@, files@),
{
    match fault {
        BeginFault::Parent => text::cat2("failed to create incoming parent: ", parent),
        BeginFault::Incoming => text::cat3(
            "failed to create incoming dir '",
            incoming,
            "' (race: run may have been created concurrently)",
        ),
        BeginFault::Files => text::cat2("failed to create files dir: ", files),
        BeginFault::LeaseEncoding => "failed to serialize lease".to_owned(),
        BeginFault::Lease => "failed to write lease file".to_owned(),
        BeginFault::ResponseEncoding => "failed to serialize begin-run response".to_owned(),
    }
}

/// Why a lease does not entitle a request, if it does not. `action` names the
/// request.
pub open spec fn lease_refusal(
    lease: Lookup<LeaseFile>,
    action: Seq<char>,
    nickname: Seq<char>,
    run_id: Seq<char>,
    lease_path: Seq<char>,
) -> Option<failure::FailureView> {
    match lease {
        Lookup::Missing(error) | Lookup::Unreadable(error) => Some(
            failure::caused("failed to read lease file"@, error@),
        ),
        Lookup::Found(document) => {
            let unknown = |detail: Seq<char>|
                failure::plain(
                    "cannot "@ + action
                        + " run: lease is missing purgery_version or has invalid TOML (producer version cannot be established) at '"@
                        + lease_path + "': "@ + detail,
                );
            match document.version@ {
                version::ProbeView::Missing => Some(unknown(version::missing_version_reason())),
                version::ProbeView::Invalid(error) => Some(unknown(error)),
                version::ProbeView::Version(v) => match document.parsed {
                    Err(error) => Some(failure::caused("failed to parse lease file"@, error@)),
                    Ok(lease) => if !version::compatible(v) {
                        Some(
                            failure::caused(
                                "incompatible lease version"@,
                                version::foreign_version_reason(v),
                            ),
                        )
                    } else if lease.protocol_version != LEASE_FILE_VERSION {
                        Some(
                            failure::plain(
                                "lease protocol version "@ + text::decimal(
                                    lease.protocol_version as nat,
                                ) + " does not match expected "@ + text::decimal(
                                    LEASE_FILE_VERSION as nat,
                                ),
                            ),
                        )
                    } else if lease.nickname@ != nickname {
                        Some(
                            failure::plain(
                                "lease nickname '"@ + lease.nickname@
                                    + "' does not match expected '"@ + nickname + "'"@,
                            ),
                        )
                    } else if lease.run_id@ != run_id {
                        Some(
                            failure::plain(
                                "lease run_id '"@ + lease.run_id@ + "' does not match expected '"@
                                    + run_id + "'"@,
                            ),
                        )
                    } else {
                        None
                    },
                },
            }
        },
    }
}

fn unknown_producer(action: &str, lease_path: &str, detail: &str) -> (failure: Failure)
    ensures
        failure@ == failure::plain(
            "cannot "@ + action@
                + " run: lease is missing purgery_version or has invalid TOML (producer version cannot be established) at '"@
                + lease_path@ + "': "@ + detail@,
        ),
{
    let mut m = text::cat5(
        "cannot ",
        action,
        " run: lease is missing purgery_version or has invalid TOML (producer version cannot be established) at '",
        lease_path,
        "': ",
    );
    m.append(detail);
    Failure::new(m)
}

/// Whether a lease entitles to requests for a run: one that can be read, of a version
/// that is understood, and for this run.
pub open spec fn lease_entitles(
    lease: Lookup<LeaseFile>,
    nickname: Seq<char>,
    run_id: Seq<char>,
) -> bool {
    &&& lease matches Lookup::Found(document)
    &&& document.version@ matches version::ProbeView::Version(v)
    &&& version::compatible(v)
    &&& document.parsed matches Ok(current)
    &&& current.protocol_version == LEASE_FILE_VERSION
    &&& current.nickname@ == nickname
    &&& current.run_id@ == run_id
}

/// A request is let through exactly when the lease entitles to it.
pub proof fn entitling_leases_are_let_through(
    lease: Lookup<LeaseFile>,
    action: Seq<char>,
    nickname: Seq<char>,
    run_id: Seq<char>,
    lease_path: Seq<char>,
)
    ensures
        lease_refusal(lease, action, nickname, run_id, lease_path) is None <==> lease_entitles(
            lease,
            nickname,
            run_id,
        ),
{
}

/// Checks that a lease entitles a request for a run.
pub fn check_lease(
    lease: &Lookup<LeaseFile>,
    action: &str,
    nickname: &Nickname,
    run_id: &RunId,
    lease_path: &str,
) -> (r: Result<(), Failure>)
    ensures
        failure::refuses(r, lease_refusal(*lease, action@, nickname@, run_id@, lease_path@)),
{
    match lease {
        Lookup::Missing(error) | Lookup::Unreadable(error) => Err(
            Failure::with_cause("failed to read lease file".to_owned(), error.as_str()),
        ),
        Lookup::Found(document) => match &document.version {
            VersionProbe::Missing => Err(
                unknown_producer(action, lease_path, "missing purgery_version"),
            ),
            VersionProbe::Invalid(error) => Err(
                unknown_producer(action, lease_path, error.as_str()),
            ),
            VersionProbe::Version(v) => match &document.parsed {
                Err(error) => Err(
                    Failure::with_cause("failed to parse lease file".to_owned(), error.as_str()),
                ),
                Ok(lease) => {
                    if !version::is_compatible(v.as_str()) {
                        let reason = text::cat4(
                            "incompatible purgery_version: producer ",
                            v.as_str(),
                            ", current ",
                            current_purgery_version(),
                        );
                        return Err(
                            Failure::with_cause(
                                "incompatible lease version".to_owned(),
                                reason.as_str(),
                            ),
                        );
                    }
                    if lease.protocol_version != LEASE_FILE_VERSION {
                        let found = text::format_decimal(lease.protocol_version as u64);
                        let expected = text::format_decimal(LEASE_FILE_VERSION as u64);
                        return Err(
                            Failure::new(
                                text::cat4(
                                    "lease protocol version ",
                                    found.as_str(),
                                    " does not match expected ",
                                    expected.as_str(),
                                ),
                            ),
                        );
                    }
                    if !text::same_text(lease.nickname.as_str(), nickname.as_str()) {
                        return Err(
                            Failure::new(
                                text::cat5(
                                    "lease nickname '",
                                    lease.nickname.as_str(),
                                    "' does not match expected '",
                                    nickname.as_str(),
                                    "'",
                                ),
                            ),
                        );
                    }
                    if !text::same_text(lease.run_id.as_str(), run_id.as_str()) {
                        return Err(
                            Failure::new(
                                text::cat5(
                                    "lease run_id '",
                                    lease.run_id.as_str(),
                                    "' does not match expected '",
                                    run_id.as_str(),
                                    "'",
                                ),
                            ),
                        );
                    }
                    Ok(())
                },
            },
        },
    }
}

/// What finishing an upload comes to.
#[derive(Clone, Copy, PartialEq, Eq, Structural, Debug)]
pub enum FinishDecision {
    /// The run is past incoming already; there is nothing to do.
    AlreadyAccepted(RunPhase),
    /// Move the run from incoming to ready.
    MoveToReady,
}

/// What finishing an upload must come to. `ready_appeared` is what a second look for
/// a ready directory, behind all other checks, found.
pub open spec fn finish_outcome(
    work_dir: Seq<char>,
    nickname: Seq<char>,
    run_id: Seq<char>,
    present: PhasePresence,
    lease: Lookup<LeaseFile>,
    ready_appeared: bool,
    now: u64,
) -> Result<FinishDecision, failure::FailureView> {
    let incoming = paths::run_dir_path(work_dir, nickname, run_id, RunPhase::Incoming);
    let lease_path = paths::path_join(incoming, "lease.toml"@);
    match present.later() {
        Some(phase) => Ok(FinishDecision::AlreadyAccepted(phase)),
        None => if !present.incoming {
            Err(
                failure::plain(
                    "incoming directory does not exist for run "@ + nickname + "/"@ + run_id
                        + " at '"@ + incoming + "'"@,
                ),
            )
        } else if lease is Missing {
            Err(
                failure::plain(
                    "cannot finish run: no lease file found, run may be incomplete"@,
                ),
            )
        } else {
            match lease_refusal(lease, "finish"@, nickname, run_id, lease_path) {
                Some(refusal) => Err(refusal),
                None => {
                    let expires = (lease->Found_0).parsed->Ok_0.expires_at_unix_secs;
                    if now >= expires {
                        Err(
                            failure::plain(
                                "cannot finish run: incoming lease expired at "@ + text::decimal(
                                    expires as nat,
                                ),
                            ),
                        )
                    } else if ready_appeared {
                        Err(
                            failure::plain(
                                "ready directory already exists for run "@ + nickname + "/"@
                                    + run_id + " at '"@ + paths::run_dir_path(
                                    work_dir,
                                    nickname,
                                    run_id,
                                    RunPhase::Ready,
                                ) + "'"@,
                            ),
                        )
                    } else {
                        Ok(FinishDecision::MoveToReady)
                    }
                },
            }
        },
    }
}

/// Decides whether an upload is complete: its run must be in incoming, and its
/// lease must be valid and not yet expired. A run that is further on was accepted
/// before.
pub fn finish_run(
    config: &ServerConfig,
    nickname: &Nickname,
    run_id: &RunId,
    present: PhasePresence,
    lease: &Lookup<LeaseFile>,
    ready_appeared: bool,
    now: u64,
) -> (r: Result<FinishDecision, Failure>)
    ensures
        failure::agrees(
            r,
            finish_outcome(
                config.work_dir@,
                nickname@,
                run_id@,
                present,
                *lease,
                ready_appeared,
                now,
            ),
        ),
{
    match present.find_later() {
        Some(phase) => {
            return Ok(FinishDecision::AlreadyAccepted(phase));
        },
        None => {},
    }
    let incoming = paths::run_dir(config.work_dir.as_str(), nickname, run_id, RunPhase::Incoming);
    if !present.incoming {
        return Err(
            Failure::new(
                text::cat7(
                    "incoming directory does not exist for run ",
                    nickname.as_str(),
                    "/",
                    run_id.as_str(),
                    " at '",
                    incoming.as_str(),
                    "'",
                ),
            ),
        );
    }
    match lease {
        Lookup::Missing(_) => {
            return Err(
                Failure::new(
                    "cannot finish run: no lease file found, run may be incomplete".to_owned(),
                ),
            );
        },
        _ => {},
    }
    let lease_path = paths::join(incoming.as_str(), "lease.toml");
    match check_lease(lease, "finish", nickname, run_id, lease_path.as_str()) {
        Err(failure) => {
            return Err(failure);
        },
        Ok(()) => {},
    }
    let expires: u64 = match lease {
        Lookup::Found(document) => match &document.parsed {
            Ok(lease) => lease.expires_at_unix_secs,
            Err(_) => 0,
        },
        _ => 0,
    };
    if now >= expires {
        let at = text::format_decimal(expires);
        return Err(
            Failure::new(
                text::cat2("cannot finish run: incoming lease expired at ", at.as_str()),
            ),
        );
    }
    if ready_appeared {
        let ready = paths::run_dir(config.work_dir.as_str(), nickname, run_id, RunPhase::Ready);
        return Err(
            Failure::new(
                text::cat7(
                    "ready directory already exists for run ",
                    nickname.as_str(),
                    "/",
                    run_id.as_str(),
                    " at '",
                    ready.as_str(),
                    "'",
                ),
            ),
        );
    }
    Ok(FinishDecision::MoveToReady)
}

/// What went wrong when an accepted upload could not be moved to ready.
pub fn finish_fault_message(step: MoveStep, incoming: &str, ready: &str, parent: &str) -> (m:
    String)
    ensures
        m@ == (if step is ParentFailed {
            "failed to create ready parent: "@ + parent@
        } else {
            "failed to move incoming to ready: "@ + incoming@ + " -> "@ + ready@
        }),
{
    match step {
        MoveStep::ParentFailed => text::cat2("failed to create ready parent: ", parent),
        _ => text::cat4("failed to move incoming to ready: ", incoming, " -> ", ready),
    }
}

/// Whether a lease is another one renewed at a moment.
pub open spec fn is_renewal(
    renewed: LeaseFile,
    lease: LeaseFile,
    lease_secs: u64,
    now: u64,
) -> bool {
    &&& renewed.protocol_version == lease.protocol_version
    &&& renewed.purgery_version@ == lease.purgery_version@
    &&& renewed.nickname@ == lease.nickname@
    &&& renewed.run_id@ == lease.run_id@
    &&& renewed.created_at_unix_secs == lease.created_at_unix_secs
    &&& renewed.last_heartbeat_unix_secs == now
    &&& renewed.expires_at_unix_secs == now + lease_secs
}

/// Why a heartbeat is refused, if it is.
pub open spec fn heartbeat_refusal(
    work_dir: Seq<char>,
    nickname: Seq<char>,
    run_id: Seq<char>,
    incoming_exists: bool,
    lease: Lookup<LeaseFile>,
) -> Option<failure::FailureView> {
    let incoming = paths::run_dir_path(work_dir, nickname, run_id, RunPhase::Incoming);
    if !incoming_exists {
        Some(
            failure::plain("run "@ + nickname + "/"@ + run_id + " is not in incoming phase"@),
        )
    } else {
        lease_refusal(
            lease,
            "heartbeat"@,
            nickname,
            run_id,
            paths::path_join(incoming, "lease.toml"@),
        )
    }
}

/// Renews the lease of an upload.
pub fn heartbeat_run(
    config: &ServerConfig,
    nickname: &Nickname,
    run_id: &RunId,
    incoming_exists: bool,
    lease: &Lookup<LeaseFile>,
    now: u64,
) -> (r: Result<LeaseFile, Failure>)
    requires
        incoming_exists && lease_entitles(*lease, nickname@, run_id@) ==> now
            + config.gc.incoming_lease_secs <= u64::MAX,
    ensures
        failure::refuses(
            r,
            heartbeat_refusal(config.work_dir@, nickname@, run_id@, incoming_exists, *lease),
        ),
        r matches Ok(renewed) ==> (lease matches Lookup::Found(document)
            && document.parsed matches Ok(current) && is_renewal(
            renewed,
            current,
            config.gc.incoming_lease_secs,
            now,
        )),
{
    if !incoming_exists {
        return Err(
            Failure::new(
                text::cat5(
                    "run ",
                    nickname.as_str(),
                    "/",
                    run_id.as_str(),
                    " is not in incoming phase",
                ),
            ),
        );
    }
    let incoming = paths::run_dir(config.work_dir.as_str(), nickname, run_id, RunPhase::Incoming);
    let lease_path = paths::join(incoming.as_str(), "lease.toml");
    match check_lease(lease, "heartbeat", nickname, run_id, lease_path.as_str()) {
        Err(failure) => {
            return Err(failure);
        },
        Ok(()) => {},
    }
    match lease {
        Lookup::Found(document) => match &document.parsed {
            Ok(current) => Ok(
                LeaseFile {
                    protocol_version: current.protocol_version,
                    purgery_version: current.purgery_version.clone(),
                    nickname: current.nickname.clone(),
                    run_id: current.run_id.clone(),
                    created_at_unix_secs: current.created_at_unix_secs,
                    last_heartbeat_unix_secs: now,
                    expires_at_unix_secs: now + config.gc.incoming_lease_secs,
                },
            ),
            Err(_) => Err(Failure::new("failed to parse lease file".to_owned())),
        },
        _ => Err(Failure::new("failed to read lease file".to_owned())),
    }
}

/// A trial to lock gets the lock if and only if the directory is there, its lock file can
/// be opened, and the system grants the lock; a run that another process holds is busy, and
/// a directory that is gone is missing. In every other case the trial failed.
pub proof fn locks_are_got_as_the_system_grants(trial: LockTrial, lock_path: Seq<char>)
    ensures
        ({
            let attempt = lock_attempt(trial, lock_path);
            &&& attempt == Ok::<ProcessorLockAttempt, failure::FailureView>(
                ProcessorLockAttempt::Missing,
            ) <==> !trial.directory_exists
            &&& attempt == Ok::<ProcessorLockAttempt, failure::FailureView>(
                ProcessorLockAttempt::Acquired,
            ) <==> trial.directory_exists && trial.opened is Ok && trial.reply is Granted
            &&& attempt == Ok::<ProcessorLockAttempt, failure::FailureView>(
                ProcessorLockAttempt::Busy,
            ) <==> trial.directory_exists && trial.opened is Ok && trial.reply is WouldBlock
        }),
{
}

/// A probe says that a processor is active if and only if the lock file of the run can be
/// opened and is held, and says nothing only of a run that is gone. A run without a lock
/// file, or with one that nobody holds, is not active.
pub proof fn probes_see_held_locks_only(trial: LockProbeTrial, lock_path: Seq<char>)
    ensures
        ({
            let probe = lock_probe(trial, lock_path);
            let there = trial.directory_exists && trial.file_exists;
            &&& probe == Ok::<Option<bool>, failure::FailureView>(None) <==> !trial.directory_exists
            &&& probe == Ok::<Option<bool>, failure::FailureView>(Some(true)) <==> there
                && trial.opened is Opened && trial.reply is WouldBlock
            &&& probe is Err <==> there && (trial.opened is Refused || trial.opened is Opened
                && trial.reply is Refused)
        }),
{
}

/// A run counts as being in the first phase, in the order in which a run goes through
/// them, in which it was seen.
pub proof fn runs_count_as_in_the_first_phase(present: PhasePresence)
    ensures
        present.earliest() == Some(RunPhase::Incoming) <==> present.incoming,
        present.earliest() == Some(RunPhase::Ready) <==> !present.incoming && present.ready,
        present.earliest() == Some(RunPhase::Processing) <==> !present.incoming && !present.ready
            && present.processing,
        present.earliest() == Some(RunPhase::Done) <==> !present.incoming && !present.ready
            && !present.processing && present.done,
        present.earliest() == Some(RunPhase::Failed) <==> !present.incoming && !present.ready
            && !present.processing && !present.done && present.failed,
        present.earliest() is None <==> !present.incoming && !present.ready && !present.processing
            && !present.done && !present.failed,
        present.later() is None <==> !present.ready && !present.processing && !present.done
            && !present.failed,
        !present.incoming ==> present.later() == present.earliest(),
        present.later() == (PhasePresence { incoming: false, ..present }).earliest(),
{
}

/// A run may begin if and only if it was seen in no phase at all.
pub proof fn only_new_runs_begin(
    work_dir: Seq<char>,
    nickname: Seq<char>,
    run_id: Seq<char>,
    present: PhasePresence,
)
    ensures
        begin_refusal(work_dir, nickname, run_id, present) is None <==> forall|phase: RunPhase|
            !#[trigger] present.has(phase),
{
    if forall|phase: RunPhase| !#[trigger] present.has(phase) {
        assert(!present.has(RunPhase::Incoming));
        assert(!present.has(RunPhase::Ready));
        assert(!present.has(RunPhase::Processing));
        assert(!present.has(RunPhase::Done));
        assert(!present.has(RunPhase::Failed));
    }
}

/// A set-up has begun the run if and only if all of its seven steps were reported as done;
/// otherwise it is refused for the first that was not, and where the incoming directory was
/// made it is removed before, unless the lease could not be put into words.
pub proof fn set_ups_fail_at_the_first_fault(reports: Seq<bool>)
    ensures
        ({
            let n = reports.len();
            let step = begin_history(reports).step;
            let done = |k: int| forall|i: int| 0 <= i < k ==> reports[i];
            &&& step is CreateParent <==> n == 0
            &&& step is CreateIncoming <==> n == 1 && done(1)
            &&& step is CreateFiles <==> n == 2 && done(2)
            &&& step is EncodeLease <==> n == 3 && done(3)
            &&& step is WriteLease <==> n == 4 && done(4)
            &&& step is PublishLease <==> n == 5 && done(5)
            &&& step is EncodeResponse <==> n == 6 && done(6)
            &&& step is Begun <==> n >= 7 && done(7)
            &&& step == BeginStep::Refused(BeginFault::Parent) <==> n >= 1 && !reports[0]
            &&& step == BeginStep::Refused(BeginFault::Incoming) <==> n >= 2 && done(1)
                && !reports[1]
            &&& step == BeginStep::Undo(BeginFault::Files) <==> n == 3 && done(2) && !reports[2]
            &&& step == BeginStep::Refused(BeginFault::Files) <==> n >= 4 && done(2) && !reports[2]
            &&& step == BeginStep::Refused(BeginFault::LeaseEncoding) <==> n >= 4 && done(3)
                && !reports[3]
            &&& step == BeginStep::Undo(BeginFault::Lease) <==> n == 5 && done(4) && !reports[4] || n
                == 6 && done(5) && !reports[5]
            &&& step == BeginStep::Refused(BeginFault::Lease) <==> n >= 6 && done(4) && !reports[4]
                || n >= 7 && done(5) && !reports[5]
            &&& step == BeginStep::Undo(BeginFault::ResponseEncoding) <==> n == 7 && done(6)
                && !reports[6]
            &&& step == BeginStep::Refused(BeginFault::ResponseEncoding) <==> n >= 8 && done(6)
                && !reports[6]
        }),
    decreases reports.len(),
{
    if reports.len() > 0 {
        let shorter = reports.drop_last();
        set_ups_fail_at_the_first_fault(shorter);
        let done = |k: int| forall|i: int| 0 <= i < k ==> reports[i];
        let done_before = |k: int| forall|i: int| 0 <= i < k ==> shorter[i];
        assert forall|i: int| 0 <= i < shorter.len() implies shorter[i] == reports[i] by {}
        assert forall|k: int| 0 <= k < 8 && k < reports.len() implies #[trigger] done(k)
            == done_before(k) by {
            if done(k) {
                assert forall|i: int| 0 <= i < k implies shorter[i] by {
                    assert(reports[i]);
                }
            }
            if done_before(k) {
                assert forall|i: int| 0 <= i < k implies reports[i] by {
                    assert(shorter[i]);
                }
            }
        }
        assert forall|k: int| 0 <= k < 8 && k + 1 == reports.len() implies #[trigger] done(k + 1)
            == (done_before(k) && reports.last()) by {
            if done(k + 1) {
                assert forall|i: int| 0 <= i < k implies shorter[i] by {
                    assert(reports[i]);
                }
                assert(reports[k]);
            }
            if done_before(k) && reports.last() {
                assert forall|i: int| 0 <= i < k + 1 implies reports[i] by {
                    if i < k {
                        assert(shorter[i]);
                    }
                }
            }
        }
        assert(done(1) || !done(1));
        assert(done(2) || !done(2));
        assert(done(3) || !done(3));
        assert(done(4) || !done(4));
        assert(done(5) || !done(5));
        assert(done(6) || !done(6));
        assert(done(7) || !done(7));
    }
}

/// An upload is accepted if and only if the run is in incoming and in no later phase, no
/// ready directory appeared meanwhile, and its lease can be read, is of this release line
/// and this format, was written for this run, and has not ended yet. A run that is in a
/// later phase was accepted before.
pub proof fn uploads_are_accepted_under_a_living_lease(
    work_dir: Seq<char>,
    nickname: Seq<char>,
    run_id: Seq<char>,
    present: PhasePresence,
    lease: Lookup<LeaseFile>,
    ready_appeared: bool,
    now: u64,
)
    ensures
        ({
            let outcome = finish_outcome(
                work_dir,
                nickname,
                run_id,
                present,
                lease,
                ready_appeared,
                now,
            );
            let later = present.ready || present.processing || present.done || present.failed;
            &&& (outcome matches Ok(FinishDecision::AlreadyAccepted(_))) <==> later
            &&& outcome matches Ok(FinishDecision::AlreadyAccepted(phase)) ==> !(
            phase is Incoming) && present.has(phase)
            &&& outcome == Ok::<FinishDecision, failure::FailureView>(FinishDecision::MoveToReady)
                <==> {
                &&& present.incoming && !later && !ready_appeared
                &&& lease matches Lookup::Found(document)
                &&& document.version@ matches version::ProbeView::Version(v)
                &&& version::compatible(v)
                &&& document.parsed matches Ok(current)
                &&& current.protocol_version == LEASE_FILE_VERSION
                &&& current.nickname@ == nickname
                &&& current.run_id@ == run_id
                &&& now < current.expires_at_unix_secs
            }
        }),
{
}

/// A lease lasts for its term from the moment at which it was written or renewed: until
/// then, and no longer, it lets its upload be finished. A renewal keeps whom the lease is
/// for and when it was first written.
pub proof fn leases_last_for_their_term(
    work_dir: Seq<char>,
    nickname: Seq<char>,
    run_id: Seq<char>,
    first: LeaseFile,
    renewed: LeaseFile,
    found: Lookup<LeaseFile>,
    lease_secs: u64,
    written: u64,
    beat: u64,
    now: u64,
)
    requires
        is_fresh_lease(first, nickname, run_id, lease_secs, written),
        is_renewal(renewed, first, lease_secs, beat),
        found matches Lookup::Found(document) && document.version@ == version::ProbeView::Version(
            version::current_version(),
        ) && (document.parsed == Ok::<LeaseFile, String>(first) || document.parsed == Ok::<
            LeaseFile,
            String,
        >(renewed)),
    ensures
        renewed.created_at_unix_secs == written,
        renewed.nickname@ == nickname,
        renewed.run_id@ == run_id,
        renewed.purgery_version@ == version::current_version(),
        renewed.last_heartbeat_unix_secs == beat,
        heartbeat_refusal(work_dir, nickname, run_id, true, found) is None,
        ({
            let since = if (found->Found_0).parsed == Ok::<LeaseFile, String>(first) {
                written
            } else {
                beat
            };
            let present = PhasePresence {
                incoming: true,
                ready: false,
                processing: false,
                done: false,
                failed: false,
            };
            finish_outcome(work_dir, nickname, run_id, present, found, false, now) is Ok <==> now
                - since < lease_secs
        }),
{
    version::own_version_is_compatible();
}

/// A heartbeat is let through if and only if the run is in incoming and its lease can be
/// read, is of this release line and this format, and was written for this run.
pub proof fn heartbeats_need_the_lease_of_the_upload(
    work_dir: Seq<char>,
    nickname: Seq<char>,
    run_id: Seq<char>,
    incoming_exists: bool,
    lease: Lookup<LeaseFile>,
)
    ensures
        heartbeat_refusal(work_dir, nickname, run_id, incoming_exists, lease) is None <==> {
            &&& incoming_exists
            &&& lease matches Lookup::Found(document)
            &&& document.version@ matches version::ProbeView::Version(v)
            &&& version::compatible(v)
            &&& document.parsed matches Ok(current)
            &&& current.protocol_version == LEASE_FILE_VERSION
            &&& current.nickname@ == nickname
            &&& current.run_id@ == run_id
        },
{
}

/// The answer to a client that begins a run names the run, the directory of its upload and
/// the places in it for the files, the configuration and the manifest, and how often to give
/// a sign of life.
pub proof fn beginnings_tell_where_to_upload(
    response: BeginRunResponse,
    lease: LeaseFile,
    nickname: Seq<char>,
    run_id: Seq<char>,
    incoming: Seq<char>,
    heartbeat_secs: u64,
    lease_secs: u64,
    now: u64,
)
    requires
        is_begin_response(response, nickname, run_id, incoming, heartbeat_secs),
        is_fresh_lease(lease, nickname, run_id, lease_secs, now),
    ensures
        response.nickname@ == lease.nickname@,
        response.run_id@ == lease.run_id@,
        response.purgery_version@ == lease.purgery_version@,
        response.protocol_version == PROTOCOL_VERSION,
        response.incoming_dir@ == incoming,
        response.files_dir@ == paths::path_join(incoming, "files"@),
        response.run_config_path@ == paths::path_join(incoming, "run.toml"@),
        response.manifest_path@ == paths::path_join(incoming, "manifest.toml"@),
        response.heartbeat_interval_secs == heartbeat_secs,
        lease.created_at_unix_secs == now,
        lease.last_heartbeat_unix_secs == now,
        lease.protocol_version == LEASE_FILE_VERSION,
        lease.expires_at_unix_secs - now == lease_secs,
{
}

/// The status of a run that failed as a whole says so, of this run and in the words of the
/// failure, and has no records.
pub proof fn failure_statuses_tell_the_failure(
    status: RunStatus,
    nickname: Seq<char>,
    run_id: Seq<char>,
    error: Seq<char>,
)
    requires
        is_failure_status(status, nickname, run_id, error),
    ensures
        status.state is Failed,
        status.nickname@ == nickname,
        status.run_id@ == run_id,
        status.purgery_version@ == version::current_version(),
        status.entries@.len() == 0,
        status.error matches Some(e) && e@ == error,
{
}

/// The runs of a list, as characters, are those of the list, one by one.
pub proof fn run_views_go_one_by_one(runs: Seq<(Nickname, RunId)>)
    ensures
        run_views(runs).len() == runs.len(),
        forall|k: int|
            0 <= k < runs.len() ==> #[trigger] run_views(runs)[k] == (runs[k].0@, runs[k].1@),
{
}

/// What is said of a failure that could not be published names the place at which it
/// stopped: that of the temporary status, that of the status, the parent of the failed
/// runs, or the way from processing to failed.
pub proof fn unpublished_failures_name_the_place(
    processing: Seq<char>,
    failed: Seq<char>,
    tmp: Seq<char>,
    status: Seq<char>,
    parent: Seq<char>,
)
    ensures
        tmp.is_suffix_of(
            run_failure_text(FailureStep::WriteFailed, processing, failed, tmp, status, parent),
        ),
        status.is_suffix_of(
            run_failure_text(FailureStep::PublishFailed, processing, failed, tmp, status, parent),
        ),
        parent.is_suffix_of(
            run_failure_text(
                FailureStep::Move(MoveStep::ParentFailed),
                processing,
                failed,
                tmp,
                status,
                parent,
            ),
        ),
        (processing + " -> "@ + failed).is_suffix_of(
            run_failure_text(
                FailureStep::Move(MoveStep::RenameFailed),
                processing,
                failed,
                tmp,
                status,
                parent,
            ),
        ),
{
    text::joined_texts_keep_both_ends("failed to write temporary run failure status: "@, tmp);
    text::joined_texts_keep_both_ends("failed to finalize run failure status: "@, status);
    text::joined_texts_keep_both_ends("failed to create failed parent: "@, parent);
    let words = "failed to move run-level failure to failed: "@;
    text::joined_texts_keep_both_ends(words, processing + " -> "@ + failed);
    assert(words + (processing + " -> "@ + failed) =~= words + processing + " -> "@ + failed);
}

} // verus!
