//! Claiming a ready run.
//!
//! Of several processors that go for the same run only one gets it. The lock is
//! taken before the run's documents are read, and every change to the run, the
//! publication of a failure included, happens while it is held.

use vstd::prelude::*;

use crate::failure;
use crate::failure::Failure;
use crate::inputs::{InputsVerdict, ProcessingError};
use crate::model::{Nickname, RunId};
use crate::phases::{PhasePresence, ProcessorLockAttempt};
use crate::text;

verus! {

/// Why a claim failed for a reason that nobody expected.
#[derive(Clone, Copy, PartialEq, Eq, Structural, Debug)]
pub enum ClaimFault {
    Lock,
    ProcessingParent,
    StillReady,
}

/// At which point a malformed run could not be moved to failed.
#[derive(Clone, Copy, PartialEq, Eq, Structural, Debug)]
pub enum MalformedFault {
    Status,
    FailedParent,
    Rename,
}

/// How a claim ends.
#[derive(Clone, Copy, PartialEq, Eq, Structural, Debug)]
pub enum ClaimEnd {
    /// The run is in processing and the caller holds its lock.
    Claimed,
    AlreadyProcessing,
    AlreadyTerminal,
    /// Another process holds the lock of the ready run.
    ActiveClaimer,
    /// The run is of another release line and stays where it is.
    IncompatibleReady,
    MalformedReadyMovedToFailed,
    MalformedReadyMoveFailed(MalformedFault),
    NotFound,
    ClaimFailed(ClaimFault),
}

/// What follows when the lock has been released.
#[derive(Clone, Copy, PartialEq, Eq, Structural, Debug)]
pub enum AfterRelease {
    LookAgain,
    End(ClaimEnd),
}

/// The next thing to do on the way to a claim.
#[derive(Clone, Copy, PartialEq, Eq, Structural, Debug)]
pub enum ClaimStep {
    LookForReady,
    TryLock,
    ReadInputs,
    CreateProcessingParent,
    RenameToProcessing,
    /// Write the failure status beside its place in the ready directory.
    WriteStatus,
    PublishStatus,
    DropTemporary(MalformedFault),
    CreateFailedParent,
    RenameToFailed,
    DropStatus,
    RemoveLockFile,
    ReleaseLock(AfterRelease),
    LookAgain,
    Over(ClaimEnd),
}

/// What carrying out a step gave.
#[derive(Clone, Copy, PartialEq, Eq, Structural, Debug)]
pub enum ClaimEvent {
    /// Whether the ready directory is there.
    Found(bool),
    /// How the trial to lock ended.
    Locked(ProcessorLockAttempt),
    /// The trial to lock failed.
    LockError,
    /// What the documents of the run amount to.
    Inputs(InputsVerdict),
    /// Whether a change succeeded.
    Done(bool),
    /// Where the run was seen on a second look.
    Seen(PhasePresence),
}

/// Where a run is that could not be claimed.
pub open spec fn second_look(seen: PhasePresence) -> ClaimEnd {
    if seen.processing {
        ClaimEnd::AlreadyProcessing
    } else if seen.done || seen.failed {
        ClaimEnd::AlreadyTerminal
    } else if seen.ready {
        ClaimEnd::ClaimFailed(ClaimFault::StillReady)
    } else {
        ClaimEnd::NotFound
    }
}

/// The steps of a claim. An event that does not belong to the step leaves it as it
/// is.
pub open spec fn claim_after(step: ClaimStep, event: ClaimEvent) -> ClaimStep {
    match (step, event) {
        (ClaimStep::LookForReady, ClaimEvent::Found(there)) => if there {
            ClaimStep::TryLock
        } else {
            ClaimStep::LookAgain
        },
        (ClaimStep::TryLock, ClaimEvent::Locked(attempt)) => match attempt {
            ProcessorLockAttempt::Acquired => ClaimStep::ReadInputs,
            ProcessorLockAttempt::Busy => ClaimStep::Over(ClaimEnd::ActiveClaimer),
            ProcessorLockAttempt::Missing => ClaimStep::LookAgain,
        },
        (ClaimStep::TryLock, ClaimEvent::LockError) => ClaimStep::Over(
            ClaimEnd::ClaimFailed(ClaimFault::Lock),
        ),
        (ClaimStep::ReadInputs, ClaimEvent::Inputs(verdict)) => match verdict {
            InputsVerdict::Compatible => ClaimStep::CreateProcessingParent,
            InputsVerdict::Incompatible => ClaimStep::ReleaseLock(
                AfterRelease::End(ClaimEnd::IncompatibleReady),
            ),
            InputsVerdict::Malformed => ClaimStep::WriteStatus,
        },
        (ClaimStep::CreateProcessingParent, ClaimEvent::Done(ok)) => if ok {
            ClaimStep::RenameToProcessing
        } else {
            ClaimStep::ReleaseLock(
                AfterRelease::End(ClaimEnd::ClaimFailed(ClaimFault::ProcessingParent)),
            )
        },
        (ClaimStep::RenameToProcessing, ClaimEvent::Done(ok)) => if ok {
            ClaimStep::Over(ClaimEnd::Claimed)
        } else {
            ClaimStep::ReleaseLock(AfterRelease::LookAgain)
        },
        (ClaimStep::WriteStatus, ClaimEvent::Done(ok)) => if ok {
            ClaimStep::PublishStatus
        } else {
            ClaimStep::DropTemporary(MalformedFault::Status)
        },
        (ClaimStep::PublishStatus, ClaimEvent::Done(ok)) => if ok {
            ClaimStep::CreateFailedParent
        } else {
            ClaimStep::DropTemporary(MalformedFault::Status)
        },
        (ClaimStep::DropTemporary(fault), ClaimEvent::Done(_)) => ClaimStep::ReleaseLock(
            AfterRelease::End(ClaimEnd::MalformedReadyMoveFailed(fault)),
        ),
        (ClaimStep::CreateFailedParent, ClaimEvent::Done(ok)) => if ok {
            ClaimStep::RenameToFailed
        } else {
            ClaimStep::ReleaseLock(
                AfterRelease::End(
                    ClaimEnd::MalformedReadyMoveFailed(MalformedFault::FailedParent),
                ),
            )
        },
        (ClaimStep::RenameToFailed, ClaimEvent::Done(ok)) => if ok {
            ClaimStep::RemoveLockFile
        } else {
            ClaimStep::DropStatus
        },
        (ClaimStep::DropStatus, ClaimEvent::Done(_)) => ClaimStep::DropTemporary(
            MalformedFault::Rename,
        ),
        (ClaimStep::RemoveLockFile, ClaimEvent::Done(_)) => ClaimStep::ReleaseLock(
            AfterRelease::End(ClaimEnd::MalformedReadyMovedToFailed),
        ),
        (ClaimStep::ReleaseLock(next), ClaimEvent::Done(_)) => match next {
            AfterRelease::LookAgain => ClaimStep::LookAgain,
            AfterRelease::End(end) => ClaimStep::Over(end),
        },
        (ClaimStep::LookAgain, ClaimEvent::Seen(seen)) => ClaimStep::Over(second_look(seen)),
        _ => step,
    }
}

/// Where a run is that could not be claimed.
pub fn recheck_state(seen: PhasePresence) -> (end: ClaimEnd)
    ensures
        end == second_look(seen),
{
    if seen.processing {
        return ClaimEnd::AlreadyProcessing;
    }
    if seen.done || seen.failed {
        return ClaimEnd::AlreadyTerminal;
    }
    if seen.ready {
        return ClaimEnd::ClaimFailed(ClaimFault::StillReady);
    }
    ClaimEnd::NotFound
}

/// The steps by which a malformed run is moved to failed. Its status is published
/// in the ready directory first, so that a run never stands in failed without one;
/// what was written is taken back if the move fails.
pub fn handle_malformed_ready(step: ClaimStep, ok: bool) -> (next: ClaimStep)
    ensures
        match step {
            ClaimStep::WriteStatus
            | ClaimStep::PublishStatus
            | ClaimStep::DropTemporary(_)
            | ClaimStep::CreateFailedParent
            | ClaimStep::RenameToFailed
            | ClaimStep::DropStatus
            | ClaimStep::RemoveLockFile => next == claim_after(step, ClaimEvent::Done(ok)),
            _ => next == step,
        },
{
    match step {
        ClaimStep::WriteStatus => if ok {
            ClaimStep::PublishStatus
        } else {
            ClaimStep::DropTemporary(MalformedFault::Status)
        },
        ClaimStep::PublishStatus => if ok {
            ClaimStep::CreateFailedParent
        } else {
            ClaimStep::DropTemporary(MalformedFault::Status)
        },
        ClaimStep::DropTemporary(fault) => ClaimStep::ReleaseLock(
            AfterRelease::End(ClaimEnd::MalformedReadyMoveFailed(fault)),
        ),
        ClaimStep::CreateFailedParent => if ok {
            ClaimStep::RenameToFailed
        } else {
            ClaimStep::ReleaseLock(
                AfterRelease::End(
                    ClaimEnd::MalformedReadyMoveFailed(MalformedFault::FailedParent),
                ),
            )
        },
        ClaimStep::RenameToFailed => if ok {
            ClaimStep::RemoveLockFile
        } else {
            ClaimStep::DropStatus
        },
        ClaimStep::DropStatus => ClaimStep::DropTemporary(MalformedFault::Rename),
        ClaimStep::RemoveLockFile => ClaimStep::ReleaseLock(
            AfterRelease::End(ClaimEnd::MalformedReadyMovedToFailed),
        ),
        _ => step,
    }
}

/// The step of a claim behind the given one. A claim starts with
/// `ClaimStep::LookForReady`.
pub fn claim_ready_run(step: ClaimStep, event: ClaimEvent) -> (next: ClaimStep)
    ensures
        next == claim_after(step, event),
{
    match (step, event) {
        (ClaimStep::LookForReady, ClaimEvent::Found(there)) => if there {
            ClaimStep::TryLock
        } else {
            ClaimStep::LookAgain
        },
        (ClaimStep::TryLock, ClaimEvent::Locked(attempt)) => match attempt {
            ProcessorLockAttempt::Acquired => ClaimStep::ReadInputs,
            ProcessorLockAttempt::Busy => ClaimStep::Over(ClaimEnd::ActiveClaimer),
            ProcessorLockAttempt::Missing => ClaimStep::LookAgain,
        },
        (ClaimStep::TryLock, ClaimEvent::LockError) => ClaimStep::Over(
            ClaimEnd::ClaimFailed(ClaimFault::Lock),
        ),
        (ClaimStep::ReadInputs, ClaimEvent::Inputs(verdict)) => match verdict {
            InputsVerdict::Compatible => ClaimStep::CreateProcessingParent,
            InputsVerdict::Incompatible => ClaimStep::ReleaseLock(
                AfterRelease::End(ClaimEnd::IncompatibleReady),
            ),
            InputsVerdict::Malformed => ClaimStep::WriteStatus,
        },
        (ClaimStep::CreateProcessingParent, ClaimEvent::Done(ok)) => if ok {
            ClaimStep::RenameToProcessing
        } else {
            ClaimStep::ReleaseLock(
                AfterRelease::End(ClaimEnd::ClaimFailed(ClaimFault::ProcessingParent)),
            )
        },
        (ClaimStep::RenameToProcessing, ClaimEvent::Done(ok)) => if ok {
            ClaimStep::Over(ClaimEnd::Claimed)
        } else {
            ClaimStep::ReleaseLock(AfterRelease::LookAgain)
        },
        (ClaimStep::ReleaseLock(next), ClaimEvent::Done(_)) => match next {
            AfterRelease::LookAgain => ClaimStep::LookAgain,
            AfterRelease::End(end) => ClaimStep::Over(end),
        },
        (ClaimStep::LookAgain, ClaimEvent::Seen(seen)) => ClaimStep::Over(recheck_state(seen)),
        (step, ClaimEvent::Done(ok)) => handle_malformed_ready(step, ok),
        (step, _) => step,
    }
}

/// A step that changes the run's directory.
pub open spec fn changes_run(step: ClaimStep) -> bool {
    match step {
        ClaimStep::RenameToProcessing
        | ClaimStep::WriteStatus
        | ClaimStep::PublishStatus
        | ClaimStep::DropTemporary(_)
        | ClaimStep::RenameToFailed
        | ClaimStep::DropStatus
        | ClaimStep::RemoveLockFile => true,
        _ => false,
    }
}

/// A claim on its way, with what its events say of the world: whether the lock is
/// held, whether a failure status stands in the run's directory, whether the run
/// was changed at all, and whether it was moved to failed.
pub struct ClaimHistory {
    pub step: ClaimStep,
    pub locked: bool,
    pub published: bool,
    pub changed: bool,
    pub failed: bool,
}

/// A claim before its first step.
pub open spec fn claim_start() -> ClaimHistory {
    ClaimHistory {
        step: ClaimStep::LookForReady,
        locked: false,
        published: false,
        changed: false,
        failed: false,
    }
}

/// What an event adds to the history of a claim.
pub open spec fn claim_observe(h: ClaimHistory, event: ClaimEvent) -> ClaimHistory {
    ClaimHistory {
        step: claim_after(h.step, event),
        locked: match (h.step, event) {
            (
                ClaimStep::TryLock,
                ClaimEvent::Locked(ProcessorLockAttempt::Acquired),
            ) => true,
            (ClaimStep::ReleaseLock(_), ClaimEvent::Done(_)) => false,
            _ => h.locked,
        },
        published: match (h.step, event) {
            (ClaimStep::PublishStatus, ClaimEvent::Done(ok)) => ok,
            (ClaimStep::DropStatus, ClaimEvent::Done(_)) => false,
            _ => h.published,
        },
        changed: h.changed || (changes_run(h.step) && event is Done),
        failed: match (h.step, event) {
            (ClaimStep::RenameToFailed, ClaimEvent::Done(ok)) => ok,
            _ => h.failed,
        },
    }
}

/// The history of a claim after a number of events.
pub open spec fn claim_history(events: Seq<ClaimEvent>) -> ClaimHistory
    decreases events.len(),
{
    if events.len() == 0 {
        claim_start()
    } else {
        claim_observe(claim_history(events.drop_last()), events.last())
    }
}

spec fn history_fits(h: ClaimHistory) -> bool {
    match h.step {
        ClaimStep::LookForReady | ClaimStep::TryLock => !h.locked && !h.published && !h.changed
            && !h.failed,
        ClaimStep::ReadInputs
        | ClaimStep::CreateProcessingParent
        | ClaimStep::RenameToProcessing
        | ClaimStep::WriteStatus => h.locked && !h.published && !h.failed && !h.changed,
        ClaimStep::PublishStatus => h.locked && !h.published && !h.failed,
        ClaimStep::DropTemporary(_) => h.locked && !h.failed && !h.published,
        ClaimStep::CreateFailedParent
        | ClaimStep::RenameToFailed
        | ClaimStep::DropStatus => h.locked && h.published && !h.failed,
        ClaimStep::RemoveLockFile => h.locked && h.published && h.failed,
        ClaimStep::ReleaseLock(AfterRelease::LookAgain) => h.locked && !h.failed,
        ClaimStep::ReleaseLock(AfterRelease::End(end)) => h.locked && end_fits(h, end) && !(
        end is Claimed),
        ClaimStep::LookAgain => !h.locked && !h.failed,
        ClaimStep::Over(end) => h.locked == (end is Claimed) && end_fits(h, end),
    }
}

spec fn end_fits(h: ClaimHistory, end: ClaimEnd) -> bool {
    &&& h.failed == (end is MalformedReadyMovedToFailed)
    &&& h.failed ==> h.published
    &&& end is IncompatibleReady ==> !h.changed
    &&& end is ActiveClaimer ==> !h.changed
}

proof fn lemma_history_fits(events: Seq<ClaimEvent>)
    ensures
        history_fits(claim_history(events)),
    decreases events.len(),
{
    if events.len() > 0 {
        lemma_history_fits(events.drop_last());
    }
}

/// A run is changed only under its lock, whatever happens on the way.
pub proof fn claims_change_runs_only_under_the_lock(events: Seq<ClaimEvent>)
    ensures
        changes_run(claim_history(events).step) ==> claim_history(events).locked,
{
    lemma_history_fits(events);
}

/// A claim that is over holds the lock exactly if the run was claimed.
pub proof fn only_claimed_runs_stay_locked(events: Seq<ClaimEvent>)
    ensures
        claim_history(events).step matches ClaimStep::Over(end) ==> (claim_history(events).locked
            <==> end is Claimed),
{
    lemma_history_fits(events);
}

/// A malformed run that was moved to failed has a published status there, and a
/// claim moves a run to failed in no other case.
pub proof fn failed_claims_carry_a_status(events: Seq<ClaimEvent>)
    ensures
        claim_history(events).failed ==> claim_history(events).published,
        claim_history(events).step matches ClaimStep::Over(end) ==> (claim_history(events).failed
            <==> end is MalformedReadyMovedToFailed),
{
    lemma_history_fits(events);
}

/// A run of another release line, and a run that another processor holds, are left
/// exactly as they were found.
pub proof fn foreign_runs_are_left_alone(events: Seq<ClaimEvent>)
    ensures
        claim_history(events).step matches ClaimStep::Over(end) ==> (end is IncompatibleReady
            || end is ActiveClaimer ==> !claim_history(events).changed),
{
    lemma_history_fits(events);
}

/// How many steps a claim still needs at most.
pub open spec fn claim_distance(step: ClaimStep) -> nat {
    match step {
        ClaimStep::LookForReady => 11,
        ClaimStep::TryLock => 10,
        ClaimStep::ReadInputs => 9,
        ClaimStep::WriteStatus => 8,
        ClaimStep::PublishStatus => 7,
        ClaimStep::CreateFailedParent => 6,
        ClaimStep::RenameToFailed => 5,
        ClaimStep::CreateProcessingParent => 5,
        ClaimStep::DropStatus => 4,
        ClaimStep::RemoveLockFile => 4,
        ClaimStep::RenameToProcessing => 4,
        ClaimStep::DropTemporary(_) => 3,
        ClaimStep::ReleaseLock(_) => 2,
        ClaimStep::LookAgain => 1,
        ClaimStep::Over(_) => 0,
    }
}

/// An event that reports on the step.
pub open spec fn answers(step: ClaimStep, event: ClaimEvent) -> bool {
    match step {
        ClaimStep::LookForReady => event is Found,
        ClaimStep::TryLock => event is Locked || event is LockError,
        ClaimStep::ReadInputs => event is Inputs,
        ClaimStep::LookAgain => event is Seen,
        ClaimStep::Over(_) => false,
        _ => event is Done,
    }
}

/// Every report brings a claim nearer to its end, so a claim ends after at most
/// eleven of them.
pub proof fn claims_end(step: ClaimStep, event: ClaimEvent)
    requires
        answers(step, event),
    ensures
        claim_distance(claim_after(step, event)) < claim_distance(step),
        claim_distance(step) <= 11,
{
}

/// How a claim ended, in words.
#[derive(Debug)]
pub enum ReadyClaimOutcome {
    Claimed,
    AlreadyProcessing,
    AlreadyTerminal,
    ActiveClaimer,
    IncompatibleReady { message: String },
    MalformedReadyMovedToFailed { error: Failure },
    MalformedReadyMoveFailed { original_error: Failure, publish_error: Failure },
    NotFound,
    ClaimFailed { error: Failure },
}

/// Why a claim failed. `detail` is what the system said.
pub open spec fn claim_fault_text(
    fault: ClaimFault,
    nickname: Seq<char>,
    run_id: Seq<char>,
    detail: Seq<char>,
) -> Seq<char> {
    match fault {
        ClaimFault::Lock => "failed to acquire processor lock: "@ + detail,
        ClaimFault::ProcessingParent => "failed to create processing parent: "@ + detail,
        ClaimFault::StillReady => "failed to claim run "@ + nickname + "/"@ + run_id
            + ": ready still exists but rename failed"@,
    }
}

/// Why a malformed run could not be moved. `detail` is what the system said.
pub open spec fn malformed_fault_text(fault: MalformedFault, detail: Seq<char>) -> Seq<char> {
    match fault {
        MalformedFault::Status => "failed to write failure status to ready: "@ + detail,
        MalformedFault::FailedParent => "failed to create failed parent: "@ + detail,
        MalformedFault::Rename => "failed to move malformed ready to failed: "@ + detail,
    }
}

fn claim_fault_message(fault: ClaimFault, nickname: &Nickname, run_id: &RunId, detail: &str) -> (m:
    String)
    ensures
        m@ == claim_fault_text(fault, nickname@, run_id@, detail@),
{
    match fault {
        ClaimFault::Lock => text::cat2("failed to acquire processor lock: ", detail),
        ClaimFault::ProcessingParent => text::cat2(
            "failed to create processing parent: ",
            detail,
        ),
        ClaimFault::StillReady => text::cat5(
            "failed to claim run ",
            nickname.as_str(),
            "/",
            run_id.as_str(),
            ": ready still exists but rename failed",
        ),
    }
}

fn malformed_fault_message(fault: MalformedFault, detail: &str) -> (m: String)
    ensures
        m@ == malformed_fault_text(fault, detail@),
{
    match fault {
        MalformedFault::Status => text::cat2("failed to write failure status to ready: ", detail),
        MalformedFault::FailedParent => text::cat2("failed to create failed parent: ", detail),
        MalformedFault::Rename => text::cat2("failed to move malformed ready to failed: ", detail),
    }
}

/// Whether an outcome puts the end of a claim into words. `inputs` is the text of
/// what was wrong with the documents, `detail` what the system said last.
pub open spec fn puts_into_words(
    outcome: ReadyClaimOutcome,
    end: ClaimEnd,
    nickname: Seq<char>,
    run_id: Seq<char>,
    inputs: Seq<char>,
    detail: Seq<char>,
) -> bool {
    match end {
        ClaimEnd::Claimed => outcome is Claimed,
        ClaimEnd::AlreadyProcessing => outcome is AlreadyProcessing,
        ClaimEnd::AlreadyTerminal => outcome is AlreadyTerminal,
        ClaimEnd::ActiveClaimer => outcome is ActiveClaimer,
        ClaimEnd::NotFound => outcome is NotFound,
        ClaimEnd::IncompatibleReady => outcome matches ReadyClaimOutcome::IncompatibleReady {
            message,
        } && message@ == inputs,
        ClaimEnd::MalformedReadyMovedToFailed => outcome
            matches ReadyClaimOutcome::MalformedReadyMovedToFailed { error } && error@
            == failure::plain(inputs),
        ClaimEnd::MalformedReadyMoveFailed(fault) => outcome
            matches ReadyClaimOutcome::MalformedReadyMoveFailed { original_error, publish_error }
            && original_error@ == failure::plain(inputs) && publish_error@ == failure::plain(
            malformed_fault_text(fault, detail),
        ),
        ClaimEnd::ClaimFailed(fault) => outcome matches ReadyClaimOutcome::ClaimFailed { error }
            && error@ == failure::plain(claim_fault_text(fault, nickname, run_id, detail)),
    }
}

/// Puts the end of a claim into words.
pub fn describe_claim(
    end: ClaimEnd,
    nickname: &Nickname,
    run_id: &RunId,
    inputs: &str,
    detail: &str,
) -> (outcome: ReadyClaimOutcome)
    ensures
        puts_into_words(outcome, end, nickname@, run_id@, inputs@, detail@),
{
    match end {
        ClaimEnd::Claimed => ReadyClaimOutcome::Claimed,
        ClaimEnd::AlreadyProcessing => ReadyClaimOutcome::AlreadyProcessing,
        ClaimEnd::AlreadyTerminal => ReadyClaimOutcome::AlreadyTerminal,
        ClaimEnd::ActiveClaimer => ReadyClaimOutcome::ActiveClaimer,
        ClaimEnd::NotFound => ReadyClaimOutcome::NotFound,
        ClaimEnd::IncompatibleReady => ReadyClaimOutcome::IncompatibleReady {
            message: inputs.to_owned(),
        },
        ClaimEnd::MalformedReadyMovedToFailed => ReadyClaimOutcome::MalformedReadyMovedToFailed {
            error: Failure::new(inputs.to_owned()),
        },
        ClaimEnd::MalformedReadyMoveFailed(
            fault,
        ) => ReadyClaimOutcome::MalformedReadyMoveFailed {
            original_error: Failure::new(inputs.to_owned()),
            publish_error: Failure::new(malformed_fault_message(fault, detail)),
        },
        ClaimEnd::ClaimFailed(fault) => ReadyClaimOutcome::ClaimFailed {
            error: Failure::new(claim_fault_message(fault, nickname, run_id, detail)),
        },
    }
}

/// What a request to process one run comes to after its claim: nothing yet if the
/// run was claimed and is now to be processed, and otherwise the answer.
pub open spec fn claim_answer(outcome: ReadyClaimOutcome) -> Option<
    Result<(), failure::FailureView>,
> {
    match outcome {
        ReadyClaimOutcome::Claimed => None,
        ReadyClaimOutcome::AlreadyProcessing
        | ReadyClaimOutcome::AlreadyTerminal
        | ReadyClaimOutcome::ActiveClaimer => Some(Ok(())),
        ReadyClaimOutcome::IncompatibleReady { message } => Some(
            Err(failure::plain(message@)),
        ),
        ReadyClaimOutcome::MalformedReadyMovedToFailed { error } => Some(Err(error@)),
        ReadyClaimOutcome::MalformedReadyMoveFailed { original_error, publish_error } => Some(
            Err(
                failure::plain(
                    "malformed ready could not be moved to failed: "@ + original_error.message@
                        + "; publication error: "@ + publish_error.message@,
                ),
            ),
        ),
        ReadyClaimOutcome::NotFound => Some(Err(failure::plain("run not found"@))),
        ReadyClaimOutcome::ClaimFailed { error } => Some(Err(error@)),
    }
}

/// Answers a request to process one ready run once its claim has ended. A claimed
/// run has no answer yet: it is processed under its lock, and
/// `process_run_answer` gives the answer.
pub fn process_run(outcome: ReadyClaimOutcome) -> (answer: Option<Result<(), Failure>>)
    ensures
        match claim_answer(outcome) {
            None => answer is None,
            Some(expected) => answer matches Some(r) && failure::agrees(r, expected),
        },
{
    match outcome {
        ReadyClaimOutcome::Claimed => None,
        ReadyClaimOutcome::AlreadyProcessing => Some(Ok(())),
        ReadyClaimOutcome::AlreadyTerminal => Some(Ok(())),
        ReadyClaimOutcome::ActiveClaimer => Some(Ok(())),
        ReadyClaimOutcome::IncompatibleReady { message } => Some(Err(Failure::new(message))),
        ReadyClaimOutcome::MalformedReadyMovedToFailed { error } => Some(Err(error)),
        ReadyClaimOutcome::MalformedReadyMoveFailed { original_error, publish_error } => Some(
            Err(
                Failure::new(
                    text::cat4(
                        "malformed ready could not be moved to failed: ",
                        original_error.message.as_str(),
                        "; publication error: ",
                        publish_error.message.as_str(),
                    ),
                ),
            ),
        ),
        ReadyClaimOutcome::NotFound => Some(Err(Failure::new("run not found".to_owned()))),
        ReadyClaimOutcome::ClaimFailed { error } => Some(Err(error)),
    }
}

/// Answers a request to process one ready run once the run was processed.
pub fn process_run_answer(processed: Result<(), ProcessingError>) -> (answer: Result<(), Failure>)
    ensures
        match processed {
            Ok(_) => answer is Ok,
            Err(ProcessingError::Incompatible { message, .. }) => answer matches Err(f) && f@
                == failure::plain(message@),
            Err(ProcessingError::Other(failure)) => answer matches Err(f) && f@ == failure@,
        },
{
    match processed {
        Ok(()) => Ok(()),
        Err(ProcessingError::Incompatible { message, .. }) => Err(Failure::new(message)),
        Err(ProcessingError::Other(failure)) => Err(failure),
    }
}

/// A claim on its way, with the steps that were carried out and what each was answered.
pub struct ClaimRecord {
    pub step: ClaimStep,
    pub steps: Seq<ClaimStep>,
    pub replies: Seq<ClaimEvent>,
}

/// The record of a claim after a number of events. An event that is no answer to the step
/// is not recorded.
pub open spec fn claim_record(events: Seq<ClaimEvent>) -> ClaimRecord
    decreases events.len(),
{
    if events.len() == 0 {
        ClaimRecord {
            step: ClaimStep::LookForReady,
            steps: Seq::empty(),
            replies: Seq::empty(),
        }
    } else {
        let r = claim_record(events.drop_last());
        let event = events.last();
        if answers(r.step, event) {
            ClaimRecord {
                step: claim_after(r.step, event),
                steps: r.steps.push(r.step),
                replies: r.replies.push(event),
            }
        } else {
            ClaimRecord { step: claim_after(r.step, event), ..r }
        }
    }
}

/// The first steps of every claim that gets the lock.
spec fn locked_first(steps: Seq<ClaimStep>, replies: Seq<ClaimEvent>, verdict: InputsVerdict) -> bool {
    &&& steps.len() >= 3 && replies.len() == steps.len()
    &&& steps[0] is LookForReady && replies[0] == ClaimEvent::Found(true)
    &&& steps[1] is TryLock && replies[1] == ClaimEvent::Locked(ProcessorLockAttempt::Acquired)
    &&& steps[2] is ReadInputs && replies[2] == ClaimEvent::Inputs(verdict)
}

/// A step and what it was answered, at a place of a record.
spec fn went(
    steps: Seq<ClaimStep>,
    replies: Seq<ClaimEvent>,
    k: int,
    step: ClaimStep,
    ok: bool,
) -> bool {
    0 <= k < steps.len() && steps[k] == step && replies[k] == ClaimEvent::Done(ok)
}

/// What was done before the lock of a run is released.
spec fn before_release(steps: Seq<ClaimStep>, replies: Seq<ClaimEvent>, end: ClaimEnd) -> bool {
    let n = steps.len();
    match end {
        ClaimEnd::IncompatibleReady => locked_first(steps, replies, InputsVerdict::Incompatible)
            && n == 3,
        ClaimEnd::ClaimFailed(ClaimFault::ProcessingParent) => {
            &&& locked_first(steps, replies, InputsVerdict::Compatible) && n == 4
            &&& went(steps, replies, 3, ClaimStep::CreateProcessingParent, false)
        },
        ClaimEnd::MalformedReadyMoveFailed(MalformedFault::Status) => {
            &&& locked_first(steps, replies, InputsVerdict::Malformed)
            &&& {
                ||| went(steps, replies, 3, ClaimStep::WriteStatus, false) && n == 5
                ||| went(steps, replies, 3, ClaimStep::WriteStatus, true) && went(
                    steps,
                    replies,
                    4,
                    ClaimStep::PublishStatus,
                    false,
                ) && n == 6
            }
            &&& steps[n - 1] == ClaimStep::DropTemporary(MalformedFault::Status)
        },
        ClaimEnd::MalformedReadyMoveFailed(MalformedFault::FailedParent) => {
            &&& locked_first(steps, replies, InputsVerdict::Malformed) && n == 6
            &&& went(steps, replies, 3, ClaimStep::WriteStatus, true)
            &&& went(steps, replies, 4, ClaimStep::PublishStatus, true)
            &&& went(steps, replies, 5, ClaimStep::CreateFailedParent, false)
        },
        ClaimEnd::MalformedReadyMoveFailed(MalformedFault::Rename) => {
            &&& locked_first(steps, replies, InputsVerdict::Malformed) && n == 9
            &&& went(steps, replies, 3, ClaimStep::WriteStatus, true)
            &&& went(steps, replies, 4, ClaimStep::PublishStatus, true)
            &&& went(steps, replies, 5, ClaimStep::CreateFailedParent, true)
            &&& went(steps, replies, 6, ClaimStep::RenameToFailed, false)
            &&& steps[7] is DropStatus
            &&& steps[8] == ClaimStep::DropTemporary(MalformedFault::Rename)
        },
        ClaimEnd::MalformedReadyMovedToFailed => {
            &&& locked_first(steps, replies, InputsVerdict::Malformed) && n == 8
            &&& went(steps, replies, 3, ClaimStep::WriteStatus, true)
            &&& went(steps, replies, 4, ClaimStep::PublishStatus, true)
            &&& went(steps, replies, 5, ClaimStep::CreateFailedParent, true)
            &&& went(steps, replies, 6, ClaimStep::RenameToFailed, true)
            &&& steps[7] is RemoveLockFile
        },
        _ => false,
    }
}

/// What was done before a claim looks for the run a second time.
spec fn before_second_look(steps: Seq<ClaimStep>, replies: Seq<ClaimEvent>) -> bool {
    let n = steps.len();
    &&& replies.len() == n
    &&& n > 0 && steps[0] is LookForReady
    &&& {
        ||| n == 1 && replies[0] == ClaimEvent::Found(false)
        ||| n == 2 && replies[0] == ClaimEvent::Found(true) && steps[1] is TryLock && replies[1]
            == ClaimEvent::Locked(ProcessorLockAttempt::Missing)
        ||| n == 6 && locked_first(steps, replies, InputsVerdict::Compatible) && went(
            steps,
            replies,
            3,
            ClaimStep::CreateProcessingParent,
            true,
        ) && went(steps, replies, 4, ClaimStep::RenameToProcessing, false) && steps[5]
            == ClaimStep::ReleaseLock(AfterRelease::LookAgain)
    }
}

spec fn record_fits(r: ClaimRecord) -> bool {
    let (steps, replies) = (r.steps, r.replies);
    let n = steps.len();
    &&& replies.len() == n
    &&& match r.step {
        ClaimStep::LookForReady => n == 0,
        ClaimStep::TryLock => n == 1 && steps[0] is LookForReady && replies[0] == ClaimEvent::Found(
            true,
        ),
        ClaimStep::ReadInputs => n == 2 && steps[0] is LookForReady && replies[0]
            == ClaimEvent::Found(true) && steps[1] is TryLock && replies[1] == ClaimEvent::Locked(
            ProcessorLockAttempt::Acquired,
        ),
        ClaimStep::CreateProcessingParent => n == 3 && locked_first(
            steps,
            replies,
            InputsVerdict::Compatible,
        ),
        ClaimStep::RenameToProcessing => n == 4 && locked_first(
            steps,
            replies,
            InputsVerdict::Compatible,
        ) && went(steps, replies, 3, ClaimStep::CreateProcessingParent, true),
        ClaimStep::WriteStatus => n == 3 && locked_first(steps, replies, InputsVerdict::Malformed),
        ClaimStep::PublishStatus => n == 4 && locked_first(steps, replies, InputsVerdict::Malformed)
            && went(steps, replies, 3, ClaimStep::WriteStatus, true),
        ClaimStep::CreateFailedParent => n == 5 && locked_first(
            steps,
            replies,
            InputsVerdict::Malformed,
        ) && went(steps, replies, 3, ClaimStep::WriteStatus, true) && went(
            steps,
            replies,
            4,
            ClaimStep::PublishStatus,
            true,
        ),
        ClaimStep::RenameToFailed => n == 6 && locked_first(
            steps,
            replies,
            InputsVerdict::Malformed,
        ) && went(steps, replies, 3, ClaimStep::WriteStatus, true) && went(
            steps,
            replies,
            4,
            ClaimStep::PublishStatus,
            true,
        ) && went(steps, replies, 5, ClaimStep::CreateFailedParent, true),
        ClaimStep::DropStatus | ClaimStep::RemoveLockFile => n == 7 && locked_first(
            steps,
            replies,
            InputsVerdict::Malformed,
        ) && went(steps, replies, 3, ClaimStep::WriteStatus, true) && went(
            steps,
            replies,
            4,
            ClaimStep::PublishStatus,
            true,
        ) && went(steps, replies, 5, ClaimStep::CreateFailedParent, true) && went(
            steps,
            replies,
            6,
            ClaimStep::RenameToFailed,
            r.step is RemoveLockFile,
        ),
        ClaimStep::DropTemporary(fault) => {
            &&& locked_first(steps, replies, InputsVerdict::Malformed)
            &&& match fault {
                MalformedFault::Status => {
                    ||| n == 4 && went(steps, replies, 3, ClaimStep::WriteStatus, false)
                    ||| n == 5 && went(steps, replies, 3, ClaimStep::WriteStatus, true) && went(
                        steps,
                        replies,
                        4,
                        ClaimStep::PublishStatus,
                        false,
                    )
                },
                MalformedFault::FailedParent => false,
                MalformedFault::Rename => n == 8 && went(
                    steps,
                    replies,
                    3,
                    ClaimStep::WriteStatus,
                    true,
                ) && went(steps, replies, 4, ClaimStep::PublishStatus, true) && went(
                    steps,
                    replies,
                    5,
                    ClaimStep::CreateFailedParent,
                    true,
                ) && went(steps, replies, 6, ClaimStep::RenameToFailed, false) && steps[7]
                    is DropStatus,
            }
        },
        ClaimStep::ReleaseLock(AfterRelease::LookAgain) => n == 5 && locked_first(
            steps,
            replies,
            InputsVerdict::Compatible,
        ) && went(steps, replies, 3, ClaimStep::CreateProcessingParent, true) && went(
            steps,
            replies,
            4,
            ClaimStep::RenameToProcessing,
            false,
        ),
        ClaimStep::ReleaseLock(AfterRelease::End(end)) => before_release(steps, replies, end),
        ClaimStep::LookAgain => before_second_look(steps, replies),
        ClaimStep::Over(end) => story(steps, replies, end),
    }
}

spec fn story(steps: Seq<ClaimStep>, replies: Seq<ClaimEvent>, end: ClaimEnd) -> bool {
    let n = steps.len();
    &&& n > 0 && replies.len() == n
    &&& match end {
        ClaimEnd::Claimed => {
            &&& locked_first(steps, replies, InputsVerdict::Compatible) && n == 5
            &&& went(steps, replies, 3, ClaimStep::CreateProcessingParent, true)
            &&& went(steps, replies, 4, ClaimStep::RenameToProcessing, true)
        },
        ClaimEnd::ActiveClaimer => n == 2 && steps[1] is TryLock && replies[1]
            == ClaimEvent::Locked(ProcessorLockAttempt::Busy),
        ClaimEnd::ClaimFailed(ClaimFault::Lock) => n == 2 && steps[1] is TryLock && replies[1]
            is LockError,
        ClaimEnd::AlreadyProcessing
        | ClaimEnd::AlreadyTerminal
        | ClaimEnd::NotFound
        | ClaimEnd::ClaimFailed(ClaimFault::StillReady) => {
            &&& steps.last() is LookAgain
            &&& before_second_look(steps.drop_last(), replies.drop_last())
            &&& replies.last() matches ClaimEvent::Seen(seen)
            &&& end == second_look(seen)
        },
        _ => {
            &&& steps.last() == ClaimStep::ReleaseLock(AfterRelease::End(end))
            &&& before_release(steps.drop_last(), replies.drop_last(), end)
        },
    }
}

proof fn lemma_record_fits(events: Seq<ClaimEvent>)
    ensures
        record_fits(claim_record(events)),
    decreases events.len(),
{
    if events.len() > 0 {
        let before = claim_record(events.drop_last());
        let after = claim_record(events);
        lemma_record_fits(events.drop_last());
        if answers(before.step, events.last()) {
            assert(after.steps.drop_last() =~= before.steps);
            assert(after.replies.drop_last() =~= before.replies);
        }
    }
}

/// A run counts as claimed if and only if it was there, its lock was got, its documents
/// were found compatible, and it was moved to processing: each step was carried out, in
/// this order, and reported as done.
pub proof fn claimed_runs_were_moved_under_their_lock(events: Seq<ClaimEvent>)
    ensures
        ({
            let r = claim_record(events);
            r.step == ClaimStep::Over(ClaimEnd::Claimed) ==> {
                &&& r.steps == seq![
                    ClaimStep::LookForReady,
                    ClaimStep::TryLock,
                    ClaimStep::ReadInputs,
                    ClaimStep::CreateProcessingParent,
                    ClaimStep::RenameToProcessing,
                ]
                &&& r.replies == seq![
                    ClaimEvent::Found(true),
                    ClaimEvent::Locked(ProcessorLockAttempt::Acquired),
                    ClaimEvent::Inputs(InputsVerdict::Compatible),
                    ClaimEvent::Done(true),
                    ClaimEvent::Done(true),
                ]
            }
        }),
        claim_record(
            seq![
                ClaimEvent::Found(true),
                ClaimEvent::Locked(ProcessorLockAttempt::Acquired),
                ClaimEvent::Inputs(InputsVerdict::Compatible),
                ClaimEvent::Done(true),
                ClaimEvent::Done(true),
            ],
        ).step == ClaimStep::Over(ClaimEnd::Claimed),
{
    lemma_record_fits(events);
    let r = claim_record(events);
    if r.step == ClaimStep::Over(ClaimEnd::Claimed) {
        assert(r.steps =~= seq![
            ClaimStep::LookForReady,
            ClaimStep::TryLock,
            ClaimStep::ReadInputs,
            ClaimStep::CreateProcessingParent,
            ClaimStep::RenameToProcessing,
        ]);
        assert(r.replies =~= seq![
            ClaimEvent::Found(true),
            ClaimEvent::Locked(ProcessorLockAttempt::Acquired),
            ClaimEvent::Inputs(InputsVerdict::Compatible),
            ClaimEvent::Done(true),
            ClaimEvent::Done(true),
        ]);
    }
    let five = seq![
        ClaimEvent::Found(true),
        ClaimEvent::Locked(ProcessorLockAttempt::Acquired),
        ClaimEvent::Inputs(InputsVerdict::Compatible),
        ClaimEvent::Done(true),
        ClaimEvent::Done(true),
    ];
    let four = five.drop_last();
    let three = four.drop_last();
    let two = three.drop_last();
    let one = two.drop_last();
    assert(one.drop_last() =~= Seq::<ClaimEvent>::empty());
    assert(claim_record(one.drop_last()).step is LookForReady);
    assert(claim_record(one).step is TryLock);
    assert(claim_record(two).step is ReadInputs);
    assert(claim_record(three).step is CreateProcessingParent);
    assert(claim_record(four).step is RenameToProcessing);
}

/// A malformed run is moved to failed with a status that was written and published before:
/// it counts as moved only if all of this was reported as done, and only such a run is.
/// Where it cannot be moved, the step that failed is named, and what was written is taken
/// back.
pub proof fn malformed_runs_are_failed_step_by_step(events: Seq<ClaimEvent>)
    ensures
        ({
            let r = claim_record(events);
            let made = |k: int, step: ClaimStep, ok: bool|
                0 <= k < r.steps.len() && r.steps[k] == step && r.replies[k] == ClaimEvent::Done(ok);
            &&& r.step matches ClaimStep::Over(ClaimEnd::MalformedReadyMovedToFailed) ==> {
                &&& r.replies[2] == ClaimEvent::Inputs(InputsVerdict::Malformed)
                &&& made(3, ClaimStep::WriteStatus, true)
                &&& made(4, ClaimStep::PublishStatus, true)
                &&& made(5, ClaimStep::CreateFailedParent, true)
                &&& made(6, ClaimStep::RenameToFailed, true)
                &&& r.steps[7] is RemoveLockFile
                &&& r.steps[8] is ReleaseLock
                &&& r.steps.len() == 9
            }
            &&& r.step matches ClaimStep::Over(ClaimEnd::MalformedReadyMoveFailed(fault)) ==> {
                &&& r.replies[2] == ClaimEvent::Inputs(InputsVerdict::Malformed)
                &&& r.steps.last() is ReleaseLock
                &&& match fault {
                    MalformedFault::Status => {
                        &&& made(3, ClaimStep::WriteStatus, false) || made(
                            4,
                            ClaimStep::PublishStatus,
                            false,
                        )
                        &&& r.steps[r.steps.len() - 2] == ClaimStep::DropTemporary(
                            MalformedFault::Status,
                        )
                    },
                    MalformedFault::FailedParent => made(5, ClaimStep::CreateFailedParent, false),
                    MalformedFault::Rename => {
                        &&& made(6, ClaimStep::RenameToFailed, false)
                        &&& r.steps[7] is DropStatus
                        &&& r.steps[8] == ClaimStep::DropTemporary(MalformedFault::Rename)
                    },
                }
            }
        }),
{
    lemma_record_fits(events);
}

/// Every other end of a claim tells what was found: a lock that another holds, a lock that
/// could not be tried, documents of another release line, a directory that could not be
/// made, or, where the run could not be found, locked or moved, the place at which it was
/// seen on a second look. A lock that was got is released.
pub proof fn unclaimed_runs_tell_what_was_found(events: Seq<ClaimEvent>)
    ensures
        ({
            let r = claim_record(events);
            let n = r.steps.len();
            r.step matches ClaimStep::Over(end) ==> {
                &&& r.replies.len() == n
                &&& n >= 2 && r.replies[1] == ClaimEvent::Locked(ProcessorLockAttempt::Acquired)
                    && !(end is Claimed) ==> exists|k: int|
                    0 <= k < n && (#[trigger] r.steps[k]) is ReleaseLock
                &&& end is ActiveClaimer ==> n == 2 && r.replies[1] == ClaimEvent::Locked(
                    ProcessorLockAttempt::Busy,
                )
                &&& end == ClaimEnd::ClaimFailed(ClaimFault::Lock) ==> n == 2 && r.replies[1]
                    is LockError
                &&& end == ClaimEnd::ClaimFailed(ClaimFault::ProcessingParent) ==> r.steps[3]
                    is CreateProcessingParent && r.replies[3] == ClaimEvent::Done(false)
                &&& end is IncompatibleReady ==> n == 4 && r.replies[2] == ClaimEvent::Inputs(
                    InputsVerdict::Incompatible,
                )
                &&& (end is AlreadyProcessing || end is AlreadyTerminal || end is NotFound || end
                    == ClaimEnd::ClaimFailed(ClaimFault::StillReady)) ==> {
                    &&& r.steps.last() is LookAgain
                    &&& r.replies.last() matches ClaimEvent::Seen(seen)
                    &&& end is AlreadyProcessing <==> seen.processing
                    &&& end is AlreadyTerminal <==> !seen.processing && (seen.done || seen.failed)
                    &&& end is NotFound <==> !seen.processing && !seen.done && !seen.failed
                        && !seen.ready
                    &&& {
                        ||| n == 2 && r.replies[0] == ClaimEvent::Found(false)
                        ||| n == 3 && r.replies[1] == ClaimEvent::Locked(
                            ProcessorLockAttempt::Missing,
                        )
                        ||| n == 7 && r.steps[4] is RenameToProcessing && r.replies[4]
                            == ClaimEvent::Done(false)
                    }
                }
            }
        }),
{
    lemma_record_fits(events);
    let r = claim_record(events);
    let n = r.steps.len() as int;
    match r.step {
        ClaimStep::Over(end) => {
            assert(r.steps.last() == r.steps[n - 1]);
            if n >= 2 && !(end is Claimed) {
                if r.steps.last() is LookAgain {
                    let shorter = r.steps.drop_last();
                    assert(before_second_look(shorter, r.replies.drop_last()));
                    if n == 7 {
                        assert(r.steps[5] == shorter[5]);
                    }
                }
            }
        },
        _ => {},
    }
}

/// A run that was claimed has no answer yet; one that another processor has or had is no
/// error; whatever else happened is.
pub proof fn answers_follow_the_claim(
    outcome: ReadyClaimOutcome,
    end: ClaimEnd,
    nickname: Seq<char>,
    run_id: Seq<char>,
    inputs: Seq<char>,
    detail: Seq<char>,
)
    requires
        puts_into_words(outcome, end, nickname, run_id, inputs, detail),
    ensures
        claim_answer(outcome) is None <==> end is Claimed,
        (claim_answer(outcome) matches Some(Ok(_))) <==> end is AlreadyProcessing || end
            is AlreadyTerminal || end is ActiveClaimer,
        end is IncompatibleReady || end is MalformedReadyMovedToFailed ==> (claim_answer(
            outcome,
        ) matches Some(Err(failure)) && failure == failure::plain(inputs)),
{
}

} // verus!
