//! Processing one run on request.
//!
//! A ready run is claimed and processed; a run that was left in processing is
//! recovered unless a processor is at work on it; a run that is over is reported as
//! it is. A terminal answer always rests on a verified status, never on a directory
//! alone.

use vstd::prelude::*;

use crate::batch::ProcessVerdict;
use crate::claim::ClaimEnd;
use crate::failure;
use crate::failure::Failure;
use crate::model::{Lookup, Nickname, RunId, RunPhase, RunState, RunStatus};
use crate::protocol::ProcessRunResponse;
use crate::recover::ProcessingTargetOutcome;
use crate::text;
use crate::version;
use crate::version::{current_purgery_version, PROTOCOL_VERSION};

verus! {

// ---------------------------------------------------------------------------
// Verified terminal status
// ---------------------------------------------------------------------------

/// What was seen of a run in a terminal phase.
#[derive(Debug)]
pub struct TerminalDirectory {
    pub exists: bool,
    pub status: Lookup<RunStatus>,
}

/// A run and a phase, in words.
pub open spec fn in_phase(nickname: Seq<char>, run_id: Seq<char>, phase: RunPhase) -> Seq<char> {
    "run "@ + nickname + "/"@ + run_id + " in phase "@ + phase.name()
}

/// What an existing terminal directory says, if its status can be verified.
pub open spec fn directory_reading(
    status: Lookup<RunStatus>,
    nickname: Seq<char>,
    run_id: Seq<char>,
    phase: RunPhase,
) -> Result<RunState, failure::FailureView> {
    let subject = in_phase(nickname, run_id, phase);
    match status {
        Lookup::Missing(error) | Lookup::Unreadable(error) => Err(
            failure::caused(
                "terminal directory exists for "@ + subject + " but status.toml is unreadable"@,
                error@,
            ),
        ),
        Lookup::Found(document) => match document.parsed {
            Err(error) => Err(
                failure::caused("terminal status.toml is invalid for "@ + subject, error@),
            ),
            Ok(status) => if !version::compatible(status.purgery_version@) {
                Err(
                    failure::caused(
                        "incompatible terminal status version for "@ + subject,
                        version::foreign_version_reason(status.purgery_version@),
                    ),
                )
            } else if !status.belongs_to(nickname, run_id) {
                Err(
                    failure::plain(
                        "terminal status envelope mismatch for "@ + subject
                            + ": status has nickname="@ + status.nickname@ + ", run_id="@
                            + status.run_id@,
                    ),
                )
            } else {
                Ok(status.state)
            },
        },
    }
}

/// The verified terminal status of a run: that of done if there is such a directory,
/// otherwise that of failed.
pub open spec fn terminal_status(
    done: TerminalDirectory,
    failed: TerminalDirectory,
    nickname: Seq<char>,
    run_id: Seq<char>,
) -> Result<Option<(RunPhase, RunState)>, failure::FailureView> {
    if done.exists {
        match directory_reading(done.status, nickname, run_id, RunPhase::Done) {
            Ok(state) => Ok(Some((RunPhase::Done, state))),
            Err(error) => Err(error),
        }
    } else if failed.exists {
        match directory_reading(failed.status, nickname, run_id, RunPhase::Failed) {
            Ok(state) => Ok(Some((RunPhase::Failed, state))),
            Err(error) => Err(error),
        }
    } else {
        Ok(None)
    }
}

fn phase_subject(nickname: &Nickname, run_id: &RunId, phase: RunPhase) -> (s: String)
    ensures
        s@ == in_phase(nickname@, run_id@, phase),
{
    let mut s = text::cat5("run ", nickname.as_str(), "/", run_id.as_str(), " in phase ");
    s.append(phase.as_str());
    s
}

fn read_directory(
    status: &Lookup<RunStatus>,
    nickname: &Nickname,
    run_id: &RunId,
    phase: RunPhase,
) -> (r: Result<RunState, Failure>)
    ensures
        failure::agrees(r, directory_reading(*status, nickname@, run_id@, phase)),
{
    let subject = phase_subject(nickname, run_id, phase);
    match status {
        Lookup::Missing(error) | Lookup::Unreadable(error) => Err(
            Failure::with_cause(
                text::cat3(
                    "terminal directory exists for ",
                    subject.as_str(),
                    " but status.toml is unreadable",
                ),
                error.as_str(),
            ),
        ),
        Lookup::Found(document) => match &document.parsed {
            Err(error) => Err(
                Failure::with_cause(
                    text::cat2("terminal status.toml is invalid for ", subject.as_str()),
                    error.as_str(),
                ),
            ),
            Ok(status) => {
                if !version::is_compatible(status.purgery_version.as_str()) {
                    let reason = text::cat4(
                        "incompatible purgery_version: producer ",
                        status.purgery_version.as_str(),
                        ", current ",
                        current_purgery_version(),
                    );
                    return Err(
                        Failure::with_cause(
                            text::cat2(
                                "incompatible terminal status version for ",
                                subject.as_str(),
                            ),
                            reason.as_str(),
                        ),
                    );
                }
                if !status.is_for(nickname, run_id) {
                    let mut m = text::cat5(
                        "terminal status envelope mismatch for ",
                        subject.as_str(),
                        ": status has nickname=",
                        status.nickname.as_str(),
                        ", run_id=",
                    );
                    m.append(status.run_id.as_str());
                    return Err(Failure::new(m));
                }
                Ok(status.state)
            },
        },
    }
}

/// Verifies the terminal status of a run: the directory exists, its status can be
/// read, is of a compatible version, and was written for this run.
pub fn verified_terminal_status(
    done: &TerminalDirectory,
    failed: &TerminalDirectory,
    nickname: &Nickname,
    run_id: &RunId,
) -> (r: Result<Option<(RunPhase, RunState)>, Failure>)
    ensures
        failure::agrees(r, terminal_status(*done, *failed, nickname@, run_id@)),
{
    if done.exists {
        return match read_directory(&done.status, nickname, run_id, RunPhase::Done) {
            Ok(state) => Ok(Some((RunPhase::Done, state))),
            Err(error) => Err(error),
        };
    }
    if failed.exists {
        return match read_directory(&failed.status, nickname, run_id, RunPhase::Failed) {
            Ok(state) => Ok(Some((RunPhase::Failed, state))),
            Err(error) => Err(error),
        };
    }
    Ok(None)
}

// ---------------------------------------------------------------------------
// The way of a request
// ---------------------------------------------------------------------------

/// On what occasion the terminal status is looked up.
#[derive(Clone, Copy, PartialEq, Eq, Structural, Debug)]
pub enum Occasion {
    /// The run was processed.
    Processed,
    /// The run was processed and failed.
    ProcessingFailed,
    /// The run was recovered.
    Recovered,
    /// The run could not be recovered and was failed.
    RecoveryFailed,
    /// The run was over when it was to be claimed.
    OverAtClaim,
    /// The run was over before it could be recovered.
    OverAtRecovery,
    /// The run is neither ready nor in processing.
    NowhereElse,
}

/// How a request ends.
#[derive(Clone, Copy, PartialEq, Eq, Structural, Debug)]
pub enum TargetEnd {
    /// The run is over, with a verified status.
    Answered(Occasion),
    /// The run should be over, and is in no terminal phase.
    NoStatus(Occasion),
    /// The run is in a terminal phase, and its status cannot be verified.
    StatusRefused,
    ClaimInProgress,
    AlreadyActive,
    IncompatibleReady,
    IncompatibleProcessing,
    MalformedMoved,
    MalformedMoveFailed,
    ClaimFailed,
    MoveFailed,
    RecoveryIncompatible,
    RecoveryUnpublished,
    LockError,
}

/// The next thing to do for a request.
#[derive(Clone, Copy, PartialEq, Eq, Structural, Debug)]
pub enum TargetStep {
    Claim,
    Process,
    MoveToFailed,
    LookForProcessing,
    Recover,
    ReadTerminal(Occasion),
    ReleaseLock(TargetEnd),
    Over(TargetEnd),
}

/// What looking up the terminal status gave.
#[derive(Clone, Copy, PartialEq, Eq, Structural, Debug)]
pub enum TerminalReading {
    Absent,
    Verified,
    Refused,
}

/// What doing it gave.
#[derive(Clone, Copy, PartialEq, Eq, Structural, Debug)]
pub enum TargetEvent {
    Claimed(ClaimEnd),
    Processed(ProcessVerdict),
    Found(bool),
    Recovered(ProcessingTargetOutcome),
    Read(TerminalReading),
    Done(bool),
}

/// The end that a reading of the terminal status leads to.
pub open spec fn end_of_reading(occasion: Occasion, reading: TerminalReading) -> TargetEnd {
    match reading {
        TerminalReading::Verified => TargetEnd::Answered(occasion),
        TerminalReading::Absent => TargetEnd::NoStatus(occasion),
        TerminalReading::Refused => TargetEnd::StatusRefused,
    }
}

/// An occasion on which the run's lock is still held.
pub open spec fn still_locked(occasion: Occasion) -> bool {
    occasion is Processed || occasion is ProcessingFailed
}

/// The step behind an event. An event that does not belong to the step leaves it as
/// it is.
pub open spec fn target_after(step: TargetStep, event: TargetEvent) -> TargetStep {
    match (step, event) {
        (TargetStep::Claim, TargetEvent::Claimed(end)) => match end {
            ClaimEnd::Claimed => TargetStep::Process,
            ClaimEnd::ActiveClaimer => TargetStep::Over(TargetEnd::ClaimInProgress),
            ClaimEnd::AlreadyProcessing => TargetStep::Recover,
            ClaimEnd::AlreadyTerminal => TargetStep::ReadTerminal(Occasion::OverAtClaim),
            ClaimEnd::IncompatibleReady => TargetStep::Over(TargetEnd::IncompatibleReady),
            ClaimEnd::MalformedReadyMovedToFailed => TargetStep::Over(TargetEnd::MalformedMoved),
            ClaimEnd::MalformedReadyMoveFailed(_) => TargetStep::Over(
                TargetEnd::MalformedMoveFailed,
            ),
            ClaimEnd::NotFound => TargetStep::LookForProcessing,
            ClaimEnd::ClaimFailed(_) => TargetStep::Over(TargetEnd::ClaimFailed),
        },
        (TargetStep::Process, TargetEvent::Processed(verdict)) => match verdict {
            ProcessVerdict::Processed => TargetStep::ReadTerminal(Occasion::Processed),
            ProcessVerdict::Incompatible => TargetStep::ReleaseLock(
                TargetEnd::IncompatibleProcessing,
            ),
            ProcessVerdict::Failed => TargetStep::MoveToFailed,
        },
        (TargetStep::MoveToFailed, TargetEvent::Done(ok)) => if ok {
            TargetStep::ReadTerminal(Occasion::ProcessingFailed)
        } else {
            TargetStep::ReleaseLock(TargetEnd::MoveFailed)
        },
        (TargetStep::LookForProcessing, TargetEvent::Found(there)) => if there {
            TargetStep::Recover
        } else {
            TargetStep::ReadTerminal(Occasion::NowhereElse)
        },
        (TargetStep::Recover, TargetEvent::Recovered(outcome)) => match outcome {
            ProcessingTargetOutcome::Recovered => TargetStep::ReadTerminal(Occasion::Recovered),
            ProcessingTargetOutcome::ActiveProcessor => TargetStep::Over(TargetEnd::AlreadyActive),
            ProcessingTargetOutcome::FailedPublished => TargetStep::ReadTerminal(
                Occasion::RecoveryFailed,
            ),
            ProcessingTargetOutcome::Incompatible => TargetStep::Over(
                TargetEnd::RecoveryIncompatible,
            ),
            ProcessingTargetOutcome::NotFound => TargetStep::ReadTerminal(
                Occasion::OverAtRecovery,
            ),
            ProcessingTargetOutcome::FailurePublishFailed => TargetStep::Over(
                TargetEnd::RecoveryUnpublished,
            ),
            ProcessingTargetOutcome::LockError => TargetStep::Over(TargetEnd::LockError),
        },
        (TargetStep::ReadTerminal(occasion), TargetEvent::Read(reading)) => if still_locked(
            occasion,
        ) {
            TargetStep::ReleaseLock(end_of_reading(occasion, reading))
        } else {
            TargetStep::Over(end_of_reading(occasion, reading))
        },
        (TargetStep::ReleaseLock(end), TargetEvent::Done(_)) => TargetStep::Over(end),
        _ => step,
    }
}

/// What a run that was found in processing goes on to, once its recovery ended.
pub fn handle_process_run_processing_outcome(outcome: ProcessingTargetOutcome) -> (next: TargetStep)
    ensures
        next == target_after(TargetStep::Recover, TargetEvent::Recovered(outcome)),
{
    match outcome {
        ProcessingTargetOutcome::Recovered => TargetStep::ReadTerminal(Occasion::Recovered),
        ProcessingTargetOutcome::ActiveProcessor => TargetStep::Over(TargetEnd::AlreadyActive),
        ProcessingTargetOutcome::FailedPublished => TargetStep::ReadTerminal(
            Occasion::RecoveryFailed,
        ),
        ProcessingTargetOutcome::Incompatible => TargetStep::Over(TargetEnd::RecoveryIncompatible),
        ProcessingTargetOutcome::NotFound => TargetStep::ReadTerminal(Occasion::OverAtRecovery),
        ProcessingTargetOutcome::FailurePublishFailed => TargetStep::Over(
            TargetEnd::RecoveryUnpublished,
        ),
        ProcessingTargetOutcome::LockError => TargetStep::Over(TargetEnd::LockError),
    }
}

fn conclude(occasion: Occasion, reading: TerminalReading) -> (next: TargetStep)
    ensures
        next == target_after(TargetStep::ReadTerminal(occasion), TargetEvent::Read(reading)),
{
    let end = match reading {
        TerminalReading::Verified => TargetEnd::Answered(occasion),
        TerminalReading::Absent => TargetEnd::NoStatus(occasion),
        TerminalReading::Refused => TargetEnd::StatusRefused,
    };
    match occasion {
        Occasion::Processed => TargetStep::ReleaseLock(end),
        Occasion::ProcessingFailed => TargetStep::ReleaseLock(end),
        _ => TargetStep::Over(end),
    }
}

/// The step of a request behind the given one. A request starts with
/// `TargetStep::Claim`.
pub fn process_run_inner(step: TargetStep, event: TargetEvent) -> (next: TargetStep)
    ensures
        next == target_after(step, event),
{
    match (step, event) {
        (TargetStep::Claim, TargetEvent::Claimed(end)) => match end {
            ClaimEnd::Claimed => TargetStep::Process,
            ClaimEnd::ActiveClaimer => TargetStep::Over(TargetEnd::ClaimInProgress),
            ClaimEnd::AlreadyProcessing => TargetStep::Recover,
            ClaimEnd::AlreadyTerminal => TargetStep::ReadTerminal(Occasion::OverAtClaim),
            ClaimEnd::IncompatibleReady => TargetStep::Over(TargetEnd::IncompatibleReady),
            ClaimEnd::MalformedReadyMovedToFailed => TargetStep::Over(TargetEnd::MalformedMoved),
            ClaimEnd::MalformedReadyMoveFailed(_) => TargetStep::Over(
                TargetEnd::MalformedMoveFailed,
            ),
            ClaimEnd::NotFound => TargetStep::LookForProcessing,
            ClaimEnd::ClaimFailed(_) => TargetStep::Over(TargetEnd::ClaimFailed),
        },
        (TargetStep::Process, TargetEvent::Processed(verdict)) => match verdict {
            ProcessVerdict::Processed => TargetStep::ReadTerminal(Occasion::Processed),
            ProcessVerdict::Incompatible => TargetStep::ReleaseLock(
                TargetEnd::IncompatibleProcessing,
            ),
            ProcessVerdict::Failed => TargetStep::MoveToFailed,
        },
        (TargetStep::MoveToFailed, TargetEvent::Done(ok)) => if ok {
            TargetStep::ReadTerminal(Occasion::ProcessingFailed)
        } else {
            TargetStep::ReleaseLock(TargetEnd::MoveFailed)
        },
        (TargetStep::LookForProcessing, TargetEvent::Found(there)) => if there {
            TargetStep::Recover
        } else {
            TargetStep::ReadTerminal(Occasion::NowhereElse)
        },
        (TargetStep::Recover, TargetEvent::Recovered(outcome)) =>
        handle_process_run_processing_outcome(outcome),
        (TargetStep::ReadTerminal(occasion), TargetEvent::Read(reading)) => conclude(
            occasion,
            reading,
        ),
        (TargetStep::ReleaseLock(end), TargetEvent::Done(_)) => TargetStep::Over(end),
        (step, _) => step,
    }
}

// ---------------------------------------------------------------------------
// The answer
// ---------------------------------------------------------------------------

/// What a request came to.
#[derive(Clone, Copy, PartialEq, Eq, Structural, Debug)]
pub enum ProcessRunOutcome {
    Processed,
    AlreadyActive,
    AlreadyTerminal,
    ClaimInProgress,
}

impl ProcessRunOutcome {
    pub open spec fn name(self) -> Seq<char> {
        match self {
            ProcessRunOutcome::Processed => "processed"@,
            ProcessRunOutcome::AlreadyActive => "already_active"@,
            ProcessRunOutcome::AlreadyTerminal => "already_terminal"@,
            ProcessRunOutcome::ClaimInProgress => "claim_in_progress"@,
        }
    }

    pub fn as_str(self) -> (s: &'static str)
        ensures
            s@ == self.name(),
    {
        match self {
            ProcessRunOutcome::Processed => "processed",
            ProcessRunOutcome::AlreadyActive => "already_active",
            ProcessRunOutcome::AlreadyTerminal => "already_terminal",
            ProcessRunOutcome::ClaimInProgress => "claim_in_progress",
        }
    }
}

/// What a terminal answer reports.
pub open spec fn occasion_outcome(occasion: Occasion) -> ProcessRunOutcome {
    match occasion {
        Occasion::Processed
        | Occasion::ProcessingFailed
        | Occasion::Recovered
        | Occasion::RecoveryFailed => ProcessRunOutcome::Processed,
        Occasion::OverAtClaim
        | Occasion::OverAtRecovery
        | Occasion::NowhereElse => ProcessRunOutcome::AlreadyTerminal,
    }
}

/// The message of a terminal answer. `error` is what went wrong, where something did.
pub open spec fn occasion_message(occasion: Occasion, error: Seq<char>) -> Seq<char> {
    match occasion {
        Occasion::Processed => "run processed successfully"@,
        Occasion::ProcessingFailed => error,
        Occasion::Recovered => "processing run recovered and completed"@,
        Occasion::RecoveryFailed => "processing recovery failed: "@ + error,
        Occasion::OverAtClaim | Occasion::NowhereElse => "run was already in a terminal phase"@,
        Occasion::OverAtRecovery => "processing run completed before recovery"@,
    }
}

/// What is said of a run that should be over and is not.
pub open spec fn missing_status_text(
    occasion: Occasion,
    nickname: Seq<char>,
    run_id: Seq<char>,
) -> Seq<char> {
    match occasion {
        Occasion::OverAtClaim => "run "@ + nickname + "/"@ + run_id
            + " reported as terminal by claim ready but no verified terminal status found"@,
        Occasion::OverAtRecovery => "run "@ + nickname + "/"@ + run_id
            + " disappeared from processing but no verified terminal status exists"@,
        Occasion::NowhereElse => "run "@ + nickname + "/"@ + run_id
            + " not found in ready, processing, or terminal phases"@,
        _ => "run "@ + nickname + "/"@ + run_id
            + " expected terminal status after outcome processed but no verified terminal status exists"@,
    }
}

/// What is known at the end of a request: the verified terminal status, what went
/// wrong in processing or recovery or was wrong with the run, why a failed run could
/// not be moved, and why a claim, a lock or a status was refused.
#[derive(Debug)]
pub struct TargetDetails {
    pub terminal: Option<(RunPhase, RunState)>,
    pub error: String,
    pub move_error: String,
    pub refusal: Failure,
}

/// Whether an answer has the given contents.
pub open spec fn is_answer(
    response: ProcessRunResponse,
    nickname: Seq<char>,
    run_id: Seq<char>,
    outcome: ProcessRunOutcome,
    phase: Seq<char>,
    state: Option<Seq<char>>,
    message: Seq<char>,
) -> bool {
    &&& response.protocol_version == PROTOCOL_VERSION
    &&& response.purgery_version@ == version::current_version()
    &&& response.nickname@ == nickname
    &&& response.run_id@ == run_id
    &&& response.outcome@ == outcome.name()
    &&& text::opt_text(response.run_phase) == Some(phase)
    &&& text::opt_text(response.status_state) == state
    &&& text::opt_text(response.message) == Some(message)
}

/// Why a request is refused, if its end is a refusal.
pub open spec fn target_refusal(
    end: TargetEnd,
    nickname: Seq<char>,
    run_id: Seq<char>,
    details: TargetDetails,
) -> Option<failure::FailureView> {
    match end {
        TargetEnd::Answered(_) | TargetEnd::ClaimInProgress | TargetEnd::AlreadyActive => None,
        TargetEnd::NoStatus(occasion) => Some(
            failure::plain(missing_status_text(occasion, nickname, run_id)),
        ),
        TargetEnd::StatusRefused | TargetEnd::ClaimFailed | TargetEnd::LockError => Some(
            details.refusal@,
        ),
        TargetEnd::IncompatibleReady => Some(
            failure::plain("incompatible run left in place: "@ + details.error@),
        ),
        TargetEnd::IncompatibleProcessing => Some(
            failure::plain("incompatible run in processing: "@ + details.error@),
        ),
        TargetEnd::MalformedMoved => Some(
            failure::plain("malformed ready run moved to failed: "@ + details.error@),
        ),
        TargetEnd::MalformedMoveFailed => Some(
            failure::plain("malformed ready run could not be moved to failed"@),
        ),
        TargetEnd::MoveFailed => Some(
            failure::plain(
                details.error@ + "; failed to move target run to failed: "@ + details.move_error@,
            ),
        ),
        TargetEnd::RecoveryIncompatible => Some(
            failure::plain("abandoned processing run is incompatible: "@ + details.error@),
        ),
        TargetEnd::RecoveryUnpublished => Some(
            failure::plain("processing recovery failed and could not publish failure"@),
        ),
    }
}

/// Whether a request is answered as it should be. Only an answer about a run that is
/// over names a state.
pub open spec fn is_target_answer(
    answer: Result<ProcessRunResponse, Failure>,
    end: TargetEnd,
    nickname: Seq<char>,
    run_id: Seq<char>,
    details: TargetDetails,
) -> bool {
    &&& failure::refuses(answer, target_refusal(end, nickname, run_id, details))
    &&& match end {
        TargetEnd::Answered(occasion) => answer matches Ok(response) && is_answer(
            response,
            nickname,
            run_id,
            occasion_outcome(occasion),
            (details.terminal->0).0.name(),
            Some((details.terminal->0).1.name()),
            occasion_message(occasion, details.error@),
        ),
        TargetEnd::ClaimInProgress => answer matches Ok(response) && is_answer(
            response,
            nickname,
            run_id,
            ProcessRunOutcome::ClaimInProgress,
            "ready"@,
            None,
            "another process owns the ready processor lock"@,
        ),
        TargetEnd::AlreadyActive => answer matches Ok(response) && is_answer(
            response,
            nickname,
            run_id,
            ProcessRunOutcome::AlreadyActive,
            "processing"@,
            None,
            "processor lock is held by another process"@,
        ),
        _ => true,
    }
}

fn answer(
    nickname: &Nickname,
    run_id: &RunId,
    outcome: ProcessRunOutcome,
    phase: &str,
    state: Option<String>,
    message: String,
) -> (response: ProcessRunResponse)
    ensures
        is_answer(
            response,
            nickname@,
            run_id@,
            outcome,
            phase@,
            text::opt_text(state),
            message@,
        ),
{
    ProcessRunResponse {
        protocol_version: PROTOCOL_VERSION,
        purgery_version: current_purgery_version().to_owned(),
        nickname: nickname.as_str().to_owned(),
        run_id: run_id.as_str().to_owned(),
        outcome: outcome.as_str().to_owned(),
        run_phase: Some(phase.to_owned()),
        status_state: state,
        message: Some(message),
    }
}

fn message_for(occasion: Occasion, error: &str) -> (m: String)
    ensures
        m@ == occasion_message(occasion, error@),
{
    match occasion {
        Occasion::Processed => "run processed successfully".to_owned(),
        Occasion::ProcessingFailed => error.to_owned(),
        Occasion::Recovered => "processing run recovered and completed".to_owned(),
        Occasion::RecoveryFailed => text::cat2("processing recovery failed: ", error),
        Occasion::OverAtClaim => "run was already in a terminal phase".to_owned(),
        Occasion::NowhereElse => "run was already in a terminal phase".to_owned(),
        Occasion::OverAtRecovery => "processing run completed before recovery".to_owned(),
    }
}

/// The terminal answer on an occasion.
pub fn terminal_response(
    occasion: Occasion,
    nickname: &Nickname,
    run_id: &RunId,
    phase: RunPhase,
    state: RunState,
    error: &str,
) -> (response: ProcessRunResponse)
    ensures
        is_answer(
            response,
            nickname@,
            run_id@,
            occasion_outcome(occasion),
            phase.name(),
            Some(state.name()),
            occasion_message(occasion, error@),
        ),
{
    let outcome = match occasion {
        Occasion::Processed => ProcessRunOutcome::Processed,
        Occasion::ProcessingFailed => ProcessRunOutcome::Processed,
        Occasion::Recovered => ProcessRunOutcome::Processed,
        Occasion::RecoveryFailed => ProcessRunOutcome::Processed,
        _ => ProcessRunOutcome::AlreadyTerminal,
    };
    answer(
        nickname,
        run_id,
        outcome,
        phase.as_str(),
        Some(state.as_str().to_owned()),
        message_for(occasion, error),
    )
}

fn missing_status(occasion: Occasion, nickname: &Nickname, run_id: &RunId) -> (m: String)
    ensures
        m@ == missing_status_text(occasion, nickname@, run_id@),
{
    let tail: &str = match occasion {
        Occasion::OverAtClaim =>
        " reported as terminal by claim ready but no verified terminal status found",
        Occasion::OverAtRecovery =>
        " disappeared from processing but no verified terminal status exists",
        Occasion::NowhereElse => " not found in ready, processing, or terminal phases",
        _ =>
        " expected terminal status after outcome processed but no verified terminal status exists",
    };
    text::cat5("run ", nickname.as_str(), "/", run_id.as_str(), tail)
}

/// Answers a request to process one run.
pub fn process_run_target(
    end: TargetEnd,
    nickname: &Nickname,
    run_id: &RunId,
    details: TargetDetails,
) -> (r: Result<ProcessRunResponse, Failure>)
    requires
        end is Answered ==> details.terminal is Some,
    ensures
        is_target_answer(r, end, nickname@, run_id@, details),
{
    match end {
        TargetEnd::Answered(occasion) => {
            let (phase, state) = details.terminal.unwrap();
            Ok(terminal_response(occasion, nickname, run_id, phase, state, details.error.as_str()))
        },
        TargetEnd::ClaimInProgress => Ok(
            answer(
                nickname,
                run_id,
                ProcessRunOutcome::ClaimInProgress,
                "ready",
                None,
                "another process owns the ready processor lock".to_owned(),
            ),
        ),
        TargetEnd::AlreadyActive => Ok(
            answer(
                nickname,
                run_id,
                ProcessRunOutcome::AlreadyActive,
                "processing",
                None,
                "processor lock is held by another process".to_owned(),
            ),
        ),
        TargetEnd::NoStatus(occasion) => Err(
            Failure::new(missing_status(occasion, nickname, run_id)),
        ),
        TargetEnd::StatusRefused => Err(details.refusal),
        TargetEnd::ClaimFailed => Err(details.refusal),
        TargetEnd::LockError => Err(details.refusal),
        TargetEnd::IncompatibleReady => Err(
            Failure::new(
                text::cat2("incompatible run left in place: ", details.error.as_str()),
            ),
        ),
        TargetEnd::IncompatibleProcessing => Err(
            Failure::new(
                text::cat2("incompatible run in processing: ", details.error.as_str()),
            ),
        ),
        TargetEnd::MalformedMoved => Err(
            Failure::new(
                text::cat2("malformed ready run moved to failed: ", details.error.as_str()),
            ),
        ),
        TargetEnd::MalformedMoveFailed => Err(
            Failure::new("malformed ready run could not be moved to failed".to_owned()),
        ),
        TargetEnd::MoveFailed => Err(
            Failure::new(
                text::cat3(
                    details.error.as_str(),
                    "; failed to move target run to failed: ",
                    details.move_error.as_str(),
                ),
            ),
        ),
        TargetEnd::RecoveryIncompatible => Err(
            Failure::new(
                text::cat2("abandoned processing run is incompatible: ", details.error.as_str()),
            ),
        ),
        TargetEnd::RecoveryUnpublished => Err(
            Failure::new("processing recovery failed and could not publish failure".to_owned()),
        ),
    }
}

// ---------------------------------------------------------------------------
// Laws of a request
// ---------------------------------------------------------------------------

/// A request on its way, with what its events say of the world: whether the run's
/// lock is held, and what work was done on the run.
pub struct TargetHistory {
    pub step: TargetStep,
    pub locked: bool,
    pub worked: bool,
    pub verified: bool,
}

/// What an event adds to the history of a request.
pub open spec fn target_observe(h: TargetHistory, event: TargetEvent) -> TargetHistory {
    TargetHistory {
        step: target_after(h.step, event),
        locked: match (h.step, event) {
            (TargetStep::Claim, TargetEvent::Claimed(end)) => end is Claimed,
            (TargetStep::ReleaseLock(_), TargetEvent::Done(_)) => false,
            _ => h.locked,
        },
        worked: match (h.step, event) {
            (TargetStep::Process, TargetEvent::Processed(verdict)) => !(verdict is Incompatible),
            (TargetStep::Recover, TargetEvent::Recovered(outcome)) => outcome is Recovered
                || outcome is FailedPublished || outcome is FailurePublishFailed,
            _ => h.worked,
        },
        verified: match (h.step, event) {
            (TargetStep::ReadTerminal(_), TargetEvent::Read(reading)) => reading is Verified,
            _ => h.verified,
        },
    }
}

/// The history of a request after a number of events.
pub open spec fn target_history(events: Seq<TargetEvent>) -> TargetHistory
    decreases events.len(),
{
    if events.len() == 0 {
        TargetHistory { step: TargetStep::Claim, locked: false, worked: false, verified: false }
    } else {
        target_observe(target_history(events.drop_last()), events.last())
    }
}

spec fn occasion_fits(h: TargetHistory, occasion: Occasion) -> bool {
    h.worked == (occasion_outcome(occasion) is Processed)
}

spec fn end_fits(h: TargetHistory, end: TargetEnd) -> bool {
    match end {
        TargetEnd::Answered(occasion) => h.verified && occasion_fits(h, occasion),
        TargetEnd::NoStatus(occasion) => !h.verified && occasion_fits(h, occasion),
        TargetEnd::ClaimInProgress
        | TargetEnd::AlreadyActive
        | TargetEnd::IncompatibleReady
        | TargetEnd::IncompatibleProcessing
        | TargetEnd::RecoveryIncompatible
        | TargetEnd::LockError => !h.worked,
        _ => true,
    }
}

spec fn history_fits(h: TargetHistory) -> bool {
    match h.step {
        TargetStep::Claim | TargetStep::LookForProcessing | TargetStep::Recover => !h.locked
            && !h.worked && !h.verified,
        TargetStep::Process => h.locked && !h.worked && !h.verified,
        TargetStep::MoveToFailed => h.locked && h.worked && !h.verified,
        TargetStep::ReadTerminal(occasion) => h.locked == still_locked(occasion) && !h.verified
            && occasion_fits(h, occasion),
        TargetStep::ReleaseLock(end) => h.locked && end_fits(h, end),
        TargetStep::Over(end) => !h.locked && end_fits(h, end),
    }
}

proof fn lemma_history_fits(events: Seq<TargetEvent>)
    ensures
        history_fits(target_history(events)),
    decreases events.len(),
{
    if events.len() > 0 {
        lemma_history_fits(events.drop_last());
    }
}

/// A run is processed and moved to failed only under its lock, and a request that is
/// over has released it.
pub proof fn requests_hold_the_lock_while_needed(events: Seq<TargetEvent>)
    ensures
        ({
            let h = target_history(events);
            &&& h.step is Process || h.step is MoveToFailed ==> h.locked
            &&& h.step is Over ==> !h.locked
        }),
{
    lemma_history_fits(events);
}

/// A terminal answer rests on a verified status, and says that the run was processed
/// exactly if this request worked on it.
pub proof fn terminal_answers_are_verified(events: Seq<TargetEvent>, occasion: Occasion)
    requires
        target_history(events).step == TargetStep::Over(TargetEnd::Answered(occasion)),
    ensures
        target_history(events).verified,
        target_history(events).worked <==> occasion_outcome(occasion) is Processed,
{
    lemma_history_fits(events);
}

/// A run that another processor holds, and a run of another release line, are not
/// worked on.
pub proof fn busy_and_foreign_runs_are_not_worked_on(events: Seq<TargetEvent>)
    ensures
        target_history(events).step matches TargetStep::Over(end) ==> (end is ClaimInProgress
            || end is AlreadyActive || end is IncompatibleReady || end is IncompatibleProcessing
            || end is RecoveryIncompatible ==> !target_history(events).worked),
{
    lemma_history_fits(events);
}

/// How many steps a request still needs at most.
pub open spec fn target_distance(step: TargetStep) -> nat {
    match step {
        TargetStep::Claim => 6,
        TargetStep::LookForProcessing => 5,
        TargetStep::Recover => 4,
        TargetStep::Process => 4,
        TargetStep::MoveToFailed => 3,
        TargetStep::ReadTerminal(_) => 2,
        TargetStep::ReleaseLock(_) => 1,
        TargetStep::Over(_) => 0,
    }
}

/// An event that reports on the step.
pub open spec fn answers(step: TargetStep, event: TargetEvent) -> bool {
    match step {
        TargetStep::Claim => event is Claimed,
        TargetStep::Process => event is Processed,
        TargetStep::LookForProcessing => event is Found,
        TargetStep::Recover => event is Recovered,
        TargetStep::ReadTerminal(_) => event is Read,
        TargetStep::MoveToFailed | TargetStep::ReleaseLock(_) => event is Done,
        TargetStep::Over(_) => false,
    }
}

/// Every report brings a request nearer to its end.
pub proof fn requests_end(step: TargetStep, event: TargetEvent)
    requires
        answers(step, event),
    ensures
        target_distance(target_after(step, event)) < target_distance(step),
{
}

/// A request on its way, with what was reported of each of its steps: how the claim ended,
/// how the processing went, whether the failed run was moved, whether the run was seen in
/// processing, how its recovery ended, what the terminal status was, and whether the lock
/// was released.
pub struct TargetRecord {
    pub step: TargetStep,
    pub claimed: Option<ClaimEnd>,
    pub processed: Option<ProcessVerdict>,
    pub moved: Option<bool>,
    pub found: Option<bool>,
    pub recovered: Option<ProcessingTargetOutcome>,
    pub read: Option<TerminalReading>,
    pub released: bool,
}

/// The record of a request after a number of events.
pub open spec fn target_record(events: Seq<TargetEvent>) -> TargetRecord
    decreases events.len(),
{
    if events.len() == 0 {
        TargetRecord {
            step: TargetStep::Claim,
            claimed: None,
            processed: None,
            moved: None,
            found: None,
            recovered: None,
            read: None,
            released: false,
        }
    } else {
        let r = target_record(events.drop_last());
        let at = TargetRecord { step: target_after(r.step, events.last()), ..r };
        match (r.step, events.last()) {
            (TargetStep::Claim, TargetEvent::Claimed(end)) => TargetRecord {
                claimed: Some(end),
                ..at
            },
            (TargetStep::Process, TargetEvent::Processed(verdict)) => TargetRecord {
                processed: Some(verdict),
                ..at
            },
            (TargetStep::MoveToFailed, TargetEvent::Done(ok)) => TargetRecord {
                moved: Some(ok),
                ..at
            },
            (TargetStep::LookForProcessing, TargetEvent::Found(there)) => TargetRecord {
                found: Some(there),
                ..at
            },
            (TargetStep::Recover, TargetEvent::Recovered(outcome)) => TargetRecord {
                recovered: Some(outcome),
                ..at
            },
            (TargetStep::ReadTerminal(_), TargetEvent::Read(reading)) => TargetRecord {
                read: Some(reading),
                ..at
            },
            (TargetStep::ReleaseLock(_), TargetEvent::Done(_)) => TargetRecord {
                released: true,
                ..at
            },
            _ => at,
        }
    }
}

/// Whether a run was found in processing, by the claim or behind it.
spec fn in_processing(r: TargetRecord) -> bool {
    ||| r.claimed == Some(ClaimEnd::AlreadyProcessing) && r.found is None
    ||| r.claimed == Some(ClaimEnd::NotFound) && r.found == Some(true)
}

/// What was reported before the terminal status is looked up on an occasion.
spec fn occasion_record(r: TargetRecord, occasion: Occasion) -> bool {
    match occasion {
        Occasion::Processed => r.claimed == Some(ClaimEnd::Claimed) && r.processed == Some(
            ProcessVerdict::Processed,
        ) && r.moved is None && r.found is None && r.recovered is None,
        Occasion::ProcessingFailed => r.claimed == Some(ClaimEnd::Claimed) && r.processed == Some(
            ProcessVerdict::Failed,
        ) && r.moved == Some(true) && r.found is None && r.recovered is None,
        Occasion::OverAtClaim => r.claimed == Some(ClaimEnd::AlreadyTerminal) && r.processed is None
            && r.moved is None && r.found is None && r.recovered is None,
        Occasion::NowhereElse => r.claimed == Some(ClaimEnd::NotFound) && r.processed is None
            && r.moved is None && r.found == Some(false) && r.recovered is None,
        Occasion::Recovered => in_processing(r) && r.processed is None && r.moved is None
            && r.recovered == Some(ProcessingTargetOutcome::Recovered),
        Occasion::RecoveryFailed => in_processing(r) && r.processed is None && r.moved is None
            && r.recovered == Some(ProcessingTargetOutcome::FailedPublished),
        Occasion::OverAtRecovery => in_processing(r) && r.processed is None && r.moved is None
            && r.recovered == Some(ProcessingTargetOutcome::NotFound),
    }
}

spec fn end_record(r: TargetRecord, end: TargetEnd) -> bool {
    let only_claimed = r.processed is None && r.moved is None && r.found is None && r.recovered
        is None && r.read is None;
    let only_recovered = in_processing(r) && r.processed is None && r.moved is None && r.read
        is None;
    match end {
        TargetEnd::Answered(occasion) => occasion_record(r, occasion) && r.read == Some(
            TerminalReading::Verified,
        ),
        TargetEnd::NoStatus(occasion) => occasion_record(r, occasion) && r.read == Some(
            TerminalReading::Absent,
        ),
        TargetEnd::StatusRefused => (exists|occasion: Occasion| occasion_record(r, occasion))
            && r.read == Some(TerminalReading::Refused),
        TargetEnd::ClaimInProgress => r.claimed == Some(ClaimEnd::ActiveClaimer) && only_claimed,
        TargetEnd::IncompatibleReady => r.claimed == Some(ClaimEnd::IncompatibleReady)
            && only_claimed,
        TargetEnd::MalformedMoved => r.claimed == Some(ClaimEnd::MalformedReadyMovedToFailed)
            && only_claimed,
        TargetEnd::MalformedMoveFailed => (
        r.claimed matches Some(ClaimEnd::MalformedReadyMoveFailed(_))) && only_claimed,
        TargetEnd::ClaimFailed => (r.claimed matches Some(ClaimEnd::ClaimFailed(_)))
            && only_claimed,
        TargetEnd::IncompatibleProcessing => r.claimed == Some(ClaimEnd::Claimed) && r.processed
            == Some(ProcessVerdict::Incompatible) && r.moved is None && r.found is None
            && r.recovered is None && r.read is None,
        TargetEnd::MoveFailed => r.claimed == Some(ClaimEnd::Claimed) && r.processed == Some(
            ProcessVerdict::Failed,
        ) && r.moved == Some(false) && r.found is None && r.recovered is None && r.read is None,
        TargetEnd::AlreadyActive => only_recovered && r.recovered == Some(
            ProcessingTargetOutcome::ActiveProcessor,
        ),
        TargetEnd::RecoveryIncompatible => only_recovered && r.recovered == Some(
            ProcessingTargetOutcome::Incompatible,
        ),
        TargetEnd::RecoveryUnpublished => only_recovered && r.recovered == Some(
            ProcessingTargetOutcome::FailurePublishFailed,
        ),
        TargetEnd::LockError => only_recovered && r.recovered == Some(
            ProcessingTargetOutcome::LockError,
        ),
    }
}

spec fn record_fits(r: TargetRecord) -> bool {
    let fresh = r.processed is None && r.moved is None && r.recovered is None && r.read is None
        && !r.released;
    match r.step {
        TargetStep::Claim => r.claimed is None && r.found is None && fresh,
        TargetStep::Process => r.claimed == Some(ClaimEnd::Claimed) && r.found is None && fresh,
        TargetStep::MoveToFailed => r.claimed == Some(ClaimEnd::Claimed) && r.found is None
            && r.processed == Some(ProcessVerdict::Failed) && r.moved is None && r.recovered is None
            && r.read is None && !r.released,
        TargetStep::LookForProcessing => r.claimed == Some(ClaimEnd::NotFound) && r.found is None
            && fresh,
        TargetStep::Recover => in_processing(r) && fresh,
        TargetStep::ReadTerminal(occasion) => occasion_record(r, occasion) && r.read is None
            && !r.released,
        TargetStep::ReleaseLock(end) => end_record(r, end) && r.claimed == Some(ClaimEnd::Claimed)
            && !r.released,
        TargetStep::Over(end) => end_record(r, end) && (r.released <==> r.claimed == Some(
            ClaimEnd::Claimed,
        )),
    }
}

proof fn lemma_record_fits(events: Seq<TargetEvent>)
    ensures
        record_fits(target_record(events)),
    decreases events.len(),
{
    if events.len() > 0 {
        let before = target_record(events.drop_last());
        let after = target_record(events);
        lemma_record_fits(events.drop_last());
        match (before.step, events.last()) {
            (TargetStep::ReadTerminal(occasion), TargetEvent::Read(_)) => {
                assert(occasion_record(after, occasion));
            },
            (TargetStep::ReleaseLock(TargetEnd::StatusRefused), TargetEvent::Done(_)) => {
                let occasion = choose|occasion: Occasion| occasion_record(before, occasion);
                assert(occasion_record(after, occasion));
            },
            _ => {},
        }
    }
}

/// The end of a request tells what happened to the run. It is answered as over only if its
/// terminal status was verified, and the occasion is the one that was reported: the run was
/// processed, or failed and was moved, or was recovered, or was over already. Each other
/// end is that of the step at which the request stopped. A run is recovered if and only if
/// it was seen in processing, and its lock, once got, is released.
pub proof fn requests_tell_what_happened(events: Seq<TargetEvent>)
    ensures
        ({
            let r = target_record(events);
            let claimed = r.claimed == Some(ClaimEnd::Claimed);
            let seen = r.claimed == Some(ClaimEnd::AlreadyProcessing) || r.claimed == Some(
                ClaimEnd::NotFound,
            ) && r.found == Some(true);
            r.step matches TargetStep::Over(end) ==> {
                &&& r.released <==> claimed
                &&& r.processed is Some <==> claimed
                &&& r.recovered is Some <==> seen
                &&& r.found is Some <==> r.claimed == Some(ClaimEnd::NotFound)
                &&& r.moved is Some <==> r.processed == Some(ProcessVerdict::Failed)
                &&& end is Answered <==> r.read == Some(TerminalReading::Verified)
                &&& end is NoStatus <==> r.read == Some(TerminalReading::Absent)
                &&& end is StatusRefused <==> r.read == Some(TerminalReading::Refused)
                &&& end is ClaimInProgress <==> r.claimed == Some(ClaimEnd::ActiveClaimer)
                &&& end is IncompatibleReady <==> r.claimed == Some(ClaimEnd::IncompatibleReady)
                &&& end is MalformedMoved <==> r.claimed == Some(
                    ClaimEnd::MalformedReadyMovedToFailed,
                )
                &&& end is MalformedMoveFailed <==> (
                r.claimed matches Some(ClaimEnd::MalformedReadyMoveFailed(_)))
                &&& end is ClaimFailed <==> (r.claimed matches Some(ClaimEnd::ClaimFailed(_)))
                &&& end is IncompatibleProcessing <==> r.processed == Some(
                    ProcessVerdict::Incompatible,
                )
                &&& end is MoveFailed <==> r.moved == Some(false)
                &&& end is AlreadyActive <==> r.recovered == Some(
                    ProcessingTargetOutcome::ActiveProcessor,
                )
                &&& end is RecoveryIncompatible <==> r.recovered == Some(
                    ProcessingTargetOutcome::Incompatible,
                )
                &&& end is RecoveryUnpublished <==> r.recovered == Some(
                    ProcessingTargetOutcome::FailurePublishFailed,
                )
                &&& end is LockError <==> r.recovered == Some(ProcessingTargetOutcome::LockError)
                &&& (end matches TargetEnd::Answered(occasion) ==> match occasion {
                    Occasion::Processed => r.processed == Some(ProcessVerdict::Processed),
                    Occasion::ProcessingFailed => r.processed == Some(ProcessVerdict::Failed)
                        && r.moved == Some(true),
                    Occasion::Recovered => r.recovered == Some(ProcessingTargetOutcome::Recovered),
                    Occasion::RecoveryFailed => r.recovered == Some(
                        ProcessingTargetOutcome::FailedPublished,
                    ),
                    Occasion::OverAtClaim => r.claimed == Some(ClaimEnd::AlreadyTerminal),
                    Occasion::OverAtRecovery => r.recovered == Some(
                        ProcessingTargetOutcome::NotFound,
                    ),
                    Occasion::NowhereElse => r.found == Some(false),
                })
            }
        }),
{
    lemma_record_fits(events);
    let r = target_record(events);
    match r.step {
        TargetStep::Over(TargetEnd::StatusRefused) => {
            let occasion = choose|occasion: Occasion| occasion_record(r, occasion);
            assert(occasion_record(r, occasion));
        },
        _ => {},
    }
}

/// A run has a verified terminal status if and only if it stands in done, or in failed and
/// not in done, with a status that can be read, is of this release line and was written for
/// this run; the answer is then the phase in which it stands and the state that the status
/// says. It is in no terminal phase if and only if neither directory is there.
pub proof fn terminal_states_are_read_from_the_status(
    done: TerminalDirectory,
    failed: TerminalDirectory,
    nickname: Seq<char>,
    run_id: Seq<char>,
    phase: RunPhase,
    state: RunState,
)
    ensures
        terminal_status(done, failed, nickname, run_id) == Ok::<
            Option<(RunPhase, RunState)>,
            failure::FailureView,
        >(Some((phase, state))) <==> {
            let directory = if phase is Done {
                done
            } else {
                failed
            };
            &&& phase is Done || phase is Failed && !done.exists
            &&& directory.exists
            &&& directory.status matches Lookup::Found(document)
            &&& document.parsed matches Ok(status)
            &&& "0.1."@.is_prefix_of(status.purgery_version@)
            &&& status.nickname@ == nickname
            &&& status.run_id@ == run_id
            &&& status.state == state
        },
        terminal_status(done, failed, nickname, run_id) == Ok::<
            Option<(RunPhase, RunState)>,
            failure::FailureView,
        >(None) <==> !done.exists && !failed.exists,
{
    let read = if done.exists {
        done.status
    } else {
        failed.status
    };
    match read {
        Lookup::Found(document) => match document.parsed {
            Ok(status) => {
                version::compatible_versions_begin_alike(status.purgery_version@);
            },
            Err(_) => {},
        },
        _ => {},
    }
}

/// A request is answered without an error if and only if the run is over with a verified
/// status or another process is at work on it. The answer names the run, and the phase and
/// state that were verified; only a run on which the request worked counts as processed.
pub proof fn answers_follow_the_end(
    answer: Result<ProcessRunResponse, Failure>,
    end: TargetEnd,
    nickname: Seq<char>,
    run_id: Seq<char>,
    details: TargetDetails,
)
    requires
        is_target_answer(answer, end, nickname, run_id, details),
        end is Answered ==> details.terminal is Some,
    ensures
        answer is Ok <==> end is Answered || end is ClaimInProgress || end is AlreadyActive,
        answer matches Ok(response) ==> {
            &&& response.protocol_version == PROTOCOL_VERSION
            &&& response.purgery_version@ == version::current_version()
            &&& response.nickname@ == nickname
            &&& response.run_id@ == run_id
            &&& response.run_phase is Some
            &&& match end {
                TargetEnd::Answered(occasion) => {
                    let (phase, state) = details.terminal->0;
                    let worked = occasion is Processed || occasion is ProcessingFailed || occasion
                        is Recovered || occasion is RecoveryFailed;
                    &&& response.outcome@ == (if worked {
                        "processed"@
                    } else {
                        "already_terminal"@
                    })
                    &&& response.run_phase->0@ == phase.name()
                    &&& response.status_state matches Some(s) && s@ == state.name()
                },
                TargetEnd::ClaimInProgress => response.outcome@ == "claim_in_progress"@
                    && response.run_phase->0@ == "ready"@ && response.status_state is None,
                _ => response.outcome@ == "already_active"@ && response.run_phase->0@
                    == "processing"@ && response.status_state is None,
            }
        },
        answer matches Err(failure) ==> {
            &&& end is StatusRefused || end is ClaimFailed || end is LockError ==> failure@
                == details.refusal@
            &&& !(end is StatusRefused || end is ClaimFailed || end is LockError) ==> failure.cause
                is None
        },
{
}

/// What is said of a run that should be over and is not names the run, whatever the
/// occasion.
pub proof fn missing_statuses_name_the_run(
    occasion: Occasion,
    nickname: Seq<char>,
    run_id: Seq<char>,
)
    ensures
        ("run "@ + nickname + "/"@ + run_id).is_prefix_of(
            missing_status_text(occasion, nickname, run_id),
        ),
{
    let run = "run "@ + nickname + "/"@ + run_id;
    text::joined_texts_keep_both_ends(
        run,
        " reported as terminal by claim ready but no verified terminal status found"@,
    );
    text::joined_texts_keep_both_ends(
        run,
        " disappeared from processing but no verified terminal status exists"@,
    );
    text::joined_texts_keep_both_ends(
        run,
        " not found in ready, processing, or terminal phases"@,
    );
    text::joined_texts_keep_both_ends(
        run,
        " expected terminal status after outcome processed but no verified terminal status exists"@,
    );
}

/// A run that failed is answered with what went wrong, and with nothing else if its
/// processing did.
pub proof fn failed_runs_are_answered_with_the_error(error: Seq<char>)
    ensures
        occasion_message(Occasion::ProcessingFailed, error) == error,
        error.is_suffix_of(occasion_message(Occasion::RecoveryFailed, error)),
{
    text::joined_texts_keep_both_ends("processing recovery failed: "@, error);
}

} // verus!
