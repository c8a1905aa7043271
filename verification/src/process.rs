//! Processing a claimed run.
//!
//! The documents of the run are checked before anything is changed. Then its
//! entries are handled one after the other, each on its own; the status is
//! published where the run stands, and only then does the run move to where it
//! comes to rest.

use vstd::prelude::*;

use crate::entry;
use crate::entry::EntryOutcome;
use crate::failure;
use crate::failure::Failure;
use crate::inputs::{InputsVerdict, ProcessingError};
use crate::model::{EntryStatusEntry, Nickname, RunId, RunPhase, RunState, RunStatus};
use crate::phases;
use crate::phases::MoveStep;
use crate::progress;
use crate::progress::ProgressUpdate;
use crate::text;
use crate::version;
use crate::version::current_purgery_version;

verus! {

/// How the processing of a run ends.
#[derive(Clone, Copy, PartialEq, Eq, Structural, Debug)]
pub enum ProcessEnd {
    /// The run came to rest with this state.
    Finished(RunState),
    /// The run is of another release line and was not touched.
    Incompatible,
    /// The documents of the run are malformed, and its failure was published.
    Malformed,
    /// The documents of the run are malformed, and its failure was not published.
    FailureNotPublished,
    WorkAreaFailed,
    StatusWriteFailed,
    StatusPublishFailed,
    SettleFailed(MoveStep),
}

/// The next thing to do for a run.
#[derive(Clone, Copy, PartialEq, Eq, Structural, Debug)]
pub enum ProcessStage {
    ReadInputs,
    /// Publish that the run failed as a whole.
    FailRun,
    /// Remove what an interrupted attempt left in the work area.
    ClearWork,
    CreateWork,
    ReportStart,
    ReportEntry,
    HandleEntry,
    /// Remove the work area of a run that succeeded.
    DropWork,
    ReportPublishing,
    WriteStatus,
    PublishStatus,
    Settle(MoveStep),
    Over(ProcessEnd),
}

/// What doing it gave.
#[derive(Clone, Copy, PartialEq, Eq, Structural, Debug)]
pub enum ProcessEvent {
    /// What the documents amount to, and how many entries the manifest has.
    Inputs(InputsVerdict, usize),
    /// Whether it succeeded.
    Done(bool),
    /// Whether the entry was imported.
    Entry(bool),
}

/// A run that is being processed: what is next, how many entries there are, how many
/// were handled, and how many of these were imported.
#[derive(Clone, Copy, PartialEq, Eq, Structural, Debug)]
pub struct Processing {
    pub stage: ProcessStage,
    pub total: usize,
    pub index: usize,
    pub imported: usize,
}

/// The state of a run of which `imported` of `total` entries were imported.
pub open spec fn state_of(imported: int, total: int) -> RunState {
    if imported == total {
        RunState::Done
    } else if imported > 0 {
        RunState::Partial
    } else {
        RunState::Failed
    }
}

impl Processing {
    pub open spec fn well_formed(self) -> bool {
        &&& self.imported <= self.index <= self.total
        &&& self.stage is ReportEntry || self.stage is HandleEntry ==> self.index < self.total
        &&& self.stage is DropWork || self.stage is ReportPublishing || self.stage is WriteStatus
            || self.stage is PublishStatus || self.stage is Settle ==> self.index == self.total
    }

    pub open spec fn at(self, stage: ProcessStage) -> Processing {
        Processing { stage, ..self }
    }

    /// Where a run stands between two entries.
    pub open spec fn between_entries(self) -> Processing {
        self.at(
            if self.index < self.total {
                ProcessStage::ReportEntry
            } else if self.imported == self.total {
                ProcessStage::DropWork
            } else {
                ProcessStage::ReportPublishing
            },
        )
    }

    /// The state behind an event. An event that does not belong to the stage changes
    /// nothing.
    pub open spec fn after(self, event: ProcessEvent) -> Processing {
        match (self.stage, event) {
            (ProcessStage::ReadInputs, ProcessEvent::Inputs(verdict, entries)) => match verdict {
                InputsVerdict::Compatible => Processing {
                    stage: ProcessStage::ClearWork,
                    total: entries,
                    index: 0,
                    imported: 0,
                },
                InputsVerdict::Incompatible => self.at(
                    ProcessStage::Over(ProcessEnd::Incompatible),
                ),
                InputsVerdict::Malformed => self.at(ProcessStage::FailRun),
            },
            (ProcessStage::FailRun, ProcessEvent::Done(ok)) => self.at(
                ProcessStage::Over(
                    if ok {
                        ProcessEnd::Malformed
                    } else {
                        ProcessEnd::FailureNotPublished
                    },
                ),
            ),
            (ProcessStage::ClearWork, ProcessEvent::Done(_)) => self.at(ProcessStage::CreateWork),
            (ProcessStage::CreateWork, ProcessEvent::Done(ok)) => self.at(
                if ok {
                    ProcessStage::ReportStart
                } else {
                    ProcessStage::Over(ProcessEnd::WorkAreaFailed)
                },
            ),
            (ProcessStage::ReportStart, ProcessEvent::Done(_)) => self.between_entries(),
            (ProcessStage::ReportEntry, ProcessEvent::Done(_)) => self.at(
                ProcessStage::HandleEntry,
            ),
            (ProcessStage::HandleEntry, ProcessEvent::Entry(ok)) => (Processing {
                index: (self.index + 1) as usize,
                imported: if ok {
                    (self.imported + 1) as usize
                } else {
                    self.imported
                },
                ..self
            }).between_entries(),
            (ProcessStage::DropWork, ProcessEvent::Done(_)) => self.at(
                ProcessStage::ReportPublishing,
            ),
            (ProcessStage::ReportPublishing, ProcessEvent::Done(_)) => self.at(
                ProcessStage::WriteStatus,
            ),
            (ProcessStage::WriteStatus, ProcessEvent::Done(ok)) => self.at(
                if ok {
                    ProcessStage::PublishStatus
                } else {
                    ProcessStage::Over(ProcessEnd::StatusWriteFailed)
                },
            ),
            (ProcessStage::PublishStatus, ProcessEvent::Done(ok)) => self.at(
                if ok {
                    ProcessStage::Settle(MoveStep::CreateParent)
                } else {
                    ProcessStage::Over(ProcessEnd::StatusPublishFailed)
                },
            ),
            (ProcessStage::Settle(step), ProcessEvent::Done(ok)) => self.at(
                {
                    let next = step.after(ok);
                    if next is Finished {
                        ProcessStage::Over(
                            ProcessEnd::Finished(state_of(self.imported as int, self.total as int)),
                        )
                    } else if next.over() {
                        ProcessStage::Over(ProcessEnd::SettleFailed(next))
                    } else {
                        ProcessStage::Settle(next)
                    }
                },
            ),
            _ => self,
        }
    }

    /// A run that was just claimed.
    pub fn start() -> (run: Processing)
        ensures
            run == (Processing {
                stage: ProcessStage::ReadInputs,
                total: 0,
                index: 0,
                imported: 0,
            }),
            run.well_formed(),
    {
        Processing { stage: ProcessStage::ReadInputs, total: 0, index: 0, imported: 0 }
    }

    /// The state in which the run ends, once all entries were handled.
    pub fn state(&self) -> (state: RunState)
        ensures
            state == state_of(self.imported as int, self.total as int),
    {
        if self.imported == self.total {
            RunState::Done
        } else if self.imported > 0 {
            RunState::Partial
        } else {
            RunState::Failed
        }
    }

    fn go_on(self) -> (next: Processing)
        ensures
            next == self.between_entries(),
    {
        let stage = if self.index < self.total {
            ProcessStage::ReportEntry
        } else if self.imported == self.total {
            ProcessStage::DropWork
        } else {
            ProcessStage::ReportPublishing
        };
        Processing { stage, total: self.total, index: self.index, imported: self.imported }
    }

    fn to(self, stage: ProcessStage) -> (next: Processing)
        ensures
            next == self.at(stage),
    {
        Processing { stage, total: self.total, index: self.index, imported: self.imported }
    }
}

/// The state of a run behind an event. Processing starts with `Processing::start`.
pub fn process_processing_run(run: Processing, event: ProcessEvent) -> (next: Processing)
    requires
        run.well_formed(),
    ensures
        next == run.after(event),
        next.well_formed(),
{
    match (run.stage, event) {
        (ProcessStage::ReadInputs, ProcessEvent::Inputs(verdict, entries)) => match verdict {
            InputsVerdict::Compatible => Processing {
                stage: ProcessStage::ClearWork,
                total: entries,
                index: 0,
                imported: 0,
            },
            InputsVerdict::Incompatible => run.to(ProcessStage::Over(ProcessEnd::Incompatible)),
            InputsVerdict::Malformed => run.to(ProcessStage::FailRun),
        },
        (ProcessStage::FailRun, ProcessEvent::Done(ok)) => {
            let end = if ok {
                ProcessEnd::Malformed
            } else {
                ProcessEnd::FailureNotPublished
            };
            run.to(ProcessStage::Over(end))
        },
        (ProcessStage::ClearWork, ProcessEvent::Done(_)) => run.to(ProcessStage::CreateWork),
        (ProcessStage::CreateWork, ProcessEvent::Done(ok)) => {
            if ok {
                run.to(ProcessStage::ReportStart)
            } else {
                run.to(ProcessStage::Over(ProcessEnd::WorkAreaFailed))
            }
        },
        (ProcessStage::ReportStart, ProcessEvent::Done(_)) => run.go_on(),
        (ProcessStage::ReportEntry, ProcessEvent::Done(_)) => run.to(ProcessStage::HandleEntry),
        (ProcessStage::HandleEntry, ProcessEvent::Entry(ok)) => {
            let imported: usize = if ok {
                run.imported + 1
            } else {
                run.imported
            };
            let handled = Processing {
                stage: run.stage,
                total: run.total,
                index: run.index + 1,
                imported,
            };
            handled.go_on()
        },
        (ProcessStage::DropWork, ProcessEvent::Done(_)) => run.to(ProcessStage::ReportPublishing),
        (ProcessStage::ReportPublishing, ProcessEvent::Done(_)) => run.to(
            ProcessStage::WriteStatus,
        ),
        (ProcessStage::WriteStatus, ProcessEvent::Done(ok)) => {
            if ok {
                run.to(ProcessStage::PublishStatus)
            } else {
                run.to(ProcessStage::Over(ProcessEnd::StatusWriteFailed))
            }
        },
        (ProcessStage::PublishStatus, ProcessEvent::Done(ok)) => {
            if ok {
                run.to(ProcessStage::Settle(MoveStep::CreateParent))
            } else {
                run.to(ProcessStage::Over(ProcessEnd::StatusPublishFailed))
            }
        },
        (ProcessStage::Settle(step), ProcessEvent::Done(ok)) => match step.advance(ok) {
            MoveStep::Finished => run.to(ProcessStage::Over(ProcessEnd::Finished(run.state()))),
            MoveStep::ParentFailed => run.to(
                ProcessStage::Over(ProcessEnd::SettleFailed(MoveStep::ParentFailed)),
            ),
            MoveStep::RenameFailed => run.to(
                ProcessStage::Over(ProcessEnd::SettleFailed(MoveStep::RenameFailed)),
            ),
            next => run.to(ProcessStage::Settle(next)),
        },
        (_, _) => run,
    }
}

// ---------------------------------------------------------------------------
// Laws of processing
// ---------------------------------------------------------------------------

/// A stage that changes something on disk. Reports are advisory and not counted.
pub open spec fn changes_disk(stage: ProcessStage) -> bool {
    match stage {
        ProcessStage::FailRun
        | ProcessStage::ClearWork
        | ProcessStage::CreateWork
        | ProcessStage::HandleEntry
        | ProcessStage::DropWork
        | ProcessStage::WriteStatus
        | ProcessStage::PublishStatus
        | ProcessStage::Settle(_) => true,
        _ => false,
    }
}

/// A run on its way, with what its events say of the world: whether anything was
/// changed, which entries were handled and with what result, whether the status was
/// published, and whether the run left the processing phase.
pub struct ProcessHistory {
    pub run: Processing,
    pub changed: bool,
    pub results: Seq<bool>,
    pub published: bool,
    pub moved: bool,
}

pub open spec fn process_start() -> ProcessHistory {
    ProcessHistory {
        run: Processing { stage: ProcessStage::ReadInputs, total: 0, index: 0, imported: 0 },
        changed: false,
        results: Seq::empty(),
        published: false,
        moved: false,
    }
}

/// What an event adds to the history of a run.
pub open spec fn process_observe(h: ProcessHistory, event: ProcessEvent) -> ProcessHistory {
    ProcessHistory {
        run: h.run.after(event),
        changed: h.changed || (changes_disk(h.run.stage) && h.run.after(event) != h.run),
        results: match (h.run.stage, event) {
            (ProcessStage::HandleEntry, ProcessEvent::Entry(ok)) => h.results.push(ok),
            _ => h.results,
        },
        published: match (h.run.stage, event) {
            (ProcessStage::PublishStatus, ProcessEvent::Done(ok)) => ok,
            _ => h.published,
        },
        moved: match (h.run.stage, event) {
            (ProcessStage::Settle(MoveStep::Rename), ProcessEvent::Done(ok)) => ok,
            _ => h.moved,
        },
    }
}

/// The history of a run after a number of events.
pub open spec fn process_history(events: Seq<ProcessEvent>) -> ProcessHistory
    decreases events.len(),
{
    if events.len() == 0 {
        process_start()
    } else {
        process_observe(process_history(events.drop_last()), events.last())
    }
}

/// How many results are successes.
pub open spec fn successes(results: Seq<bool>) -> int
    decreases results.len(),
{
    if results.len() == 0 {
        0
    } else {
        successes(results.drop_last()) + if results.last() {
            1int
        } else {
            0int
        }
    }
}

spec fn history_fits(h: ProcessHistory) -> bool {
    let run = h.run;
    &&& run.well_formed()
    &&& h.results.len() == run.index
    &&& successes(h.results) == run.imported
    &&& match run.stage {
        ProcessStage::ReadInputs => !h.changed && !h.published && !h.moved && run.index == 0,
        ProcessStage::FailRun
        | ProcessStage::ClearWork
        | ProcessStage::CreateWork
        | ProcessStage::ReportStart => !h.published && !h.moved && run.index == 0,
        ProcessStage::ReportEntry
        | ProcessStage::HandleEntry
        | ProcessStage::DropWork
        | ProcessStage::ReportPublishing
        | ProcessStage::WriteStatus
        | ProcessStage::PublishStatus => !h.published && !h.moved,
        ProcessStage::Settle(step) => h.published && !step.over() && (h.moved
            == step is RemoveLock),
        ProcessStage::Over(end) => match end {
            ProcessEnd::Finished(state) => h.published && h.moved && run.index == run.total && state
                == state_of(run.imported as int, run.total as int),
            ProcessEnd::Incompatible => !h.changed && !h.published && !h.moved,
            ProcessEnd::SettleFailed(_) => h.published && !h.moved,
            _ => !h.published && !h.moved,
        },
    }
}

proof fn lemma_history_fits(events: Seq<ProcessEvent>)
    ensures
        history_fits(process_history(events)),
    decreases events.len(),
{
    if events.len() > 0 {
        lemma_history_fits(events.drop_last());
        let before = process_history(events.drop_last());
        let event = events.last();
        match (before.run.stage, event) {
            (ProcessStage::HandleEntry, ProcessEvent::Entry(ok)) => {
                assert(before.results.push(ok).drop_last() =~= before.results);
            },
            _ => {},
        }
    }
}

/// A run of another release line is left exactly as it was found.
pub proof fn incompatible_runs_are_left_alone(events: Seq<ProcessEvent>)
    ensures
        process_history(events).run.stage == ProcessStage::Over(ProcessEnd::Incompatible)
            ==> !process_history(events).changed,
{
    lemma_history_fits(events);
}

/// A run leaves the processing phase only with a published status.
pub proof fn runs_move_only_with_a_status(events: Seq<ProcessEvent>)
    ensures
        process_history(events).moved ==> process_history(events).published,
        process_history(events).run.stage == ProcessStage::Settle(MoveStep::Rename)
            ==> process_history(events).published,
{
    lemma_history_fits(events);
}

/// A finished run has handled every entry exactly once and in order, and its state
/// says how many of them were imported: all, some, or none.
pub proof fn finished_runs_tell_the_truth(events: Seq<ProcessEvent>, state: RunState)
    requires
        process_history(events).run.stage == ProcessStage::Over(ProcessEnd::Finished(state)),
    ensures
        ({
            let h = process_history(events);
            &&& h.results.len() == h.run.total
            &&& state is Done <==> successes(h.results) == h.results.len()
            &&& state is Failed <==> successes(h.results) == 0 && h.results.len() > 0
            &&& h.published
            &&& h.moved
        }),
{
    lemma_history_fits(events);
    lemma_successes_bounded(process_history(events).results);
}

proof fn lemma_successes_bounded(results: Seq<bool>)
    ensures
        0 <= successes(results) <= results.len(),
    decreases results.len(),
{
    if results.len() > 0 {
        lemma_successes_bounded(results.drop_last());
    }
}

/// How far a run is from its end.
pub open spec fn process_distance(run: Processing) -> nat {
    match run.stage {
        ProcessStage::ReadInputs => 0,
        ProcessStage::FailRun => 1,
        ProcessStage::ClearWork => (2 * (run.total - run.index) + 12) as nat,
        ProcessStage::CreateWork => (2 * (run.total - run.index) + 11) as nat,
        ProcessStage::ReportStart => (2 * (run.total - run.index) + 10) as nat,
        ProcessStage::ReportEntry => (2 * (run.total - run.index) + 9) as nat,
        ProcessStage::HandleEntry => (2 * (run.total - run.index) + 8) as nat,
        ProcessStage::DropWork => 8,
        ProcessStage::ReportPublishing => 7,
        ProcessStage::WriteStatus => 6,
        ProcessStage::PublishStatus => 5,
        ProcessStage::Settle(MoveStep::CreateParent) => 4,
        ProcessStage::Settle(MoveStep::Rename) => 3,
        ProcessStage::Settle(_) => 2,
        ProcessStage::Over(_) => 0,
    }
}

/// An event that reports on the stage.
pub open spec fn answers(stage: ProcessStage, event: ProcessEvent) -> bool {
    match stage {
        ProcessStage::ReadInputs => event is Inputs,
        ProcessStage::HandleEntry => event is Entry,
        ProcessStage::Over(_) => false,
        _ => event is Done,
    }
}

/// Once the documents are read, every report brings a run nearer to its end.
pub proof fn processing_ends(run: Processing, event: ProcessEvent)
    requires
        run.well_formed(),
        answers(run.stage, event),
        !(run.stage is ReadInputs),
    ensures
        process_distance(run.after(event)) < process_distance(run),
{
}

// ---------------------------------------------------------------------------
// Reports and status
// ---------------------------------------------------------------------------

/// The report that belongs to a stage. `relative_path` is that of the entry whose
/// turn it is.
pub fn stage_report(run: &Processing, relative_path: &str) -> (report: Option<ProgressUpdate>)
    ensures
        match run.stage {
            ProcessStage::ReportStart => report matches Some(update) && update.state@
                == "processing_started"@ && update.entry_index == 0 && update.entry_total
                == run.total && update.current_entry@.len() == 0
                && update.current_transform@.len() == 0,
            ProcessStage::ReportEntry => report matches Some(update) && update.state@
                == "processing_entry"@ && update.entry_index == run.index && update.entry_total
                == run.total && update.current_entry@ == relative_path@
                && update.current_transform@.len() == 0,
            ProcessStage::ReportPublishing => report matches Some(update) && update.state@
                == "publishing_status"@ && update.entry_index == 0 && update.entry_total
                == run.total && update.current_entry@.len() == 0
                && update.current_transform@.len() == 0,
            _ => report is None,
        },
        run.well_formed() && relative_path@.len() > 0 && report is Some
            ==> progress::update_error(report->0) is None,
{
    proof {
        reveal_strlit("");
        reveal_strlit("processing_started");
        reveal_strlit("publishing_status");
        reveal_strlit("processing_entry");
        assert("processing_entry"@.len() == 16);
        assert("processing_started"@.len() == 18);
        assert("publishing_status"@.len() == 17);
    }
    match run.stage {
        ProcessStage::ReportStart => Some(
            ProgressUpdate::new("processing_started", 0, run.total, "", ""),
        ),
        ProcessStage::ReportEntry => Some(
            ProgressUpdate::new("processing_entry", run.index, run.total, relative_path, ""),
        ),
        ProcessStage::ReportPublishing => Some(
            ProgressUpdate::new("publishing_status", 0, run.total, "", ""),
        ),
        _ => None,
    }
}

/// How many outcomes are successes.
pub open spec fn imported_count(outcomes: Seq<EntryOutcome>) -> int
    decreases outcomes.len(),
{
    if outcomes.len() == 0 {
        0
    } else {
        imported_count(outcomes.drop_last()) + if outcomes.last() is Success {
            1int
        } else {
            0int
        }
    }
}

/// Whether a status is that of a run with these outcomes.
pub open spec fn is_status_of(
    status: RunStatus,
    nickname: Seq<char>,
    run_id: Seq<char>,
    outcomes: Seq<EntryOutcome>,
) -> bool {
    &&& status.purgery_version@ == version::current_version()
    &&& status.belongs_to(nickname, run_id)
    &&& status.state == state_of(imported_count(outcomes), outcomes.len() as int)
    &&& status.entries@.len() == outcomes.len()
    &&& forall|i: int|
        0 <= i < outcomes.len() ==> entry::records(#[trigger] status.entries@[i], outcomes[i])
    &&& status.error is None
}

fn count_imported(outcomes: &Vec<EntryOutcome>) -> (n: usize)
    ensures
        n == imported_count(outcomes@),
        n <= outcomes.len(),
{
    let mut n: usize = 0;
    let mut i: usize = 0;
    assert(outcomes@.take(0) =~= Seq::<EntryOutcome>::empty());
    while i < outcomes.len()
        invariant
            i <= outcomes.len(),
            n <= i,
            n == imported_count(outcomes@.take(i as int)),
        decreases outcomes.len() - i,
    {
        proof {
            assert(outcomes@.take(i + 1).drop_last() =~= outcomes@.take(i as int));
            assert(outcomes@.take(i + 1).last() == outcomes@[i as int]);
        }
        match &outcomes[i] {
            EntryOutcome::Success { .. } => {
                n = n + 1;
            },
            EntryOutcome::Failure { .. } => {},
        }
        i = i + 1;
    }
    assert(outcomes@.take(i as int) =~= outcomes@);
    n
}

/// The status of a run whose entries were handled.
pub fn run_status(nickname: &Nickname, run_id: &RunId, outcomes: Vec<EntryOutcome>) -> (status:
    RunStatus)
    ensures
        is_status_of(status, nickname@, run_id@, outcomes@),
{
    let imported: usize = count_imported(&outcomes);
    let total: usize = outcomes.len();
    let state = if imported == total {
        RunState::Done
    } else if imported > 0 {
        RunState::Partial
    } else {
        RunState::Failed
    };
    let ghost all = outcomes@;
    let mut rest = outcomes;
    let mut entries: Vec<EntryStatusEntry> = Vec::new();
    while rest.len() > 0
        invariant
            entries@.len() + rest@.len() == all.len(),
            rest@ == all.skip(entries@.len() as int),
            forall|i: int|
                0 <= i < entries@.len() ==> entry::records(#[trigger] entries@[i], all[i]),
        decreases rest.len(),
    {
        let outcome = rest.remove(0);
        assert(outcome == all[entries@.len() as int]);
        entries.push(outcome.into_entry());
        assert(rest@ =~= all.skip(entries@.len() as int));
    }
    RunStatus {
        purgery_version: current_purgery_version().to_owned(),
        run_id: run_id.clone(),
        nickname: nickname.clone(),
        state,
        entries,
        error: None,
    }
}

/// The published state and the phase in which a run comes to rest are decided on the
/// same grounds: if the events reported what the outcomes are, the status of a
/// finished run names the state with which it was settled.
pub proof fn status_and_resting_place_agree(
    events: Seq<ProcessEvent>,
    outcomes: Seq<EntryOutcome>,
    state: RunState,
)
    requires
        process_history(events).run.stage == ProcessStage::Over(ProcessEnd::Finished(state)),
        process_history(events).results.len() == outcomes.len(),
        forall|i: int|
            0 <= i < outcomes.len() ==> (#[trigger] process_history(events).results[i] <==> (
            outcomes[i] is Success)),
    ensures
        state == state_of(imported_count(outcomes), outcomes.len() as int),
{
    lemma_history_fits(events);
    lemma_counts_agree(process_history(events).results, outcomes);
}

proof fn lemma_counts_agree(results: Seq<bool>, outcomes: Seq<EntryOutcome>)
    requires
        results.len() == outcomes.len(),
        forall|i: int|
            0 <= i < outcomes.len() ==> (#[trigger] results[i] <==> (outcomes[i] is Success)),
    ensures
        successes(results) == imported_count(outcomes),
    decreases results.len(),
{
    if results.len() > 0 {
        assert forall|i: int| 0 <= i < outcomes.drop_last().len() implies (
        #[trigger] results.drop_last()[i] <==> (outcomes.drop_last()[i] is Success)) by {
            assert(results[i] <==> (outcomes[i] is Success));
        }
        lemma_counts_agree(results.drop_last(), outcomes.drop_last());
        assert(results[results.len() - 1] <==> (outcomes[results.len() - 1] is Success));
    }
}

// ---------------------------------------------------------------------------
// What processing answers
// ---------------------------------------------------------------------------

/// The places that an answer may name.
#[derive(Debug)]
pub struct ProcessPlaces {
    pub work_area: String,
    pub status: String,
    pub status_tmp: String,
    pub processing: String,
    pub terminal: String,
    pub terminal_parent: String,
    pub terminal_phase: RunPhase,
}

/// What went wrong while a run was processed, before its cause.
pub open spec fn process_fault_text(end: ProcessEnd, places: ProcessPlaces) -> Seq<char> {
    match end {
        ProcessEnd::WorkAreaFailed => "failed to create work area: "@ + places.work_area@,
        ProcessEnd::StatusWriteFailed => "failed to write temporary status: "@
            + places.status_tmp@,
        ProcessEnd::StatusPublishFailed => "failed to finalize status: "@ + places.status@,
        ProcessEnd::SettleFailed(MoveStep::ParentFailed) => "failed to create "@
            + places.terminal_phase.name() + " parent: "@ + places.terminal_parent@,
        _ => "failed to move run to "@ + places.terminal_phase.name() + ": "@ + places.processing@
            + " -> "@ + places.terminal@,
    }
}

/// Whether processing answers as it should. `inputs` is what was wrong with the
/// documents, `unpublished` why a failure could not be published, `cause` what the
/// system said last.
pub open spec fn is_process_answer(
    answer: Result<(), ProcessingError>,
    end: ProcessEnd,
    inputs: ProcessingError,
    unpublished: Failure,
    places: ProcessPlaces,
    cause: Seq<char>,
) -> bool {
    match end {
        ProcessEnd::Finished(_) => answer is Ok,
        ProcessEnd::Incompatible | ProcessEnd::Malformed => answer matches Err(error) && error@
            == inputs@,
        ProcessEnd::FailureNotPublished => answer matches Err(ProcessingError::Other(f)) && f@
            == unpublished@,
        _ => answer matches Err(ProcessingError::Other(f)) && f@ == failure::caused(
            process_fault_text(end, places),
            cause,
        ),
    }
}

fn process_fault_message(end: ProcessEnd, places: &ProcessPlaces) -> (m: String)
    ensures
        m@ == process_fault_text(end, *places),
{
    match end {
        ProcessEnd::WorkAreaFailed => text::cat2(
            "failed to create work area: ",
            places.work_area.as_str(),
        ),
        ProcessEnd::StatusWriteFailed => text::cat2(
            "failed to write temporary status: ",
            places.status_tmp.as_str(),
        ),
        ProcessEnd::StatusPublishFailed => text::cat2(
            "failed to finalize status: ",
            places.status.as_str(),
        ),
        ProcessEnd::SettleFailed(MoveStep::ParentFailed) => phases::finalize_message(
            MoveStep::ParentFailed,
            places.terminal_phase,
            places.processing.as_str(),
            places.terminal.as_str(),
            places.terminal_parent.as_str(),
        ),
        _ => phases::finalize_message(
            MoveStep::RenameFailed,
            places.terminal_phase,
            places.processing.as_str(),
            places.terminal.as_str(),
            places.terminal_parent.as_str(),
        ),
    }
}

/// What processing a run answers.
pub fn process_answer(
    end: ProcessEnd,
    inputs: ProcessingError,
    unpublished: Failure,
    places: &ProcessPlaces,
    cause: &str,
) -> (answer: Result<(), ProcessingError>)
    ensures
        is_process_answer(answer, end, inputs, unpublished, *places, cause@),
{
    match end {
        ProcessEnd::Finished(_) => Ok(()),
        ProcessEnd::Incompatible => Err(inputs),
        ProcessEnd::Malformed => Err(inputs),
        ProcessEnd::FailureNotPublished => Err(ProcessingError::Other(unpublished)),
        _ => Err(
            ProcessingError::Other(Failure::with_cause(process_fault_message(end, places), cause)),
        ),
    }
}

/// A run on its way, with what was reported of each of its steps: what its documents
/// amount to and how many entries the manifest has, whether its failure as a whole was
/// published, how the work area was cleared and created, what became of each entry, how
/// often the work area was removed, and how the status and the move went.
pub struct ProcessRecord {
    pub run: Processing,
    pub inputs: Option<(InputsVerdict, usize)>,
    pub failure: Option<bool>,
    pub cleared: nat,
    pub created: Option<bool>,
    pub announced: nat,
    pub reported: nat,
    pub results: Seq<bool>,
    pub dropped: nat,
    pub publishing: nat,
    pub written: Option<bool>,
    pub published: Option<bool>,
    pub parent: Option<bool>,
    pub renamed: Option<bool>,
    pub unlocked: nat,
}

/// The record of a run after a number of events.
pub open spec fn process_record(events: Seq<ProcessEvent>) -> ProcessRecord
    decreases events.len(),
{
    if events.len() == 0 {
        ProcessRecord {
            run: Processing { stage: ProcessStage::ReadInputs, total: 0, index: 0, imported: 0 },
            inputs: None,
            failure: None,
            cleared: 0,
            created: None,
            announced: 0,
            reported: 0,
            results: Seq::empty(),
            dropped: 0,
            publishing: 0,
            written: None,
            published: None,
            parent: None,
            renamed: None,
            unlocked: 0,
        }
    } else {
        let r = process_record(events.drop_last());
        let at = ProcessRecord { run: r.run.after(events.last()), ..r };
        match (r.run.stage, events.last()) {
            (ProcessStage::ReadInputs, ProcessEvent::Inputs(verdict, n)) => ProcessRecord {
                inputs: Some((verdict, n)),
                ..at
            },
            (ProcessStage::HandleEntry, ProcessEvent::Entry(ok)) => ProcessRecord {
                results: r.results.push(ok),
                ..at
            },
            (ProcessStage::FailRun, ProcessEvent::Done(ok)) => ProcessRecord {
                failure: Some(ok),
                ..at
            },
            (ProcessStage::ClearWork, ProcessEvent::Done(_)) => ProcessRecord {
                cleared: r.cleared + 1,
                ..at
            },
            (ProcessStage::CreateWork, ProcessEvent::Done(ok)) => ProcessRecord {
                created: Some(ok),
                ..at
            },
            (ProcessStage::ReportStart, ProcessEvent::Done(_)) => ProcessRecord {
                announced: r.announced + 1,
                ..at
            },
            (ProcessStage::ReportEntry, ProcessEvent::Done(_)) => ProcessRecord {
                reported: r.reported + 1,
                ..at
            },
            (ProcessStage::DropWork, ProcessEvent::Done(_)) => ProcessRecord {
                dropped: r.dropped + 1,
                ..at
            },
            (ProcessStage::ReportPublishing, ProcessEvent::Done(_)) => ProcessRecord {
                publishing: r.publishing + 1,
                ..at
            },
            (ProcessStage::WriteStatus, ProcessEvent::Done(ok)) => ProcessRecord {
                written: Some(ok),
                ..at
            },
            (ProcessStage::PublishStatus, ProcessEvent::Done(ok)) => ProcessRecord {
                published: Some(ok),
                ..at
            },
            (ProcessStage::Settle(MoveStep::CreateParent), ProcessEvent::Done(ok)) => ProcessRecord {
                parent: Some(ok),
                ..at
            },
            (ProcessStage::Settle(MoveStep::Rename), ProcessEvent::Done(ok)) => ProcessRecord {
                renamed: Some(ok),
                ..at
            },
            (ProcessStage::Settle(_), ProcessEvent::Done(_)) => ProcessRecord {
                unlocked: r.unlocked + 1,
                ..at
            },
            _ => at,
        }
    }
}

spec fn compatible_inputs(r: ProcessRecord) -> bool {
    r.inputs == Some((InputsVerdict::Compatible, r.run.total))
}

/// Whether nothing was done behind the entries.
spec fn nothing_behind(r: ProcessRecord) -> bool {
    r.dropped == 0 && r.publishing == 0 && r.written is None && r.published is None && r.parent
        is None && r.renamed is None && r.unlocked == 0
}

/// Whether the entries were begun.
spec fn entries_begun(r: ProcessRecord) -> bool {
    compatible_inputs(r) && r.failure is None && r.cleared == 1 && r.created == Some(true)
        && r.announced == 1 && r.results.len() == r.run.index && successes(r.results)
        == r.run.imported && r.run.imported <= r.run.index
}

/// Whether all entries were handled and the work area of a run that succeeded removed.
spec fn entries_over(r: ProcessRecord) -> bool {
    entries_begun(r) && r.run.index == r.run.total && r.reported == r.run.total && r.dropped == (if
    r.run.imported == r.run.total {
        1nat
    } else {
        0
    })
}

spec fn record_fits(r: ProcessRecord) -> bool {
    let run = r.run;
    let fresh = r.announced == 0 && r.reported == 0 && r.results.len() == 0 && run.index == 0
        && run.imported == 0 && nothing_behind(r);
    let unsettled = r.parent is None && r.renamed is None && r.unlocked == 0;
    match run.stage {
        ProcessStage::ReadInputs => r.inputs is None && r.failure is None && r.cleared == 0
            && r.created is None && fresh && run.total == 0,
        ProcessStage::FailRun => (r.inputs matches Some(inputs) && inputs.0 is Malformed)
            && r.failure is None && r.cleared == 0 && r.created is None && fresh,
        ProcessStage::ClearWork => compatible_inputs(r) && r.failure is None && r.cleared == 0
            && r.created is None && fresh,
        ProcessStage::CreateWork => compatible_inputs(r) && r.failure is None && r.cleared == 1
            && r.created is None && fresh,
        ProcessStage::ReportStart => compatible_inputs(r) && r.failure is None && r.cleared == 1
            && r.created == Some(true) && fresh,
        ProcessStage::ReportEntry => entries_begun(r) && nothing_behind(r) && run.index < run.total
            && r.reported == run.index,
        ProcessStage::HandleEntry => entries_begun(r) && nothing_behind(r) && run.index < run.total
            && r.reported == run.index + 1,
        ProcessStage::DropWork => entries_begun(r) && nothing_behind(r) && run.index == run.total
            && r.reported == run.total && run.imported == run.total,
        ProcessStage::ReportPublishing => entries_over(r) && r.publishing == 0 && r.written is None
            && r.published is None && unsettled,
        ProcessStage::WriteStatus => entries_over(r) && r.publishing == 1 && r.written is None
            && r.published is None && unsettled,
        ProcessStage::PublishStatus => entries_over(r) && r.publishing == 1 && r.written == Some(
            true,
        ) && r.published is None && unsettled,
        ProcessStage::Settle(step) => {
            &&& entries_over(r) && r.publishing == 1 && r.written == Some(true) && r.published
                == Some(true) && r.unlocked == 0
            &&& match step {
                MoveStep::CreateParent => r.parent is None && r.renamed is None,
                MoveStep::Rename => r.parent == Some(true) && r.renamed is None,
                MoveStep::RemoveLock => r.parent == Some(true) && r.renamed == Some(true),
                _ => false,
            }
        },
        ProcessStage::Over(end) => match end {
            ProcessEnd::Incompatible => (r.inputs matches Some(inputs) && inputs.0 is Incompatible)
                && r.failure is None && r.cleared == 0 && r.created is None && fresh,
            ProcessEnd::Malformed => (r.inputs matches Some(inputs) && inputs.0 is Malformed)
                && r.failure == Some(true) && r.cleared == 0 && r.created is None && fresh,
            ProcessEnd::FailureNotPublished => (
            r.inputs matches Some(inputs) && inputs.0 is Malformed) && r.failure == Some(false)
                && r.cleared == 0 && r.created is None && fresh,
            ProcessEnd::WorkAreaFailed => compatible_inputs(r) && r.failure is None && r.cleared
                == 1 && r.created == Some(false) && fresh,
            ProcessEnd::StatusWriteFailed => entries_over(r) && r.written == Some(false)
                && r.published is None && unsettled,
            ProcessEnd::StatusPublishFailed => entries_over(r) && r.written == Some(true)
                && r.published == Some(false) && unsettled,
            ProcessEnd::SettleFailed(step) => {
                &&& entries_over(r) && r.written == Some(true) && r.published == Some(true)
                    && r.unlocked == 0
                &&& {
                    ||| step is ParentFailed && r.parent == Some(false) && r.renamed is None
                    ||| step is RenameFailed && r.parent == Some(true) && r.renamed == Some(false)
                }
            },
            ProcessEnd::Finished(state) => {
                &&& entries_over(r) && r.written == Some(true) && r.published == Some(true)
                &&& r.parent == Some(true) && r.renamed == Some(true) && r.unlocked == 1
                &&& state == state_of(run.imported as int, run.total as int)
            },
        },
    }
}

proof fn lemma_record_fits(events: Seq<ProcessEvent>)
    ensures
        record_fits(process_record(events)),
    decreases events.len(),
{
    if events.len() > 0 {
        let before = process_record(events.drop_last());
        lemma_record_fits(events.drop_last());
        match (before.run.stage, events.last()) {
            (ProcessStage::HandleEntry, ProcessEvent::Entry(ok)) => {
                assert(before.results.push(ok).drop_last() =~= before.results);
            },
            _ => {},
        }
    }
}

proof fn lemma_successes_tell(results: Seq<bool>)
    ensures
        0 <= successes(results) <= results.len(),
        successes(results) == results.len() <==> forall|k: int|
            0 <= k < results.len() ==> #[trigger] results[k],
        successes(results) == 0 <==> forall|k: int|
            0 <= k < results.len() ==> !#[trigger] results[k],
    decreases results.len(),
{
    if results.len() > 0 {
        let shorter = results.drop_last();
        lemma_successes_tell(shorter);
        assert forall|k: int| 0 <= k < shorter.len() implies shorter[k] == #[trigger] results[k] by {}
        if forall|k: int| 0 <= k < results.len() ==> #[trigger] results[k] {
            assert(results[results.len() - 1]);
            assert forall|k: int| 0 <= k < shorter.len() implies #[trigger] shorter[k] by {
                assert(results[k]);
            }
        }
        if forall|k: int| 0 <= k < results.len() ==> !#[trigger] results[k] {
            assert(!results[results.len() - 1]);
            assert forall|k: int| 0 <= k < shorter.len() implies !#[trigger] shorter[k] by {
                assert(!results[k]);
            }
        }
        if successes(results) == results.len() {
            assert forall|k: int| 0 <= k < results.len() implies #[trigger] results[k] by {
                if k < shorter.len() {
                    assert(shorter[k]);
                }
            }
        }
        if successes(results) == 0 {
            assert forall|k: int| 0 <= k < results.len() implies !#[trigger] results[k] by {
                if k < shorter.len() {
                    assert(!shorter[k]);
                }
            }
        }
    }
}

/// The end of a run tells what happened. A run is finished only if its documents were
/// compatible, every entry of its manifest was handled, and its status was written,
/// published and moved with it, each of which was reported as done. It is done if every
/// entry was imported, failed if there were entries and none was, and partial otherwise;
/// its work area is removed if and only if it is done. Every other end is that of the first
/// step that failed.
pub proof fn processing_tells_what_happened(events: Seq<ProcessEvent>)
    ensures
        ({
            let r = process_record(events);
            let verdict = (r.inputs->0).0;
            let all = forall|k: int| 0 <= k < r.results.len() ==> #[trigger] r.results[k];
            let none = forall|k: int| 0 <= k < r.results.len() ==> !#[trigger] r.results[k];
            r.run.stage matches ProcessStage::Over(end) ==> {
                &&& r.inputs is Some
                &&& end is Incompatible <==> verdict is Incompatible
                &&& r.failure is Some <==> verdict is Malformed
                &&& end is Malformed <==> r.failure == Some(true)
                &&& end is FailureNotPublished <==> r.failure == Some(false)
                &&& r.created is Some <==> verdict is Compatible
                &&& r.cleared == (if verdict is Compatible {
                    1nat
                } else {
                    0
                })
                &&& end is WorkAreaFailed <==> r.created == Some(false)
                &&& r.created == Some(true) <==> r.written is Some
                &&& r.created == Some(true) ==> r.results.len() == (r.inputs->0).1 && r.reported
                    == r.results.len() && r.dropped == (if all {
                    1nat
                } else {
                    0
                })
                &&& r.created != Some(true) ==> r.results.len() == 0 && r.dropped == 0
                &&& end is StatusWriteFailed <==> r.written == Some(false)
                &&& r.published is Some <==> r.written == Some(true)
                &&& end is StatusPublishFailed <==> r.published == Some(false)
                &&& r.parent is Some <==> r.published == Some(true)
                &&& end == ProcessEnd::SettleFailed(MoveStep::ParentFailed) <==> r.parent == Some(
                    false,
                )
                &&& r.renamed is Some <==> r.parent == Some(true)
                &&& end == ProcessEnd::SettleFailed(MoveStep::RenameFailed) <==> r.renamed == Some(
                    false,
                )
                &&& end is Finished <==> r.renamed == Some(true)
                &&& end matches ProcessEnd::Finished(state) ==> {
                    &&& r.unlocked == 1
                    &&& state is Done <==> all
                    &&& state is Failed <==> none && r.results.len() > 0
                    &&& state is Partial <==> !all && !none
                }
            }
        }),
{
    lemma_record_fits(events);
    let r = process_record(events);
    lemma_successes_tell(r.results);
    if r.results.len() > 0 {
        let first = r.results[0];
    }
}

/// The documents of a run are acted upon once they are read: a compatible run goes on with
/// as many entries as its manifest has, a malformed one is failed, and one of another
/// release line is over.
pub proof fn documents_are_acted_upon(verdict: InputsVerdict, entries: usize)
    ensures
        ({
            let next = process_start().run.after(ProcessEvent::Inputs(verdict, entries));
            &&& verdict is Compatible ==> next.stage is ClearWork && next.total == entries
                && next.index == 0 && next.imported == 0
            &&& verdict is Malformed ==> next.stage is FailRun
            &&& verdict is Incompatible ==> next.stage == ProcessStage::Over(
                ProcessEnd::Incompatible,
            )
        }),
{
}

/// The entry whose turn it is: entries are reported and handled in the order of the
/// manifest, each behind the one before it.
pub proof fn entries_are_handled_in_order(events: Seq<ProcessEvent>)
    ensures
        ({
            let r = process_record(events);
            &&& r.run.stage is ReportEntry || r.run.stage is HandleEntry ==> {
                &&& r.run.index == r.results.len()
                &&& r.run.total == (r.inputs->0).1
                &&& r.run.index < r.run.total
                &&& r.reported == r.run.index + (if r.run.stage is HandleEntry {
                    1nat
                } else {
                    0
                })
            }
        }),
{
    lemma_record_fits(events);
}

proof fn lemma_imported_count(outcomes: Seq<EntryOutcome>)
    ensures
        0 <= imported_count(outcomes) <= outcomes.len(),
        imported_count(outcomes) == outcomes.len() <==> forall|k: int|
            0 <= k < outcomes.len() ==> (#[trigger] outcomes[k]) is Success,
        imported_count(outcomes) == 0 <==> forall|k: int|
            0 <= k < outcomes.len() ==> !((#[trigger] outcomes[k]) is Success),
    decreases outcomes.len(),
{
    let results = outcomes.map_values(|outcome: EntryOutcome| outcome is Success);
    lemma_counts_agree(results, outcomes);
    lemma_successes_tell(results);
    assert forall|k: int| 0 <= k < outcomes.len() implies results[k] == (
    (#[trigger] outcomes[k]) is Success) by {}
    if forall|k: int| 0 <= k < outcomes.len() ==> (#[trigger] outcomes[k]) is Success {
        assert forall|k: int| 0 <= k < results.len() implies #[trigger] results[k] by {
            assert(outcomes[k] is Success);
        }
    }
    if forall|k: int| 0 <= k < outcomes.len() ==> !((#[trigger] outcomes[k]) is Success) {
        assert forall|k: int| 0 <= k < results.len() implies !#[trigger] results[k] by {
            assert(!(outcomes[k] is Success));
        }
    }
}

/// The status of a run has one record for each entry, in order, and its state follows from
/// them: done if every record says imported, failed if there are records and none does, and
/// partial otherwise. It is written for its run, by this server, and names no error of its
/// own.
pub proof fn statuses_follow_from_their_records(
    status: RunStatus,
    nickname: Seq<char>,
    run_id: Seq<char>,
    outcomes: Seq<EntryOutcome>,
)
    requires
        is_status_of(status, nickname, run_id, outcomes),
    ensures
        status.nickname@ == nickname,
        status.run_id@ == run_id,
        status.purgery_version@ == version::current_version(),
        status.error is None,
        status.entries@.len() == outcomes.len(),
        forall|k: int|
            0 <= k < outcomes.len() ==> {
                let record = #[trigger] status.entries@[k];
                match outcomes[k] {
                    EntryOutcome::Success { relative_path, .. } => record.status is Imported
                        && record.relative_path@ == relative_path@ && record.error is None,
                    EntryOutcome::Failure { relative_path, error, .. } => record.status is Failed
                        && record.relative_path@ == relative_path@ && (
                    record.error matches Some(e) && e@ == error@),
                }
            },
        status.state is Done <==> forall|k: int|
            0 <= k < status.entries@.len() ==> (#[trigger] status.entries@[k]).status is Imported,
        status.state is Failed <==> status.entries@.len() > 0 && forall|k: int|
            0 <= k < status.entries@.len() ==> (#[trigger] status.entries@[k]).status is Failed,
{
    lemma_imported_count(outcomes);
    assert forall|k: int| 0 <= k < outcomes.len() implies (
    (#[trigger] status.entries@[k]).status is Imported <==> outcomes[k] is Success) by {
        assert(entry::records(status.entries@[k], outcomes[k]));
    }
    if forall|k: int| 0 <= k < outcomes.len() ==> (#[trigger] status.entries@[k]).status is Imported {
        assert forall|k: int| 0 <= k < outcomes.len() implies (#[trigger] outcomes[k]) is Success by {
            assert(status.entries@[k].status is Imported);
        }
    }
    if forall|k: int| 0 <= k < outcomes.len() ==> (#[trigger] status.entries@[k]).status is Failed {
        assert forall|k: int| 0 <= k < outcomes.len() implies !(
        (#[trigger] outcomes[k]) is Success) by {
            assert(status.entries@[k].status is Failed);
        }
    }
    if outcomes.len() > 0 {
        let first = status.entries@[0];
    }
}

/// Processing answers without an error if and only if the run was finished; what was wrong
/// with its documents is handed on as it is.
pub proof fn answers_follow_the_end(
    answer: Result<(), ProcessingError>,
    end: ProcessEnd,
    inputs: ProcessingError,
    unpublished: Failure,
    places: ProcessPlaces,
    cause: Seq<char>,
)
    requires
        is_process_answer(answer, end, inputs, unpublished, places, cause),
    ensures
        answer is Ok <==> end is Finished,
        end is Incompatible || end is Malformed ==> (answer matches Err(error) && error@ == inputs@),
        end is FailureNotPublished ==> (answer matches Err(ProcessingError::Other(f)) && f@
            == unpublished@),
        end is WorkAreaFailed || end is StatusWriteFailed || end is StatusPublishFailed || end
            is SettleFailed ==> (answer matches Err(ProcessingError::Other(f)) && (
        f.cause matches Some(c) && c@ == cause)),
{
}

} // verus!
