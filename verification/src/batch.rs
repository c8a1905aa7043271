//! Processing everything that waits.
//!
//! A pass first collects garbage, then recovers what was interrupted, and then takes
//! the ready runs one after the other. What happens to one run never keeps the pass
//! from the next.

use vstd::prelude::*;

use crate::inputs::ProcessingError;

verus! {

/// How a pass ends.
#[derive(Clone, Copy, PartialEq, Eq, Structural, Debug)]
pub enum BatchEnd {
    /// There was nothing to do.
    Idle,
    /// Every run had its turn.
    Finished,
    /// The runs in processing could not be listed.
    ProcessingUnlisted,
    /// The ready runs could not be listed.
    ReadyUnlisted,
}

/// The next thing to do in a pass.
#[derive(Clone, Copy, PartialEq, Eq, Structural, Debug)]
pub enum BatchStage {
    CollectGarbage,
    FindProcessing,
    FindReady,
    /// Recover the run in processing whose turn it is.
    Recover,
    /// Claim the ready run whose turn it is.
    Claim,
    /// Process the claimed run.
    Process,
    /// Move the claimed run, which failed, out of the way.
    MoveToFailed,
    ReleaseLock,
    Over(BatchEnd),
}

/// How the processing of a claimed run went.
#[derive(Clone, Copy, PartialEq, Eq, Structural, Debug)]
pub enum ProcessVerdict {
    Processed,
    Incompatible,
    Failed,
}

/// What the answer of processing amounts to.
pub fn judge_processing(answer: &Result<(), ProcessingError>) -> (verdict: ProcessVerdict)
    ensures
        verdict == (match answer {
            Ok(_) => ProcessVerdict::Processed,
            Err(ProcessingError::Incompatible { .. }) => ProcessVerdict::Incompatible,
            Err(ProcessingError::Other(_)) => ProcessVerdict::Failed,
        }),
{
    match answer {
        Ok(_) => ProcessVerdict::Processed,
        Err(ProcessingError::Incompatible { .. }) => ProcessVerdict::Incompatible,
        Err(ProcessingError::Other(_)) => ProcessVerdict::Failed,
    }
}

/// What doing it gave.
#[derive(Clone, Copy, PartialEq, Eq, Structural, Debug)]
pub enum BatchEvent {
    /// It was done, successfully or not.
    Done,
    /// How many runs were listed, if they could be.
    Listed(Option<usize>),
    /// Whether the run was claimed, and is now locked.
    Claimed(bool),
    Processed(ProcessVerdict),
}

/// A pass: what is next, how many runs there are in the two phases, and how many of
/// each had their turn.
#[derive(Clone, Copy, PartialEq, Eq, Structural, Debug)]
pub struct Batch {
    pub stage: BatchStage,
    pub processing: usize,
    pub ready: usize,
    pub recovered: usize,
    pub taken: usize,
}

impl Batch {
    pub open spec fn well_formed(self) -> bool {
        &&& self.recovered <= self.processing
        &&& self.taken <= self.ready
        &&& self.taken > 0 ==> self.recovered == self.processing
        &&& self.stage is CollectGarbage || self.stage is FindProcessing ==> self.processing == 0
        &&& self.stage is CollectGarbage || self.stage is FindProcessing || self.stage is FindReady
            ==> self.ready == 0 && self.recovered == 0
        &&& self.stage is Recover ==> self.recovered < self.processing && self.taken == 0
        &&& self.stage is Claim || self.stage is Process || self.stage is MoveToFailed
            || self.stage is ReleaseLock ==> self.recovered == self.processing && self.taken
            < self.ready
    }

    pub open spec fn at(self, stage: BatchStage) -> Batch {
        Batch { stage, ..self }
    }

    /// Where a pass stands between two runs.
    pub open spec fn between_runs(self) -> Batch {
        self.at(
            if self.recovered < self.processing {
                BatchStage::Recover
            } else if self.taken < self.ready {
                BatchStage::Claim
            } else {
                BatchStage::Over(BatchEnd::Finished)
            },
        )
    }

    /// A ready run had its turn.
    pub open spec fn took_one(self) -> Batch {
        (Batch { taken: (self.taken + 1) as usize, ..self }).between_runs()
    }

    /// The state behind an event. An event that does not belong to the stage changes
    /// nothing.
    pub open spec fn after(self, event: BatchEvent) -> Batch {
        match (self.stage, event) {
            (BatchStage::CollectGarbage, BatchEvent::Done) => self.at(BatchStage::FindProcessing),
            (BatchStage::FindProcessing, BatchEvent::Listed(listed)) => match listed {
                Some(n) => Batch { stage: BatchStage::FindReady, processing: n, ..self },
                None => self.at(BatchStage::Over(BatchEnd::ProcessingUnlisted)),
            },
            (BatchStage::FindReady, BatchEvent::Listed(listed)) => match listed {
                Some(n) => if n == 0 && self.processing == 0 {
                    self.at(BatchStage::Over(BatchEnd::Idle))
                } else {
                    (Batch { ready: n, ..self }).between_runs()
                },
                None => self.at(BatchStage::Over(BatchEnd::ReadyUnlisted)),
            },
            (BatchStage::Recover, BatchEvent::Done) => (Batch {
                recovered: (self.recovered + 1) as usize,
                ..self
            }).between_runs(),
            (BatchStage::Claim, BatchEvent::Claimed(claimed)) => if claimed {
                self.at(BatchStage::Process)
            } else {
                self.took_one()
            },
            (BatchStage::Process, BatchEvent::Processed(verdict)) => self.at(
                if verdict is Failed {
                    BatchStage::MoveToFailed
                } else {
                    BatchStage::ReleaseLock
                },
            ),
            (BatchStage::MoveToFailed, BatchEvent::Done) => self.at(BatchStage::ReleaseLock),
            (BatchStage::ReleaseLock, BatchEvent::Done) => self.took_one(),
            _ => self,
        }
    }

    /// A pass before its first step.
    pub fn start() -> (batch: Batch)
        ensures
            batch == batch_start(),
            batch.well_formed(),
    {
        Batch {
            stage: BatchStage::CollectGarbage,
            processing: 0,
            ready: 0,
            recovered: 0,
            taken: 0,
        }
    }

    fn to(self, stage: BatchStage) -> (next: Batch)
        ensures
            next == self.at(stage),
    {
        Batch {
            stage,
            processing: self.processing,
            ready: self.ready,
            recovered: self.recovered,
            taken: self.taken,
        }
    }

    fn go_on(self) -> (next: Batch)
        ensures
            next == self.between_runs(),
    {
        if self.recovered < self.processing {
            self.to(BatchStage::Recover)
        } else if self.taken < self.ready {
            self.to(BatchStage::Claim)
        } else {
            self.to(BatchStage::Over(BatchEnd::Finished))
        }
    }

    fn take_one(self) -> (next: Batch)
        requires
            self.taken < self.ready,
        ensures
            next == self.took_one(),
    {
        let taken = Batch {
            stage: self.stage,
            processing: self.processing,
            ready: self.ready,
            recovered: self.recovered,
            taken: self.taken + 1,
        };
        taken.go_on()
    }
}

/// A pass before its first step.
pub open spec fn batch_start() -> Batch {
    Batch { stage: BatchStage::CollectGarbage, processing: 0, ready: 0, recovered: 0, taken: 0 }
}

/// The state of a pass behind an event. A pass starts with `Batch::start`. A claimed
/// run that fails is moved to failed before its lock is released; a claimed run that
/// turns out to be of another release line is left in place.
pub fn process_once_raw(batch: Batch, event: BatchEvent) -> (next: Batch)
    requires
        batch.well_formed(),
    ensures
        next == batch.after(event),
        next.well_formed(),
{
    match (batch.stage, event) {
        (BatchStage::CollectGarbage, BatchEvent::Done) => batch.to(BatchStage::FindProcessing),
        (BatchStage::FindProcessing, BatchEvent::Listed(listed)) => match listed {
            Some(n) => Batch {
                stage: BatchStage::FindReady,
                processing: n,
                ready: batch.ready,
                recovered: batch.recovered,
                taken: batch.taken,
            },
            None => batch.to(BatchStage::Over(BatchEnd::ProcessingUnlisted)),
        },
        (BatchStage::FindReady, BatchEvent::Listed(listed)) => match listed {
            Some(n) => {
                if n == 0 && batch.processing == 0 {
                    batch.to(BatchStage::Over(BatchEnd::Idle))
                } else {
                    let listed = Batch {
                        stage: batch.stage,
                        processing: batch.processing,
                        ready: n,
                        recovered: batch.recovered,
                        taken: batch.taken,
                    };
                    listed.go_on()
                }
            },
            None => batch.to(BatchStage::Over(BatchEnd::ReadyUnlisted)),
        },
        (BatchStage::Recover, BatchEvent::Done) => {
            let recovered = Batch {
                stage: batch.stage,
                processing: batch.processing,
                ready: batch.ready,
                recovered: batch.recovered + 1,
                taken: batch.taken,
            };
            recovered.go_on()
        },
        (BatchStage::Claim, BatchEvent::Claimed(claimed)) => {
            if claimed {
                batch.to(BatchStage::Process)
            } else {
                batch.take_one()
            }
        },
        (BatchStage::Process, BatchEvent::Processed(verdict)) => match verdict {
            ProcessVerdict::Failed => batch.to(BatchStage::MoveToFailed),
            _ => batch.to(BatchStage::ReleaseLock),
        },
        (BatchStage::MoveToFailed, BatchEvent::Done) => batch.to(BatchStage::ReleaseLock),
        (BatchStage::ReleaseLock, BatchEvent::Done) => batch.take_one(),
        (_, _) => batch,
    }
}

// ---------------------------------------------------------------------------
// Laws of a pass
// ---------------------------------------------------------------------------

/// A pass on its way, with what its events say of the world: which runs in
/// processing and which ready runs had their turn, whether a lock is held, and
/// whether the locked run was found to be of another release line.
pub struct BatchHistory {
    pub batch: Batch,
    pub recoveries: Seq<int>,
    pub claims: Seq<int>,
    pub locked: bool,
    pub foreign: bool,
}

/// What an event adds to the history of a pass.
pub open spec fn batch_observe(h: BatchHistory, event: BatchEvent) -> BatchHistory {
    BatchHistory {
        batch: h.batch.after(event),
        recoveries: match (h.batch.stage, event) {
            (BatchStage::Recover, BatchEvent::Done) => h.recoveries.push(h.batch.recovered as int),
            _ => h.recoveries,
        },
        claims: match (h.batch.stage, event) {
            (BatchStage::Claim, BatchEvent::Claimed(_)) => h.claims.push(h.batch.taken as int),
            _ => h.claims,
        },
        locked: match (h.batch.stage, event) {
            (BatchStage::Claim, BatchEvent::Claimed(claimed)) => claimed,
            (BatchStage::ReleaseLock, BatchEvent::Done) => false,
            _ => h.locked,
        },
        foreign: match (h.batch.stage, event) {
            (BatchStage::Claim, BatchEvent::Claimed(_)) => false,
            (BatchStage::Process, BatchEvent::Processed(verdict)) => verdict is Incompatible,
            _ => h.foreign,
        },
    }
}

/// The history of a pass after a number of events.
pub open spec fn batch_history(events: Seq<BatchEvent>) -> BatchHistory
    decreases events.len(),
{
    if events.len() == 0 {
        BatchHistory {
            batch: batch_start(),
            recoveries: Seq::empty(),
            claims: Seq::empty(),
            locked: false,
            foreign: false,
        }
    } else {
        batch_observe(batch_history(events.drop_last()), events.last())
    }
}

/// The numbers from 0 up to n.
pub open spec fn first(n: int) -> Seq<int> {
    Seq::new(n as nat, |i: int| i)
}

spec fn history_fits(h: BatchHistory) -> bool {
    let b = h.batch;
    let in_turn = b.stage is Process || b.stage is MoveToFailed || b.stage is ReleaseLock;
    &&& b.well_formed()
    &&& h.recoveries =~= first(b.recovered as int)
    &&& h.claims =~= first(
        if in_turn {
            b.taken + 1
        } else {
            b.taken as int
        },
    )
    &&& h.locked == in_turn
    &&& b.stage is MoveToFailed ==> !h.foreign
    &&& b.stage == BatchStage::Over(BatchEnd::Finished) ==> b.recovered == b.processing && b.taken
        == b.ready
}

proof fn lemma_history_fits(events: Seq<BatchEvent>)
    ensures
        history_fits(batch_history(events)),
    decreases events.len(),
{
    if events.len() > 0 {
        lemma_history_fits(events.drop_last());
        let h = batch_history(events.drop_last());
        let next = batch_history(events);
        assert(first(h.batch.recovered as int).push(h.batch.recovered as int) =~= first(
            h.batch.recovered + 1,
        ));
        assert(first(h.batch.taken as int).push(h.batch.taken as int) =~= first(
            h.batch.taken + 1,
        ));
        assert(history_fits(next));
    }
}

/// Interrupted runs are recovered before any ready run is taken.
pub proof fn recovery_comes_first(events: Seq<BatchEvent>)
    ensures
        batch_history(events).claims.len() > 0 ==> batch_history(events).recoveries.len()
            == batch_history(events).batch.processing,
{
    lemma_history_fits(events);
}

/// A pass that runs to its end gives every listed run exactly one turn, in the order
/// of the listing.
pub proof fn every_run_has_one_turn(events: Seq<BatchEvent>)
    requires
        batch_history(events).batch.stage == BatchStage::Over(BatchEnd::Finished),
    ensures
        batch_history(events).recoveries =~= first(batch_history(events).batch.processing as int),
        batch_history(events).claims =~= first(batch_history(events).batch.ready as int),
{
    lemma_history_fits(events);
}

/// A claimed run is processed, and moved to failed if need be, under its lock; at
/// every other time the pass holds no lock.
pub proof fn locks_are_held_exactly_while_needed(events: Seq<BatchEvent>)
    ensures
        ({
            let stage = batch_history(events).batch.stage;
            batch_history(events).locked <==> (stage is Process || stage is MoveToFailed
                || stage is ReleaseLock)
        }),
{
    lemma_history_fits(events);
}

/// A run of another release line is not moved to failed.
pub proof fn foreign_runs_are_not_failed(events: Seq<BatchEvent>)
    ensures
        batch_history(events).batch.stage is MoveToFailed ==> !batch_history(events).foreign,
{
    lemma_history_fits(events);
}

/// How far a pass is from its end, once the runs are listed.
pub open spec fn batch_distance(batch: Batch) -> nat {
    match batch.stage {
        BatchStage::Recover => (5 * (batch.processing - batch.recovered) + 5 * (batch.ready
            - batch.taken)) as nat,
        BatchStage::Claim => (5 * (batch.ready - batch.taken)) as nat,
        BatchStage::Process => (5 * (batch.ready - batch.taken) - 1) as nat,
        BatchStage::MoveToFailed => (5 * (batch.ready - batch.taken) - 2) as nat,
        BatchStage::ReleaseLock => (5 * (batch.ready - batch.taken) - 3) as nat,
        _ => 0,
    }
}

/// An event that reports on the stage.
pub open spec fn answers(stage: BatchStage, event: BatchEvent) -> bool {
    match stage {
        BatchStage::FindProcessing | BatchStage::FindReady => event is Listed,
        BatchStage::Claim => event is Claimed,
        BatchStage::Process => event is Processed,
        BatchStage::Over(_) => false,
        _ => event is Done,
    }
}

/// Once the runs are listed, every report brings a pass nearer to its end.
pub proof fn passes_end(batch: Batch, event: BatchEvent)
    requires
        batch.well_formed(),
        answers(batch.stage, event),
        !(batch.stage is CollectGarbage || batch.stage is FindProcessing
            || batch.stage is FindReady),
    ensures
        batch_distance(batch.after(event)) < batch_distance(batch),
{
}

/// What was reported of the turn of a ready run: whether it was claimed, how its
/// processing went, whether it was moved to failed, and whether its lock was released.
pub struct Turn {
    pub claimed: bool,
    pub processed: Option<ProcessVerdict>,
    pub moved: bool,
    pub released: bool,
}

/// A pass on its way, with what was reported of its steps: how often garbage was
/// collected, how many runs the two listings held, how many runs were recovered, and the
/// turns of the ready runs.
pub struct BatchRecord {
    pub batch: Batch,
    pub collected: nat,
    pub in_processing: Option<Option<usize>>,
    pub ready: Option<Option<usize>>,
    pub recoveries: nat,
    pub turns: Seq<Turn>,
}

/// The record of a pass after a number of events.
pub open spec fn batch_record(events: Seq<BatchEvent>) -> BatchRecord
    decreases events.len(),
{
    if events.len() == 0 {
        BatchRecord {
            batch: batch_start(),
            collected: 0,
            in_processing: None,
            ready: None,
            recoveries: 0,
            turns: Seq::empty(),
        }
    } else {
        let r = batch_record(events.drop_last());
        let at = BatchRecord { batch: r.batch.after(events.last()), ..r };
        let turn = r.turns.last();
        match (r.batch.stage, events.last()) {
            (BatchStage::CollectGarbage, BatchEvent::Done) => BatchRecord {
                collected: r.collected + 1,
                ..at
            },
            (BatchStage::FindProcessing, BatchEvent::Listed(listed)) => BatchRecord {
                in_processing: Some(listed),
                ..at
            },
            (BatchStage::FindReady, BatchEvent::Listed(listed)) => BatchRecord {
                ready: Some(listed),
                ..at
            },
            (BatchStage::Recover, BatchEvent::Done) => BatchRecord {
                recoveries: r.recoveries + 1,
                ..at
            },
            (BatchStage::Claim, BatchEvent::Claimed(claimed)) => BatchRecord {
                turns: r.turns.push(
                    Turn { claimed, processed: None, moved: false, released: false },
                ),
                ..at
            },
            (BatchStage::Process, BatchEvent::Processed(verdict)) => BatchRecord {
                turns: r.turns.drop_last().push(Turn { processed: Some(verdict), ..turn }),
                ..at
            },
            (BatchStage::MoveToFailed, BatchEvent::Done) => BatchRecord {
                turns: r.turns.drop_last().push(Turn { moved: true, ..turn }),
                ..at
            },
            (BatchStage::ReleaseLock, BatchEvent::Done) => BatchRecord {
                turns: r.turns.drop_last().push(Turn { released: true, ..turn }),
                ..at
            },
            _ => at,
        }
    }
}

/// A turn that is over.
spec fn turn_over(turn: Turn) -> bool {
    if turn.claimed {
        turn.processed is Some && turn.released && (turn.moved <==> turn.processed == Some(
            ProcessVerdict::Failed,
        ))
    } else {
        turn.processed is None && !turn.moved && !turn.released
    }
}

spec fn turns_over(turns: Seq<Turn>) -> bool {
    forall|k: int| 0 <= k < turns.len() ==> turn_over(#[trigger] turns[k])
}

spec fn record_fits(r: BatchRecord) -> bool {
    let b = r.batch;
    let listed = r.collected == 1 && r.in_processing == Some(Some(b.processing)) && r.ready == Some(
        Some(b.ready),
    );
    let unlisted = r.recoveries == 0 && r.turns.len() == 0 && b.recovered == 0 && b.taken == 0;
    let in_turn = listed && r.recoveries == b.processing && b.recovered == b.processing && b.taken
        < b.ready && r.turns.len() == b.taken + 1 && turns_over(r.turns.drop_last())
        && r.turns.last().claimed && !r.turns.last().released;
    match b.stage {
        BatchStage::CollectGarbage => r.collected == 0 && r.in_processing is None && r.ready is None
            && unlisted && b.processing == 0 && b.ready == 0,
        BatchStage::FindProcessing => r.collected == 1 && r.in_processing is None && r.ready is None
            && unlisted && b.processing == 0 && b.ready == 0,
        BatchStage::FindReady => r.collected == 1 && r.in_processing == Some(Some(b.processing))
            && r.ready is None && unlisted && b.ready == 0,
        BatchStage::Recover => listed && r.recoveries == b.recovered && b.recovered < b.processing
            && b.taken == 0 && r.turns.len() == 0,
        BatchStage::Claim => listed && r.recoveries == b.processing && b.recovered == b.processing
            && b.taken < b.ready && r.turns.len() == b.taken && turns_over(r.turns),
        BatchStage::Process => in_turn && r.turns.last().processed is None
            && !r.turns.last().moved,
        BatchStage::MoveToFailed => in_turn && r.turns.last().processed == Some(
            ProcessVerdict::Failed,
        ) && !r.turns.last().moved,
        BatchStage::ReleaseLock => in_turn && r.turns.last().processed is Some && (
        r.turns.last().moved <==> r.turns.last().processed == Some(ProcessVerdict::Failed)),
        BatchStage::Over(end) => match end {
            BatchEnd::Idle => r.collected == 1 && r.in_processing == Some(Some(0usize)) && r.ready
                == Some(Some(0usize)) && r.recoveries == 0 && r.turns.len() == 0,
            BatchEnd::Finished => listed && r.recoveries == b.processing && r.turns.len() == b.ready
                && turns_over(r.turns) && (b.processing > 0 || b.ready > 0),
            BatchEnd::ProcessingUnlisted => r.collected == 1 && r.in_processing == Some(
                None::<usize>,
            ) && r.ready is None && r.recoveries == 0 && r.turns.len() == 0,
            BatchEnd::ReadyUnlisted => r.collected == 1 && (r.in_processing matches Some(Some(_)))
                && r.ready == Some(None::<usize>) && r.recoveries == 0 && r.turns.len() == 0,
        },
    }
}

proof fn lemma_record_fits(events: Seq<BatchEvent>)
    ensures
        record_fits(batch_record(events)),
    decreases events.len(),
{
    if events.len() > 0 {
        let before = batch_record(events.drop_last());
        let after = batch_record(events);
        lemma_record_fits(events.drop_last());
        if after.turns.len() > 0 {
            assert(after.turns.len() > before.turns.len() ==> after.turns.drop_last()
                =~= before.turns);
            assert(before.turns.len() > 0 ==> before.turns.drop_last().push(
                after.turns.last(),
            ).drop_last() =~= before.turns.drop_last());
            assert forall|k: int|
                0 <= k < after.turns.len() && turns_over(after.turns.drop_last()) && turn_over(
                    after.turns.last(),
                ) implies turn_over(#[trigger] after.turns[k]) by {
                if k < after.turns.len() - 1 {
                    assert(after.turns.drop_last()[k] == after.turns[k]);
                }
            }
        }
    }
}

/// A pass collects garbage once and asks for both listings. It is idle if and only if both
/// are empty. A pass that comes to its end has recovered as many runs as the listing of
/// processing held and given as many ready runs their turn as the listing of ready held;
/// every run that was claimed was processed and released, and was moved to failed if and
/// only if its processing failed.
pub proof fn passes_do_all_that_is_listed(events: Seq<BatchEvent>)
    ensures
        ({
            let r = batch_record(events);
            r.batch.stage matches BatchStage::Over(end) ==> {
                &&& r.collected == 1
                &&& end is ProcessingUnlisted <==> r.in_processing == Some(None::<usize>)
                &&& end is ReadyUnlisted <==> r.ready == Some(None::<usize>)
                &&& end is Idle <==> r.in_processing == Some(Some(0usize)) && r.ready == Some(
                    Some(0usize),
                )
                &&& end is Finished ==> {
                    &&& r.in_processing matches Some(Some(n)) && r.recoveries == n
                    &&& r.ready matches Some(Some(n)) && r.turns.len() == n
                    &&& forall|k: int|
                        0 <= k < r.turns.len() ==> {
                            let turn = #[trigger] r.turns[k];
                            &&& turn.claimed <==> turn.processed is Some
                            &&& turn.claimed <==> turn.released
                            &&& turn.moved <==> turn.processed == Some(ProcessVerdict::Failed)
                        }
                }
            }
        }),
{
    lemma_record_fits(events);
    let r = batch_record(events);
    assert forall|k: int| turns_over(r.turns) && 0 <= k < r.turns.len() implies {
        let turn = #[trigger] r.turns[k];
        &&& turn.claimed <==> turn.processed is Some
        &&& turn.claimed <==> turn.released
        &&& turn.moved <==> turn.processed == Some(ProcessVerdict::Failed)
    } by {
        assert(turn_over(r.turns[k]));
    }
}

/// A pass goes on from the collection of garbage to the first listing, from this to the
/// second, and from this, if there is anything to do, to the first run; what cannot be
/// listed ends it.
pub proof fn passes_begin_with_the_listings(listed: Option<usize>, more: Option<usize>)
    ensures
        ({
            let first = batch_start().after(BatchEvent::Done);
            let second = first.after(BatchEvent::Listed(listed));
            let third = second.after(BatchEvent::Listed(more));
            &&& batch_start().stage is CollectGarbage
            &&& first.stage is FindProcessing
            &&& listed is None ==> second.stage == BatchStage::Over(BatchEnd::ProcessingUnlisted)
            &&& listed is Some ==> second.stage is FindReady
            &&& listed is Some && more is None ==> third.stage == BatchStage::Over(
                BatchEnd::ReadyUnlisted,
            )
            &&& listed is Some && more is Some ==> {
                &&& listed->0 > 0 ==> third.stage is Recover
                &&& listed->0 == 0 && more->0 > 0 ==> third.stage is Claim
                &&& listed->0 == 0 && more->0 == 0 ==> third.stage == BatchStage::Over(
                    BatchEnd::Idle,
                )
                &&& listed->0 > 0 || more->0 > 0 ==> third.processing == listed->0 && third.ready
                    == more->0
            }
        }),
{
}

/// The run whose turn it is: the runs in processing are recovered in the order of their
/// listing, and so are the ready runs taken, none of them before the last recovery.
pub proof fn turns_go_by_the_listing(events: Seq<BatchEvent>)
    ensures
        ({
            let r = batch_record(events);
            &&& r.batch.stage is Recover ==> {
                &&& r.in_processing matches Some(Some(n)) && r.batch.recovered < n
                &&& r.batch.recovered == r.recoveries
                &&& r.turns.len() == 0
            }
            &&& r.batch.stage is Claim ==> {
                &&& r.in_processing matches Some(Some(n)) && r.recoveries == n
                &&& r.ready matches Some(Some(n)) && r.batch.taken < n
                &&& r.batch.taken == r.turns.len()
            }
            &&& r.batch.stage is Process || r.batch.stage is MoveToFailed || r.batch.stage
                is ReleaseLock ==> r.batch.taken == r.turns.len() - 1 && r.turns.last().claimed
        }),
{
    lemma_record_fits(events);
}

} // verus!
