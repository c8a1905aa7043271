//! Running a program on an entry and looking after its outputs.
//!
//! The program is started, watched with a sign of life at every interval, and once it
//! has succeeded each output that it owes is inspected.

use vstd::prelude::*;

use crate::model::FileKind;
use crate::text;

verus! {

/// What stands where an output is expected.
#[derive(Clone, Copy, PartialEq, Eq, Structural, Debug)]
pub enum OutputProbe {
    Present(FileKind),
    NotFound,
    Unreadable,
    /// The output lies outside the area in which it must lie.
    Outside,
}

/// Whether an output is accepted: a directory, a regular file or a symbolic link,
/// links not followed.
pub open spec fn accepted(probe: OutputProbe) -> bool {
    probe matches OutputProbe::Present(kind) && !(kind is Other)
}

/// How running a program ends.
#[derive(Clone, Copy, PartialEq, Eq, Structural, Debug)]
pub enum SubprocessEnd {
    /// The program succeeded and every output is there.
    Finished,
    SpawnFailed,
    WaitFailed,
    /// The program reported failure.
    ProgramFailed,
    /// It could not be told what outputs to expect.
    OutputsUnknown,
    /// The output at this position is missing or not accepted.
    OutputRefused(usize, OutputProbe),
}

/// The next thing to do.
#[derive(Clone, Copy, PartialEq, Eq, Structural, Debug)]
pub enum SubprocessStep {
    ReportStarted,
    Spawn,
    /// Ask whether the program has ended.
    Poll,
    ReportRunning,
    Sleep,
    /// Wait for the readers of the program's output; whether it succeeded is known.
    JoinReaders(bool),
    ReportFinished,
    ResolveOutputs,
    Inspect(usize),
    Over(SubprocessEnd),
}

/// What asking a program gave.
#[derive(Clone, Copy, PartialEq, Eq, Structural, Debug)]
pub enum PollReply {
    Running,
    Exited(bool),
    Failed,
}

/// What doing it gave.
#[derive(Clone, Copy, PartialEq, Eq, Structural, Debug)]
pub enum SubprocessEvent {
    Done(bool),
    Polled(PollReply),
    /// How many outputs to expect, if that could be told.
    Resolved(Option<usize>),
    Inspected(OutputProbe),
}

/// A program that is being run: what is next, whether its output is captured, and how
/// many outputs it owes.
#[derive(Clone, Copy, PartialEq, Eq, Structural, Debug)]
pub struct Subprocess {
    pub step: SubprocessStep,
    pub captures: bool,
    pub outputs: usize,
}

impl Subprocess {
    pub open spec fn well_formed(self) -> bool {
        self.step matches SubprocessStep::Inspect(i) ==> i < self.outputs
    }

    pub open spec fn at(self, step: SubprocessStep) -> Subprocess {
        Subprocess { step, ..self }
    }

    /// The state behind an event. An event that does not belong to the step changes
    /// nothing.
    pub open spec fn after(self, event: SubprocessEvent) -> Subprocess {
        match (self.step, event) {
            (SubprocessStep::ReportStarted, SubprocessEvent::Done(_)) => self.at(
                SubprocessStep::Spawn,
            ),
            (SubprocessStep::Spawn, SubprocessEvent::Done(ok)) => self.at(
                if ok {
                    SubprocessStep::Poll
                } else {
                    SubprocessStep::Over(SubprocessEnd::SpawnFailed)
                },
            ),
            (SubprocessStep::Poll, SubprocessEvent::Polled(reply)) => self.at(
                match reply {
                    PollReply::Running => SubprocessStep::ReportRunning,
                    PollReply::Failed => SubprocessStep::Over(SubprocessEnd::WaitFailed),
                    PollReply::Exited(success) => if self.captures {
                        SubprocessStep::JoinReaders(success)
                    } else if success {
                        SubprocessStep::ReportFinished
                    } else {
                        SubprocessStep::Over(SubprocessEnd::ProgramFailed)
                    },
                },
            ),
            (SubprocessStep::ReportRunning, SubprocessEvent::Done(_)) => self.at(
                SubprocessStep::Sleep,
            ),
            (SubprocessStep::Sleep, SubprocessEvent::Done(_)) => self.at(SubprocessStep::Poll),
            (SubprocessStep::JoinReaders(success), SubprocessEvent::Done(_)) => self.at(
                if success {
                    SubprocessStep::ReportFinished
                } else {
                    SubprocessStep::Over(SubprocessEnd::ProgramFailed)
                },
            ),
            (SubprocessStep::ReportFinished, SubprocessEvent::Done(_)) => self.at(
                SubprocessStep::ResolveOutputs,
            ),
            (SubprocessStep::ResolveOutputs, SubprocessEvent::Resolved(found)) => match found {
                None => self.at(SubprocessStep::Over(SubprocessEnd::OutputsUnknown)),
                Some(n) => Subprocess {
                    step: if n == 0 {
                        SubprocessStep::Over(SubprocessEnd::Finished)
                    } else {
                        SubprocessStep::Inspect(0)
                    },
                    outputs: n,
                    ..self
                },
            },
            (SubprocessStep::Inspect(i), SubprocessEvent::Inspected(probe)) => self.at(
                if !accepted(probe) {
                    SubprocessStep::Over(SubprocessEnd::OutputRefused(i, probe))
                } else if i + 1 < self.outputs {
                    SubprocessStep::Inspect((i + 1) as usize)
                } else {
                    SubprocessStep::Over(SubprocessEnd::Finished)
                },
            ),
            _ => self,
        }
    }

    /// A program before it is started.
    pub fn start(captures: bool) -> (run: Subprocess)
        ensures
            run == subprocess_start(captures),
            run.well_formed(),
    {
        Subprocess { step: SubprocessStep::ReportStarted, captures, outputs: 0 }
    }

    fn to(self, step: SubprocessStep) -> (next: Subprocess)
        ensures
            next == self.at(step),
    {
        Subprocess { step, captures: self.captures, outputs: self.outputs }
    }

    /// The state behind an event.
    pub fn advance(self, event: SubprocessEvent) -> (next: Subprocess)
        requires
            self.well_formed(),
        ensures
            next == self.after(event),
            next.well_formed(),
    {
        match (self.step, event) {
            (SubprocessStep::ReportStarted, SubprocessEvent::Done(_)) => self.to(
                SubprocessStep::Spawn,
            ),
            (SubprocessStep::Spawn, SubprocessEvent::Done(ok)) => {
                if ok {
                    self.to(SubprocessStep::Poll)
                } else {
                    self.to(SubprocessStep::Over(SubprocessEnd::SpawnFailed))
                }
            },
            (SubprocessStep::Poll, SubprocessEvent::Polled(reply)) => match reply {
                PollReply::Running => self.to(SubprocessStep::ReportRunning),
                PollReply::Failed => self.to(SubprocessStep::Over(SubprocessEnd::WaitFailed)),
                PollReply::Exited(success) => {
                    if self.captures {
                        self.to(SubprocessStep::JoinReaders(success))
                    } else if success {
                        self.to(SubprocessStep::ReportFinished)
                    } else {
                        self.to(SubprocessStep::Over(SubprocessEnd::ProgramFailed))
                    }
                },
            },
            (SubprocessStep::ReportRunning, SubprocessEvent::Done(_)) => self.to(
                SubprocessStep::Sleep,
            ),
            (SubprocessStep::Sleep, SubprocessEvent::Done(_)) => self.to(SubprocessStep::Poll),
            (SubprocessStep::JoinReaders(success), SubprocessEvent::Done(_)) => {
                if success {
                    self.to(SubprocessStep::ReportFinished)
                } else {
                    self.to(SubprocessStep::Over(SubprocessEnd::ProgramFailed))
                }
            },
            (SubprocessStep::ReportFinished, SubprocessEvent::Done(_)) => self.to(
                SubprocessStep::ResolveOutputs,
            ),
            (SubprocessStep::ResolveOutputs, SubprocessEvent::Resolved(found)) => match found {
                None => self.to(SubprocessStep::Over(SubprocessEnd::OutputsUnknown)),
                Some(n) => {
                    let step = if n == 0 {
                        SubprocessStep::Over(SubprocessEnd::Finished)
                    } else {
                        SubprocessStep::Inspect(0)
                    };
                    Subprocess { step, captures: self.captures, outputs: n }
                },
            },
            (SubprocessStep::Inspect(i), SubprocessEvent::Inspected(probe)) => {
                if !is_accepted(probe) {
                    self.to(SubprocessStep::Over(SubprocessEnd::OutputRefused(i, probe)))
                } else if i + 1 < self.outputs {
                    self.to(SubprocessStep::Inspect(i + 1))
                } else {
                    self.to(SubprocessStep::Over(SubprocessEnd::Finished))
                }
            },
            (_, _) => self,
        }
    }
}

/// A program before it is started.
pub open spec fn subprocess_start(captures: bool) -> Subprocess {
    Subprocess { step: SubprocessStep::ReportStarted, captures, outputs: 0 }
}

fn is_accepted(probe: OutputProbe) -> (ok: bool)
    ensures
        ok == accepted(probe),
{
    match probe {
        OutputProbe::Present(FileKind::Other) => false,
        OutputProbe::Present(_) => true,
        _ => false,
    }
}

// ---------------------------------------------------------------------------
// Laws of running a program
// ---------------------------------------------------------------------------

/// A program that is being run, with what its events say of the world: whether it was
/// started, whether it succeeded, and what the inspections found.
pub struct SubprocessHistory {
    pub run: Subprocess,
    pub started: bool,
    pub succeeded: bool,
    pub joined: bool,
    pub inspected: Seq<OutputProbe>,
}

/// What an event adds to the history.
pub open spec fn subprocess_observe(
    h: SubprocessHistory,
    event: SubprocessEvent,
) -> SubprocessHistory {
    SubprocessHistory {
        run: h.run.after(event),
        started: match (h.run.step, event) {
            (SubprocessStep::Spawn, SubprocessEvent::Done(ok)) => ok,
            _ => h.started,
        },
        succeeded: match (h.run.step, event) {
            (SubprocessStep::Poll, SubprocessEvent::Polled(PollReply::Exited(success))) => success,
            _ => h.succeeded,
        },
        joined: match (h.run.step, event) {
            (SubprocessStep::JoinReaders(_), SubprocessEvent::Done(_)) => true,
            _ => h.joined,
        },
        inspected: match (h.run.step, event) {
            (SubprocessStep::Inspect(_), SubprocessEvent::Inspected(probe)) => h.inspected.push(
                probe,
            ),
            _ => h.inspected,
        },
    }
}

/// The history of a program after a number of events.
pub open spec fn subprocess_history(captures: bool, events: Seq<SubprocessEvent>) ->
    SubprocessHistory
    decreases events.len(),
{
    if events.len() == 0 {
        SubprocessHistory {
            run: subprocess_start(captures),
            started: false,
            succeeded: false,
            joined: false,
            inspected: Seq::empty(),
        }
    } else {
        subprocess_observe(subprocess_history(captures, events.drop_last()), events.last())
    }
}

spec fn all_accepted(probes: Seq<OutputProbe>) -> bool {
    forall|k: int| 0 <= k < probes.len() ==> accepted(#[trigger] probes[k])
}

spec fn history_fits(h: SubprocessHistory, captures: bool) -> bool {
    let run = h.run;
    let before_exit = !h.succeeded && !h.joined && h.inspected.len() == 0;
    &&& run.well_formed()
    &&& run.captures == captures
    &&& match run.step {
        SubprocessStep::ReportStarted | SubprocessStep::Spawn => !h.started && before_exit,
        SubprocessStep::Poll | SubprocessStep::ReportRunning | SubprocessStep::Sleep => h.started
            && before_exit,
        SubprocessStep::JoinReaders(success) => h.started && captures && h.succeeded == success
            && !h.joined && h.inspected.len() == 0,
        SubprocessStep::ReportFinished | SubprocessStep::ResolveOutputs => h.started && h.succeeded
            && h.joined == captures && h.inspected.len() == 0,
        SubprocessStep::Inspect(i) => h.started && h.succeeded && h.joined == captures
            && h.inspected.len() == i && all_accepted(h.inspected),
        SubprocessStep::Over(end) => match end {
            SubprocessEnd::Finished => h.started && h.succeeded && h.joined == captures
                && h.inspected.len() == run.outputs && all_accepted(h.inspected),
            SubprocessEnd::SpawnFailed => !h.started && !h.succeeded && h.inspected.len() == 0,
            SubprocessEnd::WaitFailed => h.started && !h.succeeded && h.inspected.len() == 0,
            SubprocessEnd::ProgramFailed => h.started && !h.succeeded && h.joined == captures
                && h.inspected.len() == 0,
            SubprocessEnd::OutputsUnknown => h.succeeded,
            SubprocessEnd::OutputRefused(i, probe) => h.succeeded && !accepted(probe)
                && h.inspected.len() == i + 1 && h.inspected.last() == probe,
        },
    }
}

proof fn lemma_history_fits(captures: bool, events: Seq<SubprocessEvent>)
    ensures
        history_fits(subprocess_history(captures, events), captures),
    decreases events.len(),
{
    if events.len() > 0 {
        lemma_history_fits(captures, events.drop_last());
        let h = subprocess_history(captures, events.drop_last());
        match (h.run.step, events.last()) {
            (SubprocessStep::Inspect(i), SubprocessEvent::Inspected(probe)) => {
                assert(h.inspected.push(probe).last() == probe);
                assert forall|k: int|
                    accepted(probe) && 0 <= k < h.inspected.push(probe).len() implies accepted(
                    #[trigger] h.inspected.push(probe)[k],
                ) by {
                    if k < h.inspected.len() {
                        assert(accepted(h.inspected[k]));
                    }
                }
            },
            _ => {},
        }
    }
}

/// A run counts as finished only if the program succeeded and every output that it
/// owes was inspected and accepted.
pub proof fn finished_programs_left_their_outputs(
    captures: bool,
    events: Seq<SubprocessEvent>,
    k: int,
)
    requires
        subprocess_history(captures, events).run.step == SubprocessStep::Over(
            SubprocessEnd::Finished,
        ),
        0 <= k < subprocess_history(captures, events).run.outputs,
    ensures
        subprocess_history(captures, events).succeeded,
        subprocess_history(captures, events).inspected.len() == subprocess_history(
            captures,
            events,
        ).run.outputs,
        accepted(subprocess_history(captures, events).inspected[k]),
{
    lemma_history_fits(captures, events);
}

/// Captured output is always collected once the program has ended, whether it
/// succeeded or not.
pub proof fn readers_are_always_joined(events: Seq<SubprocessEvent>)
    ensures
        ({
            let h = subprocess_history(true, events);
            h.run.step == SubprocessStep::Over(SubprocessEnd::ProgramFailed) || h.run.step
                == SubprocessStep::Over(SubprocessEnd::Finished) ==> h.joined
        }),
{
    lemma_history_fits(true, events);
}

/// Outputs are looked at only after the program has succeeded.
pub proof fn outputs_of_failed_programs_are_not_inspected(
    captures: bool,
    events: Seq<SubprocessEvent>,
)
    ensures
        ({
            let h = subprocess_history(captures, events);
            !h.succeeded ==> h.inspected.len() == 0 && !(h.run.step is Inspect)
        }),
{
    lemma_history_fits(captures, events);
}

// ---------------------------------------------------------------------------
// What went wrong, in words
// ---------------------------------------------------------------------------

/// Why a program could not be started. `detail` is what the system said.
pub fn spawn_message(name: &str, detail: &str) -> (m: String)
    ensures
        m@ == "failed to spawn "@ + name@ + ": "@ + detail@,
{
    text::cat4("failed to spawn ", name, ": ", detail)
}

/// Why a program could not be watched.
pub fn wait_message(name: &str, detail: &str) -> (m: String)
    ensures
        m@ == "failed to wait for "@ + name@ + ": "@ + detail@,
{
    text::cat4("failed to wait for ", name, ": ", detail)
}

/// Why an output is refused. `area` is where it must lie, `detail` what the system
/// said.
pub open spec fn output_text(
    probe: OutputProbe,
    path: Seq<char>,
    area: Seq<char>,
    detail: Seq<char>,
) -> Seq<char> {
    match probe {
        OutputProbe::NotFound => "expected output not found: "@ + path,
        OutputProbe::Unreadable => "failed to inspect expected output '"@ + path + "': "@ + detail,
        OutputProbe::Outside => "expected output '"@ + path + "' is outside work area '"@ + area
            + "'"@,
        OutputProbe::Present(_) => "expected output is not a supported entry type: "@ + path,
    }
}

/// Why an output is refused.
pub fn output_message(probe: OutputProbe, path: &str, area: &str, detail: &str) -> (m: String)
    ensures
        m@ == output_text(probe, path@, area@, detail@),
{
    match probe {
        OutputProbe::NotFound => text::cat2("expected output not found: ", path),
        OutputProbe::Unreadable => text::cat4(
            "failed to inspect expected output '",
            path,
            "': ",
            detail,
        ),
        OutputProbe::Outside => text::cat5(
            "expected output '",
            path,
            "' is outside work area '",
            area,
            "'",
        ),
        OutputProbe::Present(_) => text::cat2(
            "expected output is not a supported entry type: ",
            path,
        ),
    }
}

/// An exit code in words, where there is one.
pub open spec fn exit_code_text(code: Option<i32>) -> Seq<char> {
    match code {
        None => "None"@,
        Some(n) => if n >= 0 {
            "Some("@ + text::decimal(n as nat) + ")"@
        } else {
            "Some(-"@ + text::decimal((-n) as nat) + ")"@
        },
    }
}

/// An exit code in words.
pub fn describe_exit_code(code: Option<i32>) -> (s: String)
    ensures
        s@ == exit_code_text(code),
{
    match code {
        None => "None".to_owned(),
        Some(n) => {
            let wide: i64 = n as i64;
            if n >= 0 {
                let digits = text::format_decimal(wide as u64);
                text::cat3("Some(", digits.as_str(), ")")
            } else {
                let digits = text::format_decimal((-wide) as u64);
                text::cat3("Some(-", digits.as_str(), ")")
            }
        },
    }
}

// ---------------------------------------------------------------------------
// Lists of outputs
// ---------------------------------------------------------------------------

/// A list without the repetitions in it: of equal elements the first stays.
pub open spec fn keep_first(list: Seq<Seq<char>>) -> Seq<Seq<char>>
    decreases list.len(),
{
    if list.len() == 0 {
        Seq::empty()
    } else {
        let shorter = keep_first(list.drop_last());
        if shorter.contains(list.last()) {
            shorter
        } else {
            shorter.push(list.last())
        }
    }
}

fn holds(list: &Vec<String>, value: &str) -> (found: bool)
    ensures
        found == text::texts(list@).contains(value@),
{
    let mut i: usize = 0;
    while i < list.len()
        invariant
            i <= list.len(),
            forall|j: int| 0 <= j < i ==> (#[trigger] list@[j])@ != value@,
        decreases list.len() - i,
    {
        if text::same_text(list[i].as_str(), value) {
            assert(text::texts(list@)[i as int] == value@);
            return true;
        }
        i = i + 1;
    }
    assert forall|j: int| 0 <= j < text::texts(list@).len() implies text::texts(list@)[j]
        != value@ by {
        assert(list@[j]@ != value@);
    }
    false
}

/// Drops the repetitions in a list of paths.
pub fn drop_repetitions(list: &Vec<String>) -> (unique: Vec<String>)
    ensures
        text::texts(unique@) == keep_first(text::texts(list@)),
{
    let mut unique: Vec<String> = Vec::new();
    let mut i: usize = 0;
    assert(text::texts(list@).take(0) =~= Seq::<Seq<char>>::empty());
    assert(text::texts(unique@) =~= Seq::<Seq<char>>::empty());
    while i < list.len()
        invariant
            i <= list.len(),
            text::texts(unique@) == keep_first(text::texts(list@).take(i as int)),
        decreases list.len() - i,
    {
        let ghost longer = text::texts(list@).take(i + 1);
        proof {
            assert(longer.drop_last() =~= text::texts(list@).take(i as int));
            assert(longer.last() == list@[i as int]@);
        }
        if !holds(&unique, list[i].as_str()) {
            let ghost before = unique@;
            unique.push(list[i].clone());
            assert(text::texts(unique@) =~= text::texts(before).push(list@[i as int]@));
        }
        i = i + 1;
    }
    assert(text::texts(list@).take(i as int) =~= text::texts(list@));
    unique
}

/// Dropping repetitions keeps every element, adds none, and leaves none twice.
pub proof fn repetitions_are_dropped_and_nothing_else(list: Seq<Seq<char>>)
    ensures
        keep_first(list).no_duplicates(),
        forall|x: Seq<char>| #[trigger] keep_first(list).contains(x) <==> list.contains(x),
    decreases list.len(),
{
    if list.len() > 0 {
        let shorter = keep_first(list.drop_last());
        repetitions_are_dropped_and_nothing_else(list.drop_last());
        assert forall|x: Seq<char>| #[trigger] keep_first(list).contains(x) <==> list.contains(
            x,
        ) by {
            assert(list =~= list.drop_last().push(list.last()));
            if list.contains(x) && x != list.last() {
                let i = choose|i: int| 0 <= i < list.len() && list[i] == x;
                assert(list.drop_last()[i] == x);
            }
            if list.drop_last().contains(x) {
                let i = choose|i: int|
                    0 <= i < list.drop_last().len() && list.drop_last()[i] == x;
                assert(list[i] == x);
            }
            if shorter.contains(x) {
                let i = choose|i: int| 0 <= i < shorter.len() && shorter[i] == x;
                assert(keep_first(list)[i] == x);
            }
            if !shorter.contains(list.last()) {
                assert(keep_first(list)[shorter.len() as int] == list.last());
            }
            assert(list[list.len() - 1] == list.last());
        }
    }
}

/// A list without repetitions stays as it is.
pub proof fn lists_without_repetitions_stay(list: Seq<Seq<char>>)
    requires
        list.no_duplicates(),
    ensures
        keep_first(list) == list,
    decreases list.len(),
{
    if list.len() > 0 {
        assert forall|i: int, j: int|
            0 <= i < list.drop_last().len() && 0 <= j < list.drop_last().len() && i
                != j implies list.drop_last()[i] != list.drop_last()[j] by {
            assert(list[i] != list[j]);
        }
        lists_without_repetitions_stay(list.drop_last());
        if list.drop_last().contains(list.last()) {
            let i = choose|i: int|
                0 <= i < list.drop_last().len() && list.drop_last()[i] == list.last();
            assert(list[i] != list[list.len() - 1]);
        }
        assert(list.drop_last().push(list.last()) =~= list);
    }
}

/// An output is accepted if and only if a directory, a regular file or a symbolic link
/// stands where it must lie.
pub proof fn outputs_are_accepted_by_what_stands_there(probe: OutputProbe)
    ensures
        accepted(probe) <==> {
            ||| probe == OutputProbe::Present(FileKind::Directory)
            ||| probe == OutputProbe::Present(FileKind::RegularFile)
            ||| probe == OutputProbe::Present(FileKind::Symlink)
        },
{
}

/// A program that is being run, with everything that was reported of it: whether it could
/// be started, each answer to the question whether it has ended, how often signs of life
/// were given and intervals were slept through, how often its start and its success were
/// reported, whether its readers were waited for, how many outputs it owes, and what each
/// inspection found.
pub struct SubprocessRecord {
    pub run: Subprocess,
    pub announced: nat,
    pub spawned: Option<bool>,
    pub polls: Seq<PollReply>,
    pub alive: nat,
    pub slept: nat,
    pub joined: nat,
    pub finished: nat,
    pub resolved: Option<Option<usize>>,
    pub inspected: Seq<OutputProbe>,
}

/// What an event adds to the record.
pub open spec fn subprocess_note(r: SubprocessRecord, event: SubprocessEvent) -> SubprocessRecord {
    let at = SubprocessRecord { run: r.run.after(event), ..r };
    match (r.run.step, event) {
        (SubprocessStep::ReportStarted, SubprocessEvent::Done(_)) => SubprocessRecord {
            announced: r.announced + 1,
            ..at
        },
        (SubprocessStep::Spawn, SubprocessEvent::Done(ok)) => SubprocessRecord {
            spawned: Some(ok),
            ..at
        },
        (SubprocessStep::Poll, SubprocessEvent::Polled(reply)) => SubprocessRecord {
            polls: r.polls.push(reply),
            ..at
        },
        (SubprocessStep::ReportRunning, SubprocessEvent::Done(_)) => SubprocessRecord {
            alive: r.alive + 1,
            ..at
        },
        (SubprocessStep::Sleep, SubprocessEvent::Done(_)) => SubprocessRecord {
            slept: r.slept + 1,
            ..at
        },
        (SubprocessStep::JoinReaders(_), SubprocessEvent::Done(_)) => SubprocessRecord {
            joined: r.joined + 1,
            ..at
        },
        (SubprocessStep::ReportFinished, SubprocessEvent::Done(_)) => SubprocessRecord {
            finished: r.finished + 1,
            ..at
        },
        (SubprocessStep::ResolveOutputs, SubprocessEvent::Resolved(found)) => SubprocessRecord {
            resolved: Some(found),
            ..at
        },
        (SubprocessStep::Inspect(_), SubprocessEvent::Inspected(probe)) => SubprocessRecord {
            inspected: r.inspected.push(probe),
            ..at
        },
        _ => at,
    }
}

/// The record of a program after a number of events.
pub open spec fn subprocess_record(captures: bool, events: Seq<SubprocessEvent>) -> SubprocessRecord
    decreases events.len(),
{
    if events.len() == 0 {
        SubprocessRecord {
            run: subprocess_start(captures),
            announced: 0,
            spawned: None,
            polls: Seq::empty(),
            alive: 0,
            slept: 0,
            joined: 0,
            finished: 0,
            resolved: None,
            inspected: Seq::empty(),
        }
    } else {
        subprocess_note(subprocess_record(captures, events.drop_last()), events.last())
    }
}

spec fn only_running(polls: Seq<PollReply>) -> bool {
    forall|k: int| 0 <= k < polls.len() ==> #[trigger] polls[k] == PollReply::Running
}

/// Whether a program was found to have ended, with or without success, at the last of the
/// questions.
spec fn exited(polls: Seq<PollReply>, success: bool) -> bool {
    polls.len() > 0 && polls.last() == PollReply::Exited(success) && only_running(polls.drop_last())
}

spec fn sound_outputs(probes: Seq<OutputProbe>) -> bool {
    forall|k: int|
        0 <= k < probes.len() ==> (#[trigger] probes[k] matches OutputProbe::Present(kind) && !(
        kind is Other))
}

spec fn record_fits(r: SubprocessRecord, captures: bool) -> bool {
    let joins: nat = if captures {
        1
    } else {
        0
    };
    let quiet = r.joined == 0 && r.finished == 0 && r.resolved is None && r.inspected.len() == 0;
    let watched = r.announced == 1 && r.spawned == Some(true) && r.alive == r.slept;
    &&& r.run.captures == captures
    &&& match r.run.step {
        SubprocessStep::ReportStarted => r.announced == 0 && r.spawned is None && r.polls.len() == 0
            && r.alive == 0 && r.slept == 0 && quiet,
        SubprocessStep::Spawn => r.announced == 1 && r.spawned is None && r.polls.len() == 0
            && r.alive == 0 && r.slept == 0 && quiet,
        SubprocessStep::Poll => watched && only_running(r.polls) && r.polls.len() == r.alive
            && quiet,
        SubprocessStep::ReportRunning => watched && only_running(r.polls) && r.polls.len()
            == r.alive + 1 && quiet,
        SubprocessStep::Sleep => r.announced == 1 && r.spawned == Some(true) && only_running(
            r.polls,
        ) && r.polls.len() == r.alive && r.alive == r.slept + 1 && quiet,
        SubprocessStep::JoinReaders(success) => captures && watched && exited(r.polls, success)
            && r.polls.len() == r.alive + 1 && quiet,
        SubprocessStep::ReportFinished => watched && exited(r.polls, true) && r.polls.len()
            == r.alive + 1 && r.joined == joins && r.finished == 0 && r.resolved is None
            && r.inspected.len() == 0,
        SubprocessStep::ResolveOutputs => watched && exited(r.polls, true) && r.polls.len()
            == r.alive + 1 && r.joined == joins && r.finished == 1 && r.resolved is None
            && r.inspected.len() == 0,
        SubprocessStep::Inspect(i) => watched && exited(r.polls, true) && r.polls.len() == r.alive
            + 1 && r.joined == joins && r.finished == 1 && r.resolved == Some(Some(r.run.outputs))
            && r.inspected.len() == i && i < r.run.outputs && sound_outputs(r.inspected),
        SubprocessStep::Over(end) => match end {
            SubprocessEnd::Finished => watched && exited(r.polls, true) && r.polls.len() == r.alive
                + 1 && r.joined == joins && r.finished == 1 && r.resolved == Some(
                Some(r.run.outputs),
            ) && r.inspected.len() == r.run.outputs && sound_outputs(r.inspected),
            SubprocessEnd::SpawnFailed => r.announced == 1 && r.spawned == Some(false)
                && r.polls.len() == 0 && r.alive == 0 && r.slept == 0 && quiet,
            SubprocessEnd::WaitFailed => watched && r.polls.len() == r.alive + 1 && r.polls.last()
                == PollReply::Failed && only_running(r.polls.drop_last()) && quiet,
            SubprocessEnd::ProgramFailed => watched && exited(r.polls, false) && r.polls.len()
                == r.alive + 1 && r.joined == joins && r.finished == 0 && r.resolved is None && r.inspected.len() == 0,
            SubprocessEnd::OutputsUnknown => watched && exited(r.polls, true) && r.polls.len()
                == r.alive + 1 && r.joined == joins && r.finished == 1 && r.resolved == Some(None::<usize>) && r.inspected.len() == 0,
            SubprocessEnd::OutputRefused(i, probe) => watched && exited(r.polls, true)
                && r.polls.len() == r.alive + 1 && r.joined == joins && r.finished == 1 && r.resolved == Some(Some(r.run.outputs)) && i
                < r.run.outputs && r.inspected.len() == i + 1 && r.inspected.last() == probe && !(
            probe matches OutputProbe::Present(kind) && !(kind is Other)) && sound_outputs(
                r.inspected.drop_last(),
            ),
        },
    }
}

proof fn lemma_record_fits(captures: bool, events: Seq<SubprocessEvent>)
    ensures
        record_fits(subprocess_record(captures, events), captures),
    decreases events.len(),
{
    if events.len() > 0 {
        let before = subprocess_record(captures, events.drop_last());
        let after = subprocess_record(captures, events);
        lemma_record_fits(captures, events.drop_last());
        assert(after.polls.len() > before.polls.len() ==> after.polls.drop_last() =~= before.polls);
        assert(after.inspected.len() > before.inspected.len() ==> after.inspected.drop_last()
            =~= before.inspected);
    }
}

/// How a run ended tells what happened. It is finished if and only if the program was
/// started, was found to have succeeded, and left every output that it owes; a program
/// that could not be started was asked nothing; one that could not be watched any more or
/// that failed owes nothing; and an output that is refused was the first that is missing or
/// of no use.
pub proof fn ends_tell_what_happened(captures: bool, events: Seq<SubprocessEvent>)
    ensures
        ({
            let r = subprocess_record(captures, events);
            r.run.step matches SubprocessStep::Over(end) ==> {
                &&& r.announced == 1
                &&& end is SpawnFailed <==> r.spawned == Some(false)
                &&& end is SpawnFailed <==> r.polls.len() == 0
                &&& end is WaitFailed <==> r.polls.len() > 0 && r.polls.last() == PollReply::Failed
                &&& end is ProgramFailed <==> r.polls.len() > 0 && r.polls.last()
                    == PollReply::Exited(false)
                &&& end is OutputsUnknown <==> r.resolved == Some(None::<usize>)
                &&& (end is Finished || end is OutputRefused) <==> r.resolved == Some(
                    Some(r.run.outputs),
                )
                &&& r.resolved is Some ==> r.polls.last() == PollReply::Exited(true)
                &&& r.finished == (if r.resolved is Some {
                    1nat
                } else {
                    0
                })
                &&& end is Finished ==> {
                    &&& r.inspected.len() == r.run.outputs
                    &&& forall|k: int|
                        0 <= k < r.inspected.len() ==> {
                            ||| #[trigger] r.inspected[k] == OutputProbe::Present(
                                FileKind::Directory,
                            )
                            ||| r.inspected[k] == OutputProbe::Present(FileKind::RegularFile)
                            ||| r.inspected[k] == OutputProbe::Present(FileKind::Symlink)
                        }
                }
                &&& end matches SubprocessEnd::OutputRefused(i, probe) ==> {
                    &&& r.inspected.len() == i + 1
                    &&& r.inspected[i as int] == probe
                    &&& probe matches OutputProbe::Present(kind) ==> kind is Other
                    &&& forall|k: int|
                        0 <= k < i ==> (#[trigger] r.inspected[k] matches OutputProbe::Present(kind)
                            && !(kind is Other))
                }
            }
        }),
{
    lemma_record_fits(captures, events);
    let r = subprocess_record(captures, events);
    match r.run.step {
        SubprocessStep::Over(SubprocessEnd::OutputRefused(i, probe)) => {
            assert forall|k: int| 0 <= k < i implies (
            #[trigger] r.inspected[k] matches OutputProbe::Present(kind) && !(kind is Other)) by {
                assert(r.inspected.drop_last()[k] == r.inspected[k]);
            }
        },
        _ => {},
    }
}

/// A program is watched until it ends: as long as it runs it is asked again, and between
/// two questions one sign of life is given and one interval is slept through. It is never
/// asked again once it has ended.
pub proof fn running_programs_give_signs_of_life(captures: bool, events: Seq<SubprocessEvent>)
    ensures
        ({
            let r = subprocess_record(captures, events);
            &&& forall|k: int|
                0 <= k < r.polls.len() - 1 ==> #[trigger] r.polls[k] == PollReply::Running
            &&& r.slept <= r.alive <= r.slept + 1
            &&& r.run.step is Poll ==> r.alive == r.polls.len() && r.slept == r.polls.len()
            &&& r.run.step is Poll && r.polls.len() > 0 ==> r.polls.last() == PollReply::Running
            &&& r.polls.len() > 0 && r.polls.last() != PollReply::Running ==> r.alive
                == r.polls.len() - 1 && r.slept == r.polls.len() - 1 && r.joined <= 1
            &&& captures && (r.finished > 0 || r.run.step == SubprocessStep::Over(
                SubprocessEnd::ProgramFailed,
            )) ==> r.joined == 1
            &&& !captures ==> r.joined == 0
        }),
{
    lemma_record_fits(captures, events);
    let r = subprocess_record(captures, events);
    assert forall|k: int| 0 <= k < r.polls.len() - 1 implies #[trigger] r.polls[k]
        == PollReply::Running by {
        assert(r.polls.drop_last()[k] == r.polls[k]);
    }
    if r.polls.len() > 0 {
        assert(r.polls.last() == r.polls[r.polls.len() - 1]);
    }
}

/// A program is asked whether it has ended only if it was started.
pub proof fn started_programs_were_spawned(captures: bool, events: Seq<SubprocessEvent>)
    ensures
        subprocess_record(captures, events).polls.len() > 0 ==> subprocess_record(
            captures,
            events,
        ).spawned == Some(true),
        subprocess_record(captures, events).run.step is Poll ==> subprocess_record(
            captures,
            events,
        ).spawned == Some(true),
{
    lemma_record_fits(captures, events);
}

/// How many steps a run needs at most until the program is asked or the run is over.
pub open spec fn distance(run: Subprocess) -> int {
    match run.step {
        SubprocessStep::Over(_) => 0,
        SubprocessStep::Inspect(i) => run.outputs - i,
        SubprocessStep::ResolveOutputs => usize::MAX + 1,
        SubprocessStep::ReportFinished => usize::MAX + 2,
        SubprocessStep::JoinReaders(_) => usize::MAX + 3,
        SubprocessStep::Poll => usize::MAX + 4,
        SubprocessStep::Sleep => usize::MAX + 5,
        SubprocessStep::ReportRunning => usize::MAX + 6,
        SubprocessStep::Spawn => usize::MAX + 7,
        SubprocessStep::ReportStarted => usize::MAX + 8,
    }
}

/// An event that reports on a step.
pub open spec fn event_answers(step: SubprocessStep, event: SubprocessEvent) -> bool {
    match step {
        SubprocessStep::Over(_) => false,
        SubprocessStep::Poll => event is Polled,
        SubprocessStep::ResolveOutputs => event is Resolved,
        SubprocessStep::Inspect(_) => event is Inspected,
        _ => event is Done,
    }
}

/// A run ends if the program does: every report brings it nearer to its end, but for the
/// answer that the program still runs.
pub proof fn runs_end_with_their_program(
    captures: bool,
    events: Seq<SubprocessEvent>,
    event: SubprocessEvent,
)
    requires
        event_answers(subprocess_record(captures, events).run.step, event),
        event != SubprocessEvent::Polled(PollReply::Running),
    ensures
        0 <= distance(subprocess_record(captures, events).run.after(event)) < distance(
            subprocess_record(captures, events).run,
        ),
{
    lemma_record_fits(captures, events);
    lemma_record_fits(captures, events.push(event));
    assert(events.push(event).drop_last() =~= events);
}

/// Of equal elements the one that comes first stays, and what stays keeps its order: a list
/// without its repetitions begins with that of any part that it begins with.
pub proof fn first_elements_stay_in_order(list: Seq<Seq<char>>, more: Seq<Seq<char>>)
    ensures
        keep_first(list).is_prefix_of(keep_first(list + more)),
    decreases more.len(),
{
    if more.len() == 0 {
        assert(list + more =~= list);
    } else {
        first_elements_stay_in_order(list, more.drop_last());
        assert((list + more).drop_last() =~= list + more.drop_last());
        let short = keep_first(list);
        let middle = keep_first(list + more.drop_last());
        let long = keep_first(list + more);
        assert forall|i: int| 0 <= i < short.len() implies short[i] == long[i] by {
            assert(short[i] == middle.subrange(0, short.len() as int)[i]);
        }
        assert(short =~= long.subrange(0, short.len() as int));
    }
}

/// An exit code is told with its sign, in decimal digits that are read back as the code.
pub proof fn exit_codes_are_told_in_full(code: i32)
    ensures
        code >= 0 ==> exists|digits: Seq<char>|
            #![auto]
            exit_code_text(Some(code)) == "Some("@ + digits + ")"@ && text::number_written(digits)
                == code,
        code < 0 ==> exists|digits: Seq<char>|
            #![auto]
            exit_code_text(Some(code)) == "Some(-"@ + digits + ")"@ && text::number_written(digits)
                == -code,
        exit_code_text(None) == "None"@,
{
    if code >= 0 {
        text::decimals_are_read_back(code as nat);
        assert(text::number_written(text::decimal(code as nat)) == code);
    } else {
        text::decimals_are_read_back((-code) as nat);
        assert(text::number_written(text::decimal((-code) as nat)) == -code);
    }
}

/// What is said of an output that is refused names the output, and where it lies outside
/// its area the area, and where it cannot be looked at what the system said.
pub proof fn refused_outputs_are_named(
    probe: OutputProbe,
    path: Seq<char>,
    area: Seq<char>,
    detail: Seq<char>,
)
    ensures
        (match probe {
            OutputProbe::NotFound | OutputProbe::Present(_) => path,
            OutputProbe::Unreadable => path + "': "@ + detail,
            OutputProbe::Outside => path + "' is outside work area '"@ + area + "'"@,
        }).is_suffix_of(output_text(probe, path, area, detail)),
{
    text::joined_texts_keep_both_ends("expected output not found: "@, path);
    text::joined_texts_keep_both_ends("expected output is not a supported entry type: "@, path);
    let unreadable = path + "': "@ + detail;
    let words = "failed to inspect expected output '"@;
    text::joined_texts_keep_both_ends(words, unreadable);
    assert(words + unreadable =~= words + path + "': "@ + detail);
    let outside = path + "' is outside work area '"@ + area + "'"@;
    text::joined_texts_keep_both_ends("expected output '"@, outside);
    assert("expected output '"@ + outside =~= "expected output '"@ + path
        + "' is outside work area '"@ + area + "'"@);
}

} // verus!
