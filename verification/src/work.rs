//! Copying an entry into the work area.
//!
//! No step changes the staged form of an entry: it is read object by object, and what
//! is moved or transformed later is the copy. A staged directory is walked from the
//! top, each directory before what is in it.

use vstd::prelude::*;

use crate::model::{FileKind, ManifestEntryKind};
use crate::paths;
use crate::text;

verus! {

// ---------------------------------------------------------------------------
// One object
// ---------------------------------------------------------------------------

/// What went wrong while an entry was copied into the work area.
#[derive(Clone, Copy, PartialEq, Eq, Structural, Debug)]
pub enum WorkFault {
    Parent,
    Directory,
    Subdirectory,
    Walk,
    NotUtf8,
    Copy,
    NestedCopy,
    ReadLink,
    CreateLink,
    Metadata,
}

/// The steps by which one object is copied: the entry itself, or what lies in a
/// staged directory.
#[derive(Clone, Copy, PartialEq, Eq, Structural, Debug)]
pub enum WorkStep {
    CreateParent,
    CreateDirectory,
    CopyFile,
    ReadLink,
    CreateLink,
    Copied,
    Fault(WorkFault),
    Unsupported,
}

/// The first step for an object. A directory inside the entry has its parent
/// already.
pub open spec fn work_start(kind: FileKind, nested: bool) -> WorkStep {
    match kind {
        FileKind::Directory => if nested {
            WorkStep::CreateDirectory
        } else {
            WorkStep::CreateParent
        },
        FileKind::RegularFile | FileKind::Symlink => WorkStep::CreateParent,
        FileKind::Other => WorkStep::Unsupported,
    }
}

/// The step behind a step.
pub open spec fn work_after(step: WorkStep, kind: FileKind, nested: bool, ok: bool) -> WorkStep {
    match step {
        WorkStep::CreateParent => if !ok {
            WorkStep::Fault(WorkFault::Parent)
        } else {
            match kind {
                FileKind::Directory => WorkStep::CreateDirectory,
                FileKind::RegularFile => WorkStep::CopyFile,
                FileKind::Symlink => WorkStep::ReadLink,
                FileKind::Other => WorkStep::Unsupported,
            }
        },
        WorkStep::CreateDirectory => if ok {
            WorkStep::Copied
        } else if nested {
            WorkStep::Fault(WorkFault::Subdirectory)
        } else {
            WorkStep::Fault(WorkFault::Directory)
        },
        WorkStep::CopyFile => if ok {
            WorkStep::Copied
        } else if nested {
            WorkStep::Fault(WorkFault::NestedCopy)
        } else {
            WorkStep::Fault(WorkFault::Copy)
        },
        WorkStep::ReadLink => if ok {
            WorkStep::CreateLink
        } else {
            WorkStep::Fault(WorkFault::ReadLink)
        },
        WorkStep::CreateLink => if ok {
            WorkStep::Copied
        } else {
            WorkStep::Fault(WorkFault::CreateLink)
        },
        other => other,
    }
}

fn first_step(kind: FileKind, nested: bool) -> (step: WorkStep)
    ensures
        step == work_start(kind, nested),
{
    match kind {
        FileKind::Directory => if nested {
            WorkStep::CreateDirectory
        } else {
            WorkStep::CreateParent
        },
        FileKind::RegularFile => WorkStep::CreateParent,
        FileKind::Symlink => WorkStep::CreateParent,
        FileKind::Other => WorkStep::Unsupported,
    }
}

fn step_behind(step: WorkStep, kind: FileKind, nested: bool, ok: bool) -> (next: WorkStep)
    ensures
        next == work_after(step, kind, nested, ok),
{
    match step {
        WorkStep::CreateParent => if !ok {
            WorkStep::Fault(WorkFault::Parent)
        } else {
            match kind {
                FileKind::Directory => WorkStep::CreateDirectory,
                FileKind::RegularFile => WorkStep::CopyFile,
                FileKind::Symlink => WorkStep::ReadLink,
                FileKind::Other => WorkStep::Unsupported,
            }
        },
        WorkStep::CreateDirectory => if ok {
            WorkStep::Copied
        } else if nested {
            WorkStep::Fault(WorkFault::Subdirectory)
        } else {
            WorkStep::Fault(WorkFault::Directory)
        },
        WorkStep::CopyFile => if ok {
            WorkStep::Copied
        } else if nested {
            WorkStep::Fault(WorkFault::NestedCopy)
        } else {
            WorkStep::Fault(WorkFault::Copy)
        },
        WorkStep::ReadLink => if ok {
            WorkStep::CreateLink
        } else {
            WorkStep::Fault(WorkFault::ReadLink)
        },
        WorkStep::CreateLink => if ok {
            WorkStep::Copied
        } else {
            WorkStep::Fault(WorkFault::CreateLink)
        },
        other => other,
    }
}

// ---------------------------------------------------------------------------
// An entry with all that is below it
// ---------------------------------------------------------------------------

/// How the copy of an entry ends.
#[derive(Clone, Copy, PartialEq, Eq, Structural, Debug)]
pub enum CopyEnd {
    Copied,
    Fault(WorkFault),
    /// The object in turn is neither a directory nor a file nor a link.
    Unsupported,
}

/// The next thing to do for the copy of an entry.
#[derive(Clone, Copy, PartialEq, Eq, Structural, Debug)]
pub enum CopyStage {
    /// A step for the entry itself.
    Top(WorkStep),
    /// Go on to the next object below a directory.
    Next,
    /// Find out what that object is.
    Examine,
    /// A step for that object.
    Nested(FileKind, WorkStep),
    Over(CopyEnd),
}

/// What the walk below a directory gave.
#[derive(Clone, Copy, PartialEq, Eq, Structural, Debug)]
pub enum WalkReply {
    Object,
    /// An object whose path is not UTF-8.
    NotUtf8,
    Failed,
    End,
}

/// What doing it gave.
#[derive(Clone, Copy, PartialEq, Eq, Structural, Debug)]
pub enum CopyEvent {
    Done(bool),
    Walked(WalkReply),
    /// What an object is, if that could be told.
    Examined(Option<FileKind>),
}

/// The copy of an entry: what the entry is, and what is next.
#[derive(Clone, Copy, PartialEq, Eq, Structural, Debug)]
pub struct WorkCopy {
    pub kind: ManifestEntryKind,
    pub stage: CopyStage,
}

/// What stands on disk for an entry of a kind.
pub open spec fn stands_as(kind: ManifestEntryKind) -> FileKind {
    match kind {
        ManifestEntryKind::Directory => FileKind::Directory,
        ManifestEntryKind::RegularFile => FileKind::RegularFile,
        ManifestEntryKind::Symlink => FileKind::Symlink,
    }
}

impl WorkCopy {
    pub open spec fn at(self, stage: CopyStage) -> WorkCopy {
        WorkCopy { stage, ..self }
    }

    /// Where the copy stands when the entry itself has come to a step. What is below a
    /// directory follows.
    pub open spec fn top(self, step: WorkStep) -> WorkCopy {
        match step {
            WorkStep::Copied => if self.kind is Directory {
                self.at(CopyStage::Next)
            } else {
                self.at(CopyStage::Over(CopyEnd::Copied))
            },
            WorkStep::Fault(fault) => self.at(CopyStage::Over(CopyEnd::Fault(fault))),
            WorkStep::Unsupported => self.at(CopyStage::Over(CopyEnd::Unsupported)),
            other => self.at(CopyStage::Top(other)),
        }
    }

    /// Where the copy stands when an object has come to a step.
    pub open spec fn nested(self, kind: FileKind, step: WorkStep) -> WorkCopy {
        match step {
            WorkStep::Copied => self.at(CopyStage::Next),
            WorkStep::Fault(fault) => self.at(CopyStage::Over(CopyEnd::Fault(fault))),
            WorkStep::Unsupported => self.at(CopyStage::Over(CopyEnd::Unsupported)),
            other => self.at(CopyStage::Nested(kind, other)),
        }
    }

    /// The state behind an event. An event that does not belong to the stage changes
    /// nothing.
    pub open spec fn after(self, event: CopyEvent) -> WorkCopy {
        match (self.stage, event) {
            (CopyStage::Top(step), CopyEvent::Done(ok)) => self.top(
                work_after(step, stands_as(self.kind), false, ok),
            ),
            (CopyStage::Next, CopyEvent::Walked(reply)) => match reply {
                WalkReply::Object => self.at(CopyStage::Examine),
                WalkReply::NotUtf8 => self.at(
                    CopyStage::Over(CopyEnd::Fault(WorkFault::NotUtf8)),
                ),
                WalkReply::Failed => self.at(CopyStage::Over(CopyEnd::Fault(WorkFault::Walk))),
                WalkReply::End => self.at(CopyStage::Over(CopyEnd::Copied)),
            },
            (CopyStage::Examine, CopyEvent::Examined(found)) => match found {
                Some(kind) => self.nested(kind, work_start(kind, true)),
                None => self.at(CopyStage::Over(CopyEnd::Fault(WorkFault::Metadata))),
            },
            (CopyStage::Nested(kind, step), CopyEvent::Done(ok)) => self.nested(
                kind,
                work_after(step, kind, true, ok),
            ),
            _ => self,
        }
    }

    fn to(self, stage: CopyStage) -> (next: WorkCopy)
        ensures
            next == self.at(stage),
    {
        WorkCopy { kind: self.kind, stage }
    }

    fn to_top(self, step: WorkStep) -> (next: WorkCopy)
        ensures
            next == self.top(step),
    {
        match step {
            WorkStep::Copied => match self.kind {
                ManifestEntryKind::Directory => self.to(CopyStage::Next),
                _ => self.to(CopyStage::Over(CopyEnd::Copied)),
            },
            WorkStep::Fault(fault) => self.to(CopyStage::Over(CopyEnd::Fault(fault))),
            WorkStep::Unsupported => self.to(CopyStage::Over(CopyEnd::Unsupported)),
            other => self.to(CopyStage::Top(other)),
        }
    }

    fn to_nested(self, kind: FileKind, step: WorkStep) -> (next: WorkCopy)
        ensures
            next == self.nested(kind, step),
    {
        match step {
            WorkStep::Copied => self.to(CopyStage::Next),
            WorkStep::Fault(fault) => self.to(CopyStage::Over(CopyEnd::Fault(fault))),
            WorkStep::Unsupported => self.to(CopyStage::Over(CopyEnd::Unsupported)),
            other => self.to(CopyStage::Nested(kind, other)),
        }
    }
}

/// The copy of an entry before its first step.
pub open spec fn copy_start(kind: ManifestEntryKind) -> WorkCopy {
    WorkCopy { kind, stage: CopyStage::Top(work_start(stands_as(kind), false)) }
}

fn kind_on_disk(kind: ManifestEntryKind) -> (found: FileKind)
    ensures
        found == stands_as(kind),
{
    match kind {
        ManifestEntryKind::Directory => FileKind::Directory,
        ManifestEntryKind::RegularFile => FileKind::RegularFile,
        ManifestEntryKind::Symlink => FileKind::Symlink,
    }
}

/// The copy of an entry before its first step.
pub fn start_copy(kind: ManifestEntryKind) -> (copy: WorkCopy)
    ensures
        copy == copy_start(kind),
{
    WorkCopy { kind, stage: CopyStage::Top(first_step(kind_on_disk(kind), false)) }
}

/// The state of an entry's copy behind an event.
pub fn prepare_work_entry(copy: WorkCopy, event: CopyEvent) -> (next: WorkCopy)
    ensures
        next == copy.after(event),
{
    match (copy.stage, event) {
        (CopyStage::Top(step), CopyEvent::Done(ok)) => copy.to_top(
            step_behind(step, kind_on_disk(copy.kind), false, ok),
        ),
        (CopyStage::Next, CopyEvent::Walked(reply)) => match reply {
            WalkReply::Object => copy.to(CopyStage::Examine),
            WalkReply::NotUtf8 => copy.to(CopyStage::Over(CopyEnd::Fault(WorkFault::NotUtf8))),
            WalkReply::Failed => copy.to(CopyStage::Over(CopyEnd::Fault(WorkFault::Walk))),
            WalkReply::End => copy.to(CopyStage::Over(CopyEnd::Copied)),
        },
        (CopyStage::Examine, CopyEvent::Examined(found)) => match found {
            Some(kind) => copy.to_nested(kind, first_step(kind, true)),
            None => copy.to(CopyStage::Over(CopyEnd::Fault(WorkFault::Metadata))),
        },
        (CopyStage::Nested(kind, step), CopyEvent::Done(ok)) => copy.to_nested(
            kind,
            step_behind(step, kind, true, ok),
        ),
        (_, _) => copy,
    }
}

/// Where an object below a staged directory is copied to: below the copy of the
/// directory, as it lay below the directory.
pub fn nested_place(work_path: &str, relative: &str) -> (place: String)
    ensures
        place@ == paths::path_join(work_path@, relative@),
        !paths::absolute(relative@) ==> paths::path_starts_with(place@, work_path@),
{
    paths::join(work_path, relative)
}

// ---------------------------------------------------------------------------
// Laws of a copy
// ---------------------------------------------------------------------------

/// A copy on its way, with what its events say: whether the entry itself was copied,
/// how many objects were met below it, which of them were copied, and whether the walk
/// came to its end.
pub struct CopyHistory {
    pub copy: WorkCopy,
    pub top: bool,
    pub met: nat,
    pub copied: Seq<int>,
    pub walked: bool,
}

/// What an event adds to the history of a copy.
pub open spec fn copy_observe(h: CopyHistory, event: CopyEvent) -> CopyHistory {
    let copy = h.copy;
    CopyHistory {
        copy: copy.after(event),
        top: match (copy.stage, event) {
            (CopyStage::Top(step), CopyEvent::Done(ok)) => work_after(
                step,
                stands_as(copy.kind),
                false,
                ok,
            ) is Copied,
            _ => h.top,
        },
        met: match (copy.stage, event) {
            (CopyStage::Next, CopyEvent::Walked(reply)) => if reply is Object || reply is NotUtf8 {
                h.met + 1
            } else {
                h.met
            },
            _ => h.met,
        },
        copied: match (copy.stage, event) {
            (CopyStage::Nested(kind, step), CopyEvent::Done(ok)) => if work_after(
                step,
                kind,
                true,
                ok,
            ) is Copied {
                h.copied.push(h.met - 1)
            } else {
                h.copied
            },
            _ => h.copied,
        },
        walked: match (copy.stage, event) {
            (CopyStage::Next, CopyEvent::Walked(reply)) => reply is End,
            _ => h.walked,
        },
    }
}

/// The history of a copy after a number of events.
pub open spec fn copy_history(kind: ManifestEntryKind, events: Seq<CopyEvent>) -> CopyHistory
    decreases events.len(),
{
    if events.len() == 0 {
        CopyHistory {
            copy: copy_start(kind),
            top: false,
            met: 0,
            copied: Seq::empty(),
            walked: false,
        }
    } else {
        copy_observe(copy_history(kind, events.drop_last()), events.last())
    }
}

spec fn under_way(step: WorkStep) -> bool {
    !(step is Copied) && !(step is Fault) && !(step is Unsupported)
}

spec fn history_fits(h: CopyHistory, kind: ManifestEntryKind) -> bool {
    let copied = h.copied.len();
    &&& h.copy.kind == kind
    &&& forall|k: int| 0 <= k < copied ==> #[trigger] h.copied[k] == k
    &&& match h.copy.stage {
        CopyStage::Top(step) => under_way(step) && !h.top && h.met == 0 && copied == 0
            && !h.walked,
        CopyStage::Next => kind is Directory && h.top && h.met == copied && !h.walked,
        CopyStage::Examine => kind is Directory && h.top && h.met == copied + 1 && !h.walked,
        CopyStage::Nested(_, step) => kind is Directory && under_way(step) && h.top && h.met
            == copied + 1 && !h.walked,
        CopyStage::Over(end) => {
            &&& end is Copied ==> h.top && h.met == copied && (kind is Directory <==> h.walked)
            &&& h.met <= copied + 1
            &&& !(kind is Directory) ==> h.met == 0
        },
    }
}

proof fn lemma_history_fits(kind: ManifestEntryKind, events: Seq<CopyEvent>)
    ensures
        history_fits(copy_history(kind, events), kind),
    decreases events.len(),
{
    if events.len() > 0 {
        lemma_history_fits(kind, events.drop_last());
    }
}

/// An entry counts as copied only if it was, with everything that was met below it; of
/// a directory, the walk came to its end.
pub proof fn copies_are_complete(kind: ManifestEntryKind, events: Seq<CopyEvent>)
    requires
        copy_history(kind, events).copy.stage == CopyStage::Over(CopyEnd::Copied),
    ensures
        copy_history(kind, events).top,
        copy_history(kind, events).copied == Seq::new(
            copy_history(kind, events).met,
            |k: int| k,
        ),
        kind is Directory <==> copy_history(kind, events).walked,
{
    lemma_history_fits(kind, events);
    assert(copy_history(kind, events).copied =~= Seq::new(
        copy_history(kind, events).met,
        |k: int| k,
    ));
}

/// Where the objects below an entry were copied to, in the order in which they were:
/// the object met `i`-th goes to its own place.
pub open spec fn objects_copied(h: CopyHistory, places: Seq<Seq<char>>) -> Seq<Seq<char>> {
    h.copied.map_values(|i: int| places[i])
}

/// Everything that was met below an entry that counts as copied went below the copy of
/// the entry as it lay below the entry, one after the other, and nothing else did.
pub proof fn copies_are_in_place(
    kind: ManifestEntryKind,
    events: Seq<CopyEvent>,
    work_path: Seq<char>,
    relatives: Seq<String>,
)
    requires
        copy_history(kind, events).copy.stage == CopyStage::Over(CopyEnd::Copied),
        copy_history(kind, events).met == relatives.len(),
    ensures
        objects_copied(copy_history(kind, events), paths::places_below(work_path, relatives))
            == relatives.map_values(|r: String| paths::path_join(work_path, r@)),
{
    lemma_history_fits(kind, events);
    assert(objects_copied(copy_history(kind, events), paths::places_below(work_path, relatives))
        =~= relatives.map_values(|r: String| paths::path_join(work_path, r@)));
}

/// Only a directory is walked, and a copy stops at the first object that fails.
pub proof fn copies_stop_at_the_first_fault(kind: ManifestEntryKind, events: Seq<CopyEvent>)
    ensures
        copy_history(kind, events).met <= copy_history(kind, events).copied.len() + 1,
        !(kind is Directory) ==> copy_history(kind, events).met == 0,
{
    lemma_history_fits(kind, events);
}

/// How many steps an object still needs at most.
pub open spec fn object_distance(stage: CopyStage) -> nat {
    match stage {
        CopyStage::Examine => 4,
        CopyStage::Top(step) | CopyStage::Nested(_, step) => match step {
            WorkStep::CreateParent => 3,
            WorkStep::ReadLink => 2,
            WorkStep::CreateDirectory | WorkStep::CopyFile | WorkStep::CreateLink => 1,
            _ => 0,
        },
        CopyStage::Next | CopyStage::Over(_) => 0,
    }
}

/// An event that reports on the stage.
pub open spec fn answers(stage: CopyStage, event: CopyEvent) -> bool {
    match stage {
        CopyStage::Top(_) | CopyStage::Nested(_, _) => event is Done,
        CopyStage::Next => event is Walked,
        CopyStage::Examine => event is Examined,
        CopyStage::Over(_) => false,
    }
}

/// Every report on an object brings its copy nearer to its end, so the copy of an
/// entry ends if the walk below it does.
pub proof fn objects_end(kind: ManifestEntryKind, events: Seq<CopyEvent>, event: CopyEvent)
    requires
        answers(copy_history(kind, events).copy.stage, event),
        !(copy_history(kind, events).copy.stage is Next),
    ensures
        object_distance(copy_history(kind, events).copy.after(event).stage) < object_distance(
            copy_history(kind, events).copy.stage,
        ),
{
    lemma_history_fits(kind, events);
}

// ---------------------------------------------------------------------------
// What a copy has done
// ---------------------------------------------------------------------------

/// A copy on its way, with the steps that were carried out and reported as done: those
/// for the entry itself and, object by object, those for what was met below it, with what
/// each object is, as far as it was told; and the step or question that was reported as
/// failed.
pub struct CopyRecord {
    pub copy: WorkCopy,
    pub top: Seq<WorkStep>,
    pub objects: Seq<(Option<FileKind>, Seq<WorkStep>)>,
    pub failed: Option<(CopyStage, CopyEvent)>,
    pub ended: bool,
}

/// What an event adds to the record of a copy.
pub open spec fn copy_note(r: CopyRecord, event: CopyEvent) -> CopyRecord {
    let at = CopyRecord { copy: r.copy.after(event), ..r };
    match (r.copy.stage, event) {
        (CopyStage::Top(step), CopyEvent::Done(true)) => CopyRecord { top: r.top.push(step), ..at },
        (CopyStage::Next, CopyEvent::Walked(WalkReply::Object)) => CopyRecord {
            objects: r.objects.push((None, Seq::empty())),
            ..at
        },
        (CopyStage::Next, CopyEvent::Walked(WalkReply::End)) => CopyRecord { ended: true, ..at },
        (CopyStage::Examine, CopyEvent::Examined(Some(kind))) => CopyRecord {
            objects: r.objects.drop_last().push((Some(kind), Seq::empty())),
            ..at
        },
        (CopyStage::Nested(_, step), CopyEvent::Done(true)) => CopyRecord {
            objects: r.objects.drop_last().push(
                (r.objects.last().0, r.objects.last().1.push(step)),
            ),
            ..at
        },
        (CopyStage::Top(_), CopyEvent::Done(false))
        | (CopyStage::Nested(_, _), CopyEvent::Done(false))
        | (CopyStage::Next, CopyEvent::Walked(_))
        | (CopyStage::Examine, CopyEvent::Examined(None)) => CopyRecord {
            failed: Some((r.copy.stage, event)),
            ..at
        },
        _ => at,
    }
}

/// The record of a copy after a number of events.
pub open spec fn copy_record(kind: ManifestEntryKind, events: Seq<CopyEvent>) -> CopyRecord
    decreases events.len(),
{
    if events.len() == 0 {
        CopyRecord {
            copy: copy_start(kind),
            top: Seq::empty(),
            objects: Seq::empty(),
            failed: None,
            ended: false,
        }
    } else {
        copy_note(copy_record(kind, events.drop_last()), events.last())
    }
}

/// The steps that make a copy of the entry itself.
spec fn top_steps(kind: ManifestEntryKind) -> Seq<WorkStep> {
    match kind {
        ManifestEntryKind::Directory => seq![WorkStep::CreateParent, WorkStep::CreateDirectory],
        ManifestEntryKind::RegularFile => seq![WorkStep::CreateParent, WorkStep::CopyFile],
        ManifestEntryKind::Symlink => seq![
            WorkStep::CreateParent,
            WorkStep::ReadLink,
            WorkStep::CreateLink,
        ],
    }
}

/// The steps that make a copy of an object below the entry.
spec fn object_steps(kind: FileKind) -> Seq<WorkStep> {
    match kind {
        FileKind::Directory => seq![WorkStep::CreateDirectory],
        FileKind::RegularFile => seq![WorkStep::CreateParent, WorkStep::CopyFile],
        FileKind::Symlink => seq![
            WorkStep::CreateParent,
            WorkStep::ReadLink,
            WorkStep::CreateLink,
        ],
        FileKind::Other => Seq::empty(),
    }
}

spec fn object_done(object: (Option<FileKind>, Seq<WorkStep>)) -> bool {
    object.0 matches Some(kind) && !(kind is Other) && object.1 == object_steps(kind)
}

/// Whether steps are the first ones of a list, and a step the next one.
spec fn on_the_way(done: Seq<WorkStep>, step: WorkStep, all: Seq<WorkStep>) -> bool {
    done.len() < all.len() && done == all.take(done.len() as int) && step == all[done.len() as int]
}

spec fn record_fits(r: CopyRecord, kind: ManifestEntryKind) -> bool {
    let complete = r.top == top_steps(kind);
    &&& r.copy.kind == kind
    &&& r.ended ==> r.copy.stage == CopyStage::Over(CopyEnd::Copied)
    &&& match r.copy.stage {
        CopyStage::Top(step) => on_the_way(r.top, step, top_steps(kind)) && r.objects.len() == 0
            && r.failed is None,
        CopyStage::Next => kind is Directory && complete && r.failed is None && (forall|i: int|
            0 <= i < r.objects.len() ==> object_done(#[trigger] r.objects[i])),
        CopyStage::Examine => {
            &&& kind is Directory && complete && r.failed is None
            &&& r.objects.len() > 0
            &&& r.objects.last() == (None::<FileKind>, Seq::<WorkStep>::empty())
            &&& forall|i: int|
                0 <= i < r.objects.len() - 1 ==> object_done(#[trigger] r.objects[i])
        },
        CopyStage::Nested(found, step) => {
            &&& kind is Directory && complete && r.failed is None
            &&& r.objects.len() > 0
            &&& r.objects.last().0 == Some(found)
            &&& !(found is Other)
            &&& on_the_way(r.objects.last().1, step, object_steps(found))
            &&& forall|i: int|
                0 <= i < r.objects.len() - 1 ==> object_done(#[trigger] r.objects[i])
        },
        CopyStage::Over(CopyEnd::Copied) => {
            &&& complete && r.failed is None
            &&& kind is Directory <==> r.ended
            &&& !(kind is Directory) ==> r.objects.len() == 0
            &&& forall|i: int| 0 <= i < r.objects.len() ==> object_done(#[trigger] r.objects[i])
        },
        CopyStage::Over(CopyEnd::Unsupported) => {
            &&& kind is Directory && r.failed is None
            &&& r.objects.len() > 0
            &&& r.objects.last().0 == Some(FileKind::Other)
        },
        CopyStage::Over(CopyEnd::Fault(fault)) => r.failed matches Some(failed)
            && fault_behind(failed.0, failed.1) == Some(fault),
    }
}

/// What went wrong if a step or a question was reported as failed.
spec fn fault_behind(stage: CopyStage, event: CopyEvent) -> Option<WorkFault> {
    match (stage, event) {
        (CopyStage::Top(step), CopyEvent::Done(false)) => match step {
            WorkStep::CreateParent => Some(WorkFault::Parent),
            WorkStep::CreateDirectory => Some(WorkFault::Directory),
            WorkStep::CopyFile => Some(WorkFault::Copy),
            WorkStep::ReadLink => Some(WorkFault::ReadLink),
            WorkStep::CreateLink => Some(WorkFault::CreateLink),
            _ => None,
        },
        (CopyStage::Nested(_, step), CopyEvent::Done(false)) => match step {
            WorkStep::CreateParent => Some(WorkFault::Parent),
            WorkStep::CreateDirectory => Some(WorkFault::Subdirectory),
            WorkStep::CopyFile => Some(WorkFault::NestedCopy),
            WorkStep::ReadLink => Some(WorkFault::ReadLink),
            WorkStep::CreateLink => Some(WorkFault::CreateLink),
            _ => None,
        },
        (CopyStage::Next, CopyEvent::Walked(WalkReply::NotUtf8)) => Some(WorkFault::NotUtf8),
        (CopyStage::Next, CopyEvent::Walked(WalkReply::Failed)) => Some(WorkFault::Walk),
        (CopyStage::Examine, CopyEvent::Examined(None)) => Some(WorkFault::Metadata),
        _ => None,
    }
}

proof fn lemma_record_fits(kind: ManifestEntryKind, events: Seq<CopyEvent>)
    ensures
        record_fits(copy_record(kind, events), kind),
    decreases events.len(),
{
    if events.len() > 0 {
        let before = copy_record(kind, events.drop_last());
        let event = events.last();
        let after = copy_record(kind, events);
        lemma_record_fits(kind, events.drop_last());
        match (before.copy.stage, event) {
            (CopyStage::Top(step), CopyEvent::Done(true)) => {
                assert(after.top =~= top_steps(kind).take(after.top.len() as int));
                if after.top.len() == top_steps(kind).len() {
                    assert(after.top =~= top_steps(kind));
                }
            },
            (CopyStage::Nested(found, step), CopyEvent::Done(true)) => {
                let done = after.objects.last().1;
                let all = object_steps(found);
                assert(done =~= all.take(done.len() as int));
                if done.len() == all.len() {
                    assert(done =~= all);
                }
            },
            (CopyStage::Examine, CopyEvent::Examined(Some(found))) => {
                assert(Seq::<WorkStep>::empty() =~= object_steps(found).take(0));
            },
            _ => {},
        }
    } else {
        assert(Seq::<WorkStep>::empty() =~= top_steps(kind).take(0));
    }
}

/// An entry counts as copied only if its copy was made by steps that were carried out and
/// reported as done: a directory was created, a file copied, a link read and then created,
/// behind its parent; and so was every object that was met below a directory. The walk
/// below a directory came to its end.
pub proof fn copied_entries_were_made_step_by_step(kind: ManifestEntryKind, events: Seq<CopyEvent>)
    requires
        copy_record(kind, events).copy.stage == CopyStage::Over(CopyEnd::Copied),
    ensures
        copy_record(kind, events).top == match kind {
            ManifestEntryKind::Directory => seq![WorkStep::CreateParent, WorkStep::CreateDirectory],
            ManifestEntryKind::RegularFile => seq![WorkStep::CreateParent, WorkStep::CopyFile],
            ManifestEntryKind::Symlink => seq![
                WorkStep::CreateParent,
                WorkStep::ReadLink,
                WorkStep::CreateLink,
            ],
        },
        forall|i: int|
            0 <= i < copy_record(kind, events).objects.len() ==> match (
            #[trigger] copy_record(kind, events).objects[i]).0 {
                Some(FileKind::Directory) => copy_record(kind, events).objects[i].1 == seq![
                    WorkStep::CreateDirectory,
                ],
                Some(FileKind::RegularFile) => copy_record(kind, events).objects[i].1 == seq![
                    WorkStep::CreateParent,
                    WorkStep::CopyFile,
                ],
                Some(FileKind::Symlink) => copy_record(kind, events).objects[i].1 == seq![
                    WorkStep::CreateParent,
                    WorkStep::ReadLink,
                    WorkStep::CreateLink,
                ],
                Some(FileKind::Other) | None => false,
            },
        kind is Directory ==> copy_record(kind, events).ended,
        !(kind is Directory) ==> copy_record(kind, events).objects.len() == 0,
        copy_record(kind, events).failed is None,
{
    lemma_record_fits(kind, events);
    let r = copy_record(kind, events);
    assert forall|i: int| 0 <= i < r.objects.len() implies object_done(#[trigger] r.objects[i]) by {}
}

/// A copy ends with a fault only where a step was reported as failed, and the fault names
/// that step; it ends as unsupported only at an object that is neither a directory nor a
/// file nor a link.
pub proof fn faults_name_the_step_that_failed(kind: ManifestEntryKind, events: Seq<CopyEvent>)
    ensures
        copy_record(kind, events).copy.stage matches CopyStage::Over(CopyEnd::Fault(fault)) ==> {
            &&& copy_record(kind, events).failed matches Some((stage, event))
            &&& match fault {
                WorkFault::Parent => event == CopyEvent::Done(false) && match stage {
                    CopyStage::Top(step) | CopyStage::Nested(_, step) => step is CreateParent,
                    _ => false,
                },
                WorkFault::Directory => event == CopyEvent::Done(false) && stage == CopyStage::Top(
                    WorkStep::CreateDirectory,
                ),
                WorkFault::Subdirectory => event == CopyEvent::Done(false) && (
                stage matches CopyStage::Nested(_, step) && step is CreateDirectory),
                WorkFault::Copy => event == CopyEvent::Done(false) && stage == CopyStage::Top(
                    WorkStep::CopyFile,
                ),
                WorkFault::NestedCopy => event == CopyEvent::Done(false) && (
                stage matches CopyStage::Nested(_, step) && step is CopyFile),
                WorkFault::ReadLink => event == CopyEvent::Done(false) && match stage {
                    CopyStage::Top(step) | CopyStage::Nested(_, step) => step is ReadLink,
                    _ => false,
                },
                WorkFault::CreateLink => event == CopyEvent::Done(false) && match stage {
                    CopyStage::Top(step) | CopyStage::Nested(_, step) => step is CreateLink,
                    _ => false,
                },
                WorkFault::Walk => stage is Next && event == CopyEvent::Walked(WalkReply::Failed),
                WorkFault::NotUtf8 => stage is Next && event == CopyEvent::Walked(
                    WalkReply::NotUtf8,
                ),
                WorkFault::Metadata => stage is Examine && event == CopyEvent::Examined(None),
            }
        },
        copy_record(kind, events).copy.stage == CopyStage::Over(CopyEnd::Unsupported) ==> {
            &&& copy_record(kind, events).objects.len() > 0
            &&& copy_record(kind, events).objects.last().0 == Some(FileKind::Other)
        },
{
    lemma_record_fits(kind, events);
}

/// Every reply of the walk below a directory is acted upon: an object is examined, the end
/// ends the copy, and anything else is a fault.
pub proof fn walks_are_acted_upon(copy: WorkCopy, reply: WalkReply)
    requires
        copy.stage is Next,
    ensures
        copy.after(CopyEvent::Walked(reply)).kind == copy.kind,
        reply is Object <==> copy.after(CopyEvent::Walked(reply)).stage is Examine,
        reply is End <==> copy.after(CopyEvent::Walked(reply)).stage == CopyStage::Over(
            CopyEnd::Copied,
        ),
        reply is NotUtf8 || reply is Failed ==> (copy.after(
            CopyEvent::Walked(reply),
        ).stage matches CopyStage::Over(CopyEnd::Fault(_))),
{
}

// ---------------------------------------------------------------------------
// What went wrong, in words
// ---------------------------------------------------------------------------

/// What went wrong while an entry was copied. `detail` is what the system said.
pub open spec fn work_fault_text(fault: WorkFault, detail: Seq<char>) -> Seq<char> {
    match fault {
        WorkFault::Parent => "failed to create work parent: "@ + detail,
        WorkFault::Directory => "failed to create work directory: "@ + detail,
        WorkFault::Subdirectory => "failed to create work subdirectory: "@ + detail,
        WorkFault::Walk => "failed to walk staged directory: "@ + detail,
        WorkFault::NotUtf8 => "non-UTF-8 path in staged directory"@,
        WorkFault::Copy => "failed to copy to work area: "@ + detail,
        WorkFault::NestedCopy => "failed to copy staged file to work area: "@ + detail,
        WorkFault::ReadLink => "failed to read staged symlink: "@ + detail,
        WorkFault::CreateLink => "failed to create work symlink: "@ + detail,
        WorkFault::Metadata => "failed to read staged entry metadata: "@ + detail,
    }
}

/// What went wrong while an entry was copied.
pub fn work_fault_message(fault: WorkFault, detail: &str) -> (m: String)
    ensures
        m@ == work_fault_text(fault, detail@),
{
    match fault {
        WorkFault::Parent => text::cat2("failed to create work parent: ", detail),
        WorkFault::Directory => text::cat2("failed to create work directory: ", detail),
        WorkFault::Subdirectory => text::cat2("failed to create work subdirectory: ", detail),
        WorkFault::Walk => text::cat2("failed to walk staged directory: ", detail),
        WorkFault::NotUtf8 => "non-UTF-8 path in staged directory".to_owned(),
        WorkFault::Copy => text::cat2("failed to copy to work area: ", detail),
        WorkFault::NestedCopy => text::cat2("failed to copy staged file to work area: ", detail),
        WorkFault::ReadLink => text::cat2("failed to read staged symlink: ", detail),
        WorkFault::CreateLink => text::cat2("failed to create work symlink: ", detail),
        WorkFault::Metadata => text::cat2("failed to read staged entry metadata: ", detail),
    }
}

/// The result of a copy. `relative` is the path of the object in turn, `detail` what the
/// system said last.
pub fn copy_result(end: CopyEnd, relative: &str, detail: &str) -> (r: Result<(), String>)
    ensures
        match end {
            CopyEnd::Copied => r is Ok,
            CopyEnd::Fault(fault) => r matches Err(e) && e@ == work_fault_text(fault, detail@),
            CopyEnd::Unsupported => r matches Err(e) && e@
                == "unsupported filesystem object in staged directory: "@ + relative@,
        },
{
    match end {
        CopyEnd::Copied => Ok(()),
        CopyEnd::Fault(fault) => Err(work_fault_message(fault, detail)),
        CopyEnd::Unsupported => Err(
            text::cat2("unsupported filesystem object in staged directory: ", relative),
        ),
    }
}

/// What is said of a fault tells the step that failed, and ends in the words of the system.
pub proof fn faults_are_told_with_their_cause(fault: WorkFault, detail: Seq<char>)
    ensures
        !(fault is NotUtf8) ==> detail.is_suffix_of(work_fault_text(fault, detail)),
        (match fault {
            WorkFault::Parent => "failed to create work parent: "@,
            WorkFault::Directory => "failed to create work directory: "@,
            WorkFault::Subdirectory => "failed to create work subdirectory: "@,
            WorkFault::Walk => "failed to walk staged directory: "@,
            WorkFault::NotUtf8 => "non-UTF-8 path in staged directory"@,
            WorkFault::Copy => "failed to copy to work area: "@,
            WorkFault::NestedCopy => "failed to copy staged file to work area: "@,
            WorkFault::ReadLink => "failed to read staged symlink: "@,
            WorkFault::CreateLink => "failed to create work symlink: "@,
            WorkFault::Metadata => "failed to read staged entry metadata: "@,
        }).is_prefix_of(work_fault_text(fault, detail)),
{
    match fault {
        WorkFault::Parent => text::joined_texts_keep_both_ends(
            "failed to create work parent: "@,
            detail,
        ),
        WorkFault::Directory => text::joined_texts_keep_both_ends(
            "failed to create work directory: "@,
            detail,
        ),
        WorkFault::Subdirectory => text::joined_texts_keep_both_ends(
            "failed to create work subdirectory: "@,
            detail,
        ),
        WorkFault::Walk => text::joined_texts_keep_both_ends(
            "failed to walk staged directory: "@,
            detail,
        ),
        WorkFault::NotUtf8 => {
            let words = "non-UTF-8 path in staged directory"@;
            text::joined_texts_keep_both_ends(words, Seq::empty());
            assert(words + Seq::<char>::empty() =~= words);
        },
        WorkFault::Copy => text::joined_texts_keep_both_ends(
            "failed to copy to work area: "@,
            detail,
        ),
        WorkFault::NestedCopy => text::joined_texts_keep_both_ends(
            "failed to copy staged file to work area: "@,
            detail,
        ),
        WorkFault::ReadLink => text::joined_texts_keep_both_ends(
            "failed to read staged symlink: "@,
            detail,
        ),
        WorkFault::CreateLink => text::joined_texts_keep_both_ends(
            "failed to create work symlink: "@,
            detail,
        ),
        WorkFault::Metadata => text::joined_texts_keep_both_ends(
            "failed to read staged entry metadata: "@,
            detail,
        ),
    }
}

} // verus!
