//! Committing prepared entries to their final place.
//!
//! An entry is placed the way rsync places it: directories are merged, a file or a
//! link replaces what stands in its way, and only a directory that is not empty is
//! never replaced. Symbolic links in the way are not followed.

use vstd::prelude::*;

use crate::model::{FileKind, ManifestEntryKind};
use crate::paths;
use crate::text;

verus! {

/// How an entry came to stand at its final place.
#[derive(Clone, Copy, PartialEq, Eq, Structural, Debug)]
pub enum CommitDisposition {
    Created,
    Kept,
    Replaced,
}

/// What stands at a path of the destination.
#[derive(Clone, Copy, PartialEq, Eq, Structural, Debug)]
pub enum DestinationProbe {
    NotFound,
    /// A directory, and not a link to one.
    Directory,
    /// Anything else.
    Occupied,
    Failed,
}

/// The way from the destination root to the directory of a final path.
#[derive(Debug)]
pub enum FinalWay {
    /// The final path has no parent.
    NoParent,
    /// The parent lies outside the root.
    Escapes { parent: String },
    /// The directories to pass, from the root downwards.
    Through(Vec<String>),
}

/// The directories below a root along components.
pub open spec fn descend(root: Seq<char>, components: Seq<Seq<char>>) -> Seq<Seq<char>>
    decreases components.len(),
{
    if components.len() == 0 {
        Seq::empty()
    } else {
        let above = descend(root, components.drop_last());
        above.push(
            paths::path_join(
                if above.len() == 0 {
                    root
                } else {
                    above.last()
                },
                components.last(),
            ),
        )
    }
}

/// Whether all of a list of directories lie below a root.
pub open spec fn all_below(directories: Seq<String>, root: Seq<char>) -> bool {
    forall|i: int|
        0 <= i < directories.len() ==> paths::path_starts_with(
            (#[trigger] directories[i])@,
            root,
        )
}

/// Whether a way is the one from a root to the directory of a final path.
pub open spec fn is_way(way: FinalWay, final_path: Seq<char>, root: Seq<char>) -> bool {
    match paths::path_parent(final_path) {
        None => way is NoParent,
        Some(parent) => match paths::path_strip_prefix(parent, root) {
            None => way matches FinalWay::Escapes { parent: found } && found@ == parent,
            Some(relative) => way matches FinalWay::Through(directories) && text::texts(
                directories@,
            ) == descend(root, paths::path_components(relative)),
        },
    }
}

/// The directories below a root along components. Along relative components each lies
/// below the root.
pub fn directories_below(root: &str, components: &Vec<String>) -> (directories: Vec<String>)
    ensures
        text::texts(directories@) == descend(root@, text::texts(components@)),
        (forall|k: int|
            0 <= k < components@.len() ==> !paths::absolute((#[trigger] components@[k])@))
            ==> all_below(directories@, root@),
{
    let mut directories: Vec<String> = Vec::new();
    let mut current = root.to_owned();
    let mut i: usize = 0;
    assert(text::texts(components@).take(0) =~= Seq::<Seq<char>>::empty());
    assert(text::texts(directories@) =~= Seq::<Seq<char>>::empty());
    while i < components.len()
        invariant
            i <= components.len(),
            text::texts(directories@) == descend(root@, text::texts(components@).take(i as int)),
            (forall|k: int|
                0 <= k < components@.len() ==> !paths::absolute((#[trigger] components@[k])@))
                ==> all_below(directories@, root@) && paths::path_starts_with(current@, root@),
            current@ == (if directories@.len() == 0 {
                root@
            } else {
                text::texts(directories@).last()
            }),
        decreases components.len() - i,
    {
        let next = paths::join(current.as_str(), components[i].as_str());
        let ghost before = directories@;
        let ghost above = current@;
        directories.push(next.clone());
        current = next;
        proof {
            let longer = text::texts(components@).take(i + 1);
            assert(longer.drop_last() =~= text::texts(components@).take(i as int));
            assert(longer.last() == components@[i as int]@);
            assert(text::texts(directories@) =~= text::texts(before).push(current@));
            if forall|k: int|
                0 <= k < components@.len() ==> !paths::absolute((#[trigger] components@[k])@) {
                assert(!paths::absolute(components@[i as int]@));
                paths::below_is_transitive(current@, above, root@);
                assert forall|k: int| 0 <= k < directories@.len() implies paths::path_starts_with(
                    (#[trigger] directories@[k])@,
                    root@,
                ) by {
                    if k < before.len() {
                        assert(directories@[k] == before[k]);
                    }
                }
            }
        }
        i = i + 1;
    }
    assert(text::texts(components@).take(i as int) =~= text::texts(components@));
    directories
}

/// The way from a root to the directory of a final path. It passes nothing outside the
/// root.
pub fn final_way(final_path: &str, root: &str) -> (way: FinalWay)
    ensures
        is_way(way, final_path@, root@),
        way matches FinalWay::Through(directories) ==> all_below(directories@, root@),
{
    match paths::parent(final_path) {
        None => FinalWay::NoParent,
        Some(parent) => match paths::strip_prefix(parent.as_str(), root) {
            None => FinalWay::Escapes { parent },
            Some(relative) => {
                let components = paths::components(relative.as_str());
                let directories = directories_below(root, &components);
                proof {
                    let passed = paths::path_components(root@).len() as int;
                    if passed > 0 {
                        assert forall|k: int| 0 <= k < components@.len() implies !paths::absolute(
                            (#[trigger] components@[k])@,
                        ) by {
                            assert(components@[k]@ == text::texts(components@)[k]);
                            paths::components_behind_the_first_are_relative(
                                parent@,
                                passed + k,
                            );
                        }
                    } else {
                        assert forall|k: int|
                            0 <= k < directories@.len() implies paths::path_starts_with(
                            (#[trigger] directories@[k])@,
                            root@,
                        ) by {
                            assert(paths::path_components(root@) =~= paths::path_components(
                                directories@[k]@,
                            ).subrange(0, 0));
                        }
                    }
                }
                FinalWay::Through(directories)
            },
        },
    }
}

/// What keeps a commit from its end.
#[derive(Clone, Copy, PartialEq, Eq, Structural, Debug)]
pub enum CommitFault {
    RootNotDirectory,
    RootNotCreated,
    RootUninspected,
    NoParent,
    Escapes,
    ParentNotDirectory(usize),
    ParentNotCreated(usize),
    ParentUninspected(usize),
    DirectoryUninspected,
    ConflictNotRemoved,
    DirectoryNotCreated,
    FinalUninspected,
    DirectoryNotEmpty,
    NotMaterialized,
}

/// How a commit ends.
#[derive(Clone, Copy, PartialEq, Eq, Structural, Debug)]
pub enum CommitEnd {
    Committed(CommitDisposition),
    Refused(CommitFault),
}

/// The next thing to do for a commit.
#[derive(Clone, Copy, PartialEq, Eq, Structural, Debug)]
pub enum CommitStep {
    ProbeRoot,
    CreateRoot,
    ProbeRootAgain,
    ProbeParent(usize),
    CreateParent(usize),
    ProbeFinal,
    /// Remove the directory at the final path, if it is empty.
    RemoveEmptyDirectory,
    /// Remove the file or link at the final path.
    RemoveConflict,
    CreateDirectory(CommitDisposition),
    /// Move the prepared file or link to the final path.
    Materialize(CommitDisposition),
    Over(CommitEnd),
}

/// What doing it gave.
#[derive(Clone, Copy, PartialEq, Eq, Structural, Debug)]
pub enum CommitEvent {
    Probed(DestinationProbe),
    Done(bool),
}

/// What kind of way leads to the final path.
#[derive(Clone, Copy, PartialEq, Eq, Structural, Debug)]
pub enum WayKind {
    NoParent,
    Escapes,
    /// Through this many directories.
    Through(usize),
}

/// A commit: what is committed, what way leads there, and what is next.
#[derive(Clone, Copy, PartialEq, Eq, Structural, Debug)]
pub struct Commit {
    pub kind: ManifestEntryKind,
    pub way: WayKind,
    pub step: CommitStep,
}

impl Commit {
    pub open spec fn well_formed(self) -> bool {
        match self.step {
            CommitStep::ProbeParent(i) | CommitStep::CreateParent(i) => self.way
                matches WayKind::Through(n) && i < n,
            CommitStep::ProbeFinal | CommitStep::Materialize(_) | CommitStep::CreateDirectory(_) |
            CommitStep::RemoveEmptyDirectory | CommitStep::RemoveConflict => self.way is Through,
            _ => true,
        }
    }

    pub open spec fn at(self, step: CommitStep) -> Commit {
        Commit { step, ..self }
    }

    pub open spec fn refused(self, fault: CommitFault) -> Commit {
        self.at(CommitStep::Over(CommitEnd::Refused(fault)))
    }

    /// Where a commit stands when `i` directories are behind it.
    pub open spec fn past(self, i: int) -> Commit {
        match self.way {
            WayKind::NoParent => self.refused(CommitFault::NoParent),
            WayKind::Escapes => self.refused(CommitFault::Escapes),
            WayKind::Through(n) => if i < n {
                self.at(CommitStep::ProbeParent(i as usize))
            } else {
                self.at(CommitStep::ProbeFinal)
            },
        }
    }

    /// What follows from what stands at the final path.
    pub open spec fn at_final(self, probe: DestinationProbe) -> Commit {
        match (self.kind, probe) {
            (ManifestEntryKind::Directory, DestinationProbe::Directory) => self.at(
                CommitStep::Over(CommitEnd::Committed(CommitDisposition::Kept)),
            ),
            (ManifestEntryKind::Directory, DestinationProbe::Occupied) => self.at(
                CommitStep::RemoveConflict,
            ),
            (ManifestEntryKind::Directory, DestinationProbe::NotFound) => self.at(
                CommitStep::CreateDirectory(CommitDisposition::Created),
            ),
            (ManifestEntryKind::Directory, DestinationProbe::Failed) => self.refused(
                CommitFault::DirectoryUninspected,
            ),
            (_, DestinationProbe::Directory) => self.at(CommitStep::RemoveEmptyDirectory),
            (_, DestinationProbe::Occupied) => self.at(
                CommitStep::Materialize(CommitDisposition::Replaced),
            ),
            (_, DestinationProbe::NotFound) => self.at(
                CommitStep::Materialize(CommitDisposition::Created),
            ),
            (_, DestinationProbe::Failed) => self.refused(CommitFault::FinalUninspected),
        }
    }

    /// The state behind an event. An event that does not belong to the step changes
    /// nothing.
    pub open spec fn after(self, event: CommitEvent) -> Commit {
        match (self.step, event) {
            (CommitStep::ProbeRoot, CommitEvent::Probed(probe)) => match probe {
                DestinationProbe::Directory => self.past(0),
                DestinationProbe::Occupied => self.refused(CommitFault::RootNotDirectory),
                DestinationProbe::NotFound => self.at(CommitStep::CreateRoot),
                DestinationProbe::Failed => self.refused(CommitFault::RootUninspected),
            },
            (CommitStep::CreateRoot, CommitEvent::Done(ok)) => if ok {
                self.at(CommitStep::ProbeRootAgain)
            } else {
                self.refused(CommitFault::RootNotCreated)
            },
            (CommitStep::ProbeRootAgain, CommitEvent::Probed(probe)) => match probe {
                DestinationProbe::Directory => self.past(0),
                DestinationProbe::Occupied => self.refused(CommitFault::RootNotDirectory),
                _ => self.refused(CommitFault::RootUninspected),
            },
            (CommitStep::ProbeParent(i), CommitEvent::Probed(probe)) => match probe {
                DestinationProbe::Directory => self.past(i + 1),
                DestinationProbe::Occupied => self.refused(CommitFault::ParentNotDirectory(i)),
                DestinationProbe::NotFound => self.at(CommitStep::CreateParent(i)),
                DestinationProbe::Failed => self.refused(CommitFault::ParentUninspected(i)),
            },
            (CommitStep::CreateParent(i), CommitEvent::Done(ok)) => if ok {
                self.past(i + 1)
            } else {
                self.refused(CommitFault::ParentNotCreated(i))
            },
            (CommitStep::ProbeFinal, CommitEvent::Probed(probe)) => self.at_final(probe),
            (CommitStep::RemoveConflict, CommitEvent::Done(ok)) => if ok {
                self.at(CommitStep::CreateDirectory(CommitDisposition::Replaced))
            } else {
                self.refused(CommitFault::ConflictNotRemoved)
            },
            (CommitStep::CreateDirectory(disposition), CommitEvent::Done(ok)) => if ok {
                self.at(CommitStep::Over(CommitEnd::Committed(disposition)))
            } else {
                self.refused(CommitFault::DirectoryNotCreated)
            },
            (CommitStep::RemoveEmptyDirectory, CommitEvent::Done(ok)) => if ok {
                self.at(CommitStep::Materialize(CommitDisposition::Replaced))
            } else {
                self.refused(CommitFault::DirectoryNotEmpty)
            },
            (CommitStep::Materialize(disposition), CommitEvent::Done(ok)) => if ok {
                self.at(CommitStep::Over(CommitEnd::Committed(disposition)))
            } else {
                self.refused(CommitFault::NotMaterialized)
            },
            _ => self,
        }
    }

    fn to(self, step: CommitStep) -> (next: Commit)
        ensures
            next == self.at(step),
    {
        Commit { kind: self.kind, way: self.way, step }
    }

    fn refuse(self, fault: CommitFault) -> (next: Commit)
        ensures
            next == self.refused(fault),
    {
        self.to(CommitStep::Over(CommitEnd::Refused(fault)))
    }

    fn go_past(self, i: usize) -> (next: Commit)
        ensures
            next == self.past(i as int),
    {
        match self.way {
            WayKind::NoParent => self.refuse(CommitFault::NoParent),
            WayKind::Escapes => self.refuse(CommitFault::Escapes),
            WayKind::Through(n) => {
                if i < n {
                    self.to(CommitStep::ProbeParent(i))
                } else {
                    self.to(CommitStep::ProbeFinal)
                }
            },
        }
    }

    /// The step at the final path of a file or a link: an empty directory there is
    /// removed, anything else is replaced by the move.
    fn prepare_destination_for_file_or_symlink(self, probe: DestinationProbe) -> (next: Commit)
        requires
            !(self.kind is Directory),
        ensures
            next == self.at_final(probe),
    {
        match probe {
            DestinationProbe::Directory => self.to(CommitStep::RemoveEmptyDirectory),
            DestinationProbe::Occupied => self.to(
                CommitStep::Materialize(CommitDisposition::Replaced),
            ),
            DestinationProbe::NotFound => self.to(
                CommitStep::Materialize(CommitDisposition::Created),
            ),
            DestinationProbe::Failed => self.refuse(CommitFault::FinalUninspected),
        }
    }

    /// The step at the final path of a directory: a directory there is kept, anything
    /// else is removed for a new one.
    fn prepare_destination_for_directory(self, probe: DestinationProbe) -> (next: Commit)
        requires
            self.kind is Directory,
        ensures
            next == self.at_final(probe),
    {
        match probe {
            DestinationProbe::Directory => self.to(
                CommitStep::Over(CommitEnd::Committed(CommitDisposition::Kept)),
            ),
            DestinationProbe::Occupied => self.to(CommitStep::RemoveConflict),
            DestinationProbe::NotFound => self.to(
                CommitStep::CreateDirectory(CommitDisposition::Created),
            ),
            DestinationProbe::Failed => self.refuse(CommitFault::DirectoryUninspected),
        }
    }

    /// The steps that make sure of the destination root.
    fn ensure_destination_root(self, event: CommitEvent) -> (next: Commit)
        requires
            self.step is ProbeRoot || self.step is CreateRoot || self.step is ProbeRootAgain,
        ensures
            next == self.after(event),
    {
        match (self.step, event) {
            (CommitStep::ProbeRoot, CommitEvent::Probed(probe)) => match probe {
                DestinationProbe::Directory => self.go_past(0),
                DestinationProbe::Occupied => self.refuse(CommitFault::RootNotDirectory),
                DestinationProbe::NotFound => self.to(CommitStep::CreateRoot),
                DestinationProbe::Failed => self.refuse(CommitFault::RootUninspected),
            },
            (CommitStep::CreateRoot, CommitEvent::Done(ok)) => {
                if ok {
                    self.to(CommitStep::ProbeRootAgain)
                } else {
                    self.refuse(CommitFault::RootNotCreated)
                }
            },
            (CommitStep::ProbeRootAgain, CommitEvent::Probed(probe)) => match probe {
                DestinationProbe::Directory => self.go_past(0),
                DestinationProbe::Occupied => self.refuse(CommitFault::RootNotDirectory),
                _ => self.refuse(CommitFault::RootUninspected),
            },
            (_, _) => self,
        }
    }

    /// The steps that make sure of the directories above the final path, once the
    /// root is there. A link or a file among them is not passed.
    fn ensure_final_parent(self, event: CommitEvent) -> (next: Commit)
        requires
            self.well_formed(),
            self.step is ProbeParent || self.step is CreateParent,
        ensures
            next == self.after(event),
    {
        match (self.step, event) {
            (CommitStep::ProbeParent(i), CommitEvent::Probed(probe)) => match probe {
                DestinationProbe::Directory => self.go_past(i + 1),
                DestinationProbe::Occupied => self.refuse(CommitFault::ParentNotDirectory(i)),
                DestinationProbe::NotFound => self.to(CommitStep::CreateParent(i)),
                DestinationProbe::Failed => self.refuse(CommitFault::ParentUninspected(i)),
            },
            (CommitStep::CreateParent(i), CommitEvent::Done(ok)) => {
                if ok {
                    self.go_past(i + 1)
                } else {
                    self.refuse(CommitFault::ParentNotCreated(i))
                }
            },
            (_, _) => self,
        }
    }

    /// The state of a commit behind an event.
    pub fn advance(self, event: CommitEvent) -> (next: Commit)
        requires
            self.well_formed(),
        ensures
            next == self.after(event),
            next.well_formed(),
    {
        match (self.step, event) {
            (CommitStep::ProbeRoot, event) => self.ensure_destination_root(event),
            (CommitStep::CreateRoot, event) => self.ensure_destination_root(event),
            (CommitStep::ProbeRootAgain, event) => self.ensure_destination_root(event),
            (CommitStep::ProbeParent(_), event) => self.ensure_final_parent(event),
            (CommitStep::CreateParent(_), event) => self.ensure_final_parent(event),
            (CommitStep::ProbeFinal, CommitEvent::Probed(probe)) => match self.kind {
                ManifestEntryKind::Directory => self.prepare_destination_for_directory(probe),
                _ => self.prepare_destination_for_file_or_symlink(probe),
            },
            (CommitStep::RemoveConflict, CommitEvent::Done(ok)) => {
                if ok {
                    self.to(CommitStep::CreateDirectory(CommitDisposition::Replaced))
                } else {
                    self.refuse(CommitFault::ConflictNotRemoved)
                }
            },
            (CommitStep::CreateDirectory(disposition), CommitEvent::Done(ok)) => {
                if ok {
                    self.to(CommitStep::Over(CommitEnd::Committed(disposition)))
                } else {
                    self.refuse(CommitFault::DirectoryNotCreated)
                }
            },
            (CommitStep::RemoveEmptyDirectory, CommitEvent::Done(ok)) => {
                if ok {
                    self.to(CommitStep::Materialize(CommitDisposition::Replaced))
                } else {
                    self.refuse(CommitFault::DirectoryNotEmpty)
                }
            },
            (CommitStep::Materialize(disposition), CommitEvent::Done(ok)) => {
                if ok {
                    self.to(CommitStep::Over(CommitEnd::Committed(disposition)))
                } else {
                    self.refuse(CommitFault::NotMaterialized)
                }
            },
            (_, _) => self,
        }
    }
}

/// A commit before its first step.
pub open spec fn commit_start(kind: ManifestEntryKind, way: WayKind) -> Commit {
    Commit { kind, way, step: CommitStep::ProbeRoot }
}

/// What kind a way is of.
pub open spec fn kind_of_way(way: FinalWay) -> WayKind {
    match way {
        FinalWay::NoParent => WayKind::NoParent,
        FinalWay::Escapes { .. } => WayKind::Escapes,
        FinalWay::Through(directories) => WayKind::Through(directories@.len() as usize),
    }
}

fn way_kind(way: &FinalWay) -> (kind: WayKind)
    ensures
        kind == kind_of_way(*way),
{
    match way {
        FinalWay::NoParent => WayKind::NoParent,
        FinalWay::Escapes { .. } => WayKind::Escapes,
        FinalWay::Through(directories) => WayKind::Through(directories.len()),
    }
}

/// The commit of a directory.
pub fn commit_directory_entry(way: &FinalWay) -> (commit: Commit)
    ensures
        commit == commit_start(ManifestEntryKind::Directory, kind_of_way(*way)),
        commit.well_formed(),
{
    Commit {
        kind: ManifestEntryKind::Directory,
        way: way_kind(way),
        step: CommitStep::ProbeRoot,
    }
}

/// The commit of a prepared file.
pub fn commit_regular_file_entry(way: &FinalWay) -> (commit: Commit)
    ensures
        commit == commit_start(ManifestEntryKind::RegularFile, kind_of_way(*way)),
        commit.well_formed(),
{
    Commit {
        kind: ManifestEntryKind::RegularFile,
        way: way_kind(way),
        step: CommitStep::ProbeRoot,
    }
}

/// The commit of a prepared link.
pub fn commit_symlink_entry(way: &FinalWay) -> (commit: Commit)
    ensures
        commit == commit_start(ManifestEntryKind::Symlink, kind_of_way(*way)),
        commit.well_formed(),
{
    Commit { kind: ManifestEntryKind::Symlink, way: way_kind(way), step: CommitStep::ProbeRoot }
}

// ---------------------------------------------------------------------------
// Laws of a commit
// ---------------------------------------------------------------------------

/// A commit on its way, with what its events say of the world: what was found at the
/// final path, whether anything there was removed, and whether the entry stands
/// there.
pub struct CommitHistory {
    pub commit: Commit,
    pub found: Option<DestinationProbe>,
    pub removed: bool,
    pub placed: bool,
}

/// What an event adds to the history of a commit.
pub open spec fn commit_observe(h: CommitHistory, event: CommitEvent) -> CommitHistory {
    CommitHistory {
        commit: h.commit.after(event),
        found: match (h.commit.step, event) {
            (CommitStep::ProbeFinal, CommitEvent::Probed(probe)) => Some(probe),
            _ => h.found,
        },
        removed: match (h.commit.step, event) {
            (CommitStep::RemoveEmptyDirectory, CommitEvent::Done(ok)) => ok,
            (CommitStep::RemoveConflict, CommitEvent::Done(ok)) => ok,
            _ => h.removed,
        },
        placed: match (h.commit.step, event) {
            (CommitStep::CreateDirectory(_), CommitEvent::Done(ok)) => ok,
            (CommitStep::Materialize(_), CommitEvent::Done(ok)) => ok,
            _ => h.placed,
        },
    }
}

/// The history of a commit after a number of events.
pub open spec fn commit_history(
    kind: ManifestEntryKind,
    way: WayKind,
    events: Seq<CommitEvent>,
) -> CommitHistory
    decreases events.len(),
{
    if events.len() == 0 {
        CommitHistory {
            commit: commit_start(kind, way),
            found: None,
            removed: false,
            placed: false,
        }
    } else {
        commit_observe(commit_history(kind, way, events.drop_last()), events.last())
    }
}

/// How an entry must come to stand where something was found.
pub open spec fn disposition_for(kind: ManifestEntryKind, found: DestinationProbe) ->
    CommitDisposition {
    match (kind, found) {
        (ManifestEntryKind::Directory, DestinationProbe::Directory) => CommitDisposition::Kept,
        (_, DestinationProbe::NotFound) => CommitDisposition::Created,
        _ => CommitDisposition::Replaced,
    }
}

spec fn history_fits(h: CommitHistory, kind: ManifestEntryKind, way: WayKind) -> bool {
    let c = h.commit;
    &&& c.well_formed()
    &&& c.kind == kind
    &&& c.way == way
    &&& match c.step {
        CommitStep::ProbeRoot
        | CommitStep::CreateRoot
        | CommitStep::ProbeRootAgain
        | CommitStep::ProbeParent(_)
        | CommitStep::CreateParent(_)
        | CommitStep::ProbeFinal => h.found is None && !h.removed && !h.placed,
        CommitStep::RemoveEmptyDirectory => h.found == Some(DestinationProbe::Directory) && !(
        kind is Directory) && !h.removed && !h.placed,
        CommitStep::RemoveConflict => h.found == Some(DestinationProbe::Occupied)
            && kind is Directory && !h.removed && !h.placed,
        CommitStep::CreateDirectory(disposition) => kind is Directory && !h.placed
            && (h.found matches Some(found) && !(found is Failed) && !(found is Directory)
            && disposition == disposition_for(kind, found)),
        CommitStep::Materialize(disposition) => !(kind is Directory) && !h.placed
            && (h.found matches Some(found) && !(found is Failed) && disposition
            == disposition_for(kind, found)),
        CommitStep::Over(CommitEnd::Committed(disposition)) => {
            &&& h.found matches Some(found) && !(found is Failed) && disposition
                == disposition_for(kind, found)
            &&& h.placed == !(disposition is Kept)
            &&& disposition is Kept ==> !h.removed
        },
        CommitStep::Over(CommitEnd::Refused(fault)) => !h.placed && (h.removed ==> fault
            is NotMaterialized || fault is DirectoryNotCreated) && (fault is DirectoryNotEmpty
            ==> h.found == Some(DestinationProbe::Directory)),
    }
}

proof fn lemma_history_fits(kind: ManifestEntryKind, way: WayKind, events: Seq<CommitEvent>)
    ensures
        history_fits(commit_history(kind, way, events), kind, way),
    decreases events.len(),
{
    if events.len() > 0 {
        lemma_history_fits(kind, way, events.drop_last());
    }
}

/// What a commit reports is what it did: it kept a directory that was there, created
/// what was missing, or replaced what stood in its way.
pub proof fn dispositions_tell_the_truth(
    kind: ManifestEntryKind,
    way: WayKind,
    events: Seq<CommitEvent>,
    disposition: CommitDisposition,
)
    requires
        commit_history(kind, way, events).commit.step == CommitStep::Over(
            CommitEnd::Committed(disposition),
        ),
    ensures
        commit_history(kind, way, events).found matches Some(found) && disposition
            == disposition_for(kind, found),
        disposition is Kept || commit_history(kind, way, events).placed,
        disposition is Kept ==> kind is Directory && !commit_history(kind, way, events).removed,
{
    lemma_history_fits(kind, way, events);
}

/// A refused commit has placed nothing. It has removed something at most if the very
/// last step failed; in particular a directory that is not empty stays as it is.
pub proof fn refused_commits_leave_the_destination(
    kind: ManifestEntryKind,
    way: WayKind,
    events: Seq<CommitEvent>,
    fault: CommitFault,
)
    requires
        commit_history(kind, way, events).commit.step == CommitStep::Over(
            CommitEnd::Refused(fault),
        ),
    ensures
        !commit_history(kind, way, events).placed,
        fault is DirectoryNotEmpty ==> !commit_history(kind, way, events).removed,
        commit_history(kind, way, events).removed ==> fault is NotMaterialized || fault
            is DirectoryNotCreated,
{
    lemma_history_fits(kind, way, events);
}

/// How far a commit is from its end.
pub open spec fn commit_distance(commit: Commit) -> nat {
    let n = match commit.way {
        WayKind::Through(n) => n as nat,
        _ => 0,
    };
    match commit.step {
        CommitStep::ProbeRoot => 2 * n + 7,
        CommitStep::CreateRoot => 2 * n + 6,
        CommitStep::ProbeRootAgain => 2 * n + 5,
        CommitStep::ProbeParent(i) => (2 * (n - i) + 4) as nat,
        CommitStep::CreateParent(i) => (2 * (n - i) + 3) as nat,
        CommitStep::ProbeFinal => 3,
        CommitStep::RemoveEmptyDirectory => 2,
        CommitStep::RemoveConflict => 2,
        CommitStep::CreateDirectory(_) => 1,
        CommitStep::Materialize(_) => 1,
        CommitStep::Over(_) => 0,
    }
}

/// An event that reports on the step.
pub open spec fn answers(step: CommitStep, event: CommitEvent) -> bool {
    match step {
        CommitStep::ProbeRoot
        | CommitStep::ProbeRootAgain
        | CommitStep::ProbeParent(_)
        | CommitStep::ProbeFinal => event is Probed,
        CommitStep::Over(_) => false,
        _ => event is Done,
    }
}

/// Every report brings a commit nearer to its end.
pub proof fn commits_end(commit: Commit, event: CommitEvent)
    requires
        commit.well_formed(),
        answers(commit.step, event),
    ensures
        commit_distance(commit.after(event)) < commit_distance(commit),
{
}

/// A commit on its way, with what was reported of each of its steps: what stands at the
/// root and whether it was created, what stands at each directory on the way and whether it
/// was created, what stands at the final path, whether it was removed, and whether the
/// entry was put there.
pub struct CommitRecord {
    pub commit: Commit,
    pub root: Option<DestinationProbe>,
    pub root_created: Option<bool>,
    pub root_again: Option<DestinationProbe>,
    pub parents: Seq<(DestinationProbe, Option<bool>)>,
    pub final_probe: Option<DestinationProbe>,
    pub emptied: Option<bool>,
    pub cleared: Option<bool>,
    pub directory_made: Option<bool>,
    pub moved: Option<bool>,
}

/// The record of a commit after a number of events.
pub open spec fn commit_record(
    kind: ManifestEntryKind,
    way: WayKind,
    events: Seq<CommitEvent>,
) -> CommitRecord
    decreases events.len(),
{
    if events.len() == 0 {
        CommitRecord {
            commit: commit_start(kind, way),
            root: None,
            root_created: None,
            root_again: None,
            parents: Seq::empty(),
            final_probe: None,
            emptied: None,
            cleared: None,
            directory_made: None,
            moved: None,
        }
    } else {
        let r = commit_record(kind, way, events.drop_last());
        let at = CommitRecord { commit: r.commit.after(events.last()), ..r };
        match (r.commit.step, events.last()) {
            (CommitStep::ProbeRoot, CommitEvent::Probed(probe)) => CommitRecord {
                root: Some(probe),
                ..at
            },
            (CommitStep::CreateRoot, CommitEvent::Done(ok)) => CommitRecord {
                root_created: Some(ok),
                ..at
            },
            (CommitStep::ProbeRootAgain, CommitEvent::Probed(probe)) => CommitRecord {
                root_again: Some(probe),
                ..at
            },
            (CommitStep::ProbeParent(_), CommitEvent::Probed(probe)) => CommitRecord {
                parents: r.parents.push((probe, None)),
                ..at
            },
            (CommitStep::CreateParent(_), CommitEvent::Done(ok)) => CommitRecord {
                parents: r.parents.drop_last().push((r.parents.last().0, Some(ok))),
                ..at
            },
            (CommitStep::ProbeFinal, CommitEvent::Probed(probe)) => CommitRecord {
                final_probe: Some(probe),
                ..at
            },
            (CommitStep::RemoveEmptyDirectory, CommitEvent::Done(ok)) => CommitRecord {
                emptied: Some(ok),
                ..at
            },
            (CommitStep::RemoveConflict, CommitEvent::Done(ok)) => CommitRecord {
                cleared: Some(ok),
                ..at
            },
            (CommitStep::CreateDirectory(_), CommitEvent::Done(ok)) => CommitRecord {
                directory_made: Some(ok),
                ..at
            },
            (CommitStep::Materialize(_), CommitEvent::Done(ok)) => CommitRecord {
                moved: Some(ok),
                ..at
            },
            _ => at,
        }
    }
}

/// Whether the root was found to be a directory, if need be after it was created.
spec fn root_stands(r: CommitRecord) -> bool {
    ||| r.root == Some(DestinationProbe::Directory) && r.root_created is None && r.root_again
        is None
    ||| r.root == Some(DestinationProbe::NotFound) && r.root_created == Some(true) && r.root_again
        == Some(DestinationProbe::Directory)
}

/// A directory on the way that was there or was created.
spec fn parent_stands(parent: (DestinationProbe, Option<bool>)) -> bool {
    parent == (DestinationProbe::Directory, None::<bool>) || parent == (
        DestinationProbe::NotFound,
        Some(true),
    )
}

spec fn parents_stand(parents: Seq<(DestinationProbe, Option<bool>)>) -> bool {
    forall|k: int| 0 <= k < parents.len() ==> parent_stands(#[trigger] parents[k])
}

spec fn nothing_at_final(r: CommitRecord) -> bool {
    r.final_probe is None && r.emptied is None && r.cleared is None && r.directory_made is None
        && r.moved is None
}

/// Whether the way to the final path is behind a commit.
spec fn way_behind(r: CommitRecord, way: WayKind) -> bool {
    &&& root_stands(r)
    &&& way matches WayKind::Through(n) && r.parents.len() == n
    &&& parents_stand(r.parents)
}

spec fn record_fits(r: CommitRecord, kind: ManifestEntryKind, way: WayKind) -> bool {
    let c = r.commit;
    let quiet = r.emptied is None && r.cleared is None && r.directory_made is None && r.moved
        is None;
    let early = r.parents.len() == 0 && nothing_at_final(r);
    &&& c.kind == kind && c.way == way
    &&& match c.step {
        CommitStep::ProbeRoot => r.root is None && r.root_created is None && r.root_again is None
            && early,
        CommitStep::CreateRoot => r.root == Some(DestinationProbe::NotFound) && r.root_created
            is None && r.root_again is None && early,
        CommitStep::ProbeRootAgain => r.root == Some(DestinationProbe::NotFound) && r.root_created
            == Some(true) && r.root_again is None && early,
        CommitStep::ProbeParent(i) => root_stands(r) && nothing_at_final(r) && r.parents.len() == i
            && parents_stand(r.parents) && (way matches WayKind::Through(n) && i < n),
        CommitStep::CreateParent(i) => root_stands(r) && nothing_at_final(r) && r.parents.len() == i
            + 1 && parents_stand(r.parents.drop_last()) && r.parents.last() == (
            DestinationProbe::NotFound,
            None::<bool>,
        ) && (way matches WayKind::Through(n) && i < n),
        CommitStep::ProbeFinal => way_behind(r, way) && nothing_at_final(r),
        CommitStep::RemoveEmptyDirectory => way_behind(r, way) && !(kind is Directory)
            && r.final_probe == Some(DestinationProbe::Directory) && quiet,
        CommitStep::RemoveConflict => way_behind(r, way) && kind is Directory && r.final_probe
            == Some(DestinationProbe::Occupied) && quiet,
        CommitStep::CreateDirectory(disposition) => {
            &&& way_behind(r, way) && kind is Directory
            &&& r.emptied is None && r.directory_made is None && r.moved is None
            &&& {
                ||| disposition is Created && r.final_probe == Some(DestinationProbe::NotFound)
                    && r.cleared is None
                ||| disposition is Replaced && r.final_probe == Some(DestinationProbe::Occupied)
                    && r.cleared == Some(true)
            }
        },
        CommitStep::Materialize(disposition) => {
            &&& way_behind(r, way) && !(kind is Directory)
            &&& r.cleared is None && r.directory_made is None && r.moved is None
            &&& {
                ||| disposition is Created && r.final_probe == Some(DestinationProbe::NotFound)
                    && r.emptied is None
                ||| disposition is Replaced && r.final_probe == Some(DestinationProbe::Occupied)
                    && r.emptied is None
                ||| disposition is Replaced && r.final_probe == Some(DestinationProbe::Directory)
                    && r.emptied == Some(true)
            }
        },
        CommitStep::Over(CommitEnd::Committed(disposition)) => way_behind(r, way) && put_as(
            r,
            kind,
            disposition,
        ),
        CommitStep::Over(CommitEnd::Refused(fault)) => refused_for(r, kind, way, fault),
    }
}

/// Whether an entry was put at the final path in a way.
spec fn put_as(r: CommitRecord, kind: ManifestEntryKind, disposition: CommitDisposition) -> bool {
    if kind is Directory {
        &&& r.emptied is None && r.moved is None
        &&& match disposition {
            CommitDisposition::Kept => r.final_probe == Some(DestinationProbe::Directory)
                && r.cleared is None && r.directory_made is None,
            CommitDisposition::Created => r.final_probe == Some(DestinationProbe::NotFound)
                && r.cleared is None && r.directory_made == Some(true),
            CommitDisposition::Replaced => r.final_probe == Some(DestinationProbe::Occupied)
                && r.cleared == Some(true) && r.directory_made == Some(true),
        }
    } else {
        &&& r.cleared is None && r.directory_made is None && r.moved == Some(true)
        &&& match disposition {
            CommitDisposition::Kept => false,
            CommitDisposition::Created => r.final_probe == Some(DestinationProbe::NotFound)
                && r.emptied is None,
            CommitDisposition::Replaced => {
                ||| r.final_probe == Some(DestinationProbe::Occupied) && r.emptied is None
                ||| r.final_probe == Some(DestinationProbe::Directory) && r.emptied == Some(true)
            },
        }
    }
}

spec fn refused_for(
    r: CommitRecord,
    kind: ManifestEntryKind,
    way: WayKind,
    fault: CommitFault,
) -> bool {
    let early = r.parents.len() == 0 && nothing_at_final(r);
    let quiet = r.emptied is None && r.cleared is None && r.directory_made is None && r.moved
        is None;
    match fault {
        CommitFault::RootNotDirectory => early && (r.root == Some(DestinationProbe::Occupied)
            && r.root_created is None && r.root_again is None || r.root_created == Some(true)
            && r.root_again == Some(DestinationProbe::Occupied)),
        CommitFault::RootNotCreated => early && r.root == Some(DestinationProbe::NotFound)
            && r.root_created == Some(false) && r.root_again is None,
        CommitFault::RootUninspected => early && (r.root == Some(DestinationProbe::Failed)
            && r.root_created is None && r.root_again is None || r.root_created == Some(true) && (
        r.root_again == Some(DestinationProbe::NotFound) || r.root_again == Some(
            DestinationProbe::Failed,
        ))),
        CommitFault::NoParent => early && root_stands(r) && way is NoParent,
        CommitFault::Escapes => early && root_stands(r) && way is Escapes,
        CommitFault::ParentNotDirectory(i) => root_stands(r) && nothing_at_final(r)
            && r.parents.len() == i + 1 && parents_stand(r.parents.drop_last()) && r.parents.last()
            == (DestinationProbe::Occupied, None::<bool>),
        CommitFault::ParentNotCreated(i) => root_stands(r) && nothing_at_final(r) && r.parents.len()
            == i + 1 && parents_stand(r.parents.drop_last()) && r.parents.last() == (
            DestinationProbe::NotFound,
            Some(false),
        ),
        CommitFault::ParentUninspected(i) => root_stands(r) && nothing_at_final(r)
            && r.parents.len() == i + 1 && parents_stand(r.parents.drop_last()) && r.parents.last()
            == (DestinationProbe::Failed, None::<bool>),
        CommitFault::DirectoryUninspected => way_behind(r, way) && kind is Directory
            && r.final_probe == Some(DestinationProbe::Failed) && quiet,
        CommitFault::FinalUninspected => way_behind(r, way) && !(kind is Directory) && r.final_probe
            == Some(DestinationProbe::Failed) && quiet,
        CommitFault::ConflictNotRemoved => way_behind(r, way) && kind is Directory && r.final_probe
            == Some(DestinationProbe::Occupied) && r.cleared == Some(false) && r.emptied is None
            && r.directory_made is None && r.moved is None,
        CommitFault::DirectoryNotEmpty => way_behind(r, way) && !(kind is Directory)
            && r.final_probe == Some(DestinationProbe::Directory) && r.emptied == Some(false)
            && r.cleared is None && r.directory_made is None && r.moved is None,
        CommitFault::DirectoryNotCreated => way_behind(r, way) && kind is Directory
            && r.directory_made == Some(false) && r.emptied is None && r.moved is None && (
        r.final_probe == Some(DestinationProbe::NotFound) && r.cleared is None || r.final_probe
            == Some(DestinationProbe::Occupied) && r.cleared == Some(true)),
        CommitFault::NotMaterialized => way_behind(r, way) && !(kind is Directory) && r.moved
            == Some(false) && r.cleared is None && r.directory_made is None && (r.emptied is Some
            <==> r.final_probe == Some(DestinationProbe::Directory)) && r.emptied != Some(false)
            && (r.final_probe matches Some(probe) && !(probe is Failed)),
    }
}

proof fn lemma_record_fits(kind: ManifestEntryKind, way: WayKind, events: Seq<CommitEvent>)
    ensures
        record_fits(commit_record(kind, way, events), kind, way),
    decreases events.len(),
{
    if events.len() > 0 {
        let before = commit_record(kind, way, events.drop_last());
        let after = commit_record(kind, way, events);
        lemma_record_fits(kind, way, events.drop_last());
        if after.parents.len() > 0 {
            assert(after.parents.len() > before.parents.len() ==> after.parents.drop_last()
                =~= before.parents);
            assert(before.parents.len() > 0 ==> before.parents.drop_last().push(
                after.parents.last(),
            ).drop_last() =~= before.parents.drop_last());
            assert forall|k: int|
                0 <= k < after.parents.len() && parents_stand(after.parents.drop_last())
                    && parent_stands(after.parents.last()) implies parent_stands(
                #[trigger] after.parents[k],
            ) by {
                if k < after.parents.len() - 1 {
                    assert(after.parents.drop_last()[k] == after.parents[k]);
                }
            }
        }
    }
}

/// An entry counts as committed only if the root and every directory on the way were
/// there or were created, and the entry was put at its final path: a directory was created,
/// or was there and kept; a file or a link was moved there. What stood in the way was
/// removed before: a file or a link for a directory, an empty directory for a file or a
/// link. What the commit reports follows from what it found.
pub proof fn committed_entries_were_put_in_place(
    kind: ManifestEntryKind,
    way: WayKind,
    events: Seq<CommitEvent>,
)
    ensures
        ({
            let r = commit_record(kind, way, events);
            r.commit.step matches CommitStep::Over(CommitEnd::Committed(disposition)) ==> {
                &&& r.root == Some(DestinationProbe::Directory) || r.root_created == Some(true)
                    && r.root_again == Some(DestinationProbe::Directory)
                &&& way matches WayKind::Through(n) && r.parents.len() == n
                &&& forall|k: int|
                    0 <= k < r.parents.len() ==> {
                        ||| (#[trigger] r.parents[k]).0 is Directory
                        ||| r.parents[k].0 is NotFound && r.parents[k].1 == Some(true)
                    }
                &&& r.final_probe matches Some(found)
                &&& !(found is Failed)
                &&& disposition is Kept <==> kind is Directory && found is Directory
                &&& disposition is Created <==> found is NotFound
                &&& r.directory_made == (if kind is Directory && !(found is Directory) {
                    Some(true)
                } else {
                    None
                })
                &&& r.moved == (if kind is Directory {
                    None
                } else {
                    Some(true)
                })
                &&& r.cleared == (if kind is Directory && found is Occupied {
                    Some(true)
                } else {
                    None
                })
                &&& r.emptied == (if !(kind is Directory) && found is Directory {
                    Some(true)
                } else {
                    None
                })
            }
        }),
{
    lemma_record_fits(kind, way, events);
    let r = commit_record(kind, way, events);
    assert forall|k: int| 0 <= k < r.parents.len() && parents_stand(r.parents) implies {
        ||| (#[trigger] r.parents[k]).0 is Directory
        ||| r.parents[k].0 is NotFound && r.parents[k].1 == Some(true)
    } by {
        assert(parent_stands(r.parents[k]));
    }
}

/// A commit is refused only for what was found or for a step that was reported as failed,
/// and the refusal names it.
pub proof fn refusals_name_what_was_found(
    kind: ManifestEntryKind,
    way: WayKind,
    events: Seq<CommitEvent>,
)
    ensures
        ({
            let r = commit_record(kind, way, events);
            r.commit.step matches CommitStep::Over(CommitEnd::Refused(fault)) ==> match fault {
                CommitFault::RootNotDirectory => r.root == Some(DestinationProbe::Occupied)
                    || r.root_again == Some(DestinationProbe::Occupied),
                CommitFault::RootNotCreated => r.root_created == Some(false),
                CommitFault::RootUninspected => r.root == Some(DestinationProbe::Failed)
                    || r.root_again == Some(DestinationProbe::Failed) || r.root_again == Some(
                    DestinationProbe::NotFound,
                ),
                CommitFault::NoParent => way is NoParent,
                CommitFault::Escapes => way is Escapes,
                CommitFault::ParentNotDirectory(i) => i == r.parents.len() - 1 && r.parents.last().0
                    is Occupied,
                CommitFault::ParentNotCreated(i) => i == r.parents.len() - 1 && r.parents.last().1
                    == Some(false),
                CommitFault::ParentUninspected(i) => i == r.parents.len() - 1 && r.parents.last().0
                    is Failed,
                CommitFault::DirectoryUninspected => kind is Directory && r.final_probe == Some(
                    DestinationProbe::Failed,
                ),
                CommitFault::FinalUninspected => !(kind is Directory) && r.final_probe == Some(
                    DestinationProbe::Failed,
                ),
                CommitFault::ConflictNotRemoved => r.cleared == Some(false),
                CommitFault::DirectoryNotEmpty => r.emptied == Some(false),
                CommitFault::DirectoryNotCreated => r.directory_made == Some(false),
                CommitFault::NotMaterialized => r.moved == Some(false),
            }
        }),
{
    lemma_record_fits(kind, way, events);
}

/// The directories on the way are looked at from the root downwards, each behind the one
/// above it.
pub proof fn ways_lead_downwards(kind: ManifestEntryKind, way: WayKind, events: Seq<CommitEvent>)
    ensures
        commit_record(kind, way, events).commit.step matches CommitStep::ProbeParent(i) ==> i
            == commit_record(kind, way, events).parents.len(),
        commit_record(kind, way, events).commit.step matches CommitStep::CreateParent(i) ==> i
            == commit_record(kind, way, events).parents.len() - 1,
{
    lemma_record_fits(kind, way, events);
}

/// The directories along components: one for each component, each the one above it joined
/// with the component, and the first one the root joined with the first component.
pub proof fn directories_lead_from_one_to_the_next(
    root: Seq<char>,
    components: Seq<Seq<char>>,
    k: int,
)
    requires
        0 <= k < components.len(),
    ensures
        descend(root, components).len() == components.len(),
        descend(root, components)[k] == paths::path_join(
            if k == 0 {
                root
            } else {
                descend(root, components)[k - 1]
            },
            components[k],
        ),
    decreases components.len(),
{
    let shorter = components.drop_last();
    lemma_descend_length(root, components);
    lemma_descend_length(root, shorter);
    if k < shorter.len() {
        directories_lead_from_one_to_the_next(root, shorter, k);
    }
}

proof fn lemma_descend_length(root: Seq<char>, components: Seq<Seq<char>>)
    ensures
        descend(root, components).len() == components.len(),
    decreases components.len(),
{
    if components.len() > 0 {
        lemma_descend_length(root, components.drop_last());
    }
}

// ---------------------------------------------------------------------------
// What went wrong, in words
// ---------------------------------------------------------------------------

/// The places that a refusal may name: the root, the final path, its parent, and the
/// directory that was in turn.
#[derive(Debug)]
pub struct CommitPlaces {
    pub root: String,
    pub final_path: String,
    pub parent: String,
    pub directory: String,
}

/// Why a commit was refused. `detail` is what the system said.
pub open spec fn commit_fault_text(
    fault: CommitFault,
    kind: ManifestEntryKind,
    places: CommitPlaces,
    detail: Seq<char>,
) -> Seq<char> {
    match fault {
        CommitFault::RootNotDirectory => "destination root is not a directory: "@ + places.root@,
        CommitFault::RootNotCreated => "failed to create destination root: "@ + detail,
        CommitFault::RootUninspected => "failed to inspect destination root: "@ + detail,
        CommitFault::NoParent => "final path has no parent: "@ + places.final_path@,
        CommitFault::Escapes => "final parent escapes root: "@ + places.parent@,
        CommitFault::ParentNotDirectory(_) => "final parent is not a directory: "@
            + places.directory@,
        CommitFault::ParentNotCreated(_) => "failed to create final parent '"@ + places.directory@
            + "': "@ + detail,
        CommitFault::ParentUninspected(_) => "failed to inspect final parent: "@ + detail,
        CommitFault::DirectoryUninspected => "failed to inspect destination directory: "@ + detail,
        CommitFault::ConflictNotRemoved => "failed to remove conflicting destination: "@ + detail,
        CommitFault::DirectoryNotCreated => "failed to create destination directory: "@ + detail,
        CommitFault::FinalUninspected => "failed to inspect final destination: "@ + detail,
        CommitFault::DirectoryNotEmpty => "cannot replace non-empty destination directory '"@
            + places.final_path@ + "': "@ + detail,
        CommitFault::NotMaterialized => if kind is Symlink {
            "failed to materialize symlink: "@ + detail
        } else {
            "failed to materialize regular file: "@ + detail
        },
    }
}

/// Why a commit was refused.
pub fn commit_fault_message(
    fault: CommitFault,
    kind: ManifestEntryKind,
    places: &CommitPlaces,
    detail: &str,
) -> (m: String)
    ensures
        m@ == commit_fault_text(fault, kind, *places, detail@),
{
    match fault {
        CommitFault::RootNotDirectory => text::cat2(
            "destination root is not a directory: ",
            places.root.as_str(),
        ),
        CommitFault::RootNotCreated => text::cat2("failed to create destination root: ", detail),
        CommitFault::RootUninspected => text::cat2("failed to inspect destination root: ", detail),
        CommitFault::NoParent => text::cat2(
            "final path has no parent: ",
            places.final_path.as_str(),
        ),
        CommitFault::Escapes => text::cat2("final parent escapes root: ", places.parent.as_str()),
        CommitFault::ParentNotDirectory(_) => text::cat2(
            "final parent is not a directory: ",
            places.directory.as_str(),
        ),
        CommitFault::ParentNotCreated(_) => text::cat4(
            "failed to create final parent '",
            places.directory.as_str(),
            "': ",
            detail,
        ),
        CommitFault::ParentUninspected(_) => text::cat2("failed to inspect final parent: ", detail),
        CommitFault::DirectoryUninspected => text::cat2(
            "failed to inspect destination directory: ",
            detail,
        ),
        CommitFault::ConflictNotRemoved => text::cat2(
            "failed to remove conflicting destination: ",
            detail,
        ),
        CommitFault::DirectoryNotCreated => text::cat2(
            "failed to create destination directory: ",
            detail,
        ),
        CommitFault::FinalUninspected => text::cat2("failed to inspect final destination: ", detail),
        CommitFault::DirectoryNotEmpty => text::cat4(
            "cannot replace non-empty destination directory '",
            places.final_path.as_str(),
            "': ",
            detail,
        ),
        CommitFault::NotMaterialized => match kind {
            ManifestEntryKind::Symlink => text::cat2("failed to materialize symlink: ", detail),
            _ => text::cat2("failed to materialize regular file: ", detail),
        },
    }
}

// ---------------------------------------------------------------------------
// Trees
// ---------------------------------------------------------------------------

/// As what an object of the work area is committed, if it can be.
pub open spec fn committed_as(kind: FileKind) -> Option<ManifestEntryKind> {
    match kind {
        FileKind::Directory => Some(ManifestEntryKind::Directory),
        FileKind::RegularFile => Some(ManifestEntryKind::RegularFile),
        FileKind::Symlink => Some(ManifestEntryKind::Symlink),
        FileKind::Other => None,
    }
}

/// As what a prepared object is committed: a directory as a tree, a file or a link
/// alone, anything else not at all.
pub fn commit_output_entry(kind: FileKind) -> (committed: Option<ManifestEntryKind>)
    ensures
        committed == committed_as(kind),
{
    match kind {
        FileKind::Directory => Some(ManifestEntryKind::Directory),
        FileKind::RegularFile => Some(ManifestEntryKind::RegularFile),
        FileKind::Symlink => Some(ManifestEntryKind::Symlink),
        FileKind::Other => None,
    }
}

/// How the commit of a tree ends.
#[derive(Clone, Copy, PartialEq, Eq, Structural, Debug)]
pub enum TreeEnd {
    Committed(CommitDisposition),
    /// The directory at the top was refused.
    TopRefused,
    WalkFailed,
    /// A path below the top is not UTF-8.
    NotUtf8,
    Unreadable(usize),
    Unsupported(usize),
    /// The object at this position was refused.
    Refused(usize),
}

/// The next thing to do for a tree.
#[derive(Clone, Copy, PartialEq, Eq, Structural, Debug)]
pub enum TreeStep {
    CommitTop,
    /// List what is below the top, each directory before what is in it.
    Walk,
    Examine(usize),
    CommitObject(usize, ManifestEntryKind),
    /// Remove the directories of the work area that are empty now.
    Sweep,
    Over(TreeEnd),
}

/// What listing a tree gave.
#[derive(Clone, Copy, PartialEq, Eq, Structural, Debug)]
pub enum TreeListing {
    /// So many objects, with paths that are UTF-8.
    Objects(usize),
    NotUtf8,
    Failed,
}

/// What doing it gave.
#[derive(Clone, Copy, PartialEq, Eq, Structural, Debug)]
pub enum TreeEvent {
    /// How a commit ended; nothing if it was refused.
    Committed(Option<CommitDisposition>),
    Walked(TreeListing),
    /// What an object is, if that could be told.
    Examined(Option<FileKind>),
    /// Whether the walk over what is left behind came to its end.
    Swept(bool),
}

/// The commit of a tree: what is next, how the top came to stand, and how many objects
/// there are.
#[derive(Clone, Copy, PartialEq, Eq, Structural, Debug)]
pub struct TreeCommit {
    pub step: TreeStep,
    pub top: CommitDisposition,
    pub total: usize,
}

impl TreeCommit {
    pub open spec fn well_formed(self) -> bool {
        match self.step {
            TreeStep::Examine(i) | TreeStep::CommitObject(i, _) => i < self.total,
            _ => true,
        }
    }

    pub open spec fn at(self, step: TreeStep) -> TreeCommit {
        TreeCommit { step, ..self }
    }

    /// Where a tree stands when `i` objects are behind it.
    pub open spec fn past(self, i: int) -> TreeCommit {
        self.at(
            if i < self.total {
                TreeStep::Examine(i as usize)
            } else {
                TreeStep::Sweep
            },
        )
    }

    /// The state behind an event. An event that does not belong to the step changes
    /// nothing.
    pub open spec fn after(self, event: TreeEvent) -> TreeCommit {
        match (self.step, event) {
            (TreeStep::CommitTop, TreeEvent::Committed(result)) => match result {
                Some(disposition) => TreeCommit {
                    step: TreeStep::Walk,
                    top: disposition,
                    ..self
                },
                None => self.at(TreeStep::Over(TreeEnd::TopRefused)),
            },
            (TreeStep::Walk, TreeEvent::Walked(found)) => match found {
                TreeListing::Objects(total) => (TreeCommit { total, ..self }).past(0),
                TreeListing::NotUtf8 => self.at(TreeStep::Over(TreeEnd::NotUtf8)),
                TreeListing::Failed => self.at(TreeStep::Over(TreeEnd::WalkFailed)),
            },
            (TreeStep::Examine(i), TreeEvent::Examined(found)) => match found {
                None => self.at(TreeStep::Over(TreeEnd::Unreadable(i))),
                Some(kind) => match committed_as(kind) {
                    Some(committed) => self.at(TreeStep::CommitObject(i, committed)),
                    None => self.at(TreeStep::Over(TreeEnd::Unsupported(i))),
                },
            },
            (TreeStep::CommitObject(i, _), TreeEvent::Committed(result)) => match result {
                Some(_) => self.past(i + 1),
                None => self.at(TreeStep::Over(TreeEnd::Refused(i))),
            },
            (TreeStep::Sweep, TreeEvent::Swept(ok)) => if ok {
                self.at(TreeStep::Over(TreeEnd::Committed(self.top)))
            } else {
                self.at(TreeStep::Over(TreeEnd::WalkFailed))
            },
            _ => self,
        }
    }

    fn to(self, step: TreeStep) -> (next: TreeCommit)
        ensures
            next == self.at(step),
    {
        TreeCommit { step, top: self.top, total: self.total }
    }

    fn go_past(self, i: usize) -> (next: TreeCommit)
        ensures
            next == self.past(i as int),
    {
        if i < self.total {
            self.to(TreeStep::Examine(i))
        } else {
            self.to(TreeStep::Sweep)
        }
    }
}

/// The commit of a tree before its first step.
pub fn start_tree() -> (tree: TreeCommit)
    ensures
        tree == tree_start(),
        tree.well_formed(),
{
    TreeCommit { step: TreeStep::CommitTop, top: CommitDisposition::Kept, total: 0 }
}

/// The commit of a tree before its first step.
pub open spec fn tree_start() -> TreeCommit {
    TreeCommit { step: TreeStep::CommitTop, top: CommitDisposition::Kept, total: 0 }
}

/// The state of a tree's commit behind an event. The tree is laid over what is at the
/// destination: nothing there is removed for not being in the tree.
pub fn commit_directory_tree(tree: TreeCommit, event: TreeEvent) -> (next: TreeCommit)
    requires
        tree.well_formed(),
    ensures
        next == tree.after(event),
        next.well_formed(),
{
    match (tree.step, event) {
        (TreeStep::CommitTop, TreeEvent::Committed(result)) => match result {
            Some(disposition) => TreeCommit {
                step: TreeStep::Walk,
                top: disposition,
                total: tree.total,
            },
            None => tree.to(TreeStep::Over(TreeEnd::TopRefused)),
        },
        (TreeStep::Walk, TreeEvent::Walked(found)) => match found {
            TreeListing::Objects(total) => {
                let listed = TreeCommit { step: tree.step, top: tree.top, total };
                listed.go_past(0)
            },
            TreeListing::NotUtf8 => tree.to(TreeStep::Over(TreeEnd::NotUtf8)),
            TreeListing::Failed => tree.to(TreeStep::Over(TreeEnd::WalkFailed)),
        },
        (TreeStep::Examine(i), TreeEvent::Examined(found)) => match found {
            None => tree.to(TreeStep::Over(TreeEnd::Unreadable(i))),
            Some(kind) => match commit_output_entry(kind) {
                Some(committed) => tree.to(TreeStep::CommitObject(i, committed)),
                None => tree.to(TreeStep::Over(TreeEnd::Unsupported(i))),
            },
        },
        (TreeStep::CommitObject(i, _), TreeEvent::Committed(result)) => match result {
            Some(_) => tree.go_past(i + 1),
            None => tree.to(TreeStep::Over(TreeEnd::Refused(i))),
        },
        (TreeStep::Sweep, TreeEvent::Swept(ok)) => {
            if ok {
                tree.to(TreeStep::Over(TreeEnd::Committed(tree.top)))
            } else {
                tree.to(TreeStep::Over(TreeEnd::WalkFailed))
            }
        },
        (_, _) => tree,
    }
}

/// Where the objects of a tree go: each below the place of the tree as it lay below its
/// top, in the order of the walk.
pub fn tree_targets(final_root: &str, relatives: &Vec<String>) -> (targets: Vec<String>)
    ensures
        text::texts(targets@) == relatives@.map_values(
            |r: String| paths::path_join(final_root@, r@),
        ),
        forall|i: int|
            0 <= i < relatives@.len() && !paths::absolute(relatives@[i]@)
                ==> paths::path_starts_with((#[trigger] targets@[i])@, final_root@),
{
    let mut targets: Vec<String> = Vec::new();
    let mut i: usize = 0;
    while i < relatives.len()
        invariant
            i <= relatives.len(),
            targets@.len() == i,
            forall|j: int|
                0 <= j < i ==> (#[trigger] targets@[j])@ == paths::path_join(
                    final_root@,
                    relatives@[j]@,
                ) && (!paths::absolute(relatives@[j]@) ==> paths::path_starts_with(
                    targets@[j]@,
                    final_root@,
                )),
        decreases relatives.len() - i,
    {
        targets.push(paths::join(final_root, relatives[i].as_str()));
        i = i + 1;
    }
    assert(text::texts(targets@) =~= relatives@.map_values(
        |r: String| paths::path_join(final_root@, r@),
    ));
    targets
}

/// A tree on its way, with which of its objects were committed.
pub struct TreeHistory {
    pub tree: TreeCommit,
    pub committed: Seq<int>,
}

/// What an event adds to the history of a tree.
pub open spec fn tree_observe(h: TreeHistory, event: TreeEvent) -> TreeHistory {
    TreeHistory {
        tree: h.tree.after(event),
        committed: match (h.tree.step, event) {
            (TreeStep::CommitObject(i, _), TreeEvent::Committed(Some(_))) => h.committed.push(
                i as int,
            ),
            _ => h.committed,
        },
    }
}

/// The history of a tree after a number of events.
pub open spec fn tree_history(events: Seq<TreeEvent>) -> TreeHistory
    decreases events.len(),
{
    if events.len() == 0 {
        TreeHistory { tree: tree_start(), committed: Seq::empty() }
    } else {
        tree_observe(tree_history(events.drop_last()), events.last())
    }
}

spec fn tree_fits(h: TreeHistory) -> bool {
    let t = h.tree;
    &&& t.well_formed()
    &&& match t.step {
        TreeStep::CommitTop | TreeStep::Walk => h.committed.len() == 0,
        TreeStep::Examine(i) | TreeStep::CommitObject(i, _) => h.committed =~= Seq::new(
            i as nat,
            |k: int| k,
        ),
        TreeStep::Sweep | TreeStep::Over(TreeEnd::Committed(_)) => h.committed =~= Seq::new(
            t.total as nat,
            |k: int| k,
        ),
        _ => true,
    }
}

proof fn lemma_tree_fits(events: Seq<TreeEvent>)
    ensures
        tree_fits(tree_history(events)),
    decreases events.len(),
{
    if events.len() > 0 {
        lemma_tree_fits(events.drop_last());
        let h = tree_history(events.drop_last());
        match (h.tree.step, events.last()) {
            (TreeStep::CommitObject(i, _), TreeEvent::Committed(Some(_))) => {
                assert(h.committed.push(i as int) =~= Seq::new((i + 1) as nat, |k: int| k));
                assert(tree_fits(tree_history(events)));
            },
            _ => {
                assert(tree_fits(tree_history(events)));
            },
        }
    }
}

/// A tree counts as committed only if each of its objects was, one after the other in
/// the order of the walk.
pub proof fn committed_trees_are_complete(events: Seq<TreeEvent>, disposition: CommitDisposition)
    requires
        tree_history(events).tree.step == TreeStep::Over(TreeEnd::Committed(disposition)),
    ensures
        tree_history(events).committed =~= Seq::new(
            tree_history(events).tree.total as nat,
            |k: int| k,
        ),
{
    lemma_tree_fits(events);
}

/// Where the objects of a tree were put, in the order in which they were committed:
/// object `i` goes to its own target.
pub open spec fn objects_put(h: TreeHistory, targets: Seq<Seq<char>>) -> Seq<Seq<char>> {
    h.committed.map_values(|i: int| targets[i])
}

/// Each object of a committed tree was put below the place of the tree as it lay below
/// its top, one after the other, and no other was.
pub proof fn committed_trees_are_in_place(
    events: Seq<TreeEvent>,
    disposition: CommitDisposition,
    final_root: Seq<char>,
    relatives: Seq<String>,
)
    requires
        tree_history(events).tree.step == TreeStep::Over(TreeEnd::Committed(disposition)),
        tree_history(events).tree.total == relatives.len(),
    ensures
        objects_put(tree_history(events), paths::places_below(final_root, relatives))
            == relatives.map_values(|r: String| paths::path_join(final_root, r@)),
{
    lemma_tree_fits(events);
    assert(objects_put(tree_history(events), paths::places_below(final_root, relatives))
        =~= relatives.map_values(|r: String| paths::path_join(final_root, r@)));
}

/// What was reported of an object of a tree: what it is, if that could be told, as what it
/// was committed, and whether it was.
pub struct TreeObject {
    pub found: Option<FileKind>,
    pub tried: Option<ManifestEntryKind>,
    pub put: bool,
}

/// A tree on its way, with what was reported of each of its steps.
pub struct TreeRecord {
    pub tree: TreeCommit,
    pub top: Option<Option<CommitDisposition>>,
    pub listing: Option<TreeListing>,
    pub objects: Seq<TreeObject>,
    pub swept: Option<bool>,
}

/// The record of a tree after a number of events.
pub open spec fn tree_record(events: Seq<TreeEvent>) -> TreeRecord
    decreases events.len(),
{
    if events.len() == 0 {
        TreeRecord {
            tree: tree_start(),
            top: None,
            listing: None,
            objects: Seq::empty(),
            swept: None,
        }
    } else {
        let r = tree_record(events.drop_last());
        let at = TreeRecord { tree: r.tree.after(events.last()), ..r };
        match (r.tree.step, events.last()) {
            (TreeStep::CommitTop, TreeEvent::Committed(result)) => TreeRecord {
                top: Some(result),
                ..at
            },
            (TreeStep::Walk, TreeEvent::Walked(found)) => TreeRecord { listing: Some(found), ..at },
            (TreeStep::Examine(_), TreeEvent::Examined(found)) => TreeRecord {
                objects: r.objects.push(TreeObject { found, tried: None, put: false }),
                ..at
            },
            (TreeStep::CommitObject(_, kind), TreeEvent::Committed(result)) => TreeRecord {
                objects: r.objects.drop_last().push(
                    TreeObject { tried: Some(kind), put: result is Some, ..r.objects.last() },
                ),
                ..at
            },
            (TreeStep::Sweep, TreeEvent::Swept(ok)) => TreeRecord { swept: Some(ok), ..at },
            _ => at,
        }
    }
}

/// Whether an object was tried as what it is.
spec fn tried_as_found(object: TreeObject) -> bool {
    match object.found {
        Some(FileKind::Directory) => object.tried == Some(ManifestEntryKind::Directory),
        Some(FileKind::RegularFile) => object.tried == Some(ManifestEntryKind::RegularFile),
        Some(FileKind::Symlink) => object.tried == Some(ManifestEntryKind::Symlink),
        Some(FileKind::Other) | None => false,
    }
}

spec fn objects_put_in_place(objects: Seq<TreeObject>) -> bool {
    forall|k: int|
        0 <= k < objects.len() ==> tried_as_found(#[trigger] objects[k]) && objects[k].put
}

spec fn tree_record_fits(r: TreeRecord) -> bool {
    let t = r.tree;
    let topped = r.top == Some(Some(t.top)) && r.swept is None;
    let listed = topped && r.listing == Some(TreeListing::Objects(t.total));
    match t.step {
        TreeStep::CommitTop => r.top is None && r.listing is None && r.objects.len() == 0 && r.swept
            is None,
        TreeStep::Walk => topped && r.listing is None && r.objects.len() == 0,
        TreeStep::Examine(i) => listed && i < t.total && r.objects.len() == i
            && objects_put_in_place(r.objects),
        TreeStep::CommitObject(i, kind) => {
            &&& listed && i < t.total && r.objects.len() == i + 1
            &&& objects_put_in_place(r.objects.drop_last())
            &&& r.objects.last().tried is None
            &&& tried_as_found(TreeObject { tried: Some(kind), ..r.objects.last() })
        },
        TreeStep::Sweep => listed && r.objects.len() == t.total && objects_put_in_place(r.objects),
        TreeStep::Over(end) => match end {
            TreeEnd::Committed(disposition) => r.top == Some(Some(disposition)) && r.listing
                == Some(TreeListing::Objects(t.total)) && r.objects.len() == t.total
                && objects_put_in_place(r.objects) && r.swept == Some(true),
            TreeEnd::TopRefused => r.top == Some(None::<CommitDisposition>) && r.listing is None
                && r.objects.len() == 0 && r.swept is None,
            TreeEnd::WalkFailed => r.top == Some(Some(t.top)) && {
                ||| r.listing == Some(TreeListing::Failed) && r.objects.len() == 0 && r.swept
                    is None
                ||| r.listing == Some(TreeListing::Objects(t.total)) && r.objects.len() == t.total
                    && objects_put_in_place(r.objects) && r.swept == Some(false)
            },
            TreeEnd::NotUtf8 => topped && r.listing == Some(TreeListing::NotUtf8) && r.objects.len()
                == 0,
            TreeEnd::Unreadable(i) => listed && r.objects.len() == i + 1 && objects_put_in_place(
                r.objects.drop_last(),
            ) && r.objects.last().found is None && r.objects.last().tried is None,
            TreeEnd::Unsupported(i) => listed && r.objects.len() == i + 1 && objects_put_in_place(
                r.objects.drop_last(),
            ) && r.objects.last().found == Some(FileKind::Other) && r.objects.last().tried is None,
            TreeEnd::Refused(i) => listed && r.objects.len() == i + 1 && objects_put_in_place(
                r.objects.drop_last(),
            ) && tried_as_found(r.objects.last()) && !r.objects.last().put,
        },
    }
}

proof fn lemma_tree_record_fits(events: Seq<TreeEvent>)
    ensures
        tree_record_fits(tree_record(events)),
    decreases events.len(),
{
    if events.len() > 0 {
        let before = tree_record(events.drop_last());
        let after = tree_record(events);
        lemma_tree_record_fits(events.drop_last());
        if after.objects.len() > 0 {
            assert(after.objects.len() > before.objects.len() ==> after.objects.drop_last()
                =~= before.objects);
            assert(before.objects.len() > 0 ==> before.objects.drop_last().push(
                after.objects.last(),
            ).drop_last() =~= before.objects.drop_last());
            assert forall|k: int|
                0 <= k < after.objects.len() && objects_put_in_place(after.objects.drop_last())
                    && tried_as_found(after.objects.last()) && after.objects.last().put implies
                tried_as_found(#[trigger] after.objects[k]) && after.objects[k].put by {
                if k < after.objects.len() - 1 {
                    assert(after.objects.drop_last()[k] == after.objects[k]);
                }
            }
        }
    }
}

/// A tree counts as committed only if its top was, with every object that the walk listed,
/// each as what it was found to be, and what was left behind was walked to the end. It
/// comes to stand as its top did. Every other end is that of the first step that failed.
pub proof fn tree_commits_tell_what_happened(events: Seq<TreeEvent>)
    ensures
        ({
            let r = tree_record(events);
            let n = r.objects.len();
            r.tree.step matches TreeStep::Over(end) ==> {
                &&& end matches TreeEnd::Committed(disposition) ==> {
                    &&& r.top == Some(Some(disposition))
                    &&& r.listing matches Some(TreeListing::Objects(total)) && n == total
                    &&& r.swept == Some(true)
                    &&& forall|k: int|
                        0 <= k < n ==> {
                            let object = #[trigger] r.objects[k];
                            &&& object.put
                            &&& match object.found {
                                Some(FileKind::Directory) => object.tried == Some(
                                    ManifestEntryKind::Directory,
                                ),
                                Some(FileKind::RegularFile) => object.tried == Some(
                                    ManifestEntryKind::RegularFile,
                                ),
                                Some(FileKind::Symlink) => object.tried == Some(
                                    ManifestEntryKind::Symlink,
                                ),
                                Some(FileKind::Other) | None => false,
                            }
                        }
                }
                &&& end is TopRefused <==> r.top == Some(None::<CommitDisposition>)
                &&& end is NotUtf8 <==> r.listing == Some(TreeListing::NotUtf8)
                &&& end is WalkFailed <==> r.listing == Some(TreeListing::Failed) || r.swept == Some(
                    false,
                )
                &&& end matches TreeEnd::Unreadable(i) ==> i == n - 1 && r.objects.last().found
                    is None
                &&& end matches TreeEnd::Unsupported(i) ==> i == n - 1 && r.objects.last().found
                    == Some(FileKind::Other)
                &&& end matches TreeEnd::Refused(i) ==> i == n - 1 && r.objects.last().tried is Some
                    && !r.objects.last().put
            }
        }),
{
    lemma_tree_record_fits(events);
    let r = tree_record(events);
    assert forall|k: int| 0 <= k < r.objects.len() && objects_put_in_place(r.objects) implies
        tried_as_found(#[trigger] r.objects[k]) && r.objects[k].put by {}
}

/// How far the commit of a tree is from its end.
pub open spec fn tree_distance(tree: TreeCommit) -> int {
    match tree.step {
        TreeStep::CommitTop => 2 * usize::MAX + 5,
        TreeStep::Walk => 2 * usize::MAX + 4,
        TreeStep::Examine(i) => 2 * (tree.total - i) + 3,
        TreeStep::CommitObject(i, _) => 2 * (tree.total - i) + 2,
        TreeStep::Sweep => 1,
        TreeStep::Over(_) => 0,
    }
}

/// An event that reports on the step of a tree.
pub open spec fn tree_answers(step: TreeStep, event: TreeEvent) -> bool {
    match step {
        TreeStep::CommitTop | TreeStep::CommitObject(_, _) => event is Committed,
        TreeStep::Walk => event is Walked,
        TreeStep::Examine(_) => event is Examined,
        TreeStep::Sweep => event is Swept,
        TreeStep::Over(_) => false,
    }
}

/// Every report brings the commit of a tree nearer to its end.
pub proof fn trees_end(tree: TreeCommit, event: TreeEvent)
    requires
        tree.well_formed(),
        tree_answers(tree.step, event),
    ensures
        0 <= tree_distance(tree.after(event)) < tree_distance(tree),
{
}

/// The object whose turn it is: objects are examined and committed in the order of the
/// walk.
pub proof fn trees_go_by_the_walk(events: Seq<TreeEvent>)
    ensures
        tree_record(events).tree.step matches TreeStep::Examine(i) ==> i == tree_record(
            events,
        ).objects.len(),
        tree_record(events).tree.step matches TreeStep::CommitObject(i, _) ==> i == tree_record(
            events,
        ).objects.len() - 1,
{
    lemma_tree_record_fits(events);
}

/// Why the commit of a tree was refused, where not one of its commits was. `object`
/// is the path of the object that was in turn, `detail` what the system said.
pub open spec fn tree_fault_text(end: TreeEnd, object: Seq<char>, detail: Seq<char>) -> Seq<char> {
    match end {
        TreeEnd::WalkFailed => "failed to walk source directory: "@ + detail,
        TreeEnd::NotUtf8 => "non-UTF-8 path in directory tree"@,
        TreeEnd::Unsupported(_) => "unsupported output entry type: "@ + object,
        _ => "failed to read output entry metadata: "@ + detail,
    }
}

/// Why the commit of a tree was refused, where not one of its commits was.
pub fn tree_fault_message(end: TreeEnd, object: &str, detail: &str) -> (m: String)
    ensures
        m@ == tree_fault_text(end, object@, detail@),
{
    match end {
        TreeEnd::WalkFailed => text::cat2("failed to walk source directory: ", detail),
        TreeEnd::NotUtf8 => "non-UTF-8 path in directory tree".to_owned(),
        TreeEnd::Unsupported(_) => text::cat2("unsupported output entry type: ", object),
        _ => text::cat2("failed to read output entry metadata: ", detail),
    }
}

/// The way to a final path goes through the directories below the root along what remains
/// of its parent behind the root; it leads nowhere exactly where the path has no parent, or
/// the parent does not lie below the root. A commit passes as many directories as the way
/// has.
pub proof fn ways_go_from_the_root_to_the_parent(
    way: FinalWay,
    final_path: Seq<char>,
    root: Seq<char>,
)
    requires
        is_way(way, final_path, root),
    ensures
        way is NoParent <==> paths::path_parent(final_path) is None,
        way is Escapes <==> (paths::path_parent(final_path) matches Some(parent)
            && paths::path_strip_prefix(parent, root) is None),
        way matches FinalWay::Escapes { parent } ==> Some(parent@) == paths::path_parent(final_path),
        way matches FinalWay::Through(directories) ==> {
            let relative = paths::path_strip_prefix(paths::path_parent(final_path)->0, root)->0;
            &&& text::texts(directories@) == descend(root, paths::path_components(relative))
            &&& directories@.len() == paths::path_components(relative).len()
            &&& kind_of_way(way) == WayKind::Through(directories.len())
        },
        way is NoParent <==> kind_of_way(way) is NoParent,
        way is Escapes <==> kind_of_way(way) is Escapes,
{
    match way {
        FinalWay::Through(directories) => {
            let relative = paths::path_strip_prefix(paths::path_parent(final_path)->0, root)->0;
            lemma_descend_length(root, paths::path_components(relative));
            assert(text::texts(directories@).len() == directories@.len());
            assert(directories.len() == directories@.len());
        },
        _ => {},
    }
}

/// Directories lie below a root if and only if each of them does, by its components.
pub proof fn directories_below_are_below_one_by_one(directories: Seq<String>, root: Seq<char>)
    ensures
        all_below(directories, root) <==> forall|i: int|
            0 <= i < directories.len() ==> paths::path_components(root).is_prefix_of(
                paths::path_components((#[trigger] directories[i])@),
            ),
{
    if all_below(directories, root) {
        assert forall|i: int| 0 <= i < directories.len() implies paths::path_components(
            root,
        ).is_prefix_of(paths::path_components((#[trigger] directories[i])@)) by {
            assert(paths::path_starts_with(directories[i]@, root));
        }
    }
}

/// What is said of a refusal names what it is about: the root, the final path or the
/// directory in turn where one of them is wrong, and otherwise it ends in the words of the
/// system.
pub proof fn refusals_are_told_with_place_or_cause(
    fault: CommitFault,
    kind: ManifestEntryKind,
    places: CommitPlaces,
    detail: Seq<char>,
)
    ensures
        (match fault {
            CommitFault::RootNotDirectory => places.root@,
            CommitFault::NoParent => places.final_path@,
            CommitFault::Escapes => places.parent@,
            CommitFault::ParentNotDirectory(_) => places.directory@,
            CommitFault::ParentNotCreated(_) => places.directory@ + "': "@ + detail,
            CommitFault::DirectoryNotEmpty => places.final_path@ + "': "@ + detail,
            _ => detail,
        }).is_suffix_of(commit_fault_text(fault, kind, places, detail)),
{
    match fault {
        CommitFault::RootNotDirectory => text::joined_texts_keep_both_ends(
            "destination root is not a directory: "@,
            places.root@,
        ),
        CommitFault::NoParent => text::joined_texts_keep_both_ends(
            "final path has no parent: "@,
            places.final_path@,
        ),
        CommitFault::Escapes => text::joined_texts_keep_both_ends(
            "final parent escapes root: "@,
            places.parent@,
        ),
        CommitFault::ParentNotDirectory(_) => text::joined_texts_keep_both_ends(
            "final parent is not a directory: "@,
            places.directory@,
        ),
        CommitFault::ParentNotCreated(_) => {
            let words = "failed to create final parent '"@;
            let rest = places.directory@ + "': "@ + detail;
            text::joined_texts_keep_both_ends(words, rest);
            assert(words + rest =~= words + places.directory@ + "': "@ + detail);
        },
        CommitFault::DirectoryNotEmpty => {
            let words = "cannot replace non-empty destination directory '"@;
            let rest = places.final_path@ + "': "@ + detail;
            text::joined_texts_keep_both_ends(words, rest);
            assert(words + rest =~= words + places.final_path@ + "': "@ + detail);
        },
        CommitFault::RootNotCreated => text::joined_texts_keep_both_ends(
            "failed to create destination root: "@,
            detail,
        ),
        CommitFault::RootUninspected => text::joined_texts_keep_both_ends(
            "failed to inspect destination root: "@,
            detail,
        ),
        CommitFault::ParentUninspected(_) => text::joined_texts_keep_both_ends(
            "failed to inspect final parent: "@,
            detail,
        ),
        CommitFault::DirectoryUninspected => text::joined_texts_keep_both_ends(
            "failed to inspect destination directory: "@,
            detail,
        ),
        CommitFault::ConflictNotRemoved => text::joined_texts_keep_both_ends(
            "failed to remove conflicting destination: "@,
            detail,
        ),
        CommitFault::DirectoryNotCreated => text::joined_texts_keep_both_ends(
            "failed to create destination directory: "@,
            detail,
        ),
        CommitFault::FinalUninspected => text::joined_texts_keep_both_ends(
            "failed to inspect final destination: "@,
            detail,
        ),
        CommitFault::NotMaterialized => {
            text::joined_texts_keep_both_ends("failed to materialize symlink: "@, detail);
            text::joined_texts_keep_both_ends("failed to materialize regular file: "@, detail);
        },
    }
}

} // verus!
