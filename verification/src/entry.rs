//! One entry of a run: from its staged form to its place at the destination.
//!
//! Nothing is done with an entry before it has been held against its manifest. The
//! staged form itself is never consumed: work starts from a copy.

use vstd::prelude::*;

use crate::model::{
    find_transform, EntryStatusEntry, FileKind, FileStatus, ManifestEntry, ManifestEntryKind,
    TransformDefinition,
};
use crate::paths;
use crate::text;

verus! {

// ---------------------------------------------------------------------------
// Outcomes
// ---------------------------------------------------------------------------

/// What became of an entry.
#[derive(Debug)]
pub enum EntryOutcome {
    Success {
        kind: ManifestEntryKind,
        local_path: String,
        relative_path: String,
        final_paths: Vec<String>,
        transform: Option<String>,
    },
    Failure { kind: ManifestEntryKind, local_path: String, relative_path: String, error: String },
}

/// Whether an outcome tells of an entry that it ended in the given paths, or failed
/// with the given error.
pub open spec fn tells_of(
    outcome: EntryOutcome,
    entry: ManifestEntry,
    result: Result<Seq<Seq<char>>, Seq<char>>,
) -> bool {
    match (outcome, result) {
        (
            EntryOutcome::Success { kind, local_path, relative_path, final_paths, transform },
            Ok(paths),
        ) => {
            &&& kind == entry.kind
            &&& local_path@ == entry.local_path@
            &&& relative_path@ == entry.relative_path@
            &&& text::texts(final_paths@) == paths
            &&& text::opt_text(transform) == text::opt_text(entry.transform)
        },
        (EntryOutcome::Failure { kind, local_path, relative_path, error }, Err(reason)) => {
            &&& kind == entry.kind
            &&& local_path@ == entry.local_path@
            &&& relative_path@ == entry.relative_path@
            &&& error@ == reason
        },
        _ => false,
    }
}

/// Whether a status record says what an outcome says.
pub open spec fn records(record: EntryStatusEntry, outcome: EntryOutcome) -> bool {
    match outcome {
        EntryOutcome::Success { kind, local_path, relative_path, final_paths, transform } => {
            &&& record.kind == kind
            &&& record.local_path@ == local_path@
            &&& record.relative_path@ == relative_path@
            &&& record.status is Imported
            &&& text::texts(record.final_paths@) == text::texts(final_paths@)
            &&& text::opt_text(record.transform) == text::opt_text(transform)
            &&& record.error is None
        },
        EntryOutcome::Failure { kind, local_path, relative_path, error } => {
            &&& record.kind == kind
            &&& record.local_path@ == local_path@
            &&& record.relative_path@ == relative_path@
            &&& record.status is Failed
            &&& record.final_paths@.len() == 0
            &&& record.transform is None
            &&& text::opt_text(record.error) == Some(error@)
        },
    }
}

impl EntryOutcome {
    /// The status record of the outcome.
    pub fn into_entry(self) -> (record: EntryStatusEntry)
        ensures
            records(record, self),
    {
        match self {
            EntryOutcome::Success { kind, local_path, relative_path, final_paths, transform } =>
            EntryStatusEntry {
                kind,
                local_path,
                relative_path,
                status: FileStatus::Imported,
                final_paths,
                transform,
                error: None,
            },
            EntryOutcome::Failure { kind, local_path, relative_path, error } => EntryStatusEntry {
                kind,
                local_path,
                relative_path,
                status: FileStatus::Failed,
                final_paths: Vec::new(),
                transform: None,
                error: Some(error),
            },
        }
    }
}

/// The outcome of an entry that failed.
pub fn failed_entry(entry: &ManifestEntry, error: String) -> (outcome: EntryOutcome)
    ensures
        tells_of(outcome, *entry, Err(error@)),
{
    EntryOutcome::Failure {
        kind: entry.kind,
        local_path: entry.local_path.clone(),
        relative_path: entry.relative_path.clone(),
        error,
    }
}

fn imported_entry(entry: &ManifestEntry, final_paths: Vec<String>) -> (outcome: EntryOutcome)
    ensures
        tells_of(outcome, *entry, Ok(text::texts(final_paths@))),
{
    EntryOutcome::Success {
        kind: entry.kind,
        local_path: entry.local_path.clone(),
        relative_path: entry.relative_path.clone(),
        final_paths,
        transform: text::copy_option(&entry.transform),
    }
}

// ---------------------------------------------------------------------------
// Checks before anything is done
// ---------------------------------------------------------------------------

/// Whether a path lies below a root: it starts with the root and nowhere leads
/// upwards.
pub open spec fn within_root(path: Seq<char>, root: Seq<char>) -> bool {
    paths::path_starts_with(path, root) && !paths::path_components(path).contains(".."@)
}

/// The paths that an entry is about.
#[derive(Debug)]
pub struct EntryPaths {
    pub expected_staged: String,
    pub source_path: String,
    pub work_path: String,
    pub final_path: String,
    pub target_directory: Option<String>,
    pub inside_destination: bool,
}

/// Whether paths are those of an entry.
pub open spec fn paths_of(
    found: EntryPaths,
    entry: ManifestEntry,
    processing: Seq<char>,
    work_area: Seq<char>,
    destination: Seq<char>,
) -> bool {
    let final_path = paths::path_join(destination, entry.relative_path@);
    &&& found.expected_staged@ == paths::path_join("files"@, entry.relative_path@)
    &&& found.source_path@ == paths::path_join(processing, entry.staged_path@)
    &&& found.work_path@ == paths::path_join(work_area, entry.relative_path@)
    &&& found.final_path@ == final_path
    &&& text::opt_text(found.target_directory) == paths::path_parent(final_path)
    &&& found.inside_destination == within_root(final_path, destination)
}

fn has_component(parts: &Vec<String>, part: &str) -> (found: bool)
    ensures
        found == text::texts(parts@).contains(part@),
{
    let mut i: usize = 0;
    while i < parts.len()
        invariant
            i <= parts.len(),
            forall|j: int| 0 <= j < i ==> (#[trigger] parts@[j])@ != part@,
        decreases parts.len() - i,
    {
        if text::same_text(parts[i].as_str(), part) {
            assert(text::texts(parts@)[i as int] == part@);
            return true;
        }
        i = i + 1;
    }
    assert forall|j: int| 0 <= j < text::texts(parts@).len() implies text::texts(parts@)[j]
        != part@ by {
        assert(parts@[j]@ != part@);
    }
    false
}

/// Whether a path lies below a root.
pub fn path_is_within_root(path: &str, root: &str) -> (inside: bool)
    ensures
        inside == within_root(path@, root@),
{
    let parts = paths::components(path);
    paths::starts_with(path, root) && !has_component(&parts, "..")
}

/// The paths that an entry is about. With relative paths in the manifest each lies
/// below its own directory.
pub fn entry_paths(
    entry: &ManifestEntry,
    processing_path: &str,
    work_area: &str,
    destination: &str,
) -> (found: EntryPaths)
    ensures
        paths_of(found, *entry, processing_path@, work_area@, destination@),
        !paths::absolute(entry.staged_path@) ==> paths::path_starts_with(
            found.source_path@,
            processing_path@,
        ),
        !paths::absolute(entry.relative_path@) ==> paths::path_starts_with(
            found.work_path@,
            work_area@,
        ) && paths::path_starts_with(found.final_path@, destination@),
{
    let relative = entry.relative_path.as_str();
    let final_path = paths::join(destination, relative);
    EntryPaths {
        expected_staged: paths::join("files", relative),
        source_path: paths::join(processing_path, entry.staged_path.as_str()),
        work_path: paths::join(work_area, relative),
        target_directory: paths::parent(final_path.as_str()),
        inside_destination: path_is_within_root(final_path.as_str(), destination),
        final_path,
    }
}

/// What was seen of the staged form of an entry.
#[derive(Debug)]
pub struct StagedObservation {
    /// What stands at the staged path.
    pub kind: Result<FileKind, String>,
    /// The size of a regular file and, where the manifest asks for it, its digest.
    pub identity: Result<(u64, Option<String>), String>,
    /// The target of a symbolic link; none if it is not UTF-8.
    pub link_target: Result<Option<String>, String>,
}

/// Whether what was staged is what the manifest announces.
pub open spec fn kind_fits(kind: ManifestEntryKind, staged: FileKind) -> bool {
    match kind {
        ManifestEntryKind::Directory => staged is Directory,
        ManifestEntryKind::RegularFile => staged is RegularFile,
        ManifestEntryKind::Symlink => staged is Symlink,
    }
}

/// What does not fit between a staged file and its manifest entry, if anything.
pub open spec fn identity_error(entry: ManifestEntry, size: u64, digest: Option<String>) -> Option<
    Seq<char>,
> {
    if size != entry.size {
        Some(
            "size mismatch: expected "@ + text::decimal(entry.size as nat) + ", got "@
                + text::decimal(size as nat),
        )
    } else {
        match (entry.sha256, digest) {
            (None, _) => None,
            (Some(expected), Some(found)) => if expected@ == found@ {
                None
            } else {
                Some("sha256 mismatch: expected "@ + expected@ + ", got "@ + found@)
            },
            (Some(expected), None) => Some("sha256 mismatch: expected "@ + expected@ + ", got none"@),
        }
    }
}

/// Holds a staged file against its manifest entry.
pub fn verify_staged(entry: &ManifestEntry, size: u64, digest: &Option<String>) -> (r: Result<
    (),
    String,
>)
    ensures
        match identity_error(*entry, size, *digest) {
            Some(error) => r matches Err(e) && e@ == error,
            None => r is Ok,
        },
{
    if size != entry.size {
        let expected = text::format_decimal(entry.size);
        let found = text::format_decimal(size);
        return Err(
            text::cat4("size mismatch: expected ", expected.as_str(), ", got ", found.as_str()),
        );
    }
    match (&entry.sha256, digest) {
        (None, _) => Ok(()),
        (Some(expected), Some(found)) => {
            if text::same_text(expected.as_str(), found.as_str()) {
                Ok(())
            } else {
                Err(
                    text::cat4(
                        "sha256 mismatch: expected ",
                        expected.as_str(),
                        ", got ",
                        found.as_str(),
                    ),
                )
            }
        },
        (Some(expected), None) => Err(
            text::cat3("sha256 mismatch: expected ", expected.as_str(), ", got none"),
        ),
    }
}

/// Why the staged form of an entry is not accepted, if it is not: it must be what
/// the manifest announces, and a file or a link must hold what it announces.
pub open spec fn staged_refusal(entry: ManifestEntry, staged: StagedObservation) -> Option<
    Seq<char>,
> {
    match staged.kind {
        Err(error) => Some("failed to read staged metadata: "@ + error@),
        Ok(kind) => if !kind_fits(entry.kind, kind) {
            Some("staged filesystem kind does not match manifest kind"@)
        } else {
            match entry.kind {
                ManifestEntryKind::Directory => None,
                ManifestEntryKind::RegularFile => match staged.identity {
                    Err(error) => Some("staged file identity check failed: "@ + error@),
                    Ok(identity) => match identity_error(entry, identity.0, identity.1) {
                        Some(error) => Some("staged file identity check failed: "@ + error),
                        None => None,
                    },
                },
                ManifestEntryKind::Symlink => match entry.link_target {
                    None => Some("symlink manifest entry has no link_target"@),
                    Some(expected) => match staged.link_target {
                        Err(error) => Some("failed to read staged symlink: "@ + error@),
                        Ok(found) => if found matches Some(target)
                            && paths::path_components(target@) == paths::path_components(
                            expected@,
                        ) {
                            None
                        } else {
                            Some("staged symlink target does not match manifest"@)
                        },
                    },
                },
            }
        },
    }
}

/// Why an entry is refused before anything is done, if it is.
pub open spec fn entry_refusal(
    entry: ManifestEntry,
    found: EntryPaths,
    staged: StagedObservation,
) -> Option<Seq<char>> {
    if !paths::normalized_relative(found.expected_staged@) {
        Some("failed to normalize expected staged path"@)
    } else if entry.staged_path@ != found.expected_staged@ {
        Some(
            "staged_path mismatch: expected '"@ + found.expected_staged@ + "', got '"@
                + entry.staged_path@ + "'"@,
        )
    } else {
        match staged_refusal(entry, staged) {
            Some(error) => Some(error),
            None => if !found.inside_destination {
                Some("final path escapes destination: "@ + found.final_path@)
            } else {
                None
            },
        }
    }
}

fn check_staged(entry: &ManifestEntry, staged: &StagedObservation) -> (r: Result<(), String>)
    ensures
        match staged_refusal(*entry, *staged) {
            Some(error) => r matches Err(e) && e@ == error,
            None => r is Ok,
        },
{
    let kind = match &staged.kind {
        Err(error) => {
            return Err(text::cat2("failed to read staged metadata: ", error.as_str()));
        },
        Ok(kind) => *kind,
    };
    let fits = match entry.kind {
        ManifestEntryKind::Directory => kind == FileKind::Directory,
        ManifestEntryKind::RegularFile => kind == FileKind::RegularFile,
        ManifestEntryKind::Symlink => kind == FileKind::Symlink,
    };
    if !fits {
        return Err("staged filesystem kind does not match manifest kind".to_owned());
    }
    match entry.kind {
        ManifestEntryKind::Directory => Ok(()),
        ManifestEntryKind::RegularFile => match &staged.identity {
            Err(error) => Err(
                text::cat2("staged file identity check failed: ", error.as_str()),
            ),
            Ok(identity) => match verify_staged(entry, identity.0, &identity.1) {
                Err(error) => Err(
                    text::cat2("staged file identity check failed: ", error.as_str()),
                ),
                Ok(()) => Ok(()),
            },
        },
        ManifestEntryKind::Symlink => match &entry.link_target {
            None => Err("symlink manifest entry has no link_target".to_owned()),
            Some(expected) => match &staged.link_target {
                Err(error) => Err(text::cat2("failed to read staged symlink: ", error.as_str())),
                Ok(Some(target)) => {
                    if paths::same_path(target.as_str(), expected.as_str()) {
                        Ok(())
                    } else {
                        Err("staged symlink target does not match manifest".to_owned())
                    }
                },
                Ok(None) => Err("staged symlink target does not match manifest".to_owned()),
            },
        },
    }
}

/// Holds an entry against its manifest before anything is done.
pub fn check_entry(entry: &ManifestEntry, found: &EntryPaths, staged: &StagedObservation) -> (r:
    Result<(), String>)
    ensures
        match entry_refusal(*entry, *found, *staged) {
            Some(error) => r matches Err(e) && e@ == error,
            None => r is Ok,
        },
{
    if !paths::is_normalized_relative(found.expected_staged.as_str()) {
        return Err("failed to normalize expected staged path".to_owned());
    }
    if !text::same_text(entry.staged_path.as_str(), found.expected_staged.as_str()) {
        return Err(
            text::cat5(
                "staged_path mismatch: expected '",
                found.expected_staged.as_str(),
                "', got '",
                entry.staged_path.as_str(),
                "'",
            ),
        );
    }
    match check_staged(entry, staged) {
        Err(error) => {
            return Err(error);
        },
        Ok(()) => {},
    }
    if !found.inside_destination {
        return Err(text::cat2("final path escapes destination: ", found.final_path.as_str()));
    }
    Ok(())
}

// ---------------------------------------------------------------------------
// The way of an entry
// ---------------------------------------------------------------------------

/// What is known of an entry so far: what was seen of its staged form, how the copy
/// into the work area went, and how the commit or the transform went.
#[derive(Debug)]
pub struct EntryReports {
    pub staged: StagedObservation,
    pub prepared: Option<Result<(), String>>,
    pub finished: Option<Result<Vec<String>, String>>,
}

/// The next thing to do for an entry.
#[derive(Debug)]
pub enum EntryStep {
    /// Copy the staged form into the work area.
    PrepareWork,
    /// Move the copy to its final path.
    Commit,
    /// Run the transform at this position of the configuration on the copy.
    Transform(usize),
    Over(EntryOutcome),
}

/// What a prepared entry goes through: a commit, or the transform that it names.
pub open spec fn route(
    entry: ManifestEntry,
    found: EntryPaths,
    transforms: Seq<TransformDefinition>,
) -> Result<Option<Seq<char>>, Seq<char>> {
    match entry.transform {
        None => Ok(None),
        Some(name) => if found.target_directory is None {
            Err("final path has no parent: "@ + found.final_path@)
        } else if !crate::model::defines(transforms, name@) {
            Err("transform '"@ + name@ + "' not defined on server"@)
        } else {
            Ok(Some(name@))
        },
    }
}

/// Whether a position is that of the first transform of a name.
pub open spec fn first_named(
    transforms: Seq<TransformDefinition>,
    index: int,
    name: Seq<char>,
) -> bool {
    &&& 0 <= index < transforms.len()
    &&& transforms[index].name@ == name
    &&& forall|j: int| 0 <= j < index ==> (#[trigger] transforms[j]).name@ != name
}

/// Whether a step is the next one for an entry.
pub open spec fn is_next(
    step: EntryStep,
    entry: ManifestEntry,
    found: EntryPaths,
    transforms: Seq<TransformDefinition>,
    reports: EntryReports,
) -> bool {
    let fails = |reason: Seq<char>|
        step matches EntryStep::Over(outcome) && tells_of(outcome, entry, Err(reason));
    match entry_refusal(entry, found, reports.staged) {
        Some(error) => fails(error),
        None => match reports.prepared {
            None => step is PrepareWork,
            Some(Err(error)) => fails(error@),
            Some(Ok(_)) => match route(entry, found, transforms) {
                Err(error) => fails(error),
                Ok(named) => match reports.finished {
                    Some(Err(error)) => fails(error@),
                    Some(Ok(outputs)) => step matches EntryStep::Over(outcome) && tells_of(
                        outcome,
                        entry,
                        Ok(
                            if named is None {
                                seq![found.final_path@]
                            } else {
                                text::texts(outputs@)
                            },
                        ),
                    ),
                    None => match named {
                        None => step is Commit,
                        Some(name) => step matches EntryStep::Transform(index) && first_named(
                            transforms,
                            index as int,
                            name,
                        ),
                    },
                },
            },
        },
    }
}

/// Decides the next thing to do for an entry. An entry without a transform is moved
/// to its final path, which is then its only output; an entry with one is handed to
/// the transform, whose outputs are recorded where the transform left them.
pub fn process_manifest_entry(
    entry: &ManifestEntry,
    found: &EntryPaths,
    transforms: &Vec<TransformDefinition>,
    reports: &EntryReports,
) -> (step: EntryStep)
    ensures
        is_next(step, *entry, *found, transforms@, *reports),
{
    match check_entry(entry, found, &reports.staged) {
        Err(error) => {
            return EntryStep::Over(failed_entry(entry, error));
        },
        Ok(()) => {},
    }
    match &reports.prepared {
        None => {
            return EntryStep::PrepareWork;
        },
        Some(Err(error)) => {
            return EntryStep::Over(failed_entry(entry, error.clone()));
        },
        Some(Ok(_)) => {},
    }
    match &entry.transform {
        None => match &reports.finished {
            None => EntryStep::Commit,
            Some(Err(error)) => EntryStep::Over(failed_entry(entry, error.clone())),
            Some(Ok(_)) => {
                let mut final_paths: Vec<String> = Vec::new();
                final_paths.push(found.final_path.clone());
                assert(text::texts(final_paths@) =~= seq![found.final_path@]);
                EntryStep::Over(imported_entry(entry, final_paths))
            },
        },
        Some(name) => {
            if found.target_directory.is_none() {
                return EntryStep::Over(
                    failed_entry(
                        entry,
                        text::cat2("final path has no parent: ", found.final_path.as_str()),
                    ),
                );
            }
            match find_transform(transforms, name.as_str()) {
                None => EntryStep::Over(
                    failed_entry(
                        entry,
                        text::cat3("transform '", name.as_str(), "' not defined on server"),
                    ),
                ),
                Some(index) => match &reports.finished {
                    None => EntryStep::Transform(index),
                    Some(Err(error)) => EntryStep::Over(failed_entry(entry, error.clone())),
                    Some(Ok(outputs)) => EntryStep::Over(
                        imported_entry(entry, text::copy_list(outputs)),
                    ),
                },
            }
        },
    }
}

/// An entry is touched only if it is what its manifest entry announces and will end
/// below the destination: any other entry is over, as a failure, before its first
/// step.
pub proof fn refused_entries_are_not_touched(
    step: EntryStep,
    entry: ManifestEntry,
    found: EntryPaths,
    transforms: Seq<TransformDefinition>,
    reports: EntryReports,
)
    requires
        is_next(step, entry, found, transforms, reports),
        !(staged_refusal(entry, reports.staged) is None && found.inside_destination
            && entry.staged_path@ == found.expected_staged@),
    ensures
        step matches EntryStep::Over(outcome) && outcome is Failure,
{
}

/// An entry counts as imported only after its copy was prepared and its commit or
/// transform succeeded.
pub proof fn imported_entries_went_all_the_way(
    step: EntryStep,
    entry: ManifestEntry,
    found: EntryPaths,
    transforms: Seq<TransformDefinition>,
    reports: EntryReports,
)
    requires
        is_next(step, entry, found, transforms, reports),
        step matches EntryStep::Over(outcome) && outcome is Success,
    ensures
        reports.prepared matches Some(Ok(_)),
        reports.finished matches Some(Ok(_)),
        staged_refusal(entry, reports.staged) is None,
{
}

/// A staged file is accepted if and only if it has the size that the manifest announces
/// and, where the manifest announces a digest, exactly this digest.
pub proof fn staged_files_are_accepted_by_size_and_digest(
    entry: ManifestEntry,
    size: u64,
    digest: Option<String>,
)
    ensures
        identity_error(entry, size, digest) is None <==> {
            &&& size == entry.size
            &&& entry.sha256 matches Some(announced) ==> (digest matches Some(found) && found@
                == announced@)
        },
{
}

/// What was staged is accepted if and only if it is of the announced kind and holds what
/// was announced: a file has the announced size and digest, a link leads where it was
/// announced to lead. Of a directory nothing more is asked.
pub proof fn staged_forms_are_accepted_as_announced(entry: ManifestEntry, staged: StagedObservation)
    ensures
        staged_refusal(entry, staged) is None <==> match entry.kind {
            ManifestEntryKind::Directory => staged.kind == Ok::<FileKind, String>(
                FileKind::Directory,
            ),
            ManifestEntryKind::RegularFile => {
                &&& staged.kind == Ok::<FileKind, String>(FileKind::RegularFile)
                &&& staged.identity matches Ok(identity)
                &&& identity.0 == entry.size
                &&& entry.sha256 matches Some(announced) ==> (identity.1 matches Some(found)
                    && found@ == announced@)
            },
            ManifestEntryKind::Symlink => {
                &&& staged.kind == Ok::<FileKind, String>(FileKind::Symlink)
                &&& entry.link_target matches Some(announced)
                &&& staged.link_target matches Ok(Some(found))
                &&& paths::path_components(found@) == paths::path_components(announced@)
            },
        },
{
}

/// An entry that was imported was what its manifest announced: a file with a digest in
/// its manifest had exactly that digest, a file the announced size, a link the announced
/// target, and each the announced kind. It stood where it had to be staged and ended
/// below the destination.
pub proof fn imported_entries_were_as_announced(
    step: EntryStep,
    entry: ManifestEntry,
    found: EntryPaths,
    transforms: Seq<TransformDefinition>,
    reports: EntryReports,
)
    requires
        is_next(step, entry, found, transforms, reports),
        step matches EntryStep::Over(outcome) && outcome is Success,
    ensures
        entry.staged_path@ == found.expected_staged@,
        found.inside_destination,
        entry.kind is Directory ==> reports.staged.kind == Ok::<FileKind, String>(
            FileKind::Directory,
        ),
        entry.kind is RegularFile ==> {
            &&& reports.staged.kind == Ok::<FileKind, String>(FileKind::RegularFile)
            &&& reports.staged.identity matches Ok(identity)
            &&& identity.0 == entry.size
            &&& entry.sha256 matches Some(announced) ==> (identity.1 matches Some(found) && found@
                == announced@)
        },
        entry.kind is Symlink ==> {
            &&& reports.staged.kind == Ok::<FileKind, String>(FileKind::Symlink)
            &&& entry.link_target matches Some(announced)
            &&& reports.staged.link_target matches Ok(Some(found))
            &&& paths::path_components(found@) == paths::path_components(announced@)
        },
        entry.transform matches Some(name) ==> exists|i: int|
            0 <= i < transforms.len() && (#[trigger] transforms[i]).name@ == name@,
{
}

/// The outcome of an entry whose copy and whose commit or transform succeeded: it is
/// imported, under the paths of the manifest, at its final path or, through a transform,
/// at the outputs of the transform.
pub proof fn accepted_entries_are_imported(
    step: EntryStep,
    entry: ManifestEntry,
    found: EntryPaths,
    transforms: Seq<TransformDefinition>,
    reports: EntryReports,
)
    requires
        is_next(step, entry, found, transforms, reports),
        paths::normalized_relative(found.expected_staged@),
        entry.staged_path@ == found.expected_staged@,
        found.inside_destination,
        staged_refusal(entry, reports.staged) is None,
        entry.transform matches Some(name) ==> {
            &&& found.target_directory is Some
            &&& exists|i: int| 0 <= i < transforms.len() && (#[trigger] transforms[i]).name@ == name@
        },
    ensures
        reports.prepared is None ==> step is PrepareWork,
        (reports.prepared matches Some(Ok(_))) && reports.finished is None ==> match entry.transform {
            None => step is Commit,
            Some(name) => step matches EntryStep::Transform(index) && transforms[index as int].name@
                == name@,
        },
        (reports.prepared matches Some(Ok(_))) && (reports.finished matches Some(Ok(_))) ==> {
            &&& step matches EntryStep::Over(outcome)
            &&& outcome matches EntryOutcome::Success {
                kind,
                local_path,
                relative_path,
                final_paths,
                transform,
            }
            &&& kind == entry.kind
            &&& local_path@ == entry.local_path@
            &&& relative_path@ == entry.relative_path@
            &&& match entry.transform {
                None => transform is None && final_paths@.len() == 1 && final_paths@[0]@
                    == found.final_path@,
                Some(name) => {
                    let outputs = reports.finished->0->Ok_0@;
                    &&& transform matches Some(used) && used@ == name@
                    &&& final_paths@.len() == outputs.len()
                    &&& forall|i: int|
                        0 <= i < outputs.len() ==> (#[trigger] final_paths@[i])@ == outputs[i]@
                },
            }
        },
{
    if (reports.prepared matches Some(Ok(_))) && (reports.finished matches Some(Ok(_))) {
        match step {
            EntryStep::Over(EntryOutcome::Success { final_paths, .. }) => {
                let shown = text::texts(final_paths@);
                assert(shown.len() == final_paths@.len());
                assert forall|i: int| 0 <= i < final_paths@.len() implies (
                #[trigger] final_paths@[i])@ == shown[i] by {}
                let outputs = reports.finished->0->Ok_0@;
                assert forall|i: int| 0 <= i < outputs.len() implies text::texts(outputs)[i]
                    == (#[trigger] outputs[i])@ by {}
                assert(seq![found.final_path@][0] == found.final_path@);
            },
            _ => {},
        }
    }
}

/// A failure on the way of an accepted entry is its outcome, in the words in which it was
/// reported.
pub proof fn failures_on_the_way_are_told(
    step: EntryStep,
    entry: ManifestEntry,
    found: EntryPaths,
    transforms: Seq<TransformDefinition>,
    reports: EntryReports,
    reason: String,
)
    requires
        is_next(step, entry, found, transforms, reports),
        entry_refusal(entry, found, reports.staged) is None,
        entry.transform is None || route(entry, found, transforms) is Ok,
        ({
            ||| reports.prepared == Some(Err::<(), String>(reason))
            ||| (reports.prepared matches Some(Ok(_))) && reports.finished == Some(
                Err::<Vec<String>, String>(reason),
            )
        }),
    ensures
        step matches EntryStep::Over(EntryOutcome::Failure {
            kind,
            local_path,
            relative_path,
            error,
        }) && kind == entry.kind && local_path@ == entry.local_path@ && relative_path@
            == entry.relative_path@ && error@ == reason@,
{
}

/// A status record says of an entry that it was imported if and only if it was, and where
/// it ended; of one that failed it says why, and nothing of outputs.
pub proof fn records_tell_what_became_of_entries(
    record: EntryStatusEntry,
    outcome: EntryOutcome,
    entry: ManifestEntry,
    result: Result<Seq<Seq<char>>, Seq<char>>,
)
    requires
        records(record, outcome),
        tells_of(outcome, entry, result),
    ensures
        record.kind == entry.kind,
        record.local_path@ == entry.local_path@,
        record.relative_path@ == entry.relative_path@,
        record.status is Imported <==> result is Ok,
        record.status is Failed <==> result is Err,
        result matches Ok(ends) ==> {
            &&& record.error is None
            &&& record.final_paths@.len() == ends.len()
            &&& forall|i: int|
                0 <= i < ends.len() ==> (#[trigger] record.final_paths@[i])@ == ends[i]
            &&& match entry.transform {
                None => record.transform is None,
                Some(name) => record.transform matches Some(used) && used@ == name@,
            }
        },
        result matches Err(reason) ==> {
            &&& record.error matches Some(error) && error@ == reason
            &&& record.final_paths@.len() == 0
            &&& record.transform is None
        },
{
    if result is Ok {
        let shown = text::texts(record.final_paths@);
        assert forall|i: int| 0 <= i < record.final_paths@.len() implies (
        #[trigger] record.final_paths@[i])@ == shown[i] by {}
    }
}

/// A path lies inside a root if and only if it has the components of the root and then
/// further ones, and none of its components leads upwards.
pub proof fn inside_is_below_and_never_upwards(path: Seq<char>, root: Seq<char>)
    ensures
        within_root(path, root) <==> {
            &&& exists|rest: Seq<Seq<char>>|
                paths::path_components(path) == #[trigger] (paths::path_components(root) + rest)
            &&& forall|k: int|
                0 <= k < paths::path_components(path).len() ==> #[trigger] paths::path_components(
                    path,
                )[k] != ".."@
        },
{
    paths::below_is_by_components(path, root);
    let parts = paths::path_components(path);
    if parts.contains(".."@) {
        let k = choose|k: int| 0 <= k < parts.len() && parts[k] == ".."@;
        assert(parts[k] == ".."@);
    }
}

/// An entry is staged below `files`, copied below the work area and ends below the
/// destination, each time under its relative path; what it is read from is the staged path
/// of its manifest.
pub proof fn entries_keep_their_relative_path(
    found: EntryPaths,
    entry: ManifestEntry,
    processing: Seq<char>,
    work_area: Seq<char>,
    destination: Seq<char>,
)
    requires
        paths_of(found, entry, processing, work_area, destination),
    ensures
        found.expected_staged@ == paths::path_join("files"@, entry.relative_path@),
        found.source_path@ == paths::path_join(processing, entry.staged_path@),
        found.work_path@ == paths::path_join(work_area, entry.relative_path@),
        found.final_path@ == paths::path_join(destination, entry.relative_path@),
        found.target_directory is Some <==> paths::path_parent(found.final_path@) is Some,
        found.target_directory matches Some(directory) ==> paths::path_parent(found.final_path@)
            == Some(directory@),
        found.inside_destination <==> within_root(found.final_path@, destination),
{
}

/// What is said of a staged file that is refused tells what was announced and then what was
/// found.
pub proof fn mismatches_tell_both_sides(
    entry: ManifestEntry,
    size: u64,
    digest: Option<String>,
    expected: String,
)
    requires
        entry.sha256 == Some(expected),
        identity_error(entry, size, digest) is Some,
    ensures
        size != entry.size ==> identity_error(entry, size, digest)->0 == "size mismatch: expected "@
            + text::decimal(entry.size as nat) + (", got "@ + text::decimal(size as nat)),
        size == entry.size ==> identity_error(entry, size, digest)->0
            == "sha256 mismatch: expected "@ + expected@ + (match digest {
            Some(found) => ", got "@ + found@,
            None => ", got none"@,
        }),
{
    if size != entry.size {
        assert(identity_error(entry, size, digest)->0 =~= "size mismatch: expected "@
            + text::decimal(entry.size as nat) + (", got "@ + text::decimal(size as nat)));
    } else if digest is Some {
        assert(identity_error(entry, size, digest)->0 =~= "sha256 mismatch: expected "@ + expected@
            + (", got "@ + digest->0@));
    }
}

} // verus!
