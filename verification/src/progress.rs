//! Progress of a run for observers.
//!
//! Progress is advisory: it is validated before it is written, it never overwrites
//! what another release line wrote, and the start time that it names is that of the
//! first write.

use vstd::prelude::*;

use crate::model::{Lookup, Nickname, ProcessingProgress, RunId};
use crate::text;
use crate::version;
use crate::version::{current_purgery_version, VersionProbe, PROGRESS_FILE_VERSION};

verus! {

/// A report on how far a run has come.
#[derive(Debug)]
pub struct ProgressUpdate {
    pub state: String,
    pub entry_index: usize,
    pub entry_total: usize,
    pub current_entry: String,
    pub current_transform: String,
}

impl ProgressUpdate {
    /// A report.
    pub fn new(
        state: &str,
        entry_index: usize,
        entry_total: usize,
        current_entry: &str,
        current_transform: &str,
    ) -> (update: ProgressUpdate)
        ensures
            update.state@ == state@,
            update.entry_index == entry_index,
            update.entry_total == entry_total,
            update.current_entry@ == current_entry@,
            update.current_transform@ == current_transform@,
    {
        ProgressUpdate {
            state: state.to_owned(),
            entry_index,
            entry_total,
            current_entry: current_entry.to_owned(),
            current_transform: current_transform.to_owned(),
        }
    }
}

/// A state that concerns the run as a whole.
pub open spec fn run_level(state: Seq<char>) -> bool {
    state == "processing_started"@ || state == "publishing_status"@
}

/// A state that concerns a transform of one entry.
pub open spec fn transform_level(state: Seq<char>) -> bool {
    state == "transform_started"@ || state == "transform_running"@ || state
        == "transform_finished"@
}

/// What is wrong with the entry that a per-entry report names, if anything.
pub open spec fn entry_error(
    state: Seq<char>,
    entry_index: usize,
    entry_total: usize,
    current_entry: Seq<char>,
) -> Option<Seq<char>> {
    if entry_total == 0 {
        Some("per-entry progress state "@ + state + " must have entry_total > 0"@)
    } else if entry_index >= entry_total {
        Some("entry_index must be less than entry_total"@)
    } else if current_entry.len() == 0 {
        Some("per-entry progress state "@ + state + " must have current_entry"@)
    } else {
        None
    }
}

/// What is wrong with a report, if anything.
pub open spec fn progress_error(
    state: Seq<char>,
    entry_index: usize,
    entry_total: usize,
    current_entry: Seq<char>,
    current_transform: Seq<char>,
) -> Option<Seq<char>> {
    if run_level(state) {
        if current_entry.len() > 0 {
            Some("run-level progress state "@ + state + " must not have current_entry"@)
        } else if current_transform.len() > 0 {
            Some("run-level progress state "@ + state + " must not have current_transform"@)
        } else {
            None
        }
    } else if state == "processing_entry"@ {
        match entry_error(state, entry_index, entry_total, current_entry) {
            Some(error) => Some(error),
            None => if current_transform.len() > 0 {
                Some("processing_entry must not have current_transform"@)
            } else {
                None
            },
        }
    } else if transform_level(state) {
        match entry_error(state, entry_index, entry_total, current_entry) {
            Some(error) => Some(error),
            None => if current_transform.len() == 0 {
                Some("transform progress state "@ + state + " must have current_transform"@)
            } else {
                None
            },
        }
    } else {
        Some("unknown progress state: "@ + state)
    }
}

/// What is wrong with a report, if anything.
pub open spec fn update_error(update: ProgressUpdate) -> Option<Seq<char>> {
    progress_error(
        update.state@,
        update.entry_index,
        update.entry_total,
        update.current_entry@,
        update.current_transform@,
    )
}

fn check_entry(
    state: &str,
    entry_index: usize,
    entry_total: usize,
    current_entry: &str,
) -> (r: Result<(), String>)
    ensures
        match entry_error(state@, entry_index, entry_total, current_entry@) {
            Some(error) => r matches Err(e) && e@ == error,
            None => r is Ok,
        },
{
    if entry_total == 0 {
        return Err(
            text::cat3("per-entry progress state ", state, " must have entry_total > 0"),
        );
    }
    if entry_index >= entry_total {
        return Err("entry_index must be less than entry_total".to_owned());
    }
    if current_entry.is_empty() {
        return Err(text::cat3("per-entry progress state ", state, " must have current_entry"));
    }
    Ok(())
}

/// Checks that a report makes sense: run-level states name no entry, per-entry
/// states name one that exists, and exactly the transform states name a transform.
pub fn validate_progress_update(
    state: &str,
    entry_index: usize,
    entry_total: usize,
    current_entry: &str,
    current_transform: &str,
) -> (r: Result<(), String>)
    ensures
        match progress_error(
            state@,
            entry_index,
            entry_total,
            current_entry@,
            current_transform@,
        ) {
            Some(error) => r matches Err(e) && e@ == error,
            None => r is Ok,
        },
{
    if text::same_text(state, "processing_started") || text::same_text(state, "publishing_status") {
        if !current_entry.is_empty() {
            return Err(
                text::cat3("run-level progress state ", state, " must not have current_entry"),
            );
        }
        if !current_transform.is_empty() {
            return Err(
                text::cat3("run-level progress state ", state, " must not have current_transform"),
            );
        }
        return Ok(());
    }
    if text::same_text(state, "processing_entry") {
        check_entry(state, entry_index, entry_total, current_entry)?;
        if !current_transform.is_empty() {
            return Err("processing_entry must not have current_transform".to_owned());
        }
        return Ok(());
    }
    if text::same_text(state, "transform_started") || text::same_text(state, "transform_running")
        || text::same_text(state, "transform_finished") {
        check_entry(state, entry_index, entry_total, current_entry)?;
        if current_transform.is_empty() {
            return Err(
                text::cat3("transform progress state ", state, " must have current_transform"),
            );
        }
        return Ok(());
    }
    Err(text::cat2("unknown progress state: ", state))
}

/// What is already there when progress is about to be written.
#[derive(Clone, Copy, PartialEq, Eq, Structural, Debug)]
pub enum ExistingProgress {
    /// Progress of this run, with the time at which it began.
    CompatibleStartedAt(u64),
    /// No progress.
    Missing,
    /// Progress of a missing or another version. It must not be overwritten.
    Incompatible,
    /// Damaged progress, or progress of another run. It may be overwritten.
    Malformed,
}

/// What is already there.
pub open spec fn existing_progress(
    found: Lookup<ProcessingProgress>,
    nickname: Seq<char>,
    run_id: Seq<char>,
) -> ExistingProgress {
    match found {
        Lookup::Found(document) => match document.version@ {
            version::ProbeView::Missing => ExistingProgress::Incompatible,
            version::ProbeView::Invalid(_) => ExistingProgress::Malformed,
            version::ProbeView::Version(v) => if !version::compatible(v) {
                ExistingProgress::Incompatible
            } else {
                match document.parsed {
                    Ok(progress) => if progress.nickname@ == nickname && progress.run_id@
                        == run_id {
                        ExistingProgress::CompatibleStartedAt(progress.started_at_unix_secs)
                    } else {
                        ExistingProgress::Malformed
                    },
                    Err(_) => ExistingProgress::Malformed,
                }
            },
        },
        _ => ExistingProgress::Missing,
    }
}

/// Judges what is already there.
pub fn existing_progress_started_at(
    found: &Lookup<ProcessingProgress>,
    nickname: &Nickname,
    run_id: &RunId,
) -> (existing: ExistingProgress)
    ensures
        existing == existing_progress(*found, nickname@, run_id@),
{
    match found {
        Lookup::Found(document) => match &document.version {
            VersionProbe::Missing => ExistingProgress::Incompatible,
            VersionProbe::Invalid(_) => ExistingProgress::Malformed,
            VersionProbe::Version(v) => {
                if !version::is_compatible(v.as_str()) {
                    return ExistingProgress::Incompatible;
                }
                match &document.parsed {
                    Ok(progress) => {
                        if text::same_text(progress.nickname.as_str(), nickname.as_str())
                            && text::same_text(progress.run_id.as_str(), run_id.as_str()) {
                            ExistingProgress::CompatibleStartedAt(progress.started_at_unix_secs)
                        } else {
                            ExistingProgress::Malformed
                        }
                    },
                    Err(_) => ExistingProgress::Malformed,
                }
            },
        },
        _ => ExistingProgress::Missing,
    }
}

/// Whether progress is the one to write for a report.
pub open spec fn reports(
    progress: ProcessingProgress,
    update: ProgressUpdate,
    nickname: Seq<char>,
    run_id: Seq<char>,
    started_at: u64,
    now: u64,
) -> bool {
    &&& progress.protocol_version == PROGRESS_FILE_VERSION
    &&& progress.purgery_version@ == version::current_version()
    &&& progress.nickname@ == nickname
    &&& progress.run_id@ == run_id
    &&& progress.phase@ == "processing"@
    &&& progress.state@ == update.state@
    &&& progress.entry_index == update.entry_index
    &&& progress.entry_total == update.entry_total
    &&& progress.current_entry@ == update.current_entry@
    &&& progress.current_transform@ == update.current_transform@
    &&& progress.started_at_unix_secs == started_at
    &&& progress.updated_at_unix_secs == now
}

/// The start time that a write names, or none if nothing may be written.
pub open spec fn start_time(existing: ExistingProgress, now: u64) -> Option<u64> {
    match existing {
        ExistingProgress::CompatibleStartedAt(started_at) => Some(started_at),
        ExistingProgress::Incompatible => None,
        ExistingProgress::Missing | ExistingProgress::Malformed => Some(now),
    }
}

/// What writing a report must come to.
pub open spec fn write_outcome(
    r: Result<Option<ProcessingProgress>, String>,
    existing: Lookup<ProcessingProgress>,
    update: ProgressUpdate,
    nickname: Seq<char>,
    run_id: Seq<char>,
    now: u64,
) -> bool {
    match update_error(update) {
        Some(error) => r matches Err(e) && e@ == error,
        None => match start_time(existing_progress(existing, nickname, run_id), now) {
            Some(started_at) => r matches Ok(Some(progress)) && reports(
                progress,
                update,
                nickname,
                run_id,
                started_at,
                now,
            ),
            None => r matches Ok(None),
        },
    }
}

/// Decides what to write for a report: an error for a report that makes no sense,
/// nothing where another release line has written, and otherwise the new progress.
pub fn write_progress(
    existing: &Lookup<ProcessingProgress>,
    nickname: &Nickname,
    run_id: &RunId,
    update: &ProgressUpdate,
    now: u64,
) -> (r: Result<Option<ProcessingProgress>, String>)
    ensures
        write_outcome(r, *existing, *update, nickname@, run_id@, now),
{
    match validate_progress_update(
        update.state.as_str(),
        update.entry_index,
        update.entry_total,
        update.current_entry.as_str(),
        update.current_transform.as_str(),
    ) {
        Err(error) => {
            return Err(error);
        },
        Ok(()) => {},
    }
    let started_at: u64 = match existing_progress_started_at(existing, nickname, run_id) {
        ExistingProgress::CompatibleStartedAt(started_at) => started_at,
        ExistingProgress::Incompatible => {
            return Ok(None);
        },
        ExistingProgress::Missing | ExistingProgress::Malformed => now,
    };
    Ok(
        Some(
            ProcessingProgress {
                protocol_version: PROGRESS_FILE_VERSION,
                purgery_version: current_purgery_version().to_owned(),
                nickname: nickname.as_str().to_owned(),
                run_id: run_id.as_str().to_owned(),
                phase: "processing".to_owned(),
                state: update.state.clone(),
                entry_index: update.entry_index,
                entry_total: update.entry_total,
                current_entry: update.current_entry.clone(),
                current_transform: update.current_transform.clone(),
                started_at_unix_secs: started_at,
                updated_at_unix_secs: now,
            },
        ),
    )
}

/// Like `write_progress`, for callers that go on whatever happens: a report that
/// makes no sense writes nothing.
pub fn write_progress_best_effort(
    existing: &Lookup<ProcessingProgress>,
    nickname: &Nickname,
    run_id: &RunId,
    update: &ProgressUpdate,
    now: u64,
) -> (written: Option<ProcessingProgress>)
    ensures
        update_error(*update) is Some ==> written is None,
        update_error(*update) is None ==> write_outcome(
            Ok(written),
            *existing,
            *update,
            nickname@,
            run_id@,
            now,
        ),
{
    match write_progress(existing, nickname, run_id, update, now) {
        Ok(written) => written,
        Err(_) => None,
    }
}

/// The start time survives any number of writes: what one write leaves behind, the
/// next one finds, and both name the same start.
pub proof fn start_time_is_stable(
    first: ProcessingProgress,
    found: Lookup<ProcessingProgress>,
    update: ProgressUpdate,
    nickname: Seq<char>,
    run_id: Seq<char>,
    started_at: u64,
    then: u64,
    now: u64,
)
    requires
        reports(first, update, nickname, run_id, started_at, then),
        found matches Lookup::Found(document) && document.version@ == version::ProbeView::Version(
            first.purgery_version@,
        ) && document.parsed == Ok::<ProcessingProgress, String>(first),
    ensures
        start_time(existing_progress(found, nickname, run_id), now) == Some(started_at),
{
    version::own_version_is_compatible();
}

/// Progress of another run never lends its start time.
pub proof fn start_time_is_not_borrowed(
    found: Lookup<ProcessingProgress>,
    nickname: Seq<char>,
    run_id: Seq<char>,
    now: u64,
)
    requires
        found matches Lookup::Found(document) && document.parsed matches Ok(progress) && (
        progress.nickname@ != nickname || progress.run_id@ != run_id),
    ensures
        start_time(existing_progress(found, nickname, run_id), now) matches Some(t) ==> t == now,
{
}

/// A report that makes no sense and progress of another release line both leave the
/// file as it is.
pub proof fn foreign_progress_is_not_overwritten(
    r: Result<Option<ProcessingProgress>, String>,
    existing: Lookup<ProcessingProgress>,
    update: ProgressUpdate,
    nickname: Seq<char>,
    run_id: Seq<char>,
    now: u64,
)
    requires
        write_outcome(r, existing, update, nickname, run_id, now),
        update_error(update) is Some || (existing matches Lookup::Found(document) && (
        document.version@ is Missing || (document.version@ matches version::ProbeView::Version(v)
            && !version::compatible(v)))),
    ensures
        !(r matches Ok(Some(_))),
{
}

/// A report makes sense if and only if it is of a known state and names what belongs to
/// it: nothing for the run as a whole, an entry that exists for an entry, and for a
/// transform the transform too.
pub proof fn reports_name_what_they_are_about(update: ProgressUpdate)
    ensures
        update_error(update) is None <==> {
            let state = update.state@;
            let of_run = state == "processing_started"@ || state == "publishing_status"@;
            let of_entry = state == "processing_entry"@;
            let of_transform = state == "transform_started"@ || state == "transform_running"@
                || state == "transform_finished"@;
            &&& of_run || of_entry || of_transform
            &&& of_run <==> update.current_entry@.len() == 0
            &&& of_transform <==> update.current_transform@.len() > 0
            &&& !of_run ==> update.entry_index < update.entry_total
        },
{
    reveal_strlit("processing_started");
    reveal_strlit("publishing_status");
    reveal_strlit("processing_entry");
    reveal_strlit("transform_started");
    reveal_strlit("transform_running");
    reveal_strlit("transform_finished");
    assert("processing_started"@.len() == 18);
    assert("publishing_status"@.len() == 17);
    assert("processing_entry"@.len() == 16);
    assert("transform_started"@.len() == 17);
    assert("transform_running"@.len() == 17);
    assert("transform_finished"@.len() == 18);
    assert("processing_started"@[0] == 'p');
    assert("publishing_status"@[0] == 'p');
    assert("transform_started"@[0] == 't');
    assert("transform_running"@[0] == 't');
    assert("transform_finished"@[0] == 't');
}

/// A report that makes sense is written, unless what is there names no version or one of
/// another release line. What is written is the report, for this run and at this moment.
/// Its start is that of the progress of this run that is there, and now if there is none
/// that can be read.
pub proof fn written_progress_is_the_report(
    r: Result<Option<ProcessingProgress>, String>,
    existing: Lookup<ProcessingProgress>,
    update: ProgressUpdate,
    nickname: Seq<char>,
    run_id: Seq<char>,
    now: u64,
)
    requires
        write_outcome(r, existing, update, nickname, run_id, now),
    ensures
        r is Ok <==> update_error(update) is None,
        (r matches Ok(Some(_))) <==> update_error(update) is None && !(
        existing matches Lookup::Found(document) && (document.version@ is Missing || (
        document.version@ matches version::ProbeView::Version(v) && !version::compatible(v)))),
        r matches Ok(Some(written)) ==> {
            &&& written.nickname@ == nickname
            &&& written.run_id@ == run_id
            &&& written.purgery_version@ == version::current_version()
            &&& written.protocol_version == PROGRESS_FILE_VERSION
            &&& written.phase@ == "processing"@
            &&& written.state@ == update.state@
            &&& written.entry_index == update.entry_index
            &&& written.entry_total == update.entry_total
            &&& written.current_entry@ == update.current_entry@
            &&& written.current_transform@ == update.current_transform@
            &&& written.updated_at_unix_secs == now
            &&& match existing {
                Lookup::Found(document) => match document.parsed {
                    Ok(earlier) => written.started_at_unix_secs == (if document.version@ is Version
                        && earlier.nickname@ == nickname && earlier.run_id@ == run_id {
                        earlier.started_at_unix_secs
                    } else {
                        now
                    }),
                    Err(_) => written.started_at_unix_secs == now,
                },
                _ => written.started_at_unix_secs == now,
            }
        },
{
}

} // verus!
