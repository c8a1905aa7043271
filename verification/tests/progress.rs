//! Progress reports and the progress file.

use purgery_server::model::{
    Document, Lookup, Nickname, ProcessingProgress, RunId, TransformDefinition, TransformKind,
};
use purgery_server::progress::{
    existing_progress_started_at, validate_progress_update, write_progress,
    write_progress_best_effort, ExistingProgress, ProgressUpdate,
};
use purgery_server::subprocess::{
    OutputProbe, PollReply, Subprocess, SubprocessEnd, SubprocessEvent, SubprocessStep,
};
use purgery_server::transform::{
    apply_transform_with_heartbeat, transform_report, transform_result, ResolvedTransform,
    TransformDetails, TransformPlan,
};
use purgery_server::model::FileKind;
use purgery_server::version::{probe_purgery_version_from_toml, VersionProbe};

const NOW: u64 = 1_700_000_000;

fn laptop() -> Nickname {
    Nickname::new("laptop".to_string()).unwrap()
}

fn run(id: &str) -> RunId {
    RunId::new(id.to_string()).unwrap()
}

fn nothing() -> Lookup<ProcessingProgress> {
    Lookup::Missing("No such file or directory".to_string())
}

fn stored(progress: ProcessingProgress) -> Lookup<ProcessingProgress> {
    Lookup::Found(Document {
        version: VersionProbe::Version(progress.purgery_version.clone()),
        parsed: Ok(progress),
    })
}

fn old_progress(nickname: &str, id: &str, started_at: u64) -> ProcessingProgress {
    ProcessingProgress {
        protocol_version: 1,
        purgery_version: "0.1.0-test".to_string(),
        nickname: nickname.to_string(),
        run_id: id.to_string(),
        phase: "processing".to_string(),
        state: "old".to_string(),
        entry_index: 0,
        entry_total: 1,
        current_entry: String::new(),
        current_transform: String::new(),
        started_at_unix_secs: started_at,
        updated_at_unix_secs: started_at,
    }
}

fn write(
    existing: &Lookup<ProcessingProgress>,
    id: &str,
    state: &str,
    index: usize,
    total: usize,
    entry: &str,
    transform: &str,
) -> Result<Option<ProcessingProgress>, String> {
    let update = ProgressUpdate::new(state, index, total, entry, transform);
    write_progress(existing, &laptop(), &run(id), &update, NOW)
}

fn first_write(
    state: &str,
    index: usize,
    total: usize,
    entry: &str,
    transform: &str,
) -> Result<Option<ProcessingProgress>, String> {
    write(&nothing(), "t", state, index, total, entry, transform)
}

fn compress() -> ResolvedTransform {
    ResolvedTransform {
        name: "compress".to_string(),
        def: TransformDefinition {
            name: "compress".to_string(),
            kind: TransformKind::Subprocess,
            program: "true".to_string(),
            args: vec![],
            expected_outputs: vec!["{stem}.out".to_string()],
        },
    }
}

/// Runs a program that is polled once while it runs, then exits with success and
/// leaves its outputs; gives the reports on the way and what came of it.
fn run_reporting(
    plan: &TransformPlan,
    index: usize,
    total: usize,
    entry: &str,
) -> (Vec<ProgressUpdate>, Result<Vec<String>, String>) {
    let mut reports = Vec::new();
    let mut program = Subprocess::start(true);
    let mut polls = 0;
    loop {
        if let Some(report) = transform_report(&program, "compress", index, total, entry) {
            reports.push(report);
        }
        let event = match program.step {
            SubprocessStep::Poll => {
                polls += 1;
                SubprocessEvent::Polled(if polls == 1 {
                    PollReply::Running
                } else {
                    PollReply::Exited(true)
                })
            }
            SubprocessStep::ResolveOutputs => SubprocessEvent::Resolved(Some(plan.outputs.len())),
            SubprocessStep::Inspect(_) => {
                SubprocessEvent::Inspected(OutputProbe::Present(FileKind::RegularFile))
            }
            SubprocessStep::Over(_) => {
                let details = TransformDetails {
                    code: Some(0),
                    stdout: Ok(vec![]),
                    stderr: Ok(vec![]),
                    detail: String::new(),
                };
                let result = transform_result(&program, "compress", &plan.outputs, &details);
                return (reports, result);
            }
            _ => SubprocessEvent::Done(true),
        };
        program = program.advance(event);
    }
}

fn states(reports: &[ProgressUpdate]) -> Vec<&str> {
    reports.iter().map(|r| r.state.as_str()).collect()
}

#[test]
fn processing_progress_has_real_entry_context() {
    let p = first_write("processing_entry", 1, 3, "b.txt", "").unwrap().unwrap();
    assert_eq!(p.state, "processing_entry");
    assert_eq!(p.entry_index, 1);
    assert_eq!(p.entry_total, 3);
    assert_eq!(p.current_entry, "b.txt");
    assert_eq!(p.current_transform, "");
}

#[test]
fn publishing_status_progress_is_written() {
    let p = first_write("publishing_status", 0, 1, "", "").unwrap().unwrap();
    assert_eq!(p.state, "publishing_status");
    assert_eq!(p.entry_index, 0);
    assert_eq!(p.entry_total, 1);
    assert!(p.current_entry.is_empty());
    assert!(p.current_transform.is_empty());
}

#[test]
fn progress_update_has_no_sentinel_placeholders() {
    let plan = apply_transform_with_heartbeat(
        &compress(),
        "/area/input.txt",
        "/area",
        "/area",
        1,
    )
    .expect("transforms must succeed");
    let (updates, result) = run_reporting(&plan, 0, 1, "data/input.txt");
    assert_eq!(result.unwrap(), ["/area/input.out"]);
    assert!(!updates.is_empty());
    for update in &updates {
        assert!(update.entry_total > 0);
    }
}

#[test]
fn publishing_status_is_run_level_progress() {
    let p = first_write("publishing_status", 0, 10, "", "").unwrap().unwrap();
    assert_eq!(p.state, "publishing_status");
    assert_eq!(p.entry_index, 0);
    assert_eq!(p.entry_total, 10);
    assert!(p.current_entry.is_empty() && p.current_transform.is_empty());
}

#[test]
fn per_entry_progress_has_real_context() {
    let plan = apply_transform_with_heartbeat(
        &compress(),
        "/area/input.txt",
        "/area",
        "/area",
        5,
    )
    .unwrap();
    let (updates, result) = run_reporting(&plan, 42, 99, "test-entry.txt");
    result.unwrap();
    assert_eq!(
        states(&updates),
        ["transform_started", "transform_running", "transform_finished"]
    );
    for update in &updates {
        assert_eq!(update.entry_index, 42);
        assert_eq!(update.entry_total, 99);
        assert_eq!(update.current_entry, "test-entry.txt");
        assert!(!update.current_transform.is_empty());
    }
}

#[test]
fn progress_tests_do_not_ignore_transform_result() {
    // A transform that is refused reports nothing: its error is the result.
    let mut broken = compress();
    broken.def.program = String::new();
    let refused =
        apply_transform_with_heartbeat(&broken, "/area/input.txt", "/area", "/area", 1);
    assert!(refused.is_err());

    // A transform that is accepted has a result of its own, beside its reports.
    let plan = apply_transform_with_heartbeat(
        &compress(),
        "/area/input.txt",
        "/area",
        "/area",
        1,
    )
    .expect("transforms must succeed");
    let (_, result) = run_reporting(&plan, 0, 1, "data/input.txt");
    assert_eq!(result.expect("transforms must succeed"), ["/area/input.out"]);
}

#[test]
fn per_entry_first_entry_allows_index_zero() {
    let plan = apply_transform_with_heartbeat(
        &compress(),
        "/area/input.txt",
        "/area",
        "/area",
        1,
    )
    .expect("transforms must succeed");
    let (updates, result) = run_reporting(&plan, 0, 1, "data/input.txt");
    result.expect("transforms must succeed");
    assert!(updates.iter().any(|u| u.state == "transform_started"));
    for update in &updates {
        assert!(update.entry_total > 0);
        assert!(!update.current_entry.is_empty());
        assert!(update.entry_index < update.entry_total);
        let valid = validate_progress_update(
            &update.state,
            update.entry_index,
            update.entry_total,
            &update.current_entry,
            &update.current_transform,
        );
        assert!(valid.is_ok());
    }
}

#[test]
fn per_entry_progress_rejects_entry_total_zero() {
    let result = first_write("transform_started", 0, 0, "a.txt", "c");
    assert_eq!(
        result.err().unwrap(),
        "per-entry progress state transform_started must have entry_total > 0"
    );
}

#[test]
fn per_entry_progress_rejects_empty_current_entry() {
    let result = first_write("transform_started", 0, 1, "", "c");
    assert_eq!(
        result.err().unwrap(),
        "per-entry progress state transform_started must have current_entry"
    );
}

#[test]
fn per_entry_transform_progress_rejects_empty_current_transform() {
    let result = first_write("transform_started", 0, 1, "a.txt", "");
    assert_eq!(
        result.err().unwrap(),
        "transform progress state transform_started must have current_transform"
    );
}

#[test]
fn per_entry_progress_rejects_index_out_of_range() {
    let result = first_write("transform_running", 5, 1, "a.txt", "c");
    assert_eq!(result.err().unwrap(), "entry_index must be less than entry_total");
}

#[test]
fn processing_entry_rejects_empty_current_entry() {
    assert!(first_write("processing_entry", 0, 1, "", "").is_err());
}

#[test]
fn processing_entry_with_empty_transform_succeeds() {
    assert!(first_write("processing_entry", 0, 1, "a.txt", "").is_ok());
}

#[test]
fn processing_entry_rejects_a_transform() {
    let result = first_write("processing_entry", 0, 1, "a.txt", "c");
    assert_eq!(result.err().unwrap(), "processing_entry must not have current_transform");
}

#[test]
fn per_entry_first_entry_index_zero_succeeds() {
    assert!(first_write("transform_started", 0, 1, "a.txt", "c").is_ok());
}

#[test]
fn run_level_progress_with_empty_fields_succeeds() {
    assert!(first_write("processing_started", 0, 2, "", "").is_ok());
    assert!(first_write("publishing_status", 0, 2, "", "").is_ok());
}

#[test]
fn run_level_progress_names_no_entry() {
    assert_eq!(
        first_write("processing_started", 0, 2, "a.txt", "").err().unwrap(),
        "run-level progress state processing_started must not have current_entry"
    );
    assert_eq!(
        first_write("publishing_status", 0, 2, "", "c").err().unwrap(),
        "run-level progress state publishing_status must not have current_transform"
    );
}

#[test]
fn unknown_progress_state_is_rejected() {
    let result = first_write("nonsense", 0, 1, "a.txt", "c");
    assert_eq!(result.err().unwrap(), "unknown progress state: nonsense");
}

#[test]
fn write_progress_best_effort_with_invalid_state_does_not_panic() {
    let zero = ProgressUpdate::new("transform_started", 0, 0, "a.txt", "c");
    assert!(write_progress_best_effort(&nothing(), &laptop(), &run("t"), &zero, NOW).is_none());
    let unknown = ProgressUpdate::new("nonsense", 0, 1, "a.txt", "c");
    assert!(write_progress_best_effort(&nothing(), &laptop(), &run("t"), &unknown, NOW).is_none());
}

#[test]
fn invalid_best_effort_progress_does_not_clobber_valid_progress() {
    let valid = first_write("processing_entry", 0, 2, "a.txt", "").unwrap().unwrap();
    let existing = stored(valid);
    let zero = ProgressUpdate::new("transform_started", 0, 0, "a.txt", "c");
    assert!(write_progress_best_effort(&existing, &laptop(), &run("t"), &zero, NOW).is_none());
    let unknown = ProgressUpdate::new("nonsense", 0, 1, "a.txt", "c");
    assert!(write_progress_best_effort(&existing, &laptop(), &run("t"), &unknown, NOW).is_none());
}

#[test]
fn run_level_progress_may_have_empty_current_entry() {
    let p = write(&nothing(), "run-level", "processing_started", 0, 2, "", "")
        .unwrap()
        .unwrap();
    assert_eq!(p.state, "processing_started");
    assert!(p.current_entry.is_empty() && p.current_transform.is_empty());
    assert_eq!(p.entry_total, 2);
    assert_eq!(p.entry_index, 0);
    assert_eq!(p.phase, "processing");
    assert_eq!(p.protocol_version, 1);
}

#[test]
fn progress_start_time_preserved_only_when_envelope_matches() {
    let existing = stored(old_progress("laptop", "ts-envelope", 5000));
    let p = write(&existing, "ts-envelope", "processing_entry", 0, 1, "a.txt", "")
        .unwrap()
        .unwrap();
    assert_eq!(p.started_at_unix_secs, 5000);
}

#[test]
fn progress_start_time_not_preserved_with_mismatched_envelope() {
    let existing = stored(old_progress("other-machine", "ts-mismatch", 5000));
    let p = write(&existing, "ts-mismatch", "processing_entry", 0, 1, "a.txt", "")
        .unwrap()
        .unwrap();
    assert_eq!(p.started_at_unix_secs, NOW);
}

#[test]
fn malformed_existing_progress_does_not_preserve_start_time() {
    let existing = Lookup::Found(Document {
        version: probe_purgery_version_from_toml("not valid toml {{{"),
        parsed: Err("not valid toml".to_string()),
    });
    let p = write(&existing, "ts-malformed", "processing_entry", 0, 1, "a.txt", "")
        .unwrap()
        .unwrap();
    assert_eq!(p.started_at_unix_secs, NOW);
}

#[test]
fn progress_timestamp_started_is_stable() {
    let p1 = write(&nothing(), "ts-stable", "processing_started", 0, 3, "", "")
        .unwrap()
        .unwrap();
    let first_started = p1.started_at_unix_secs;
    let first_updated = p1.updated_at_unix_secs;
    let update = ProgressUpdate::new("processing_entry", 0, 3, "a.txt", "");
    let p2 = write_progress(&stored(p1), &laptop(), &run("ts-stable"), &update, NOW + 10)
        .unwrap()
        .unwrap();
    assert_eq!(p2.started_at_unix_secs, first_started);
    assert!(p2.updated_at_unix_secs >= first_updated);
    assert_eq!(p2.updated_at_unix_secs, NOW + 10);
}

#[test]
fn progress_timestamp_existing_file_preserves_started_at() {
    let existing = stored(old_progress("laptop", "ts-existing", 1000));
    let p = write(&existing, "ts-existing", "processing_entry", 0, 1, "a.txt", "")
        .unwrap()
        .unwrap();
    assert_eq!(p.started_at_unix_secs, 1000);
    assert!(p.updated_at_unix_secs >= 1000);
}

#[test]
fn progress_timestamp_first_write_initializes_both() {
    let p = write(&nothing(), "ts-first", "processing_started", 0, 2, "", "")
        .unwrap()
        .unwrap();
    assert!(p.started_at_unix_secs > 1000000000);
    assert!(p.updated_at_unix_secs > 1000000000);
    assert!(p.updated_at_unix_secs >= p.started_at_unix_secs);
}

#[test]
fn progress_of_another_release_line_is_not_overwritten() {
    let mut foreign = old_progress("laptop", "foreign", 5000);
    foreign.purgery_version = "2.0.0".to_string();
    let existing = stored(foreign);
    let id = run("foreign");
    assert_eq!(
        existing_progress_started_at(&existing, &laptop(), &id),
        ExistingProgress::Incompatible
    );
    let written = write(&existing, "foreign", "processing_entry", 0, 1, "a.txt", "").unwrap();
    assert!(written.is_none());
}

#[test]
fn programs_that_cannot_be_waited_for_end_in_an_error() {
    let mut program = Subprocess::start(false);
    loop {
        program = match program.step {
            SubprocessStep::Poll => program.advance(SubprocessEvent::Polled(PollReply::Failed)),
            SubprocessStep::Over(end) => {
                assert_eq!(end, SubprocessEnd::WaitFailed);
                return;
            }
            _ => program.advance(SubprocessEvent::Done(true)),
        };
    }
}
