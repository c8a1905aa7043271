//! Requests of clients and operators.

use purgery_server::cli::{
    apply_cli_overrides, choose_config, command_name, find_config, is_protocol_command,
    protocol_error_code, run_protocol, setup_failure, unix_now, validate_nickname_and_run_id,
    ColorMode, Command, ConfigEnvironment, LogFormat, LogLevel, LoggingConfig, LoggingOverrides,
};
use purgery_server::entry::EntryOutcome;
use purgery_server::failure::Failure;
use purgery_server::inputs::InputsVerdict;
use purgery_server::model::{
    Document, GCConfig, LeaseFile, Lookup, Manifest, ManifestEntry, ManifestEntryKind, Nickname,
    ProcessingProgress, RunConfig, RunId, RunPhase, RunState, RunStatus, ServerConfig,
    TransformDefinition, TransformKind,
};
use purgery_server::phases::{
    begin_fault_message, begin_run, check_lease, failure_status, finish_fault_message, finish_run,
    heartbeat_run, BeginFault, BeginStep, FinishDecision, MoveStep, PhasePresence,
};
use purgery_server::process::{
    process_processing_run, run_status, ProcessEnd, ProcessEvent, ProcessStage, Processing,
};
use purgery_server::publish::{publish_failure, Publication, PublishFault, PublishStep};
use purgery_server::server::{
    bootstrap, prepare_run, read_run_status, run_state, server_check, CurrentDirectory,
    PhaseSighting, RunSighting, WorkDirSighting,
};
use purgery_server::version::{
    check_probe, current_purgery_version, is_compatible, probe_purgery_version_from_toml,
    same_release_line, version_response, TomlVersionCheck, VersionProbe,
};

const NOW: u64 = 1_700_000_000;

fn nickname(s: &str) -> Nickname {
    Nickname::new(s.to_string()).unwrap()
}

fn run_id(s: &str) -> RunId {
    RunId::new(s.to_string()).unwrap()
}

fn config() -> ServerConfig {
    ServerConfig {
        work_dir: "/srv/purgery".to_string(),
        gc: GCConfig::default(),
        transforms: vec![],
    }
}

fn transform(name: &str, program: &str, outputs: &[&str]) -> TransformDefinition {
    TransformDefinition {
        name: name.to_string(),
        kind: TransformKind::Subprocess,
        program: program.to_string(),
        args: vec![],
        expected_outputs: outputs.iter().map(|s| s.to_string()).collect(),
    }
}

fn config_with(def: TransformDefinition) -> ServerConfig {
    let mut config = config();
    config.transforms.push(def);
    config
}

fn nowhere() -> PhasePresence {
    PhasePresence { incoming: false, ready: false, processing: false, done: false, failed: false }
}

fn only(phase: RunPhase) -> PhasePresence {
    let mut present = nowhere();
    match phase {
        RunPhase::Incoming => present.incoming = true,
        RunPhase::Ready => present.ready = true,
        RunPhase::Processing => present.processing = true,
        RunPhase::Done => present.done = true,
        RunPhase::Failed => present.failed = true,
    }
    present
}

fn missing<T>() -> Lookup<T> {
    Lookup::Missing("No such file or directory (os error 2)".to_string())
}

fn found<T>(version: &str, value: T) -> Lookup<T> {
    Lookup::Found(Document {
        version: VersionProbe::Version(version.to_string()),
        parsed: Ok(value),
    })
}

fn broken<T>(text: &str) -> Lookup<T> {
    Lookup::Found(Document {
        version: probe_purgery_version_from_toml(text),
        parsed: Err("parse error".to_string()),
    })
}

fn stored_lease(lease: LeaseFile) -> Lookup<LeaseFile> {
    let version = lease.purgery_version.clone();
    found(&version, lease)
}

fn stored_status(status: RunStatus) -> Lookup<RunStatus> {
    let version = status.purgery_version.clone();
    found(&version, status)
}

fn begun(config: &ServerConfig, id: &str) -> LeaseFile {
    begin_run(config, &nickname("laptop"), &run_id(id), nowhere(), NOW)
        .unwrap()
        .lease
}

fn entry(staged: &str, relative: &str, transform: Option<&str>) -> ManifestEntry {
    ManifestEntry {
        local_path: "/source/file.txt".to_string(),
        staged_path: staged.to_string(),
        relative_path: relative.to_string(),
        kind: ManifestEntryKind::RegularFile,
        size: 13,
        mtime_ns: 0,
        sha256: None,
        link_target: None,
        transform: transform.map(|s| s.to_string()),
    }
}

fn manifest(id: &str, entries: Vec<ManifestEntry>) -> Manifest {
    Manifest {
        purgery_version: "0.1.0-test".to_string(),
        run_id: run_id(id),
        nickname: nickname("laptop"),
        entries,
    }
}

fn run_config(destination: &str) -> RunConfig {
    RunConfig {
        purgery_version: "0.1.0-test".to_string(),
        nickname: nickname("laptop"),
        destination: destination.to_string(),
        delete_after_import: true,
    }
}

fn stored_run_config(destination: &str) -> Lookup<RunConfig> {
    found("0.1.0-test", run_config(destination))
}

fn destination_of(stored: &Lookup<RunConfig>) -> String {
    match stored {
        Lookup::Found(document) => document.parsed.as_ref().unwrap().destination.clone(),
        _ => panic!("no run config"),
    }
}

fn one_step_manifest(id: &str) -> Lookup<Manifest> {
    found(
        "0.1.0-test",
        manifest(id, vec![entry("files/file.txt", "file.txt", Some("test-step"))]),
    )
}

fn cwd() -> CurrentDirectory {
    CurrentDirectory::Path("/home/server".to_string())
}

fn imported(relative: &str, final_path: &str) -> EntryOutcome {
    EntryOutcome::Success {
        kind: ManifestEntryKind::RegularFile,
        local_path: "/home/user/a.mp4".to_string(),
        relative_path: relative.to_string(),
        final_paths: vec![final_path.to_string()],
        transform: None,
    }
}

fn unseen() -> PhaseSighting {
    PhaseSighting { exists: false, modified: None }
}

fn seen(at: u64) -> PhaseSighting {
    PhaseSighting { exists: true, modified: Some(at) }
}

fn nothing_seen() -> RunSighting {
    RunSighting {
        incoming: unseen(),
        ready: unseen(),
        processing: unseen(),
        progress: missing(),
        active: None,
        done: unseen(),
        done_status: missing(),
        failed: unseen(),
        failed_status: missing(),
    }
}

// Beginning, renewing and finishing an upload

#[test]
fn test_begin_run_stdout_is_parseable_toml() {
    let response = begin_run(
        &config(),
        &nickname("laptop"),
        &run_id("test-stdout-begin"),
        nowhere(),
        NOW,
    )
    .unwrap()
    .response;
    let mut table = toml::Table::new();
    table.insert(
        "protocol_version".to_string(),
        toml::Value::Integer(response.protocol_version as i64),
    );
    table.insert("nickname".to_string(), toml::Value::String(response.nickname));
    table.insert("run_id".to_string(), toml::Value::String(response.run_id));
    let text = toml::to_string(&table).unwrap();
    let parsed: toml::Table = text.parse().unwrap();
    assert_eq!(parsed.get("protocol_version").unwrap().as_integer(), Some(1));
    assert_eq!(parsed.get("nickname").unwrap().as_str(), Some("laptop"));
    assert_eq!(parsed.get("run_id").unwrap().as_str(), Some("test-stdout-begin"));
}

#[test]
fn a_run_that_exists_cannot_begin_again() {
    for phase in [
        RunPhase::Incoming,
        RunPhase::Ready,
        RunPhase::Processing,
        RunPhase::Done,
        RunPhase::Failed,
    ] {
        let refusal =
            begin_run(&config(), &nickname("laptop"), &run_id("r"), only(phase), NOW).unwrap_err();
        let expected = format!(
            "run laptop/r already exists in '{0}' phase at '/srv/purgery/laptop/{0}/r'",
            phase.as_str()
        );
        assert_eq!(refusal.message, expected);
    }
}

#[test]
fn a_set_up_that_fails_is_undone() {
    let step = BeginStep::CreateFiles.advance(false);
    assert_eq!(step, BeginStep::Undo(BeginFault::Files));
    assert_eq!(step.advance(true), BeginStep::Refused(BeginFault::Files));
    assert_eq!(
        BeginStep::CreateIncoming.advance(false),
        BeginStep::Refused(BeginFault::Incoming)
    );
    assert_eq!(
        begin_fault_message(BeginFault::Incoming, "/p", "/p/i", "/p/i/files"),
        "failed to create incoming dir '/p/i' (race: run may have been created concurrently)"
    );
    assert_eq!(
        begin_fault_message(BeginFault::Parent, "/p", "/p/i", "/p/i/files"),
        "failed to create incoming parent: /p"
    );
    assert_eq!(
        begin_fault_message(BeginFault::Files, "/p", "/p/i", "/p/i/files"),
        "failed to create files dir: /p/i/files"
    );
    assert_eq!(begin_fault_message(BeginFault::Lease, "", "", ""), "failed to write lease file");
    assert_eq!(
        begin_fault_message(BeginFault::LeaseEncoding, "", "", ""),
        "failed to serialize lease"
    );
    assert_eq!(
        begin_fault_message(BeginFault::ResponseEncoding, "", "", ""),
        "failed to serialize begin-run response"
    );
}

#[test]
fn every_refusal_to_finish() {
    let config = config();
    let (nick, id) = (nickname("laptop"), run_id("r"));
    let here = only(RunPhase::Incoming);
    let gone = finish_run(&config, &nick, &id, nowhere(), &missing(), false, NOW).unwrap_err();
    assert_eq!(
        gone.message,
        "incoming directory does not exist for run laptop/r at '/srv/purgery/laptop/incoming/r'"
    );
    let no_lease = finish_run(&config, &nick, &id, here, &missing(), false, NOW).unwrap_err();
    assert_eq!(
        no_lease.message,
        "cannot finish run: no lease file found, run may be incomplete"
    );
    let unreadable = Lookup::Unreadable("denied".to_string());
    let denied = finish_run(&config, &nick, &id, here, &unreadable, false, NOW).unwrap_err();
    assert_eq!(denied.full(), "failed to read lease file: denied");
    let no_version =
        finish_run(&config, &nick, &id, here, &broken("nickname = \"laptop\""), false, NOW)
            .unwrap_err();
    assert!(no_version.message.starts_with("cannot finish run: lease is missing purgery_version"));
    assert!(no_version.message.contains("/srv/purgery/laptop/incoming/r/lease.toml"));
    let unparsed = finish_run(
        &config,
        &nick,
        &id,
        here,
        &broken("purgery_version = \"0.1.0\""),
        false,
        NOW,
    )
    .unwrap_err();
    assert_eq!(unparsed.full(), "failed to parse lease file: parse error");
    let mut foreign = begun(&config, "r");
    foreign.purgery_version = "2.0.0".to_string();
    let refused =
        finish_run(&config, &nick, &id, here, &stored_lease(foreign), false, NOW).unwrap_err();
    assert_eq!(refused.message, "incompatible lease version");
    assert!(refused.cause.unwrap().contains("2.0.0"));
    let mut protocol = begun(&config, "r");
    protocol.protocol_version = 7;
    let refused =
        finish_run(&config, &nick, &id, here, &stored_lease(protocol), false, NOW).unwrap_err();
    assert_eq!(refused.message, "lease protocol version 7 does not match expected 1");
    let other = begun(&config, "q");
    let refused =
        finish_run(&config, &nick, &id, here, &stored_lease(other), false, NOW).unwrap_err();
    assert_eq!(refused.message, "lease run_id 'q' does not match expected 'r'");
    let raced =
        finish_run(&config, &nick, &id, here, &stored_lease(begun(&config, "r")), true, NOW)
            .unwrap_err();
    assert_eq!(
        raced.message,
        "ready directory already exists for run laptop/r at '/srv/purgery/laptop/ready/r'"
    );
}

#[test]
fn finishing_twice_is_finishing_once() {
    let config = config();
    for phase in [RunPhase::Ready, RunPhase::Processing, RunPhase::Done, RunPhase::Failed] {
        let decision = finish_run(
            &config,
            &nickname("laptop"),
            &run_id("r"),
            only(phase),
            &missing(),
            false,
            NOW,
        );
        assert_eq!(decision.unwrap(), FinishDecision::AlreadyAccepted(phase));
    }
    assert_eq!(
        finish_fault_message(MoveStep::ParentFailed, "/i", "/r", "/p"),
        "failed to create ready parent: /p"
    );
    assert_eq!(
        finish_fault_message(MoveStep::RenameFailed, "/i", "/r", "/p"),
        "failed to move incoming to ready: /i -> /r"
    );
}

#[test]
fn a_lease_ends_exactly_when_it_says() {
    let config = config();
    let lease = begun(&config, "r");
    assert_eq!(lease.expires_at_unix_secs, NOW + config.gc.incoming_lease_secs);
    let stored = stored_lease(lease);
    let here = only(RunPhase::Incoming);
    let (nick, id) = (nickname("laptop"), run_id("r"));
    let end = NOW + config.gc.incoming_lease_secs;
    assert!(finish_run(&config, &nick, &id, here, &stored, false, end - 1).is_ok());
    assert!(finish_run(&config, &nick, &id, here, &stored, false, end).is_err());
}

#[test]
fn a_heartbeat_renews_the_lease() {
    let config = config();
    let (nick, id) = (nickname("laptop"), run_id("r"));
    let lease = stored_lease(begun(&config, "r"));
    let renewed = heartbeat_run(&config, &nick, &id, true, &lease, NOW + 60).unwrap();
    assert_eq!(renewed.created_at_unix_secs, NOW);
    assert_eq!(renewed.last_heartbeat_unix_secs, NOW + 60);
    assert_eq!(renewed.expires_at_unix_secs, NOW + 60 + config.gc.incoming_lease_secs);
    assert!(check_lease(&stored_lease(renewed), "heartbeat", &nick, &id, "/l").is_ok());

    let gone = heartbeat_run(&config, &nick, &id, false, &lease, NOW).unwrap_err();
    assert_eq!(gone.message, "run laptop/r is not in incoming phase");
    let unknown =
        heartbeat_run(&config, &nick, &id, true, &broken("not toml"), NOW).unwrap_err();
    assert!(unknown.message.starts_with("cannot heartbeat run: lease is missing purgery_version"));
}

#[test]
fn refusals_do_not_depend_on_the_clock() {
    let config = config();
    let (nick, id) = (nickname("laptop"), run_id("r"));
    let late = u64::MAX;
    assert!(begin_run(&config, &nick, &id, only(RunPhase::Ready), late).is_err());
    let lease = stored_lease(begun(&config, "r"));
    assert!(heartbeat_run(&config, &nick, &id, false, &lease, late).is_err());
    let foreign = stored_lease(begun(&config, "other"));
    assert!(heartbeat_run(&config, &nick, &id, true, &foreign, late).is_err());
}

// Statuses

#[test]
fn test_read_run_status_not_found() {
    let refusal = read_run_status(
        &config(),
        &nickname("laptop"),
        &run_id("nonexistent"),
        missing(),
        missing(),
    )
    .unwrap_err();
    assert_eq!(
        refusal.message,
        "no compatible status found for run laptop/nonexistent in done or failed"
    );
}

#[test]
fn test_status_stdout_is_parseable_toml() {
    let (nick, id) = (nickname("laptop"), run_id("test-stdout-status"));
    let status = run_status(&nick, &id, vec![imported("test.mp4", "/storage/videos/test.mp4")]);
    let read = read_run_status(&config(), &nick, &id, stored_status(status), missing()).unwrap();
    let mut table = toml::Table::new();
    table.insert(
        "state".to_string(),
        toml::Value::String(read.state.as_str().to_string()),
    );
    let parsed: toml::Table = toml::to_string(&table).unwrap().parse().unwrap();
    assert_eq!(parsed.get("state").unwrap().as_str(), Some("done"));
}

#[test]
fn test_read_run_status_rejects_mismatched_terminal_envelope() {
    let (nick, id) = (nickname("laptop"), run_id("requested"));
    let status = RunStatus {
        purgery_version: "0.1.0-test".to_string(),
        run_id: run_id("different"),
        nickname: nickname("laptop"),
        state: RunState::Done,
        entries: vec![],
        error: None,
    };
    let refusal =
        read_run_status(&config(), &nick, &id, stored_status(status), missing()).unwrap_err();
    assert_eq!(
        refusal.message,
        "status envelope mismatch in '/srv/purgery/laptop/done/requested/status.toml': \
         expected laptop/requested, got laptop/different"
    );
}

#[test]
fn statuses_of_other_release_lines_are_passed_over() {
    let (nick, id) = (nickname("laptop"), run_id("r"));
    let mut foreign = failure_status(&nick, &id, "old");
    foreign.purgery_version = "2.0.0".to_string();
    let own = failure_status(&nick, &id, "own");
    let read =
        read_run_status(&config(), &nick, &id, stored_status(foreign), stored_status(own)).unwrap();
    assert_eq!(read.error.unwrap(), "own");

    let unversioned: Lookup<RunStatus> = broken("state = \"done\"");
    let refusal = read_run_status(&config(), &nick, &id, unversioned, missing()).unwrap_err();
    assert!(refusal.message.starts_with("no compatible status"));

    let damaged: Lookup<RunStatus> = broken("purgery_version = \"0.1.0\"");
    let refusal = read_run_status(&config(), &nick, &id, damaged, missing()).unwrap_err();
    assert_eq!(
        refusal.message,
        "malformed status file '/srv/purgery/laptop/done/r/status.toml': parse error"
    );

    let unreadable = Lookup::Unreadable("denied".to_string());
    let refusal = read_run_status(&config(), &nick, &id, unreadable, missing()).unwrap_err();
    assert_eq!(
        refusal.full(),
        "failed to read status from '/srv/purgery/laptop/done/r/status.toml': denied"
    );
}

// Where a run stands

#[test]
fn run_state_progress_reports_incompatible_version() {
    let mut sighting = nothing_seen();
    sighting.processing = seen(77);
    sighting.progress = found(
        "2.0.0",
        ProcessingProgress {
            protocol_version: 1,
            purgery_version: "2.0.0".to_string(),
            nickname: "laptop".to_string(),
            run_id: "progress-version".to_string(),
            phase: "processing".to_string(),
            state: "processing_entry".to_string(),
            entry_index: 0,
            entry_total: 1,
            current_entry: "files/a.txt".to_string(),
            current_transform: "test-step".to_string(),
            started_at_unix_secs: 1000,
            updated_at_unix_secs: 1000,
        },
    );
    let response = run_state(&sighting, &nickname("laptop"), &run_id("progress-version"), NOW);
    assert_eq!(response.progress_status.as_deref(), Some("incompatible_version"));
    assert!(response.message.contains("incompatible"));
    assert_eq!(response.updated_at_unix_secs, 77);
}

#[test]
fn run_state_progress_reports_missing_version() {
    let mut sighting = nothing_seen();
    sighting.processing = seen(77);
    sighting.progress = broken("protocol_version = 1\nnickname = \"laptop\"\n");
    let response = run_state(&sighting, &nickname("laptop"), &run_id("progress-missing"), NOW);
    assert_eq!(response.progress_status.as_deref(), Some("incompatible_version"));
    assert!(response.message.contains("missing"));
}

#[test]
fn run_state_progress_reports_malformed_toml() {
    let mut sighting = nothing_seen();
    sighting.processing = seen(77);
    sighting.progress = broken("not valid toml {{{");
    let response = run_state(&sighting, &nickname("laptop"), &run_id("progress-malformed"), NOW);
    assert_eq!(response.progress_status.as_deref(), Some("malformed"));
}

#[test]
fn run_state_tells_valid_progress() {
    let mut sighting = nothing_seen();
    sighting.processing = seen(77);
    sighting.active = Some(true);
    sighting.progress = found(
        "0.1.0",
        ProcessingProgress {
            protocol_version: 1,
            purgery_version: "0.1.0".to_string(),
            nickname: "laptop".to_string(),
            run_id: "r".to_string(),
            phase: "processing".to_string(),
            state: "transform_running".to_string(),
            entry_index: 1,
            entry_total: 3,
            current_entry: "b.mp4".to_string(),
            current_transform: "compress".to_string(),
            started_at_unix_secs: 1000,
            updated_at_unix_secs: 1234,
        },
    );
    let response = run_state(&sighting, &nickname("laptop"), &run_id("r"), NOW);
    assert_eq!(response.phase, "processing");
    assert!(!response.terminal);
    assert_eq!(response.message, "processing: 2/3 entries, current: b.mp4 transform: compress");
    assert_eq!(response.updated_at_unix_secs, 1234);
    assert_eq!(response.observed_at_unix_secs, NOW);
    assert_eq!(response.progress_state.as_deref(), Some("transform_running"));
    assert_eq!(response.entry_index, Some(1));
    assert_eq!(response.entry_total, Some(3));
    assert_eq!(response.progress_status.as_deref(), Some("valid"));
    assert_eq!(response.processor_state.as_deref(), Some("active"));

    let other = run_state(&sighting, &nickname("desktop"), &run_id("r"), NOW);
    assert_eq!(other.progress_status.as_deref(), Some("envelope_mismatch"));
    assert_eq!(other.updated_at_unix_secs, 77);
}

#[test]
fn run_state_without_progress() {
    let mut sighting = nothing_seen();
    sighting.processing = PhaseSighting { exists: true, modified: None };
    sighting.active = Some(false);
    let response = run_state(&sighting, &nickname("laptop"), &run_id("r"), NOW);
    assert_eq!(response.message, "run phase: processing");
    assert_eq!(response.progress_status.as_deref(), Some("missing"));
    assert_eq!(response.updated_at_unix_secs, 0);
    assert_eq!(response.processor_state.as_deref(), Some("idle"));
}

#[test]
fn run_state_in_every_phase() {
    let (nick, id) = (nickname("laptop"), run_id("r"));
    let nothing = run_state(&nothing_seen(), &nick, &id, NOW);
    assert_eq!(nothing.phase, "not_found");
    assert_eq!(nothing.message, "no matching run found");
    assert_eq!(nothing.updated_at_unix_secs, 0);

    let mut incoming = nothing_seen();
    incoming.incoming = seen(11);
    let response = run_state(&incoming, &nick, &id, NOW);
    assert_eq!((response.phase.as_str(), response.message.as_str()), ("incoming", "run phase: incoming"));
    assert_eq!(response.updated_at_unix_secs, 11);
    assert!(response.processor_state.is_none());

    let mut ready = nothing_seen();
    ready.ready = seen(12);
    assert_eq!(run_state(&ready, &nick, &id, NOW).phase, "ready");

    let mut done = nothing_seen();
    done.done = seen(13);
    done.done_status = stored_status(run_status(&nick, &id, vec![]));
    let response = run_state(&done, &nick, &id, NOW);
    assert!(response.terminal);
    assert_eq!(response.message, "run is done");
    assert_eq!(response.updated_at_unix_secs, 13);

    let mut failed = nothing_seen();
    failed.failed = seen(14);
    failed.failed_status = stored_status(failure_status(&nick, &id, "e"));
    let response = run_state(&failed, &nick, &id, NOW);
    assert!(response.terminal);
    assert_eq!(response.phase, "failed");
}

#[test]
fn run_state_of_damaged_results() {
    let (nick, id) = (nickname("laptop"), run_id("r"));
    let mut bare = nothing_seen();
    bare.done = seen(13);
    let response = run_state(&bare, &nick, &id, NOW);
    assert_eq!(response.phase, "corrupt");
    assert!(!response.terminal);
    assert_eq!(
        response.message,
        "done directory exists but status is missing/unreadable"
    );

    let mut foreign_run = nothing_seen();
    foreign_run.failed = seen(13);
    foreign_run.failed_status =
        stored_status(failure_status(&nick, &run_id("other"), "e"));
    let response = run_state(&foreign_run, &nick, &id, NOW);
    assert_eq!(
        response.message,
        "failed directory exists but status is envelope mismatch"
    );

    let mut damaged = nothing_seen();
    damaged.done = seen(13);
    damaged.done_status = broken("purgery_version = \"0.1.0\"");
    let response = run_state(&damaged, &nick, &id, NOW);
    assert_eq!(response.message, "done directory exists but status is malformed");

    let mut old = nothing_seen();
    old.done = seen(13);
    old.done_status = broken("state = \"done\"");
    assert_eq!(run_state(&old, &nick, &id, NOW).phase, "not_found");
}

// Run plans

#[test]
fn prepare_run_rewrites_relative_destination() {
    let config = config_with(transform("test-step", "/bin/true", &[]));
    let (nick, id) = (nickname("laptop"), run_id("test-relative-dest"));
    let plan = prepare_run(
        &config,
        &nick,
        &id,
        true,
        &stored_run_config("relative/path"),
        &one_step_manifest("test-relative-dest"),
        &cwd(),
    )
    .unwrap();
    let resolved = plan.response.destination.unwrap();
    assert_eq!(resolved, "/home/server/relative/path");
    let rewrite = plan.rewrite.unwrap();
    assert_eq!(rewrite.destination, "/home/server/relative/path");
    assert!(rewrite.delete_after_import);
    assert_eq!(rewrite.purgery_version, current_purgery_version());
    assert_eq!(rewrite.nickname.as_str(), "laptop");

    let again = prepare_run(
        &config,
        &nick,
        &id,
        true,
        &found(current_purgery_version(), rewrite),
        &one_step_manifest("test-relative-dest"),
        &CurrentDirectory::Path("/elsewhere".to_string()),
    )
    .unwrap();
    assert!(again.rewrite.is_none());
    assert!(again.response.destination.is_none());
}

#[test]
fn prepare_run_does_not_rewrite_absolute_destination() {
    let config = config_with(transform("test-step", "/bin/true", &[]));
    let stored = stored_run_config("/storage/absolute/dest");
    assert!(destination_of(&stored).starts_with('/'));
    let before = destination_of(&stored);
    let plan = prepare_run(
        &config,
        &nickname("laptop"),
        &run_id("test-absolute-dest"),
        true,
        &stored,
        &one_step_manifest("test-absolute-dest"),
        &cwd(),
    )
    .unwrap();
    assert!(plan.response.destination.is_none());
    assert!(plan.rewrite.is_none());
    let after = plan.rewrite.map(|written| written.destination);
    assert_eq!(after.unwrap_or(destination_of(&stored)), before);
}

#[test]
fn prepare_run_rejects_unknown_requested_transform_before_finish() {
    let config = config();
    let (nick, id) = (nickname("host"), run_id("unknown-step"));
    let begun = begin_run(&config, &nick, &id, nowhere(), NOW).unwrap();
    assert_eq!(begun.response.incoming_dir, "/srv/purgery/host/incoming/unknown-step");
    let listed = Manifest {
        nickname: nickname("host"),
        ..manifest(
            "unknown-step",
            vec![ManifestEntry {
                local_path: "/source/a.txt".to_string(),
                size: 1,
                mtime_ns: 1,
                sha256: Some("00".repeat(32)),
                ..entry("files/a.txt", "a.txt", Some("typo"))
            }],
        )
    };
    let wanted = RunConfig { nickname: nickname("host"), ..run_config("/srv/storage/univ/data") };
    let error = prepare_run(
        &config,
        &nick,
        &id,
        true,
        &found("0.1.0-test", wanted),
        &found("0.1.0-test", listed),
        &cwd(),
    )
    .unwrap_err();
    assert!(error.message.contains("not defined on server"));
    assert_eq!(
        error.message,
        "run plan validation failed for 'a.txt': transform 'typo' not defined on server"
    );
    // The refusal leaves the upload where it is, and not in ready.
    let mut sighting = nothing_seen();
    sighting.incoming = seen(NOW);
    assert_eq!(run_state(&sighting, &nick, &id, NOW).phase, "incoming");
}

#[test]
fn prepare_run_rejects_invalid_expected_outputs_in_transform_definition() {
    let config = config_with(transform("compress-video", "true", &["{input}"]));
    let listed = manifest(
        "test-prepare-bad-output",
        vec![ManifestEntry {
            local_path: "/home/user/Videos/test.mp4".to_string(),
            mtime_ns: 1000000,
            ..entry("files/test.mp4", "test.mp4", Some("compress-video"))
        }],
    );
    let error = prepare_run(
        &config,
        &nickname("laptop"),
        &run_id("test-prepare-bad-output"),
        true,
        &stored_run_config("/storage/univ/videos"),
        &found("0.1.0-test", listed),
        &cwd(),
    )
    .unwrap_err();
    assert!(error.message.contains("invalid"));
    assert!(error.message.contains("expected_output"));
}

#[test]
fn prepare_run_rejects_missing_purgery_version_in_run_toml() {
    let config = config_with(transform("test-step", "/bin/true", &[]));
    let error = prepare_run(
        &config,
        &nickname("laptop"),
        &run_id("test-pv-missing-run"),
        true,
        &broken(
            "nickname = \"laptop\"\ndestination = \"/tmp/dest\"\ndelete_after_import = true\n",
        ),
        &one_step_manifest("test-pv-missing-run"),
        &cwd(),
    )
    .unwrap_err();
    assert!(error.message.contains("run config"));
    assert!(error.message.contains("missing purgery_version"));
}

#[test]
fn prepare_run_rejects_incompatible_purgery_version_in_run_toml() {
    let config = config_with(transform("test-step", "/bin/true", &[]));
    let mut wanted = run_config("/tmp/dest");
    wanted.purgery_version = "2.0.0".to_string();
    let error = prepare_run(
        &config,
        &nickname("laptop"),
        &run_id("test-pv-incompat-run"),
        true,
        &found("2.0.0", wanted),
        &one_step_manifest("test-pv-incompat-run"),
        &cwd(),
    )
    .unwrap_err();
    assert!(error.message.contains("run config"));
    assert!(error.message.contains("2.0.0"));
}

#[test]
fn prepare_run_rejects_missing_purgery_version_in_manifest_toml() {
    let config = config_with(transform("test-step", "/bin/true", &[]));
    let error = prepare_run(
        &config,
        &nickname("laptop"),
        &run_id("test-pv-missing-manifest"),
        true,
        &stored_run_config("/tmp/dest"),
        &broken("run_id = \"test-pv-missing-manifest\"\nnickname = \"laptop\"\n"),
        &cwd(),
    )
    .unwrap_err();
    assert!(error.message.contains("manifest"));
}

#[test]
fn prepare_run_rejects_incompatible_purgery_version_in_manifest_toml() {
    let config = config_with(transform("test-step", "/bin/true", &[]));
    let mut listed = manifest(
        "test-pv-incompat-manifest",
        vec![entry("files/file.txt", "file.txt", Some("test-step"))],
    );
    listed.purgery_version = "2.0.0".to_string();
    let error = prepare_run(
        &config,
        &nickname("laptop"),
        &run_id("test-pv-incompat-manifest"),
        true,
        &stored_run_config("/tmp/dest"),
        &found("2.0.0", listed),
        &cwd(),
    )
    .unwrap_err();
    assert!(error.message.contains("manifest"));
}

#[test]
fn every_other_refusal_of_a_run_plan() {
    let config = config_with(transform("test-step", "/bin/true", &[]));
    let (nick, id) = (nickname("laptop"), run_id("r"));
    let prepare = |exists: bool, wanted: &Lookup<RunConfig>, listed: &Lookup<Manifest>| {
        prepare_run(&config, &nick, &id, exists, wanted, listed, &cwd()).unwrap_err()
    };
    let good = stored_run_config("/d");
    let plan = one_step_manifest("r");
    assert_eq!(
        prepare(false, &good, &plan).message,
        "incoming directory does not exist for run laptop/r at '/srv/purgery/laptop/incoming/r'"
    );
    assert_eq!(
        prepare(true, &missing(), &plan).full(),
        "failed to read run config: No such file or directory (os error 2)"
    );
    assert_eq!(
        prepare(true, &broken("purgery_version = \"0.1.0\""), &plan).full(),
        "failed to parse run config: parse error"
    );
    let mut keep = run_config("/d");
    keep.delete_after_import = false;
    assert_eq!(
        prepare(true, &found("0.1.0", keep), &plan).message,
        "transform runs require delete_after_import = true"
    );
    assert_eq!(
        prepare(true, &good, &missing()).full(),
        "failed to read manifest: No such file or directory (os error 2)"
    );
    assert_eq!(
        prepare(true, &good, &one_step_manifest("q")).message,
        "envelope validation failed: manifest run_id 'q' does not match 'r'"
    );
    let empty = found("0.1.0", manifest("r", vec![]));
    assert_eq!(
        prepare(true, &good, &empty).message,
        "server run manifest must contain exactly one entry, got 0"
    );
    let plain = found("0.1.0", manifest("r", vec![entry("files/a", "a", None)]));
    assert_eq!(
        prepare(true, &good, &plain).message,
        "server run entry 'a' has no transform"
    );
    let relative = stored_run_config("d");
    let lost = prepare_run(
        &config,
        &nick,
        &id,
        true,
        &relative,
        &plan,
        &CurrentDirectory::Unknown("gone".to_string()),
    )
    .unwrap_err();
    assert_eq!(lost.full(), "failed to get current working directory: gone");
    let strange =
        prepare_run(&config, &nick, &id, true, &relative, &plan, &CurrentDirectory::NotUtf8)
            .unwrap_err();
    assert_eq!(strange.message, "resolved destination path is not valid UTF-8");
}

// The server itself

#[test]
fn server_check_accepts_a_sound_server() {
    let config = config_with(transform("compress", "/bin/true", &["{stem}.out"]));
    let work_dir = WorkDirSighting { exists: true, is_dir: true };
    assert!(server_check(&config, work_dir, &vec![Ok(())]).is_ok());
}

#[test]
fn every_refusal_of_the_server_check() {
    let work_dir = WorkDirSighting { exists: true, is_dir: true };
    let mut lease = config();
    lease.gc.incoming_lease_secs = 0;
    assert_eq!(
        server_check(&lease, work_dir, &vec![]).unwrap_err().message,
        "gc.incoming_lease_secs must be greater than 0"
    );
    let mut beat = config();
    beat.gc.heartbeat_interval_secs = 0;
    assert_eq!(
        server_check(&beat, work_dir, &vec![]).unwrap_err().message,
        "gc.heartbeat_interval_secs must be greater than 0"
    );
    let mut slow = config();
    slow.gc.incoming_lease_secs = 100;
    slow.gc.heartbeat_interval_secs = 51;
    assert_eq!(
        server_check(&slow, work_dir, &vec![]).unwrap_err().message,
        "gc.heartbeat_interval_secs (51) must be <= half of gc.incoming_lease_secs (100) \
         to provide a safety margin for lease renewal"
    );
    slow.gc.heartbeat_interval_secs = 50;
    assert!(server_check(&slow, work_dir, &vec![]).is_ok());
    let gone = WorkDirSighting { exists: false, is_dir: false };
    assert_eq!(
        server_check(&config(), gone, &vec![]).unwrap_err().message,
        "work_dir '/srv/purgery' does not exist (run `purgery-server bootstrap` to create it)"
    );
    let file = WorkDirSighting { exists: true, is_dir: false };
    assert_eq!(
        server_check(&config(), file, &vec![]).unwrap_err().message,
        "work_dir '/srv/purgery' exists but is not a directory"
    );
    let empty = config_with(transform("compress", "", &[]));
    assert!(server_check(&empty, work_dir, &vec![Ok(())])
        .unwrap_err()
        .message
        .starts_with("transform 'compress': "));
    let absent = config_with(transform("compress", "no-such-program", &[]));
    let programs = vec![Err("program not found".to_string())];
    assert_eq!(
        server_check(&absent, work_dir, &programs).unwrap_err().message,
        "program not found"
    );
}

#[test]
fn bootstrap_tells_what_went_wrong() {
    assert!(bootstrap(&config(), &Ok(())).is_ok());
    let refusal = bootstrap(&config(), &Err("read-only".to_string())).unwrap_err();
    assert_eq!(refusal.full(), "failed to create work_dir: /srv/purgery: read-only");
}

// Versions

#[test]
fn versions_of_a_release_line_agree() {
    assert!(is_compatible("0.1.0"));
    assert!(is_compatible("0.1.0-test"));
    assert!(is_compatible("0.1.99"));
    assert!(!is_compatible("0.2.0"));
    assert!(!is_compatible("2.0.0"));
    assert!(!is_compatible(""));
    assert!(!is_compatible("0.1"));
    assert!(same_release_line("3.4.5", "3.4.9"));
    assert!(!same_release_line("3.4.5", "4.4.5"));
}

#[test]
fn versions_are_probed_before_documents_are_parsed() {
    assert!(matches!(
        probe_purgery_version_from_toml("purgery_version = \"1.2.3\"\n[[entries]]\na = 1\n"),
        VersionProbe::Version(v) if v == "1.2.3"
    ));
    assert!(matches!(probe_purgery_version_from_toml("a = 1"), VersionProbe::Missing));
    assert!(matches!(probe_purgery_version_from_toml("a = "), VersionProbe::Invalid(_)));
    let foreign = check_probe(&probe_purgery_version_from_toml("purgery_version = \"9.9.9\""));
    assert!(matches!(foreign, TomlVersionCheck::Incompatible { .. }));
    let own = check_probe(&probe_purgery_version_from_toml("purgery_version = \"0.1.7\""));
    assert!(matches!(own, TomlVersionCheck::Compatible));
    let invalid = check_probe(&probe_purgery_version_from_toml("{{{"));
    assert!(matches!(invalid, TomlVersionCheck::InvalidToml { .. }));
}

#[test]
fn the_version_answer_is_a_document() {
    let answer = version_response();
    assert_eq!(answer, "protocol_version = 1\npurgery_version = \"0.1.0\"\n");
    let parsed: toml::Table = answer.parse().unwrap();
    assert_eq!(parsed.get("protocol_version").unwrap().as_integer(), Some(1));
}

// The command line

fn run_command(make: fn(String, String) -> Command) -> Command {
    make("laptop".to_string(), "r".to_string())
}

fn protocol_commands() -> Vec<Command> {
    vec![
        run_command(|nickname, run_id| Command::BeginRun { nickname, run_id }),
        run_command(|nickname, run_id| Command::PrepareRun { nickname, run_id }),
        run_command(|nickname, run_id| Command::FinishRun { nickname, run_id }),
        run_command(|nickname, run_id| Command::HeartbeatRun { nickname, run_id }),
        run_command(|nickname, run_id| Command::RunState { nickname, run_id }),
        run_command(|nickname, run_id| Command::Status { nickname, run_id }),
        run_command(|nickname, run_id| Command::ProcessRun { nickname, run_id }),
    ]
}

#[test]
fn commands_by_name() {
    let names: Vec<&str> = protocol_commands().iter().map(command_name).collect();
    assert_eq!(
        names,
        [
            "begin-run",
            "prepare-run",
            "finish-run",
            "heartbeat-run",
            "run-state",
            "status",
            "process-run"
        ]
    );
    for cmd in &protocol_commands() {
        assert!(is_protocol_command(cmd));
    }
    let operator = [
        (Command::Version, "version"),
        (Command::ProcessOnce, "process-once"),
        (Command::Check, "check"),
        (Command::Bootstrap, "bootstrap"),
        (Command::Gc, "gc"),
    ];
    for (cmd, name) in &operator {
        assert!(!is_protocol_command(cmd));
        assert_eq!(command_name(cmd), *name);
    }
}

#[test]
fn protocol_command_without_config_emits_protocol_error() {
    let env = ConfigEnvironment {
        explicit: None,
        xdg_config_home: None,
        xdg_exists: false,
        home: Some("/home/nobody".to_string()),
        home_exists: false,
        etc_exists: false,
    };
    let error = find_config(&env).unwrap_err();
    let begin = run_command(|nickname, run_id| Command::BeginRun { nickname, run_id });
    let envelope = setup_failure(&begin, &error).unwrap();
    assert!(!envelope.ok);
    assert_eq!(envelope.command, "begin-run");
    assert_eq!(envelope.error.code, "server_config_invalid");
    assert!(!envelope.error.message.is_empty());
}

#[test]
fn operator_command_without_config_emits_cli_error() {
    let env = ConfigEnvironment {
        explicit: None,
        xdg_config_home: None,
        xdg_exists: false,
        home: Some("/home/nobody".to_string()),
        home_exists: false,
        etc_exists: false,
    };
    let error = find_config(&env).unwrap_err();
    assert!(!error.full().is_empty());
    assert!(setup_failure(&Command::Check, &error).is_none());
}

#[test]
fn protocol_command_with_invalid_nickname_emits_invalid_request() {
    let envelope =
        validate_nickname_and_run_id("begin-run", "invalid nickname!!!", "test-request")
            .unwrap_err();
    assert_eq!(envelope.error.code, "invalid_request");
    assert_eq!(
        envelope.error.message,
        "invalid nickname: 'invalid nickname!!!' is not a valid name"
    );
    assert_eq!(envelope.command, "begin-run");
    let envelope = validate_nickname_and_run_id("status", "laptop", "../up").unwrap_err();
    assert_eq!(envelope.error.message, "invalid run ID: '../up' is not a valid name");
    let (nick, id) = validate_nickname_and_run_id("status", "laptop", "2024-01.a_b").unwrap();
    assert_eq!(nick.as_str(), "laptop");
    assert_eq!(id.as_str(), "2024-01.a_b");
}

#[test]
fn prepare_run_config_invalid_emits_run_plan_invalid() {
    let refusal = prepare_run(
        &config(),
        &nickname("laptop"),
        &run_id("no-directory"),
        false,
        &missing(),
        &missing(),
        &cwd(),
    )
    .map(|_| ());
    let code = protocol_error_code("prepare-run");
    let envelope = run_protocol("prepare-run", code, &refusal).unwrap();
    assert_eq!(envelope.error.code, "run_plan_invalid");
    assert!(!envelope.error.message.is_empty());
    assert_eq!(envelope.protocol_version, 1);
    assert_eq!(envelope.purgery_version, current_purgery_version());
}

#[test]
fn only_failures_are_answered_with_an_envelope() {
    assert!(run_protocol("status", "server_error", &Ok(())).is_none());
    let failure = Failure::with_cause("failed to read lease file".to_string(), "denied");
    let envelope = run_protocol("finish-run", "server_error", &Err(failure)).unwrap();
    assert_eq!(envelope.error.message, "failed to read lease file: denied");
    assert_eq!(protocol_error_code("finish-run"), "server_error");
}

#[test]
fn the_configuration_is_found_in_order() {
    let set = |s: &str| Some(s.to_string());
    let mut env = ConfigEnvironment {
        explicit: set("/explicit.toml"),
        xdg_config_home: set("/xdg"),
        xdg_exists: true,
        home: set("/home/me"),
        home_exists: true,
        etc_exists: true,
    };
    assert_eq!(find_config(&env).unwrap(), "/explicit.toml");
    env.explicit = set("");
    assert_eq!(find_config(&env).unwrap(), "/xdg/purgery/server.toml");
    env.xdg_exists = false;
    assert_eq!(find_config(&env).unwrap(), "/home/me/.config/purgery/server.toml");
    env.home = None;
    assert_eq!(find_config(&env).unwrap(), "/etc/purgery/server.toml");
    env.etc_exists = false;
    assert!(find_config(&env).is_err());
    assert_eq!(choose_config(&set("/given.toml"), &env).unwrap(), "/given.toml");
    assert!(choose_config(&set(""), &env).is_err());
}

#[test]
fn the_command_line_overrides_logging() {
    let base = LoggingConfig {
        level: LogLevel::Info,
        format: LogFormat::Pretty,
        color: ColorMode::Auto,
    };
    let none = LoggingOverrides {
        quiet: false,
        verbose: false,
        log_level: None,
        log_format: None,
        color: None,
    };
    assert_eq!(apply_cli_overrides(base, &none).unwrap(), base);
    let quiet = LoggingOverrides { quiet: true, ..none };
    assert_eq!(apply_cli_overrides(base, &quiet).unwrap().level, LogLevel::Error);
    let verbose = LoggingOverrides { verbose: true, ..quiet };
    assert_eq!(apply_cli_overrides(base, &verbose).unwrap().level, LogLevel::Debug);
    let named = LoggingOverrides {
        log_level: Some("trace".to_string()),
        log_format: Some("json".to_string()),
        color: Some("never".to_string()),
        ..verbose
    };
    assert_eq!(
        apply_cli_overrides(base, &named).unwrap(),
        LoggingConfig { level: LogLevel::Trace, format: LogFormat::Json, color: ColorMode::Never }
    );
    let wrong = LoggingOverrides { color: Some("pink".to_string()), ..named };
    assert_eq!(
        apply_cli_overrides(base, &wrong).unwrap_err().message,
        "invalid color mode: unknown color mode 'pink'"
    );
    let wrong = LoggingOverrides { log_format: Some("xml".to_string()), ..wrong };
    assert_eq!(
        apply_cli_overrides(base, &wrong).unwrap_err().message,
        "invalid log format: unknown log format 'xml'"
    );
    let wrong = LoggingOverrides { log_level: Some("loud".to_string()), ..wrong };
    assert_eq!(
        apply_cli_overrides(base, &wrong).unwrap_err().message,
        "invalid log level: unknown log level 'loud'"
    );
}

#[test]
fn a_clock_before_the_epoch_counts_as_the_epoch() {
    assert_eq!(unix_now(Some(42)), 42);
    assert_eq!(unix_now(None), 0);
}

// Replacing documents

#[test]
fn documents_are_replaced_behind_a_whole_write() {
    let mut step = PublishStep::Encode;
    let mut path = vec![step];
    while step != PublishStep::Published {
        step = step.advance(true);
        path.push(step);
    }
    assert_eq!(
        path,
        [PublishStep::Encode, PublishStep::Write, PublishStep::Rename, PublishStep::Published]
    );
    assert_eq!(
        PublishStep::Write.advance(false),
        PublishStep::Refused(PublishFault::Writing)
    );
    assert_eq!(
        PublishStep::Refused(PublishFault::Writing).advance(true),
        PublishStep::Refused(PublishFault::Writing)
    );
}

#[test]
fn failed_publications_say_why() {
    let said = |document, fault| publish_failure(document, fault, "/d/x.tmp", "/d/x", "e").full();
    check_leases_and_run_configs(&said);
    assert_eq!(
        said(Publication::Status, PublishFault::Writing),
        "failed to write temporary status: /d/x.tmp: e"
    );
    assert_eq!(
        said(Publication::Status, PublishFault::Renaming),
        "failed to publish status: /d/x: e"
    );
    assert_eq!(
        said(Publication::Progress, PublishFault::Encoding),
        "failed to serialize progress: e"
    );
    assert_eq!(
        said(Publication::Progress, PublishFault::Writing),
        "failed to write progress: /d/x.tmp: e"
    );
    assert_eq!(
        said(Publication::Progress, PublishFault::Renaming),
        "failed to publish progress: /d/x: e"
    );
}

fn check_leases_and_run_configs(said: &dyn Fn(Publication, PublishFault) -> String) {
    for (document, name) in
        [(Publication::Lease, "lease"), (Publication::RunConfig, "updated run config")]
    {
        for (fault, verb) in [
            (PublishFault::Encoding, "serialize"),
            (PublishFault::Writing, "write"),
            (PublishFault::Renaming, "commit"),
        ] {
            assert_eq!(said(document, fault), format!("failed to {verb} {name}: e"));
        }
    }
    assert_eq!(said(Publication::Status, PublishFault::Encoding), "failed to serialize status: e");
}

#[test]
fn transforms_are_kept_in_order_and_once() {
    let with = |names: &[&str]| {
        let mut config = config();
        for name in names {
            config.transforms.push(transform(name, "true", &[]));
        }
        config.is_well_formed()
    };
    assert!(with(&[]));
    assert!(with(&["a"]));
    assert!(with(&["a", "aa", "b", "\u{e9}"]));
    assert!(!with(&["b", "a"]));
    assert!(!with(&["a", "a"]));
    assert!(!with(&["a", "c", "b"]));
    assert!(!with(&["aa", "a"]));
}
