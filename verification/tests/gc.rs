//! Collection of expired work state.

use std::collections::BTreeSet;

use purgery_server::gc::{
    classify_terminal_status, collect_run, distrust_lease, expiry_from_mtime, log_decision,
    prune_success_terminal, read_trusted_state, run_gc, GcAction, GcDistance, GcReason, GcTarget,
    GcVerdict, NicknameListing, RunListing,
};
use purgery_server::model::{
    Document, GCConfig, LeaseFile, Lookup, Nickname, RunId, RunPhase, RunState, RunStatus,
    ServerConfig,
};
use purgery_server::phases::{
    abandon_message, begin_run, fail_abandoned_upload, finalize_processing_run, AbandonStep,
    MoveStep, PhasePresence,
};
use purgery_server::version::{
    current_purgery_version, probe_purgery_version_from_toml, VersionProbe, PROTOCOL_VERSION,
};

const NOW: u64 = 1_700_000_000;

fn config() -> GCConfig {
    GCConfig {
        incoming_lease_secs: 1,
        heartbeat_interval_secs: 1,
        ready_retention_secs: 0,
        processing_retention_secs: 0,
        done_retention_secs: 0,
        failed_retention_secs: 0,
        orphan_retention_secs: 86400,
    }
}

fn nickname(s: &str) -> Nickname {
    Nickname::new(s.to_string()).unwrap()
}

fn run_id(s: &str) -> RunId {
    RunId::new(s.to_string()).unwrap()
}

fn status(nick: &str, id: &str, state: RunState) -> Lookup<RunStatus> {
    let version = current_purgery_version().to_string();
    Lookup::Found(Document {
        version: VersionProbe::Version(version.clone()),
        parsed: Ok(RunStatus {
            purgery_version: version,
            run_id: run_id(id),
            nickname: nickname(nick),
            state,
            entries: vec![],
            error: None,
        }),
    })
}

fn unreadable_toml<T>(text: &str) -> Lookup<T> {
    Lookup::Found(Document {
        version: probe_purgery_version_from_toml(text),
        parsed: Err("expected an equals sign".to_string()),
    })
}

fn missing<T>() -> Lookup<T> {
    Lookup::Missing("No such file or directory".to_string())
}

fn lease_toml(
    nick: &str,
    id: &str,
    expires: u64,
    protocol_version: u32,
    purgery_version: &str,
) -> String {
    format!(
        "protocol_version = {protocol_version}\n\
         purgery_version = \"{purgery_version}\"\n\
         nickname = \"{nick}\"\n\
         run_id = \"{id}\"\n\
         created_at_unix_secs = 0\n\
         last_heartbeat_unix_secs = 0\n\
         expires_at_unix_secs = {expires}\n"
    )
}

fn text_field(table: &toml::Table, key: &str) -> Option<String> {
    table
        .get(key)
        .and_then(|v| v.as_str())
        .map(|s| s.to_string())
}

fn number_field(table: &toml::Table, key: &str) -> Option<u64> {
    table
        .get(key)
        .and_then(|v| v.as_integer())
        .map(|n| n as u64)
}

fn parse_lease(text: &str) -> Option<LeaseFile> {
    let table: toml::Table = text.parse().ok()?;
    Some(LeaseFile {
        protocol_version: number_field(&table, "protocol_version")? as u32,
        purgery_version: text_field(&table, "purgery_version")?,
        nickname: text_field(&table, "nickname")?,
        run_id: text_field(&table, "run_id")?,
        created_at_unix_secs: number_field(&table, "created_at_unix_secs").unwrap_or(0),
        last_heartbeat_unix_secs: number_field(&table, "last_heartbeat_unix_secs").unwrap_or(0),
        expires_at_unix_secs: number_field(&table, "expires_at_unix_secs")?,
    })
}

fn lease(text: &str) -> Lookup<LeaseFile> {
    Lookup::Found(Document {
        version: probe_purgery_version_from_toml(text),
        parsed: parse_lease(text).ok_or("malformed lease".to_string()),
    })
}

fn listing(id: &str, mtime: u64) -> RunListing {
    RunListing {
        name: id.to_string(),
        mtime: Ok(mtime),
        lease: missing(),
        lock: Ok(None),
        status: missing(),
        status_mtime: Ok(mtime),
    }
}

fn judge(gc: &GCConfig, phase: RunPhase, run: &RunListing) -> GcVerdict {
    collect_run(gc, "laptop", phase, run, NOW).unwrap()
}

fn client(name: &str, mtime: u64) -> NicknameListing {
    NicknameListing {
        name: name.to_string(),
        mtime: Ok(mtime),
        incoming: vec![],
        ready: vec![],
        processing: vec![],
        done: vec![],
        failed: vec![],
    }
}

/// Where a run of the client is in a phase.
fn place(phase: RunPhase, id: &str) -> String {
    format!("/work/purgery/laptop/{}/{id}", phase.as_str())
}

/// What stands below the work directory, and the status that was published last.
struct Shelf {
    paths: BTreeSet<String>,
    status: Option<RunStatus>,
}

impl Shelf {
    fn with(dir: &str, below: &[&str]) -> Shelf {
        let mut paths: BTreeSet<String> =
            below.iter().map(|path| format!("{dir}/{path}")).collect();
        paths.insert(dir.to_string());
        Shelf { paths, status: None }
    }

    fn has(&self, path: &str) -> bool {
        self.paths.contains(path)
    }

    fn remove_tree(&mut self, path: &str) {
        let below = format!("{path}/");
        self.paths.retain(|p| p != path && !p.starts_with(&below));
    }

    fn rename(&mut self, from: &str, to: &str) -> bool {
        let below = format!("{from}/");
        let moved: Vec<String> = self
            .paths
            .iter()
            .filter(|p| *p == from || p.starts_with(&below))
            .map(|p| format!("{to}{}", &p[from.len()..]))
            .collect();
        if moved.is_empty() || self.has(to) {
            return false;
        }
        self.remove_tree(from);
        self.paths.extend(moved);
        true
    }

    /// Judges a run and carries the judgement out.
    fn collect(&mut self, gc: &GCConfig, phase: RunPhase, run: &RunListing) -> GcVerdict {
        let dir = place(phase, &run.name);
        let verdict = judge(gc, phase, run);
        match verdict.action {
            GcAction::Retain | GcAction::KeepLocked => {}
            GcAction::Remove => self.remove_tree(&dir),
            GcAction::Prune => {
                let below = format!("{dir}/");
                let names: Vec<String> = self
                    .paths
                    .iter()
                    .filter_map(|p| p.strip_prefix(&below))
                    .filter(|name| !name.contains('/'))
                    .map(|name| name.to_string())
                    .collect();
                let plan = prune_success_terminal(&names);
                for i in plan.trees.iter().chain(&plan.files) {
                    self.remove_tree(&format!("{dir}/{}", names[*i]));
                }
            }
            GcAction::FailAbandoned => self.fail_abandoned(&dir, &run.name),
        }
        verdict
    }

    fn fail_abandoned(&mut self, incoming: &str, id: &str) {
        let failed = place(RunPhase::Failed, id);
        let (mut step, status) = fail_abandoned_upload(&nickname("laptop"), &run_id(id));
        let mut status = Some(status);
        loop {
            let ok = match step {
                AbandonStep::WriteStatus => {
                    self.paths.insert(format!("{incoming}/status.toml.tmp"))
                }
                AbandonStep::PublishStatus => {
                    self.status = status.take();
                    self.rename(
                        &format!("{incoming}/status.toml.tmp"),
                        &format!("{incoming}/status.toml"),
                    )
                }
                AbandonStep::DropUpload => {
                    self.remove_tree(&format!("{incoming}/files"));
                    true
                }
                AbandonStep::Move(MoveStep::Finished) => return,
                AbandonStep::Move(MoveStep::Rename) => self.rename(incoming, &failed),
                AbandonStep::Move(MoveStep::CreateParent | MoveStep::RemoveLock) => true,
                end => panic!("unexpected end {end:?}"),
            };
            step = step.advance(ok);
        }
    }
}

#[test]
fn gc_prunes_successful_done_payload_before_observation_expiry() {
    let mut gc = config();
    gc.done_retention_secs = 86400;
    let mut run = listing("done-prune", NOW);
    run.status = status("laptop", "done-prune", RunState::Done);
    let done = place(RunPhase::Done, "done-prune");
    let mut shelf = Shelf::with(
        &done,
        &[
            "files",
            "files/a",
            "files/a/input.txt",
            "work",
            "lease.toml",
            "progress.toml",
            "processor.lock",
            "status.toml.tmp",
            "run.toml",
            "manifest.toml",
            "status.toml",
        ],
    );
    assert_eq!(judge(&gc, RunPhase::Done, &run).action, GcAction::Prune);
    shelf.collect(&gc, RunPhase::Done, &run);
    assert!(shelf.has(&done));
    for path in [
        "files",
        "work",
        "lease.toml",
        "progress.toml",
        "processor.lock",
        "status.toml.tmp",
    ] {
        assert!(!shelf.has(&format!("{done}/{path}")), "{path} must be pruned");
    }
    for path in ["status.toml", "run.toml", "manifest.toml"] {
        assert!(shelf.has(&format!("{done}/{path}")), "{path} must remain observable");
    }
}

#[test]
fn gc_expires_terminal_and_work_phases() {
    let gc = config();
    let mut laptop = client("laptop", NOW);
    let mut done = listing("old-done", NOW);
    done.status = status("laptop", "old-done", RunState::Done);
    laptop.done.push(done);
    let mut failed = listing("old-failed", NOW);
    failed.status = status("laptop", "old-failed", RunState::Failed);
    laptop.failed.push(failed);
    laptop.ready.push(listing("old-ready", NOW));
    laptop.processing.push(listing("old-processing", NOW));

    let plan = run_gc(&gc, &vec![laptop], NOW);
    assert!(plan.failure.is_none());
    assert_eq!(plan.steps.len(), 4);
    for step in &plan.steps {
        assert_eq!(step.verdict.action, GcAction::Remove);
    }
    let targets: Vec<GcTarget> = plan.steps.iter().map(|s| s.target).collect();
    assert_eq!(
        targets,
        [
            GcTarget::Run { index: 0, phase: RunPhase::Ready, run: 0 },
            GcTarget::Run { index: 0, phase: RunPhase::Processing, run: 0 },
            GcTarget::Run { index: 0, phase: RunPhase::Done, run: 0 },
            GcTarget::Run { index: 0, phase: RunPhase::Failed, run: 0 },
        ]
    );
}

#[test]
fn gc_retains_fresh_malformed_incoming_under_orphan_policy() {
    let gc = config();
    let mut run = listing("fresh-bad", NOW);
    run.lease = unreadable_toml("not toml");
    let verdict = judge(&gc, RunPhase::Incoming, &run);
    assert_eq!(verdict.action, GcAction::Retain);
    assert_eq!(verdict.decision.expiry_unix_secs, NOW + 86400);
}

#[test]
fn gc_removes_old_malformed_incoming_after_orphan_window() {
    let mut gc = config();
    gc.orphan_retention_secs = 3600;
    let mut run = listing("old-bad", NOW - 7200);
    run.lease = unreadable_toml("not toml");
    assert_eq!(judge(&gc, RunPhase::Incoming, &run).action, GcAction::Remove);
}

#[test]
fn gc_expired_done_dir_deleted_without_pruning_refresh() {
    let mut gc = config();
    gc.done_retention_secs = 3600;
    let mut run = listing("expired-done", NOW - 7200);
    run.status = status("laptop", "expired-done", RunState::Done);
    run.status_mtime = Ok(NOW - 7200);
    assert_eq!(judge(&gc, RunPhase::Done, &run).action, GcAction::Remove);
}

#[test]
fn gc_removes_old_invalid_top_level_nickname_dir() {
    let mut gc = config();
    gc.orphan_retention_secs = 3600;
    let mut invalid = client("bad!nick name", NOW - 7200);
    invalid.incoming.push(listing("some-run", NOW));
    let plan = run_gc(&gc, &vec![invalid], NOW);
    assert_eq!(plan.steps.len(), 1);
    assert_eq!(plan.steps[0].target, GcTarget::Client { index: 0 });
    assert_eq!(plan.steps[0].verdict.action, GcAction::Remove);
    assert_eq!(plan.steps[0].verdict.decision.reason, GcReason::InvalidNickname);
}

#[test]
fn gc_retains_fresh_invalid_top_level_nickname_dir() {
    let gc = config();
    let mut invalid = client("bad!nick name", NOW);
    invalid.incoming.push(listing("some-run", NOW));
    let plan = run_gc(&gc, &vec![invalid], NOW);
    assert_eq!(plan.steps.len(), 1);
    assert_eq!(plan.steps[0].verdict.action, GcAction::Retain);
    let mut stale = client("bad!nick name", NOW);
    stale.incoming.push(listing("some-run", NOW - 999_999));
    let plan = run_gc(&gc, &vec![stale], NOW);
    assert_eq!(plan.steps.len(), 1);
    assert_eq!(plan.steps[0].verdict.action, GcAction::Retain);
}

#[test]
fn gc_does_not_delete_locked_processing() {
    let gc = config();
    let mut run = listing("locked-processing", NOW);
    run.lock = Ok(Some(true));
    let verdict = judge(&gc, RunPhase::Processing, &run);
    assert!(verdict.decision.expired);
    assert_eq!(verdict.action, GcAction::KeepLocked);
}

#[test]
fn gc_removes_expired_unlocked_processing() {
    let gc = config();
    let run = listing("old-processing", NOW);
    assert_eq!(judge(&gc, RunPhase::Processing, &run).action, GcAction::Remove);
    let mut idle = listing("old-processing", NOW);
    idle.lock = Ok(Some(false));
    assert_eq!(judge(&gc, RunPhase::Processing, &idle).action, GcAction::Remove);
}

#[test]
fn fresh_done_with_stale_payload_is_pruned_not_deleted() {
    let mut gc = config();
    gc.done_retention_secs = 86400;
    let mut run = listing("fresh-done", NOW);
    run.status = status("laptop", "fresh-done", RunState::Done);
    let done = place(RunPhase::Done, "fresh-done");
    let mut shelf = Shelf::with(
        &done,
        &[
            "files",
            "files/a",
            "files/a/input.txt",
            "work",
            "lease.toml",
            "progress.toml",
            "processor.lock",
            "run.toml",
            "manifest.toml",
            "status.toml",
        ],
    );
    shelf.collect(&gc, RunPhase::Done, &run);
    assert!(shelf.has(&done));
    assert!(shelf.has(&format!("{done}/status.toml")));
    assert!(shelf.has(&format!("{done}/run.toml")));
    assert!(shelf.has(&format!("{done}/manifest.toml")));
    assert!(!shelf.has(&format!("{done}/files")));
    assert!(!shelf.has(&format!("{done}/work")));
    assert!(!shelf.has(&format!("{done}/lease.toml")));
    assert!(!shelf.has(&format!("{done}/progress.toml")));
    assert!(!shelf.has(&format!("{done}/processor.lock")));

    run.mtime = Ok(NOW - 999_999);
    assert_eq!(judge(&gc, RunPhase::Done, &run).action, GcAction::Prune);
}

#[test]
fn done_status_not_done_is_orphan_not_expired_by_done_retention() {
    let gc = config();
    let mut run = listing("done-failed", NOW);
    run.status = status("laptop", "done-failed", RunState::Failed);
    let verdict = judge(&gc, RunPhase::Done, &run);
    assert_eq!(verdict.action, GcAction::Retain);
    assert_eq!(verdict.decision.reason, GcReason::InvalidTerminalStatus);
}

#[test]
fn finalization_succeeds_even_when_pruning_fails() {
    let processing = place(RunPhase::Processing, "prune-fail");
    let mut shelf = Shelf::with(
        &processing,
        &[
            "files",
            "files/sub",
            "files/sub/x.txt",
            "work",
            "status.toml",
            "run.toml",
            "manifest.toml",
            "lease.toml",
            "progress.toml",
            "processor.lock",
        ],
    );
    assert_eq!(finalize_processing_run(RunState::Done), RunPhase::Done);
    let done = place(finalize_processing_run(RunState::Done), "prune-fail");
    let mut step = MoveStep::CreateParent;
    while step != MoveStep::Finished {
        // Whatever becomes of what is not needed any more, the move is a success.
        let ok = match step {
            MoveStep::Rename => shelf.rename(&processing, &done),
            MoveStep::RemoveLock => false,
            _ => true,
        };
        step = step.advance(ok);
        assert!(!matches!(step, MoveStep::ParentFailed | MoveStep::RenameFailed));
    }
    assert!(shelf.has(&done));
    assert!(shelf.has(&format!("{done}/status.toml")));
    assert!(!shelf.has(&processing));
    let published = status("laptop", "prune-fail", RunState::Done);
    assert_eq!(
        read_trusted_state(&published, "laptop", "prune-fail"),
        Some(RunState::Done)
    );
    assert_eq!(MoveStep::RemoveLock.advance(false), MoveStep::Finished);
    assert_eq!(MoveStep::RemoveLock.advance(true), MoveStep::Finished);
}

#[test]
fn pruning_does_not_extend_done_retention() {
    let mut gc = config();
    gc.done_retention_secs = 3600;
    let mut run = listing("prune-extend", NOW);
    run.status = status("laptop", "prune-extend", RunState::Done);
    run.status_mtime = Ok(NOW - 7200);
    assert_eq!(judge(&gc, RunPhase::Done, &run).action, GcAction::Remove);
}

#[test]
fn fresh_done_pruning_does_not_refresh_future_expiry() {
    let mut gc = config();
    gc.done_retention_secs = 3600;
    let mut run = listing("prune-future", NOW);
    run.status = status("laptop", "prune-future", RunState::Done);
    let done = place(RunPhase::Done, "prune-future");
    let mut shelf = Shelf::with(
        &done,
        &[
            "files",
            "files/x.txt",
            "work",
            "status.toml",
            "run.toml",
            "manifest.toml",
            "lease.toml",
            "progress.toml",
            "processor.lock",
        ],
    );
    run.status_mtime = Ok(NOW - 600);
    shelf.collect(&gc, RunPhase::Done, &run);
    assert!(shelf.has(&done));
    assert!(!shelf.has(&format!("{done}/files")));

    run.status_mtime = Ok(NOW - 7200);
    run.mtime = Ok(NOW - 100);
    shelf.collect(&gc, RunPhase::Done, &run);
    assert!(!shelf.has(&done));
}

#[test]
fn malformed_done_status_uses_orphan_retention() {
    let gc = config();
    let mut run = listing("malformed-done", NOW);
    run.status = unreadable_toml("not valid toml");
    assert_eq!(judge(&gc, RunPhase::Done, &run).action, GcAction::Retain);
}

#[test]
fn failed_retention_uses_status_mtime() {
    let mut gc = config();
    gc.failed_retention_secs = 3600;
    let mut run = listing("failed-by-status", NOW - 100);
    run.status = status("laptop", "failed-by-status", RunState::Failed);
    run.status_mtime = Ok(NOW - 7200);
    let verdict = judge(&gc, RunPhase::Failed, &run);
    assert_eq!(verdict.action, GcAction::Remove);
    assert_eq!(verdict.decision.reason, GcReason::FailedRetention);
}

#[test]
fn incompatible_lease_expiry_not_trusted_fresh() {
    let gc = config();
    let mut run = listing("incompat-fresh", NOW);
    run.lease = lease(&lease_toml(
        "laptop",
        "incompat-fresh",
        9999999999999,
        PROTOCOL_VERSION,
        "99.0.0",
    ));
    let verdict = judge(&gc, RunPhase::Incoming, &run);
    assert_eq!(verdict.action, GcAction::Retain);
    assert_eq!(verdict.decision.reason, GcReason::IncompatibleVersion);
    assert_eq!(verdict.decision.expiry_unix_secs, NOW + 86400);
}

#[test]
fn incompatible_lease_removed_after_orphan_window() {
    let mut gc = config();
    gc.orphan_retention_secs = 3600;
    let mut run = listing("incompat-old", NOW - 7200);
    run.lease = lease(&lease_toml(
        "laptop",
        "incompat-old",
        9999999999999,
        PROTOCOL_VERSION,
        "99.0.0",
    ));
    assert_eq!(judge(&gc, RunPhase::Incoming, &run).action, GcAction::Remove);
}

#[test]
fn protocol_mismatch_lease_uses_orphan_retention() {
    let mut gc = config();
    gc.orphan_retention_secs = 3600;
    gc.incoming_lease_secs = 86400;
    let mut run = listing("proto-mismatch", NOW - 7200);
    run.lease = lease(&lease_toml("laptop", "proto-mismatch", 9999999999999, 999, "0.1.0-test"));
    let verdict = judge(&gc, RunPhase::Incoming, &run);
    assert_eq!(verdict.action, GcAction::Remove);
    assert_eq!(verdict.decision.reason, GcReason::ProtocolMismatch);
}

#[test]
fn envelope_mismatch_lease_uses_orphan_retention() {
    let mut gc = config();
    gc.orphan_retention_secs = 3600;
    gc.incoming_lease_secs = 86400;
    let mut run = listing("env-mismatch", NOW - 7200);
    run.lease = lease(&lease_toml(
        "other",
        "env-mismatch",
        9999999999999,
        PROTOCOL_VERSION,
        "0.1.0-test",
    ));
    let verdict = judge(&gc, RunPhase::Incoming, &run);
    assert_eq!(verdict.action, GcAction::Remove);
    assert_eq!(verdict.decision.reason, GcReason::EnvelopeMismatch);
}

#[test]
fn done_status_wrong_nickname_retained_under_orphan_fresh() {
    let gc = config();
    let mut run = listing("wrong-nick", NOW);
    run.status = status("other", "wrong-nick", RunState::Done);
    assert_eq!(judge(&gc, RunPhase::Done, &run).action, GcAction::Retain);
}

#[test]
fn done_status_wrong_nickname_deleted_after_orphan_window() {
    let mut gc = config();
    gc.done_retention_secs = 3600;
    gc.orphan_retention_secs = 3600;
    let mut run = listing("wrong-nick-old", NOW - 7200);
    run.status = status("other", "wrong-nick-old", RunState::Done);
    run.status_mtime = Ok(NOW);
    assert_eq!(judge(&gc, RunPhase::Done, &run).action, GcAction::Remove);
}

#[test]
fn failed_status_wrong_nickname_deleted_after_orphan_window() {
    let mut gc = config();
    gc.failed_retention_secs = 3600;
    gc.orphan_retention_secs = 3600;
    let mut run = listing("fail-wrong-nick", NOW - 7200);
    run.status = status("other", "fail-wrong-nick", RunState::Failed);
    run.status_mtime = Ok(NOW);
    assert_eq!(judge(&gc, RunPhase::Failed, &run).action, GcAction::Remove);
}

#[test]
fn done_status_says_failed_treated_as_orphan() {
    let gc = config();
    let mut run = listing("done-failed-state", NOW);
    run.status = status("laptop", "done-failed-state", RunState::Failed);
    assert_eq!(judge(&gc, RunPhase::Done, &run).action, GcAction::Retain);
    assert!(!classify_terminal_status(
        &run.status,
        "laptop",
        "done-failed-state",
        RunPhase::Done
    ));
}

#[test]
fn failed_status_says_done_treated_as_orphan() {
    let gc = config();
    let mut run = listing("fail-done-state", NOW);
    run.status = status("laptop", "fail-done-state", RunState::Done);
    assert_eq!(judge(&gc, RunPhase::Failed, &run).action, GcAction::Retain);
}

#[test]
fn test_gc_collects_abandoned_incoming_upload() {
    let config = ServerConfig {
        work_dir: "/work/purgery".to_string(),
        gc: GCConfig::default(),
        transforms: vec![],
    };
    let nobody = PhasePresence {
        incoming: false,
        ready: false,
        processing: false,
        done: false,
        failed: false,
    };
    let nick = nickname("laptop");
    let id = run_id("abandoned-upload");
    let plan = begin_run(&config, &nick, &id, nobody, NOW).unwrap();
    let incoming = place(RunPhase::Incoming, "abandoned-upload");
    assert_eq!(plan.response.incoming_dir, incoming);
    let mut shelf = Shelf::with(
        &incoming,
        &["lease.toml", "files", "files/univ", "files/partial.txt"],
    );
    let mut begun = plan.lease;
    begun.expires_at_unix_secs = 0;
    let mut run = listing("abandoned-upload", NOW);
    run.lease = Lookup::Found(Document {
        version: VersionProbe::Version(begun.purgery_version.clone()),
        parsed: Ok(begun),
    });
    assert_eq!(judge(&config.gc, RunPhase::Incoming, &run).action, GcAction::FailAbandoned);
    shelf.collect(&config.gc, RunPhase::Incoming, &run);

    let failed = place(RunPhase::Failed, "abandoned-upload");
    assert!(!shelf.has(&format!("{failed}/files")));
    assert!(!shelf.has(&format!("{failed}/files/partial.txt")));
    assert!(shelf.has(&format!("{failed}/status.toml")));
    assert!(!shelf.has(&incoming));
    let published = shelf.status.unwrap();
    assert_eq!(published.state, RunState::Failed);
    assert!(published.error.unwrap().contains("lease"));
}

#[test]
fn gc_rejects_incompatible_lease_version() {
    let gc = GCConfig::default();
    let mut run = listing("gc-lease-incompat", NOW);
    run.lease = lease(
        "purgery_version = \"2.0.0\"\n\
         protocol_version = 1\n\
         nickname = \"laptop\"\n\
         run_id = \"gc-lease-incompat\"\n\
         expires_at_unix_secs = 9999999999999\n",
    );
    let incoming = place(RunPhase::Incoming, "gc-lease-incompat");
    let mut shelf =
        Shelf::with(&incoming, &["lease.toml", "files", "files/staged.mp4"]);
    let verdict = shelf.collect(&gc, RunPhase::Incoming, &run);
    assert!(shelf.has(&incoming));
    assert!(shelf.has(&format!("{incoming}/files/staged.mp4")));
    assert!(!shelf.has(&place(RunPhase::Failed, "gc-lease-incompat")));
    assert_eq!(verdict.action, GcAction::Retain);
    assert_eq!(verdict.decision.reason, GcReason::IncompatibleVersion);
}

#[test]
fn gc_rejects_missing_lease_version() {
    let gc = GCConfig::default();
    let mut run = listing("gc-lease-missing", NOW);
    run.lease = lease(
        "protocol_version = 1\n\
         nickname = \"laptop\"\n\
         run_id = \"gc-lease-missing\"\n\
         expires_at_unix_secs = 9999999999999\n",
    );
    let incoming = place(RunPhase::Incoming, "gc-lease-missing");
    let mut shelf =
        Shelf::with(&incoming, &["lease.toml", "files", "files/staged.mp4"]);
    let verdict = shelf.collect(&gc, RunPhase::Incoming, &run);
    assert!(shelf.has(&incoming));
    assert!(shelf.has(&format!("{incoming}/files/staged.mp4")));
    assert!(!shelf.has(&place(RunPhase::Failed, "gc-lease-missing")));
    assert_eq!(verdict.action, GcAction::Retain);
    assert_eq!(verdict.decision.reason, GcReason::IncompatibleVersion);
}

#[test]
fn gc_still_collects_expired_compatible_lease() {
    let gc = GCConfig::default();
    let mut run = listing("gc-lease-expired", NOW);
    run.lease = lease(
        "purgery_version = \"0.1.0-test\"\n\
         protocol_version = 1\n\
         nickname = \"laptop\"\n\
         run_id = \"gc-lease-expired\"\n\
         expires_at_unix_secs = 1\n",
    );
    let incoming = place(RunPhase::Incoming, "gc-lease-expired");
    let mut shelf = Shelf::with(&incoming, &["lease.toml"]);
    let verdict = shelf.collect(&gc, RunPhase::Incoming, &run);
    assert!(!shelf.has(&incoming));
    assert!(shelf.has(&place(RunPhase::Failed, "gc-lease-expired")));
    assert_eq!(verdict.action, GcAction::FailAbandoned);
    assert_eq!(verdict.decision.reason, GcReason::Lease);
}

#[test]
fn a_lease_expires_the_moment_its_time_comes() {
    let gc = GCConfig::default();
    let mut run = listing("edge", NOW);
    run.lease = lease(&lease_toml("laptop", "edge", NOW, 1, "0.1.0"));
    assert_eq!(judge(&gc, RunPhase::Incoming, &run).action, GcAction::FailAbandoned);
    run.lease = lease(&lease_toml("laptop", "edge", NOW + 1, 1, "0.1.0"));
    assert_eq!(judge(&gc, RunPhase::Incoming, &run).action, GcAction::Retain);
}

#[test]
fn every_reason_to_distrust_a_lease() {
    assert_eq!(distrust_lease(&missing(), "laptop", "r"), Some(GcReason::MissingLease));
    let unreadable = Lookup::Unreadable("denied".to_string());
    assert_eq!(distrust_lease(&unreadable, "laptop", "r"), Some(GcReason::MissingLease));
    let malformed = lease("purgery_version = \"0.1.0\"\n");
    assert_eq!(distrust_lease(&malformed, "laptop", "r"), Some(GcReason::MalformedLease));
    let good = lease(&lease_toml("laptop", "r", 5, 1, "0.1.0"));
    assert_eq!(distrust_lease(&good, "laptop", "r"), None);
    assert_eq!(distrust_lease(&good, "laptop", "q"), Some(GcReason::EnvelopeMismatch));
}

#[test]
fn retention_saturates() {
    let decision =
        expiry_from_mtime(&Ok(u64::MAX - 1), 10, NOW, GcReason::Retention).unwrap();
    assert_eq!(decision.expiry_unix_secs, u64::MAX);
    assert!(!decision.expired);
    let failed = expiry_from_mtime(&Err("no mtime".to_string()), 10, NOW, GcReason::Retention);
    assert_eq!(failed.unwrap_err(), "no mtime");
}

#[test]
fn distances_are_told_from_now() {
    let past = expiry_from_mtime(&Ok(100), 10, 150, GcReason::Retention).unwrap();
    assert!(matches!(log_decision(past, 150), GcDistance::SecondsPastExpiry(40)));
    let ahead = expiry_from_mtime(&Ok(100), 100, 150, GcReason::Retention).unwrap();
    assert!(matches!(log_decision(ahead, 150), GcDistance::SecondsUntilDeletion(50)));
}

#[test]
fn a_pass_stops_at_what_it_cannot_judge() {
    let gc = config();
    let mut laptop = client("laptop", NOW);
    laptop.ready.push(listing("first", NOW));
    let mut broken = listing("second", NOW);
    broken.mtime = Err("stat failed".to_string());
    laptop.ready.push(broken);
    laptop.ready.push(listing("third", NOW));
    let plan = run_gc(&gc, &vec![laptop], NOW);
    assert_eq!(plan.steps.len(), 1);
    assert_eq!(plan.failure, Some("stat failed".to_string()));
}

#[test]
fn a_lock_that_cannot_be_probed_stops_the_pass() {
    let gc = config();
    let mut run = listing("probe", NOW);
    run.lock = Err("lock probe failed".to_string());
    let verdict = collect_run(&gc, "laptop", RunPhase::Processing, &run, NOW);
    assert_eq!(verdict.unwrap_err(), "lock probe failed");
}

#[test]
fn run_directories_with_strange_names_are_orphans() {
    let gc = config();
    let run = listing(".hidden", NOW - 86400);
    let verdict = judge(&gc, RunPhase::Ready, &run);
    assert_eq!(verdict.decision.reason, GcReason::InvalidRunId);
    assert_eq!(verdict.action, GcAction::Remove);
    assert_eq!(verdict.decision.reason.as_str(), "invalid run id");
}

#[test]
fn partial_runs_rest_in_done_and_keep_their_payload() {
    let mut gc = config();
    gc.done_retention_secs = 86400;
    let mut run = listing("partial", NOW);
    run.status = status("laptop", "partial", RunState::Partial);
    assert_eq!(judge(&gc, RunPhase::Done, &run).action, GcAction::Retain);
    assert_eq!(read_trusted_state(&run.status, "laptop", "partial"), Some(RunState::Partial));
    assert!(classify_terminal_status(&run.status, "laptop", "partial", RunPhase::Done));
}

#[test]
fn finished_runs_live_as_long_as_their_status() {
    let mut gc = config();
    gc.done_retention_secs = 3600;
    let mut run = listing("aged", NOW - 999_999);
    run.status = status("laptop", "aged", RunState::Done);
    run.status_mtime = Ok(NOW - 3599);
    assert_eq!(judge(&gc, RunPhase::Done, &run).action, GcAction::Prune);
    run.status_mtime = Ok(NOW - 3600);
    assert_eq!(judge(&gc, RunPhase::Done, &run).action, GcAction::Remove);
    gc.failed_retention_secs = 60;
    run.status = status("laptop", "aged", RunState::Failed);
    run.status_mtime = Ok(NOW - 59);
    assert_eq!(judge(&gc, RunPhase::Failed, &run).action, GcAction::Retain);
    run.status_mtime = Ok(NOW - 60);
    assert_eq!(judge(&gc, RunPhase::Failed, &run).action, GcAction::Remove);
}

#[test]
fn abandoned_uploads_are_dropped_between_the_status_and_the_move() {
    let (start, status) = fail_abandoned_upload(&nickname("laptop"), &run_id("r"));
    assert_eq!(start, AbandonStep::WriteStatus);
    assert_eq!(status.state, RunState::Failed);
    assert_eq!(
        status.error.as_deref(),
        Some("incoming lease expired before the run was finished")
    );
    let mut step = start;
    let mut steps = Vec::new();
    while step != AbandonStep::Move(MoveStep::Finished) {
        steps.push(step);
        step = step.advance(true);
    }
    assert_eq!(
        steps,
        [
            AbandonStep::WriteStatus,
            AbandonStep::PublishStatus,
            AbandonStep::DropUpload,
            AbandonStep::Move(MoveStep::CreateParent),
            AbandonStep::Move(MoveStep::Rename),
            AbandonStep::Move(MoveStep::RemoveLock),
        ]
    );
    assert_eq!(AbandonStep::DropUpload.advance(false), AbandonStep::DropFailed);
    let told = |step| abandon_message(step, "/i", "/f", "/i/files", "/t", "/s", "/p");
    assert_eq!(told(AbandonStep::DropFailed), "failed to remove abandoned upload: /i/files");
    assert_eq!(
        told(AbandonStep::WriteStatus.advance(false)),
        "failed to write temporary run failure status: /t"
    );
    assert_eq!(
        told(AbandonStep::PublishStatus.advance(false)),
        "failed to finalize run failure status: /s"
    );
    assert_eq!(
        told(AbandonStep::Move(MoveStep::ParentFailed)),
        "failed to create failed parent: /p"
    );
    assert_eq!(
        told(AbandonStep::Move(MoveStep::RenameFailed)),
        "failed to move run-level failure to failed: /i -> /f"
    );
}
