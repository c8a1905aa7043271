//! Runs on a disk in memory, from ready to a terminal phase.

use std::collections::BTreeMap;

use purgery_server::batch::{
    judge_processing, process_once_raw, Batch, BatchEnd, BatchEvent, BatchStage,
};
use purgery_server::claim::{
    claim_ready_run, describe_claim, process_run, process_run_answer, ClaimEnd, ClaimEvent,
    ClaimStep, ReadyClaimOutcome,
};
use purgery_server::commit::{
    commit_directory_entry, commit_directory_tree, commit_fault_message, commit_regular_file_entry,
    commit_symlink_entry, final_way, start_tree, tree_fault_message, tree_targets,
    CommitDisposition, CommitEnd, CommitEvent, CommitPlaces, CommitStep, DestinationProbe,
    FinalWay, TreeEnd, TreeEvent, TreeListing, TreeStep,
};
use purgery_server::entry::{
    entry_paths, process_manifest_entry, EntryOutcome, EntryPaths, EntryReports, EntryStep,
    StagedObservation,
};
use purgery_server::failure::Failure;
use purgery_server::inputs::{judge_inputs, read_compatible_run_inputs, ProcessingError};
use purgery_server::model::{
    Document, FileKind, FileStatus, GCConfig, LeaseFile, Lookup, Manifest, ManifestEntry,
    ManifestEntryKind, Nickname, RunConfig, RunId, RunPhase, RunState, RunStatus, ServerConfig, TransformDefinition,
    TransformKind,
};
use purgery_server::paths::{run_dir, work_area};
use purgery_server::phases::{
    begin_run, failure_status, finalize_message, finalize_processing_run, find_processing_runs,
    find_ready_runs, finish_run, move_to_failed, run_failure_message, write_run_failure,
    BeginStep, ClientDirectory, DirectoryName, FailureStep, FinishDecision, MoveStep,
    PhasePresence, ProcessorLockAttempt,
};
use purgery_server::process::{
    process_answer, process_processing_run, run_status, stage_report, ProcessEnd, ProcessEvent,
    ProcessPlaces, ProcessStage, Processing,
};
use purgery_server::protocol::{BeginRunResponse, ProcessRunResponse, RunStateResponse};
use purgery_server::recover::{
    judge_recovery, recover_or_process_processing_run, recover_processing_run_if_unlocked,
    recovery_answer, recovery_failure_message, ProcessingTargetOutcome, RecoverEvent, RecoverStep,
    RecoveryError, RecoveryPlan,
};
use purgery_server::server::{read_run_status, run_state, PhaseSighting, RunSighting};
use purgery_server::subprocess::{
    OutputProbe, PollReply, Subprocess, SubprocessEvent, SubprocessStep,
};
use purgery_server::target::{
    process_run_inner, process_run_target, verified_terminal_status, TargetDetails, TargetEnd,
    TargetEvent, TargetStep, TerminalDirectory, TerminalReading,
};
use purgery_server::transform::{
    apply_transform, transform_result, ResolvedTransform, TransformDetails, TransformPlan,
};
use purgery_server::version::{probe_purgery_version_from_toml, VersionProbe};
use purgery_server::work::{
    copy_result, nested_place, prepare_work_entry, start_copy, CopyEvent, CopyStage, WalkReply,
    WorkStep,
};

// A disk in memory

#[derive(Clone, PartialEq, Debug)]
enum Node {
    Dir,
    File(String),
    Link(String),
    /// A link whose target is not UTF-8.
    OddLink,
    Pipe,
}

#[derive(Clone, Default)]
struct Disk {
    nodes: BTreeMap<String, Node>,
}

fn parent_of(path: &str) -> String {
    match path.rfind('/') {
        Some(0) | None => "/".to_string(),
        Some(i) => path[..i].to_string(),
    }
}

impl Disk {
    fn has(&self, path: &str) -> bool {
        path == "/" || self.nodes.contains_key(path)
    }

    fn kind(&self, path: &str) -> Option<FileKind> {
        if path == "/" {
            return Some(FileKind::Directory);
        }
        self.nodes.get(path).map(|node| match node {
            Node::Dir => FileKind::Directory,
            Node::File(_) => FileKind::RegularFile,
            Node::Link(_) | Node::OddLink => FileKind::Symlink,
            Node::Pipe => FileKind::Other,
        })
    }

    fn mkdir(&mut self, path: &str) -> bool {
        if self.has(path) || self.kind(&parent_of(path)) != Some(FileKind::Directory) {
            return false;
        }
        self.nodes.insert(path.to_string(), Node::Dir);
        true
    }

    fn mkdir_all(&mut self, path: &str) -> bool {
        match self.kind(path) {
            Some(FileKind::Directory) => true,
            Some(_) => false,
            None => self.mkdir_all(&parent_of(path)) && self.mkdir(path),
        }
    }

    fn put(&mut self, path: &str, node: Node) -> bool {
        if self.kind(&parent_of(path)) != Some(FileKind::Directory)
            || self.kind(path) == Some(FileKind::Directory)
        {
            return false;
        }
        self.nodes.insert(path.to_string(), node);
        true
    }

    fn write(&mut self, path: &str, content: &str) -> bool {
        self.put(path, Node::File(content.to_string()))
    }

    fn read(&self, path: &str) -> Option<&str> {
        match self.nodes.get(path) {
            Some(Node::File(content)) => Some(content),
            _ => None,
        }
    }

    fn below(&self, path: &str) -> Vec<String> {
        let prefix = format!("{path}/");
        self.nodes
            .keys()
            .filter(|k| k.starts_with(&prefix))
            .cloned()
            .collect()
    }

    fn remove_tree(&mut self, path: &str) {
        for key in self.below(path) {
            self.nodes.remove(&key);
        }
        self.nodes.remove(path);
    }

    fn remove_empty_dir(&mut self, path: &str) -> bool {
        if self.kind(path) != Some(FileKind::Directory) || !self.below(path).is_empty() {
            return false;
        }
        self.nodes.remove(path);
        true
    }

    fn rename(&mut self, from: &str, to: &str) -> bool {
        if !self.has(from) || self.kind(&parent_of(to)) != Some(FileKind::Directory) {
            return false;
        }
        let from_dir = self.kind(from) == Some(FileKind::Directory);
        match self.kind(to) {
            Some(FileKind::Directory) => {
                if !from_dir || !self.below(to).is_empty() {
                    return false;
                }
            }
            Some(_) => {
                if from_dir {
                    return false;
                }
            }
            None => {}
        }
        let node = self.nodes.remove(from).unwrap();
        for key in self.below(from) {
            let moved = self.nodes.remove(&key).unwrap();
            self.nodes.insert(format!("{to}{}", &key[from.len()..]), moved);
        }
        self.nodes.insert(to.to_string(), node);
        true
    }
}

// A server with one run

const WORK: &str = "/tmp/purgery";
const STORAGE: &str = "/tmp/storage";
const NOW: u64 = 1_700_000_000;

struct World {
    disk: Disk,
    config: ServerConfig,
    nick: Nickname,
    id: RunId,
    run_config: Lookup<RunConfig>,
    manifest: Lookup<Manifest>,
    status: Lookup<RunStatus>,
    lease: Lookup<LeaseFile>,
    locked_elsewhere: bool,
    program: fn(&mut Disk, &TransformPlan) -> bool,
}

fn nickname(s: &str) -> Nickname {
    Nickname::new(s.to_string()).unwrap()
}

fn run_id(s: &str) -> RunId {
    RunId::new(s.to_string()).unwrap()
}

fn missing<T>() -> Lookup<T> {
    Lookup::Missing("No such file or directory (os error 2)".to_string())
}

fn found<T>(version: &str, value: T) -> Lookup<T> {
    Lookup::Found(Document {
        version: VersionProbe::Version(version.to_string()),
        parsed: Ok(value),
    })
}

fn broken<T>(text: &str) -> Lookup<T> {
    Lookup::Found(Document {
        version: probe_purgery_version_from_toml(text),
        parsed: Err("parse error".to_string()),
    })
}

fn nothing_happens(_: &mut Disk, _: &TransformPlan) -> bool {
    true
}

fn fails(_: &mut Disk, _: &TransformPlan) -> bool {
    false
}

fn writes_outputs(disk: &mut Disk, plan: &TransformPlan) -> bool {
    for output in &plan.outputs {
        disk.mkdir_all(&parent_of(output));
        disk.write(output, "generated");
    }
    true
}

fn file_entry(relative: &str, size: u64, transform: Option<&str>) -> ManifestEntry {
    ManifestEntry {
        local_path: format!("/home/user/{relative}"),
        staged_path: format!("files/{relative}"),
        relative_path: relative.to_string(),
        kind: ManifestEntryKind::RegularFile,
        size,
        mtime_ns: 1000000,
        sha256: None,
        link_target: None,
        transform: transform.map(|s| s.to_string()),
    }
}

/// An entry whose file was never staged.
fn unstaged_entry() -> ManifestEntry {
    ManifestEntry {
        local_path: "/tmp/a.mp4".to_string(),
        mtime_ns: 100,
        ..file_entry("a.mp4", 10, None)
    }
}

fn run_config(nick: &str, destination: &str) -> RunConfig {
    RunConfig {
        purgery_version: "0.1.0-test".to_string(),
        nickname: nickname(nick),
        destination: destination.to_string(),
        delete_after_import: true,
    }
}

fn manifest(nick: &str, id: &str, entries: Vec<ManifestEntry>) -> Manifest {
    Manifest {
        purgery_version: "0.1.0-test".to_string(),
        run_id: run_id(id),
        nickname: nickname(nick),
        entries,
    }
}

fn transform(name: &str, outputs: &[&str]) -> TransformDefinition {
    TransformDefinition {
        name: name.to_string(),
        kind: TransformKind::Subprocess,
        program: "true".to_string(),
        args: vec![],
        expected_outputs: outputs.iter().map(|s| s.to_string()).collect(),
    }
}

fn empty_world(id: &str) -> World {
    let mut disk = Disk::default();
    disk.mkdir_all(WORK);
    World {
        disk,
        config: ServerConfig {
            work_dir: WORK.to_string(),
            gc: GCConfig::default(),
            transforms: vec![],
        },
        nick: nickname("laptop"),
        id: run_id(id),
        run_config: missing(),
        manifest: missing(),
        status: missing(),
        lease: missing(),
        locked_elsewhere: false,
        program: nothing_happens,
    }
}

/// A ready run with the given entries and their staged contents.
fn ready_world(id: &str, destination: &str, entries: Vec<(ManifestEntry, Option<Node>)>) -> World {
    let mut world = empty_world(id);
    let ready = world.dir(RunPhase::Ready);
    world.disk.mkdir_all(&format!("{ready}/files"));
    let mut listed = Vec::new();
    for (entry, node) in entries {
        if let Some(node) = node {
            let staged = format!("{ready}/{}", entry.staged_path);
            world.disk.mkdir_all(&parent_of(&staged));
            world.disk.put(&staged, node);
        }
        listed.push(entry);
    }
    world.disk.write(&format!("{ready}/run.toml"), "run");
    world.disk.write(&format!("{ready}/manifest.toml"), "manifest");
    world.run_config = found(
        "0.1.0-test",
        run_config("laptop", &format!("{STORAGE}/{destination}")),
    );
    world.manifest = found("0.1.0-test", manifest("laptop", id, listed));
    world
}

fn single_file(id: &str, destination: &str, relative: &str, content: &str) -> World {
    ready_world(
        id,
        destination,
        vec![(
            file_entry(relative, content.len() as u64, None),
            Some(Node::File(content.to_string())),
        )],
    )
}

impl World {
    fn dir(&self, phase: RunPhase) -> String {
        run_dir(&self.config.work_dir, &self.nick, &self.id, phase)
    }

    fn present(&self) -> PhasePresence {
        PhasePresence {
            incoming: self.disk.has(&self.dir(RunPhase::Incoming)),
            ready: self.disk.has(&self.dir(RunPhase::Ready)),
            processing: self.disk.has(&self.dir(RunPhase::Processing)),
            done: self.disk.has(&self.dir(RunPhase::Done)),
            failed: self.disk.has(&self.dir(RunPhase::Failed)),
        }
    }

    fn published(&self) -> &RunStatus {
        match &self.status {
            Lookup::Found(document) => document.parsed.as_ref().unwrap(),
            _ => panic!("no status"),
        }
    }

    /// The status that stands in the run's directory of a phase.
    fn status_in(&self, phase: RunPhase) -> &RunStatus {
        assert!(self.disk.has(&format!("{}/status.toml", self.dir(phase))));
        self.published()
    }

    fn publish(&mut self, dir: &str, status: RunStatus) -> bool {
        let version = status.purgery_version.clone();
        self.status = found(&version, status);
        self.disk.write(&format!("{dir}/status.toml"), "status")
    }

    fn lock(&mut self, dir: &str) -> ProcessorLockAttempt {
        if !self.disk.has(dir) {
            return ProcessorLockAttempt::Missing;
        }
        if self.locked_elsewhere {
            return ProcessorLockAttempt::Busy;
        }
        self.disk.write(&format!("{dir}/processor.lock"), "");
        ProcessorLockAttempt::Acquired
    }

    /// Begins the upload of the run, as far as its directories go.
    fn begin(&mut self) -> Result<BeginRunResponse, Failure> {
        let plan = begin_run(&self.config, &self.nick, &self.id, self.present(), NOW)?;
        let incoming = self.dir(RunPhase::Incoming);
        let mut lease = Some(plan.lease);
        let mut step = BeginStep::CreateParent;
        loop {
            let ok = match step {
                BeginStep::CreateParent => self.disk.mkdir_all(&parent_of(&incoming)),
                BeginStep::CreateIncoming => self.disk.mkdir(&incoming),
                BeginStep::CreateFiles => self.disk.mkdir(&format!("{incoming}/files")),
                BeginStep::WriteLease => {
                    self.disk.write(&format!("{incoming}/lease.toml.tmp"), "lease")
                }
                BeginStep::PublishLease => {
                    let lease = lease.take().unwrap();
                    self.lease = found(&lease.purgery_version.clone(), lease);
                    self.disk.rename(
                        &format!("{incoming}/lease.toml.tmp"),
                        &format!("{incoming}/lease.toml"),
                    )
                }
                BeginStep::EncodeLease | BeginStep::EncodeResponse => true,
                BeginStep::Begun => return Ok(plan.response),
                end => panic!("unexpected end {end:?}"),
            };
            step = step.advance(ok);
        }
    }

    fn lease_mut(&mut self) -> &mut LeaseFile {
        match &mut self.lease {
            Lookup::Found(document) => document.parsed.as_mut().unwrap(),
            _ => panic!("no lease"),
        }
    }

    /// Finishes the upload of the run.
    fn finish(&mut self) -> Result<(), Failure> {
        let ready = self.dir(RunPhase::Ready);
        let seen = self.present();
        let again = self.disk.has(&ready);
        let decision =
            finish_run(&self.config, &self.nick, &self.id, seen, &self.lease, again, NOW)?;
        let incoming = self.dir(RunPhase::Incoming);
        let mut step = match decision {
            FinishDecision::MoveToReady => MoveStep::CreateParent,
            _ => MoveStep::Finished,
        };
        while step != MoveStep::Finished {
            let ok = self.move_step(step, &incoming, &ready);
            step = step.advance(ok);
        }
        Ok(())
    }

    fn inputs(&self) -> Result<(), ProcessingError> {
        read_compatible_run_inputs(
            &self.run_config,
            &self.manifest,
            &self.nick,
            &self.id,
            "run.toml",
            "manifest.toml",
        )
    }

    fn entries(&self) -> &Vec<ManifestEntry> {
        match &self.manifest {
            Lookup::Found(document) => &document.parsed.as_ref().unwrap().entries,
            _ => panic!("no manifest"),
        }
    }

    fn destination(&self) -> String {
        match &self.run_config {
            Lookup::Found(document) => document.parsed.as_ref().unwrap().destination.clone(),
            _ => panic!("no run config"),
        }
    }

    fn claim(&mut self) -> (ClaimEnd, String) {
        let ready = self.dir(RunPhase::Ready);
        let processing = self.dir(RunPhase::Processing);
        let failed = self.dir(RunPhase::Failed);
        let mut step = ClaimStep::LookForReady;
        let mut wrong = String::new();
        loop {
            let event = match step {
                ClaimStep::LookForReady => ClaimEvent::Found(self.disk.has(&ready)),
                ClaimStep::TryLock => ClaimEvent::Locked(self.lock(&ready)),
                ClaimStep::ReadInputs => {
                    let inputs = self.inputs();
                    if let Err(error) = &inputs {
                        wrong = error.text();
                    }
                    ClaimEvent::Inputs(judge_inputs(&inputs))
                }
                ClaimStep::CreateProcessingParent => {
                    ClaimEvent::Done(self.disk.mkdir_all(&parent_of(&processing)))
                }
                ClaimStep::RenameToProcessing => {
                    ClaimEvent::Done(self.disk.rename(&ready, &processing))
                }
                ClaimStep::WriteStatus => {
                    ClaimEvent::Done(self.disk.write(&format!("{ready}/status.toml.tmp"), "s"))
                }
                ClaimStep::PublishStatus => {
                    self.disk.remove_tree(&format!("{ready}/status.toml.tmp"));
                    let status = failure_status(&self.nick, &self.id, &wrong);
                    ClaimEvent::Done(self.publish(&ready, status))
                }
                ClaimStep::DropTemporary(_) => {
                    self.disk.remove_tree(&format!("{ready}/status.toml.tmp"));
                    ClaimEvent::Done(true)
                }
                ClaimStep::CreateFailedParent => {
                    ClaimEvent::Done(self.disk.mkdir_all(&parent_of(&failed)))
                }
                ClaimStep::RenameToFailed => ClaimEvent::Done(self.disk.rename(&ready, &failed)),
                ClaimStep::DropStatus => {
                    self.disk.remove_tree(&format!("{ready}/status.toml"));
                    ClaimEvent::Done(true)
                }
                ClaimStep::RemoveLockFile => {
                    self.disk.remove_tree(&format!("{failed}/processor.lock"));
                    ClaimEvent::Done(true)
                }
                ClaimStep::ReleaseLock(_) => ClaimEvent::Done(true),
                ClaimStep::LookAgain => ClaimEvent::Seen(self.present()),
                ClaimStep::Over(end) => return (end, wrong),
            };
            step = claim_ready_run(step, event);
        }
    }

    fn observe(&self, path: &str) -> StagedObservation {
        let gone = || "No such file or directory".to_string();
        StagedObservation {
            kind: self.disk.kind(path).ok_or_else(gone),
            identity: self
                .disk
                .read(path)
                .map(|content| (content.len() as u64, None))
                .ok_or_else(gone),
            link_target: match self.disk.nodes.get(path) {
                Some(Node::Link(target)) => Ok(Some(target.clone())),
                Some(Node::OddLink) => Ok(None),
                _ => Err(gone()),
            },
        }
    }

    fn copy_step(&mut self, step: WorkStep, from: &str, to: &str) -> bool {
        match step {
            WorkStep::CreateParent => self.disk.mkdir_all(&parent_of(to)),
            WorkStep::CreateDirectory => self.disk.mkdir(to),
            WorkStep::CopyFile | WorkStep::CreateLink => {
                let node = self.disk.nodes.get(from).unwrap().clone();
                self.disk.put(to, node)
            }
            _ => true,
        }
    }

    fn copy_to_work(&mut self, entry: usize, paths: &EntryPaths) -> Result<(), String> {
        let (source, work) = (&paths.source_path, &paths.work_path);
        let mut copy = start_copy(self.entries()[entry].kind);
        let mut objects = self.disk.below(source).into_iter();
        let mut object = String::new();
        loop {
            let relative = if object.is_empty() { "" } else { &object[source.len() + 1..] };
            let to = if object.is_empty() {
                work.clone()
            } else {
                nested_place(work, relative)
            };
            let event = match copy.stage {
                CopyStage::Top(step) => CopyEvent::Done(self.copy_step(step, source, &to)),
                CopyStage::Next => CopyEvent::Walked(match objects.next() {
                    Some(next) => {
                        object = next;
                        WalkReply::Object
                    }
                    None => WalkReply::End,
                }),
                CopyStage::Examine => CopyEvent::Examined(self.disk.kind(&object)),
                CopyStage::Nested(_, step) => {
                    CopyEvent::Done(self.copy_step(step, &object, &to))
                }
                CopyStage::Over(end) => {
                    return copy_result(end, relative, "refused")
                }
            };
            copy = prepare_work_entry(copy, event);
        }
    }

    fn transform(&mut self, index: usize, paths: &EntryPaths) -> Result<Vec<String>, String> {
        let def = &self.config.transforms[index];
        let resolved = ResolvedTransform {
            name: def.name.clone(),
            def: TransformDefinition {
                name: def.name.clone(),
                kind: def.kind,
                program: def.program.clone(),
                args: def.args.clone(),
                expected_outputs: def.expected_outputs.clone(),
            },
        };
        let plan = apply_transform(
            &resolved,
            &paths.work_path,
            &self.destination(),
            paths.target_directory.as_ref().unwrap(),
        )?;
        let mut run = Subprocess::start(true);
        loop {
            let event = match run.step {
                SubprocessStep::Poll => {
                    let ok = (self.program)(&mut self.disk, &plan);
                    SubprocessEvent::Polled(PollReply::Exited(ok))
                }
                SubprocessStep::ResolveOutputs => {
                    SubprocessEvent::Resolved(Some(plan.outputs.len()))
                }
                SubprocessStep::Inspect(i) => {
                    SubprocessEvent::Inspected(match self.disk.kind(&plan.outputs[i]) {
                        Some(kind) => OutputProbe::Present(kind),
                        None => OutputProbe::NotFound,
                    })
                }
                SubprocessStep::Over(_) => {
                    let details = TransformDetails {
                        code: Some(1),
                        stdout: Ok(b"out".to_vec()),
                        stderr: Ok(b"err".to_vec()),
                        detail: "detail".to_string(),
                    };
                    return transform_result(&run, &resolved.name, &plan.outputs, &details);
                }
                _ => SubprocessEvent::Done(true),
            };
            run = run.advance(event);
        }
    }

    fn handle_entry(&mut self, index: usize) -> EntryOutcome {
        let processing = self.dir(RunPhase::Processing);
        let area = work_area(&self.config.work_dir, &self.nick, &self.id);
        let destination = self.destination();
        let paths = entry_paths(&self.entries()[index], &processing, &area, &destination);
        let mut reports = EntryReports {
            staged: self.observe(&paths.source_path),
            prepared: None,
            finished: None,
        };
        loop {
            let step = process_manifest_entry(
                &self.entries()[index],
                &paths,
                &self.config.transforms,
                &reports,
            );
            match step {
                EntryStep::PrepareWork => {
                    reports.prepared = Some(self.copy_to_work(index, &paths));
                }
                EntryStep::Commit => {
                    reports.finished = Some(
                        commit_any(
                            &mut self.disk,
                            &paths.work_path,
                            &paths.final_path,
                            &destination,
                        )
                        .map(|_| vec![]),
                    );
                }
                EntryStep::Transform(i) => reports.finished = Some(self.transform(i, &paths)),
                EntryStep::Over(outcome) => return outcome,
            }
        }
    }

    fn fail_run(&mut self, error: &str) -> Result<(), Failure> {
        let processing = self.dir(RunPhase::Processing);
        let failed = self.dir(RunPhase::Failed);
        let (mut step, status) = write_run_failure(&self.nick, &self.id, error);
        let mut status = Some(status);
        loop {
            let ok = match step {
                FailureStep::WriteStatus => {
                    self.disk.write(&format!("{processing}/status.toml.tmp"), "s")
                }
                FailureStep::PublishStatus => {
                    self.disk.remove_tree(&format!("{processing}/status.toml.tmp"));
                    let status = status.take().unwrap();
                    self.publish(&processing, status)
                }
                FailureStep::Move(MoveStep::CreateParent) => {
                    self.disk.mkdir_all(&parent_of(&failed))
                }
                FailureStep::Move(MoveStep::Rename) => self.disk.rename(&processing, &failed),
                FailureStep::Move(MoveStep::RemoveLock) => {
                    self.disk.remove_tree(&format!("{failed}/processor.lock"));
                    true
                }
                FailureStep::Move(MoveStep::Finished) => return Ok(()),
                end => {
                    return Err(Failure::new(run_failure_message(
                        end,
                        &processing,
                        &failed,
                        &format!("{processing}/status.toml.tmp"),
                        &format!("{processing}/status.toml"),
                        &parent_of(&failed),
                    )))
                }
            };
            step = step.advance(ok);
        }
    }

    fn settle(&mut self, state: RunState) -> Result<(), Failure> {
        let processing = self.dir(RunPhase::Processing);
        let phase = finalize_processing_run(state);
        let terminal = self.dir(phase);
        let mut step = MoveStep::CreateParent;
        loop {
            let ok = self.move_step(step, &processing, &terminal);
            match step {
                MoveStep::Finished => return Ok(()),
                MoveStep::ParentFailed | MoveStep::RenameFailed => {
                    let parent = parent_of(&terminal);
                    return Err(Failure::new(finalize_message(
                        step,
                        phase,
                        &processing,
                        &terminal,
                        &parent,
                    )));
                }
                _ => step = step.advance(ok),
            }
        }
    }

    fn move_step(&mut self, step: MoveStep, from: &str, to: &str) -> bool {
        match step {
            MoveStep::CreateParent => self.disk.mkdir_all(&parent_of(to)),
            MoveStep::Rename => self.disk.rename(from, to),
            MoveStep::RemoveLock => {
                self.disk.remove_tree(&format!("{to}/processor.lock"));
                true
            }
            _ => true,
        }
    }

    fn process(&mut self) -> Result<(), ProcessingError> {
        let processing = self.dir(RunPhase::Processing);
        let area = work_area(&self.config.work_dir, &self.nick, &self.id);
        let mut run = Processing::start();
        let mut outcomes = Vec::new();
        let mut wrong = ProcessingError::Other(Failure::new(String::new()));
        let mut unpublished = Failure::new(String::new());
        let mut status = None;
        loop {
            if let Some(report) = stage_report(&run, "entry") {
                let tmp = format!("{processing}/progress.toml.tmp");
                if self.disk.write(&tmp, &report.state) {
                    self.disk.rename(&tmp, &format!("{processing}/progress.toml"));
                }
            }
            let event = match run.stage {
                ProcessStage::ReadInputs => {
                    let inputs = self.inputs();
                    let verdict = judge_inputs(&inputs);
                    let total = match inputs {
                        Ok(()) => self.entries().len(),
                        Err(error) => {
                            wrong = error;
                            0
                        }
                    };
                    ProcessEvent::Inputs(verdict, total)
                }
                ProcessStage::FailRun => match self.fail_run(&wrong.text()) {
                    Ok(()) => ProcessEvent::Done(true),
                    Err(error) => {
                        unpublished = error;
                        ProcessEvent::Done(false)
                    }
                },
                ProcessStage::ClearWork | ProcessStage::DropWork => {
                    self.disk.remove_tree(&area);
                    ProcessEvent::Done(true)
                }
                ProcessStage::CreateWork => ProcessEvent::Done(self.disk.mkdir_all(&area)),
                ProcessStage::HandleEntry => {
                    let outcome = self.handle_entry(run.index);
                    let imported = matches!(outcome, EntryOutcome::Success { .. });
                    outcomes.push(outcome);
                    ProcessEvent::Entry(imported)
                }
                ProcessStage::WriteStatus => {
                    let all = std::mem::take(&mut outcomes);
                    status = Some(run_status(&self.nick, &self.id, all));
                    let tmp = format!("{processing}/status.toml.tmp");
                    ProcessEvent::Done(self.disk.write(&tmp, "s"))
                }
                ProcessStage::PublishStatus => {
                    self.disk.remove_tree(&format!("{processing}/status.toml.tmp"));
                    let status = status.take().unwrap();
                    ProcessEvent::Done(self.publish(&processing, status))
                }
                ProcessStage::Settle(step) => {
                    let terminal = self.dir(finalize_processing_run(run.state()));
                    ProcessEvent::Done(self.move_step(step, &processing, &terminal))
                }
                ProcessStage::Over(end) => {
                    let phase = finalize_processing_run(run.state());
                    let terminal = self.dir(phase);
                    let places = ProcessPlaces {
                        work_area: area,
                        status: format!("{processing}/status.toml"),
                        status_tmp: format!("{processing}/status.toml.tmp"),
                        terminal_parent: parent_of(&terminal),
                        terminal,
                        terminal_phase: phase,
                        processing,
                    };
                    return process_answer(end, wrong, unpublished, &places, "refused");
                }
                _ => ProcessEvent::Done(true),
            };
            run = process_processing_run(run, event);
        }
    }

    fn process_run(&mut self) -> Result<(), Failure> {
        let (end, wrong) = self.claim();
        let outcome = describe_claim(end, &self.nick, &self.id, &wrong, "refused");
        match process_run(outcome) {
            Some(answer) => answer,
            None => process_run_answer(self.process()),
        }
    }

    fn recover(&mut self) -> Result<(), RecoveryError> {
        let path = format!("{}/status.toml", self.dir(RunPhase::Processing));
        let plan = recover_or_process_processing_run(&self.status, &self.nick, &self.id, &path);
        let carried_out = match &plan {
            RecoveryPlan::Replay => self.process(),
            RecoveryPlan::Fail { message } => {
                self.fail_run(message).map_err(ProcessingError::Other)
            }
            RecoveryPlan::Settle(state) => self.settle(*state).map_err(ProcessingError::Other),
            _ => Ok(()),
        };
        recovery_answer(plan, carried_out)
    }

    fn recover_if_unlocked(&mut self) -> (ProcessingTargetOutcome, String) {
        let processing = self.dir(RunPhase::Processing);
        let mut step = RecoverStep::LookForProcessing;
        let mut error = String::new();
        loop {
            let event = match step {
                RecoverStep::LookForProcessing | RecoverStep::LookAgain => {
                    RecoverEvent::Found(self.disk.has(&processing))
                }
                RecoverStep::TryLock => RecoverEvent::Locked(self.lock(&processing)),
                RecoverStep::Recover => {
                    let answer = self.recover();
                    if let Err(e) = &answer {
                        error = e.text();
                    }
                    RecoverEvent::Recovered(judge_recovery(&answer))
                }
                RecoverStep::PublishFailure => {
                    let message = recovery_failure_message(&Failure::new(error.clone()));
                    RecoverEvent::Done(self.fail_run(&message).is_ok())
                }
                RecoverStep::ReleaseLock(_) => RecoverEvent::Done(true),
                RecoverStep::Over(outcome) => return (outcome, error),
            };
            step = recover_processing_run_if_unlocked(step, event);
        }
    }

    fn move_to_failed(&mut self) -> bool {
        let processing = self.dir(RunPhase::Processing);
        let failed = self.dir(RunPhase::Failed);
        let mut step = move_to_failed(self.disk.has(&processing));
        loop {
            match step {
                MoveStep::Finished => return true,
                MoveStep::ParentFailed | MoveStep::RenameFailed => return false,
                _ => {
                    let ok = self.move_step(step, &processing, &failed);
                    step = step.advance(ok);
                }
            }
        }
    }

    fn directories(&self) -> Vec<ClientDirectory> {
        let listed = |phase: RunPhase| {
            if self.disk.has(&self.dir(phase)) {
                vec![DirectoryName { name: self.id.as_str().to_string(), is_dir: true }]
            } else {
                vec![]
            }
        };
        vec![ClientDirectory {
            entry: DirectoryName { name: "laptop".to_string(), is_dir: true },
            ready: listed(RunPhase::Ready),
            processing: listed(RunPhase::Processing),
        }]
    }

    fn process_once(&mut self) -> BatchEnd {
        let mut batch = Batch::start();
        loop {
            let event = match batch.stage {
                BatchStage::FindProcessing => {
                    BatchEvent::Listed(Some(find_processing_runs(&self.directories()).len()))
                }
                BatchStage::FindReady => {
                    BatchEvent::Listed(Some(find_ready_runs(&self.directories()).len()))
                }
                BatchStage::Recover => {
                    self.recover_if_unlocked();
                    BatchEvent::Done
                }
                BatchStage::Claim => BatchEvent::Claimed(self.claim().0 == ClaimEnd::Claimed),
                BatchStage::Process => {
                    BatchEvent::Processed(judge_processing(&self.process()))
                }
                BatchStage::MoveToFailed => {
                    self.move_to_failed();
                    BatchEvent::Done
                }
                BatchStage::Over(end) => return end,
                _ => BatchEvent::Done,
            };
            batch = process_once_raw(batch, event);
        }
    }

    fn status_again(&self, phase: RunPhase) -> TerminalDirectory {
        let exists = self.disk.has(&self.dir(phase));
        let status = match &self.status {
            Lookup::Found(document) if exists => match &document.parsed {
                Ok(status) => found(
                    &status.purgery_version,
                    RunStatus {
                        purgery_version: status.purgery_version.clone(),
                        run_id: status.run_id.clone(),
                        nickname: status.nickname.clone(),
                        state: status.state,
                        entries: vec![],
                        error: status.error.clone(),
                    },
                ),
                Err(error) => Lookup::Found(Document {
                    version: VersionProbe::Missing,
                    parsed: Err(error.clone()),
                }),
            },
            _ => missing(),
        };
        TerminalDirectory { exists, status }
    }

    /// What a request for the state of the run is answered.
    fn state(&self) -> RunStateResponse {
        let seen = |phase: RunPhase| PhaseSighting {
            exists: self.disk.has(&self.dir(phase)),
            modified: Some(0),
        };
        let sighting = RunSighting {
            incoming: seen(RunPhase::Incoming),
            ready: seen(RunPhase::Ready),
            processing: seen(RunPhase::Processing),
            progress: missing(),
            active: Some(self.locked_elsewhere),
            done: seen(RunPhase::Done),
            done_status: self.status_again(RunPhase::Done).status,
            failed: seen(RunPhase::Failed),
            failed_status: self.status_again(RunPhase::Failed).status,
        };
        run_state(&sighting, &self.nick, &self.id, 0)
    }

    fn target(&mut self) -> Result<ProcessRunResponse, Failure> {
        self.target_from(TargetStep::Claim)
    }

    fn target_from(&mut self, step: TargetStep) -> Result<ProcessRunResponse, Failure> {
        let mut step = step;
        let mut details = TargetDetails {
            terminal: None,
            error: String::new(),
            move_error: String::new(),
            refusal: Failure::new(String::new()),
        };
        loop {
            let event = match step {
                TargetStep::Claim => {
                    let (end, wrong) = self.claim();
                    details.error = wrong;
                    TargetEvent::Claimed(end)
                }
                TargetStep::Process => {
                    let answer = self.process();
                    if let Err(error) = &answer {
                        details.error = error.text();
                    }
                    TargetEvent::Processed(judge_processing(&answer))
                }
                TargetStep::MoveToFailed => TargetEvent::Done(self.move_to_failed()),
                TargetStep::LookForProcessing => {
                    TargetEvent::Found(self.disk.has(&self.dir(RunPhase::Processing)))
                }
                TargetStep::Recover => {
                    let (outcome, error) = self.recover_if_unlocked();
                    details.error = error;
                    TargetEvent::Recovered(outcome)
                }
                TargetStep::ReadTerminal(_) => {
                    let done = self.status_again(RunPhase::Done);
                    let failed = self.status_again(RunPhase::Failed);
                    match verified_terminal_status(&done, &failed, &self.nick, &self.id) {
                        Ok(Some(found)) => {
                            details.terminal = Some(found);
                            TargetEvent::Read(TerminalReading::Verified)
                        }
                        Ok(None) => TargetEvent::Read(TerminalReading::Absent),
                        Err(refusal) => {
                            details.refusal = refusal;
                            TargetEvent::Read(TerminalReading::Refused)
                        }
                    }
                }
                TargetStep::ReleaseLock(_) => TargetEvent::Done(true),
                TargetStep::Over(end) => {
                    assert!(!matches!(end, TargetEnd::Answered(_)) || details.terminal.is_some());
                    return process_run_target(end, &self.nick, &self.id, details);
                }
            };
            step = process_run_inner(step, event);
        }
    }
}

// Commits

fn commit_one(
    disk: &mut Disk,
    kind: ManifestEntryKind,
    from: &str,
    to: &str,
    root: &str,
) -> Result<CommitDisposition, String> {
    let way = final_way(to, root);
    let directories = match &way {
        FinalWay::Through(directories) => directories.clone(),
        _ => vec![],
    };
    let probe = |disk: &Disk, path: &str| match disk.kind(path) {
        None => DestinationProbe::NotFound,
        Some(FileKind::Directory) => DestinationProbe::Directory,
        Some(_) => DestinationProbe::Occupied,
    };
    let mut commit = match kind {
        ManifestEntryKind::Directory => commit_directory_entry(&way),
        ManifestEntryKind::RegularFile => commit_regular_file_entry(&way),
        ManifestEntryKind::Symlink => commit_symlink_entry(&way),
    };
    let mut directory = String::new();
    loop {
        let event = match commit.step {
            CommitStep::ProbeRoot | CommitStep::ProbeRootAgain => {
                CommitEvent::Probed(probe(disk, root))
            }
            CommitStep::CreateRoot => CommitEvent::Done(disk.mkdir_all(root)),
            CommitStep::ProbeParent(i) => {
                directory = directories[i].clone();
                CommitEvent::Probed(probe(disk, &directory))
            }
            CommitStep::CreateParent(i) => CommitEvent::Done(disk.mkdir(&directories[i])),
            CommitStep::ProbeFinal => CommitEvent::Probed(probe(disk, to)),
            CommitStep::RemoveEmptyDirectory => CommitEvent::Done(disk.remove_empty_dir(to)),
            CommitStep::RemoveConflict => {
                disk.remove_tree(to);
                CommitEvent::Done(true)
            }
            CommitStep::CreateDirectory(_) => CommitEvent::Done(disk.mkdir(to)),
            CommitStep::Materialize(_) => CommitEvent::Done(disk.rename(from, to)),
            CommitStep::Over(CommitEnd::Committed(disposition)) => return Ok(disposition),
            CommitStep::Over(CommitEnd::Refused(fault)) => {
                let places = CommitPlaces {
                    root: root.to_string(),
                    final_path: to.to_string(),
                    parent: parent_of(to),
                    directory,
                };
                return Err(commit_fault_message(fault, kind, &places, "refused"));
            }
        };
        commit = commit.advance(event);
    }
}

fn commit_tree(disk: &mut Disk, from: &str, to: &str, root: &str) -> Result<CommitDisposition, String> {
    let mut tree = start_tree();
    let mut objects = Vec::new();
    let mut targets = Vec::new();
    let mut refusal = String::new();
    loop {
        let event = match tree.step {
            TreeStep::CommitTop => {
                match commit_one(disk, ManifestEntryKind::Directory, from, to, root) {
                    Ok(disposition) => TreeEvent::Committed(Some(disposition)),
                    Err(error) => {
                        refusal = error;
                        TreeEvent::Committed(None)
                    }
                }
            }
            TreeStep::Walk => {
                objects = disk.below(from);
                let relatives = objects.iter().map(|o| o[from.len() + 1..].to_string()).collect();
                targets = tree_targets(to, &relatives);
                TreeEvent::Walked(TreeListing::Objects(objects.len()))
            }
            TreeStep::Examine(i) => TreeEvent::Examined(disk.kind(&objects[i])),
            TreeStep::CommitObject(i, kind) => {
                match commit_one(disk, kind, &objects[i], &targets[i], root) {
                    Ok(disposition) => TreeEvent::Committed(Some(disposition)),
                    Err(error) => {
                        refusal = error;
                        TreeEvent::Committed(None)
                    }
                }
            }
            TreeStep::Sweep => {
                for object in objects.iter().rev() {
                    disk.remove_empty_dir(object);
                }
                disk.remove_empty_dir(from);
                TreeEvent::Swept(true)
            }
            TreeStep::Over(TreeEnd::Committed(disposition)) => return Ok(disposition),
            TreeStep::Over(TreeEnd::TopRefused) | TreeStep::Over(TreeEnd::Refused(_)) => {
                return Err(refusal)
            }
            TreeStep::Over(TreeEnd::Unsupported(i)) => {
                return Err(tree_fault_message(TreeEnd::Unsupported(i), &objects[i], ""))
            }
            TreeStep::Over(end) => return Err(tree_fault_message(end, "", "refused")),
        };
        tree = commit_directory_tree(tree, event);
    }
}

fn commit_any(disk: &mut Disk, from: &str, to: &str, root: &str) -> Result<CommitDisposition, String> {
    match disk.kind(from) {
        Some(FileKind::Directory) => commit_tree(disk, from, to, root),
        Some(FileKind::Symlink) => commit_one(disk, ManifestEntryKind::Symlink, from, to, root),
        _ => commit_one(disk, ManifestEntryKind::RegularFile, from, to, root),
    }
}

const ROOT: &str = "/tmp/root";

fn staging_disk() -> Disk {
    let mut disk = Disk::default();
    disk.mkdir_all("/tmp/staging");
    disk
}

fn commit_file(disk: &mut Disk, from: &str, to: &str) -> Result<CommitDisposition, String> {
    commit_one(disk, ManifestEntryKind::RegularFile, from, to, ROOT)
}

fn commit_link(disk: &mut Disk, from: &str, to: &str) -> Result<CommitDisposition, String> {
    commit_one(disk, ManifestEntryKind::Symlink, from, to, ROOT)
}

fn commit_directory(disk: &mut Disk, to: &str) -> Result<CommitDisposition, String> {
    commit_one(disk, ManifestEntryKind::Directory, "", to, ROOT)
}

fn work_disk() -> Disk {
    let mut disk = Disk::default();
    disk.mkdir_all("/tmp/staging");
    disk.mkdir_all("/tmp/root");
    disk
}

// Uploads

#[test]
fn test_begin_run_creates_directory() {
    let mut world = empty_world("test-begin");
    let response = world.begin().unwrap();
    assert_eq!(response.protocol_version, 1);
    assert_eq!(response.nickname, "laptop");
    assert_eq!(response.run_id, "test-begin");
    assert!(world.disk.has(&response.incoming_dir));
    assert!(world.disk.has(&response.files_dir));
    assert_eq!(response.incoming_dir, "/tmp/purgery/laptop/incoming/test-begin");
    assert_eq!(response.files_dir, "/tmp/purgery/laptop/incoming/test-begin/files");
    assert_eq!(response.run_config_path, "/tmp/purgery/laptop/incoming/test-begin/run.toml");
    assert_eq!(response.manifest_path, "/tmp/purgery/laptop/incoming/test-begin/manifest.toml");
    assert!(world.disk.has("/tmp/purgery/laptop/incoming/test-begin/lease.toml"));
}

#[test]
fn test_finish_run_moves_from_incoming_to_ready() {
    let mut world = empty_world("test-finish");
    world.begin().unwrap();
    let incoming = world.dir(RunPhase::Incoming);
    assert!(world.disk.has(&incoming));
    world.finish().unwrap();
    assert!(!world.disk.has(&incoming));
    assert!(world.disk.has(&world.dir(RunPhase::Ready)));
}

#[test]
fn test_finish_run_rejects_expired_lease() {
    let mut world = empty_world("test-expired-lease");
    world.begin().unwrap();
    world.lease_mut().expires_at_unix_secs = 0;
    let refusal = world.finish().unwrap_err();
    assert_eq!(refusal.message, "cannot finish run: incoming lease expired at 0");
    assert!(refusal.message.contains("expired") || refusal.message.contains("lease"));
    assert!(!world.disk.has(&world.dir(RunPhase::Ready)));
}

#[test]
fn test_finish_run_rejects_mismatched_lease_nickname() {
    let mut world = empty_world("test-wrong-nickname");
    world.begin().unwrap();
    world.lease_mut().nickname = "wrong-machine".to_string();
    let refusal = world.finish().unwrap_err();
    assert_eq!(
        refusal.message,
        "lease nickname 'wrong-machine' does not match expected 'laptop'"
    );
    assert!(refusal.message.contains("nickname"));
    assert!(!world.disk.has(&world.dir(RunPhase::Ready)));
}

// Full runs

#[test]
fn test_run_state_done_removes_work_area() {
    let mut world = single_file("test-done-wa", "univ/videos", "a.mp4", "hello");
    world.process_run().unwrap();
    assert!(!world.disk.has(&work_area(WORK, &world.nick, &world.id)));
    assert!(!world.disk.has(&format!("{}/work", world.dir(RunPhase::Done))));
}

#[test]
fn test_read_run_status_from_done() {
    let mut world = single_file("test-status", "univ/videos", "a.mp4", "data");
    world.process_run().unwrap();
    assert!(world.disk.has(&format!("{}/status.toml", world.dir(RunPhase::Done))));
    let published = std::mem::replace(&mut world.status, missing());
    let status =
        read_run_status(&world.config, &world.nick, &world.id, published, missing()).unwrap();
    assert_eq!(status.state, RunState::Done);
    assert_eq!(status.nickname.as_str(), "laptop");
    assert_eq!(status.run_id.as_str(), "test-status");
}

#[test]
fn full_processing_pipeline_uses_destination() {
    let mut world = single_file("test-run-001", "univ/videos", "test.mp4", "hello world");
    let staged = format!("{}/files/test.mp4", world.dir(RunPhase::Ready));
    world.process_run().unwrap();
    assert!(world.disk.has(&world.dir(RunPhase::Done)));
    let status = world.status_in(RunPhase::Done);
    assert_eq!(status.state, RunState::Done);
    assert_eq!(status.entries.len(), 1);
    assert_eq!(status.entries[0].status, FileStatus::Imported);
    assert!(!status.entries[0].final_paths.iter().any(|path| path.contains("laptop")));
    assert_eq!(status.entries[0].final_paths, ["/tmp/storage/univ/videos/test.mp4"]);
    assert!(world.disk.has("/tmp/storage/univ/videos/test.mp4"));
    assert_eq!(world.disk.read("/tmp/storage/univ/videos/test.mp4"), Some("hello world"));
    assert!(!world.disk.has(&staged));
}

#[test]
fn test_full_processing_pipeline() {
    let mut world = single_file("test-run-001", "univ/videos", "test.mp4", "hello world");
    let staged = format!("{}/files/test.mp4", world.dir(RunPhase::Ready));
    world.process_run().unwrap();
    assert!(world.disk.has(&world.dir(RunPhase::Done)));
    let status = world.status_in(RunPhase::Done);
    assert_eq!(status.state, RunState::Done);
    assert_eq!(status.entries.len(), 1);
    assert_eq!(status.entries[0].status, FileStatus::Imported);
    assert!(!status.entries[0].final_paths.is_empty());
    assert!(!world.disk.has(&staged));
}

#[test]
fn test_processing_missing_staged_file() {
    let mut entry = file_entry("missing.mp4", 11, None);
    entry.local_path = "/home/user/Videos/missing.mp4".to_string();
    let mut world = ready_world("test-run-003", "univ/videos", vec![(entry, None)]);
    world.process_run().unwrap();
    let status = world.status_in(RunPhase::Failed);
    assert_eq!(status.state, RunState::Failed);
    assert_eq!(status.entries[0].status, FileStatus::Failed);
    assert!(status.entries[0]
        .error
        .as_ref()
        .unwrap()
        .contains("failed to read staged metadata"));
}

#[test]
fn test_find_ready_runs_empty() {
    assert!(find_ready_runs(&vec![]).is_empty());
}

#[test]
fn test_find_ready_runs_with_entries() {
    let name = |s: &str, is_dir: bool| DirectoryName { name: s.to_string(), is_dir };
    let two = vec![ClientDirectory {
        entry: name("laptop", true),
        ready: vec![name("run-1", true), name("run-2", true)],
        processing: vec![],
    }];
    let runs = find_ready_runs(&two);
    assert_eq!(runs.len(), 2);
    assert_eq!(runs[0].1.as_str(), "run-1");
    assert_eq!(runs[1].1.as_str(), "run-2");

    let clients = vec![
        ClientDirectory {
            entry: name("laptop", true),
            ready: vec![name("run-1", true), name("run-2", true), name("note", false)],
            processing: vec![name(".hidden", true), name("run-3", true)],
        },
        ClientDirectory {
            entry: name("bad!name", true),
            ready: vec![name("run-4", true)],
            processing: vec![],
        },
    ];
    assert_eq!(find_ready_runs(&clients).len(), 2);
    let active = find_processing_runs(&clients);
    assert_eq!(active.len(), 1);
    assert_eq!((active[0].0.as_str(), active[0].1.as_str()), ("laptop", "run-3"));
}

#[test]
fn test_nickname_mismatch_rejected() {
    let mut world = ready_world("test-env-001", "univ/default", vec![]);
    world.run_config = found("0.1.0-test", run_config("other-machine", "univ/default"));
    world.manifest = found(
        "0.1.0-test",
        manifest("other-machine", "test-env-001", vec![unstaged_entry()]),
    );
    assert!(world.process_run().is_err());
    let failed = world.dir(RunPhase::Failed);
    assert!(world.disk.has(&format!("{failed}/status.toml")));
    assert!(!world.disk.has(&world.dir(RunPhase::Ready)));
    let status = world.status_in(RunPhase::Failed);
    assert_eq!(status.state, RunState::Failed);
    assert!(status.error.as_ref().unwrap().contains("envelope validation failed"));
}

#[test]
fn test_bad_manifest_produces_failed_status() {
    let mut world = ready_world("test-bad-manifest", "univ/default", vec![]);
    world.manifest = broken("not valid toml {{{");
    assert!(world.process_run().is_err());
    let failed = world.dir(RunPhase::Failed);
    assert!(world.disk.has(&format!("{failed}/status.toml")));
    let status = world.status_in(RunPhase::Failed);
    assert_eq!(status.state, RunState::Failed);
    assert!(status.error.as_ref().unwrap().contains("manifest"));
}

#[test]
fn test_bad_run_config_produces_failed_status() {
    let mut world = ready_world("test-bad-config", "univ/default", vec![(unstaged_entry(), None)]);
    world.run_config = broken("not valid toml {{{");
    assert!(world.process_run().is_err());
    let failed = world.dir(RunPhase::Failed);
    assert!(world.disk.has(&format!("{failed}/status.toml")));
    let status = world.status_in(RunPhase::Failed);
    assert_eq!(status.state, RunState::Failed);
    assert!(status.error.as_ref().unwrap().contains("run config"));
}

#[test]
fn test_transforms_failure_does_not_create_final_output() {
    let mut entry = file_entry("test.mp4", 13, Some("compress-video"));
    entry.local_path = "/home/user/Videos/test.mp4".to_string();
    let mut world = ready_world(
        "test-fail-pp",
        "univ/videos",
        vec![(entry, Some(Node::File("video content".to_string())))],
    );
    world.config.transforms.push(TransformDefinition {
        program: "false".to_string(),
        ..transform("compress-video", &[])
    });
    world.program = fails;
    world.process_run().unwrap();
    let status = world.status_in(RunPhase::Failed);
    assert_eq!(status.state, RunState::Failed);
    assert_eq!(status.entries[0].status, FileStatus::Failed);
    assert!(status.entries[0].error.as_ref().unwrap().contains("failed"));
    assert!(!world.disk.has("/tmp/purgery/videos/test.mp4"));
    assert!(!world.disk.has("/tmp/storage/univ/videos/test.mp4"));
}

fn paths_under(world: &World) -> Vec<String> {
    world.disk.below(WORK)
}

fn expected_under_root(id: &str) -> Vec<String> {
    let mut expected: Vec<String> = [
        "/tmp/purgery/laptop".to_string(),
        "/tmp/purgery/laptop/done".to_string(),
        format!("/tmp/purgery/laptop/done/{id}"),
        format!("/tmp/purgery/laptop/done/{id}/files"),
        format!("/tmp/purgery/laptop/done/{id}/files/test.mp4"),
        format!("/tmp/purgery/laptop/done/{id}/manifest.toml"),
        format!("/tmp/purgery/laptop/done/{id}/progress.toml"),
        format!("/tmp/purgery/laptop/done/{id}/run.toml"),
        format!("/tmp/purgery/laptop/done/{id}/status.toml"),
        "/tmp/purgery/laptop/processing".to_string(),
        "/tmp/purgery/laptop/ready".to_string(),
    ]
    .to_vec();
    expected.sort();
    expected
}

#[test]
fn regular_file_commit_produces_only_expected_final_paths() {
    let mut world = single_file("test-tmp-commit", "univ/videos", "test.mp4", "hello");
    world.process_run().unwrap();
    assert!(world.disk.has("/tmp/storage/univ/videos/test.mp4"));
    assert_eq!(world.disk.read("/tmp/storage/univ/videos/test.mp4"), Some("hello"));
    assert_eq!(paths_under(&world), expected_under_root("test-tmp-commit"));
}

#[test]
fn full_processing_run_leaves_only_expected_paths_under_root() {
    let mut world = single_file("test-run-final-only", "univ/videos", "test.mp4", "hello world");
    world.process_run().unwrap();
    assert!(world.disk.has(&world.dir(RunPhase::Done)));
    assert_eq!(paths_under(&world), expected_under_root("test-run-final-only"));
}

#[test]
fn test_work_area_namespacing_no_collision() {
    let mut entry = file_entry("a.mp4", 13, None);
    entry.local_path = "/home/user/Videos/a.mp4".to_string();
    let mut world = ready_world(
        "test-ns",
        "univ/videos",
        vec![(entry, Some(Node::File("video content".to_string())))],
    );
    world.process_run().unwrap();
    assert!(world.disk.has("/tmp/storage/univ/videos/a.mp4"));
    assert_eq!(world.disk.read("/tmp/storage/univ/videos/a.mp4"), Some("video content"));
    let status = world.status_in(RunPhase::Done);
    assert_eq!(status.state, RunState::Done);
    assert_eq!(status.entries.len(), 1);
    assert_eq!(status.entries[0].status, FileStatus::Imported);
    let (laptop, desktop) = (nickname("laptop"), nickname("desktop"));
    let a = work_area(WORK, &laptop, &run_id("r"));
    let b = work_area(WORK, &desktop, &run_id("r"));
    let c = work_area(WORK, &laptop, &run_id("q"));
    assert!(a != b && a != c && b != c);
}

#[test]
fn test_manifest_staged_path_mismatch_rejected() {
    let mut entry = file_entry("a.mp4", 13, Some("compress-video"));
    entry.local_path = "/home/user/Videos/a.mp4".to_string();
    entry.staged_path = "files/other/a.mp4".to_string();
    let mut world = ready_world("test-sp-mismatch", "univ/videos", vec![(entry, None)]);
    let ready = world.dir(RunPhase::Ready);
    world.disk.mkdir_all(&format!("{ready}/files/videos"));
    world.disk.write(&format!("{ready}/files/videos/a.mp4"), "content");
    world.process_run().unwrap();
    let status = world.status_in(RunPhase::Failed);
    assert_eq!(status.state, RunState::Failed);
    assert_eq!(status.entries[0].status, FileStatus::Failed);
    assert!(status.entries[0].error.as_ref().unwrap().contains("staged_path mismatch"));
}

#[test]
fn test_manifest_staged_path_match_succeeds() {
    let mut world = single_file("test-sp-match", "univ/videos", "a.mp4", "content");
    world.process_run().unwrap();
    let status = world.status_in(RunPhase::Done);
    assert_eq!(status.state, RunState::Done);
    assert_eq!(status.entries[0].status, FileStatus::Imported);
}

#[test]
fn test_staged_symlink_rejected() {
    let mut entry = file_entry("a.mp4", 12, None);
    entry.local_path = "/home/user/Videos/a.mp4".to_string();
    let mut world = ready_world("test-symlink", "univ/videos", vec![(entry, None)]);
    let ready = world.dir(RunPhase::Ready);
    let real_file = format!("{ready}/files/real.mp4");
    world.disk.write(&real_file, "real content");
    world.disk.put(&format!("{ready}/files/a.mp4"), Node::Link(real_file));
    world.process_run().unwrap();
    assert!(!world.disk.has("/tmp/storage/videos/a.mp4"));
    assert!(!world.disk.has("/tmp/storage/univ/videos/a.mp4"));
    let status = world.status_in(RunPhase::Failed);
    assert_eq!(status.state, RunState::Failed);
    assert_eq!(status.entries[0].status, FileStatus::Failed);
    assert!(status.entries[0].error.as_ref().unwrap().contains("kind does not match"));
}

#[test]
fn test_run_state_partial_keeps_work_area() {
    let mut entry = file_entry("test.mp4", 13, Some("compress-video"));
    entry.local_path = "/home/user/Videos/test.mp4".to_string();
    entry.staged_path = "files/videos/test.mp4".to_string();
    let mut world = ready_world(
        "test-partial-wa",
        "univ/videos",
        vec![(entry, Some(Node::File("video content".to_string())))],
    );
    world.config.transforms.push(TransformDefinition {
        program: "false".to_string(),
        ..transform("compress-video", &[])
    });
    world.program = fails;
    world.process_run().unwrap();
    let failed = world.dir(RunPhase::Failed);
    assert!(world.disk.has(&failed));
    assert!(world.disk.has(&format!("{failed}/work")));
}

#[test]
fn sizes_and_digests_are_held_against_the_manifest() {
    let mut world = ready_world(
        "sizes",
        "d",
        vec![(file_entry("a", 4, None), Some(Node::File("abc".to_string())))],
    );
    world.process_run().unwrap();
    assert_eq!(
        world.published().entries[0].error.as_ref().unwrap(),
        "staged file identity check failed: size mismatch: expected 4, got 3"
    );
    let mut entry = file_entry("a", 3, None);
    entry.sha256 = Some("00".to_string());
    let mut world =
        ready_world("digests", "d", vec![(entry, Some(Node::File("abc".to_string())))]);
    world.process_run().unwrap();
    assert_eq!(
        world.published().entries[0].error.as_ref().unwrap(),
        "staged file identity check failed: sha256 mismatch: expected 00, got none"
    );
}

#[test]
fn progress_write_failure_does_not_fail_import() {
    let mut entry = file_entry("file.txt", 7, None);
    entry.local_path = "/src/file.txt".to_string();
    entry.mtime_ns = 100;
    let mut world = interrupted(ready_world(
        "progress-fail",
        "univ/data",
        vec![(entry, Some(Node::File("content".to_string())))],
    ));
    let processing = world.dir(RunPhase::Processing);
    world.disk.mkdir(&format!("{processing}/progress.toml.tmp"));
    let result = world.process();
    assert!(result.is_ok());
    assert_eq!(world.disk.read("/tmp/storage/univ/data/file.txt"), Some("content"));
    assert_eq!(world.status_in(RunPhase::Done).state, RunState::Done);
    assert!(!world.disk.has(&format!("{}/progress.toml", world.dir(RunPhase::Done))));
}

#[test]
fn test_process_run_overlays_directory_file_and_symlink_without_delete() {
    let source = |entry: ManifestEntry| ManifestEntry {
        local_path: format!("/source/{}", entry.relative_path),
        mtime_ns: 0,
        ..entry
    };
    let mut world = ready_world(
        "tree-overlay",
        "univ/data",
        vec![
            (source(directory_entry("tree", None)), Some(Node::Dir)),
            (
                source(link_entry("tree/link", "../target", None)),
                Some(Node::Link("../target".to_string())),
            ),
            (
                source(file_entry("tree/new.txt", 3, None)),
                Some(Node::File("new".to_string())),
            ),
        ],
    );
    world.disk.mkdir_all("/tmp/storage/univ/data/tree");
    world.disk.write("/tmp/storage/univ/data/tree/extra.txt", "keep");
    world.process_run().unwrap();
    assert_eq!(world.disk.read("/tmp/storage/univ/data/tree/new.txt"), Some("new"));
    assert_eq!(world.disk.read("/tmp/storage/univ/data/tree/extra.txt"), Some("keep"));
    assert_eq!(link_target(&world.disk, "/tmp/storage/univ/data/tree/link"), "../target");
    assert!(world.disk.has(&format!("{}/status.toml", world.dir(RunPhase::Done))));
    let status = world.published();
    assert_eq!(status.state, RunState::Done);
    assert_eq!(status.entries.len(), 3);
    assert_eq!(status.entries[0].kind, ManifestEntryKind::Directory);
    assert_eq!(status.entries[1].kind, ManifestEntryKind::Symlink);
    assert_eq!(status.entries[2].kind, ManifestEntryKind::RegularFile);
}

#[test]
fn test_repeated_imports_same_destination_are_idempotent() {
    let mut disk = Disk::default();
    for (id, content) in [("repeat-1", "hello"), ("repeat-2", "hello")] {
        let mut world = single_file(id, "univ/documents", "a.txt", content);
        world.disk.nodes.extend(disk.nodes);
        world.process_run().unwrap();
        assert!(world.disk.has(&world.dir(RunPhase::Done)));
        disk = world.disk;
    }
    assert_eq!(disk.read("/tmp/storage/univ/documents/a.txt"), Some("hello"));
}

#[test]
fn test_repeated_import_replaces_changed_content() {
    let mut disk = Disk::default();
    for (id, content) in [("version-1", "v1"), ("version-2", "v2")] {
        let mut world = single_file(id, "univ/documents", "a.txt", content);
        world.disk.nodes.extend(disk.nodes);
        world.process_run().unwrap();
        disk = world.disk;
    }
    assert_eq!(disk.read("/tmp/storage/univ/documents/a.txt"), Some("v2"));
}

#[test]
fn non_transform_staged_file_preserved_after_successful_materialization() {
    let mut missing_entry = file_entry("nonexistent.mp4", 42, None);
    missing_entry.mtime_ns = 2000000;
    let mut world = ready_world(
        "test-staged-preserved",
        "univ/videos",
        vec![
            (
                file_entry("a.mp4", 15, None),
                Some(Node::File("video a content".to_string())),
            ),
            (missing_entry, None),
        ],
    );
    world.process_run().unwrap();
    assert!(world.disk.has(&world.dir(RunPhase::Done)));
    assert_eq!(world.status_in(RunPhase::Done).state, RunState::Partial);
    let staged = format!("{}/files/a.mp4", world.dir(RunPhase::Done));
    assert!(world.disk.has(&staged));
    assert_eq!(world.disk.read(&staged), Some("video a content"));
    assert!(world.disk.has("/tmp/storage/univ/videos/a.mp4"));
    assert_eq!(world.disk.read("/tmp/storage/univ/videos/a.mp4"), Some("video a content"));
    assert_eq!(
        world.disk.below(STORAGE),
        ["/tmp/storage/univ", "/tmp/storage/univ/videos", "/tmp/storage/univ/videos/a.mp4"]
    );
    assert_eq!(
        left_in(&world, RunPhase::Done),
        [
            "files",
            "files/a.mp4",
            "manifest.toml",
            "progress.toml",
            "run.toml",
            "status.toml",
            "work",
        ]
    );
}

#[test]
fn transform_outputs_are_recorded_where_they_are() {
    let mut world = ready_world(
        "outputs",
        "univ/d",
        vec![(
            file_entry("v.mp4", 5, Some("compress")),
            Some(Node::File("video".to_string())),
        )],
    );
    world.config.transforms.push(transform("compress", &["{stem}.webm"]));
    world.program = writes_outputs;
    world.process_run().unwrap();
    let status = world.published();
    assert_eq!(status.state, RunState::Done);
    assert_eq!(status.entries[0].final_paths, ["/tmp/storage/univ/d/v.webm"]);
    assert_eq!(status.entries[0].transform.as_deref(), Some("compress"));
    assert!(!world.disk.has("/tmp/storage/univ/d/v.mp4"));
}

#[test]
fn transform_empty_expected_outputs_succeeds_with_empty_final_paths() {
    let mut world = ready_world(
        "test-no-commit",
        "univ/output",
        vec![(
            file_entry("data.bin", 7, Some("noop")),
            Some(Node::File("payload".to_string())),
        )],
    );
    world.config.transforms.push(transform("noop", &[]));
    world.process_run().unwrap();
    let status = world.status_in(RunPhase::Done);
    assert_eq!(status.state, RunState::Done);
    assert_eq!(status.entries[0].status, FileStatus::Imported);
    assert!(status.entries[0].final_paths.is_empty());
    assert!(!world.disk.has("/tmp/storage/univ/output/data.bin"));
}

#[test]
fn unknown_transforms_fail_their_entry() {
    let mut world = ready_world(
        "unknown",
        "univ/d",
        vec![(file_entry("v", 1, Some("t")), Some(Node::File("v".to_string())))],
    );
    world.process_run().unwrap();
    assert_eq!(
        world.published().entries[0].error.as_ref().unwrap(),
        "transform 't' not defined on server"
    );
}

// Passes and recovery

#[test]
fn test_process_once_processes_ready_run_after_restart() {
    let mut world = single_file("ready-after-restart", "univ/documents", "a.txt", "ready");
    assert_eq!(world.process_once(), BatchEnd::Finished);
    assert!(world.disk.has(&world.dir(RunPhase::Done)));
    assert_eq!(world.disk.read("/tmp/storage/univ/documents/a.txt"), Some("ready"));
}

#[test]
fn a_pass_without_runs_is_idle() {
    assert_eq!(empty_world("none").process_once(), BatchEnd::Idle);
}

fn interrupted(mut world: World) -> World {
    let ready = world.dir(RunPhase::Ready);
    let processing = world.dir(RunPhase::Processing);
    world.disk.mkdir_all(&parent_of(&processing));
    world.disk.rename(&ready, &processing);
    world
}

fn processing_world(id: &str, status: Lookup<RunStatus>) -> World {
    let mut world = empty_world(id);
    let processing = world.dir(RunPhase::Processing);
    world.disk.mkdir_all(&processing);
    world.disk.write(&format!("{processing}/status.toml"), "status");
    world.status = status;
    world
}

/// A run in processing whose status file holds a text that is no status.
fn written_status_world(id: &str, content: &str) -> World {
    let mut world = processing_world(id, broken(content));
    let path = format!("{}/status.toml", world.dir(RunPhase::Processing));
    world.disk.write(&path, content);
    world
}

fn assert_status_untouched(world: &World, content: &str) {
    let path = format!("{}/status.toml", world.dir(RunPhase::Processing));
    assert_eq!(world.disk.read(&path), Some(content));
}

fn status_of(nick: &str, id: &str, state: RunState) -> Lookup<RunStatus> {
    found(
        "0.1.0-test",
        RunStatus {
            purgery_version: "0.1.0-test".to_string(),
            run_id: run_id(id),
            nickname: nickname(nick),
            state,
            entries: vec![],
            error: None,
        },
    )
}

#[test]
fn test_process_once_recovers_processing_run_without_status() {
    let mut world =
        interrupted(single_file("recover-interrupted", "univ/documents", "a.txt", "hello"));
    let area = work_area(WORK, &world.nick, &world.id);
    world.disk.mkdir_all(&area);
    world.disk.write(&format!("{area}/stale"), "stale");
    world.process_once();
    assert!(!world.disk.has(&world.dir(RunPhase::Processing)));
    let done = world.dir(RunPhase::Done);
    assert!(world.disk.has(&format!("{done}/status.toml")));
    assert_eq!(world.disk.read("/tmp/storage/univ/documents/a.txt"), Some("hello"));
    assert!(!world.disk.has(&area));
    assert!(!world.disk.has(&format!("{done}/work")));
}

#[test]
fn test_replay_after_final_replacement_without_status_converges() {
    let mut world =
        interrupted(single_file("recover-committed-output", "univ/documents", "a.txt", "new"));
    let final_path = "/tmp/storage/documents/a.txt";
    world.disk.mkdir_all("/tmp/storage/documents");
    world.disk.write(final_path, "new");
    world.disk.mkdir_all("/tmp/storage/univ/documents");
    world.disk.write("/tmp/storage/univ/documents/a.txt", "new");
    let processing = world.dir(RunPhase::Processing);
    assert!(!world.disk.has(&format!("{processing}/status.toml")));
    world.process_once();
    assert_eq!(world.disk.read(final_path), Some("new"));
    assert_eq!(world.disk.read("/tmp/storage/univ/documents/a.txt"), Some("new"));
    assert_eq!(world.status_in(RunPhase::Done).state, RunState::Done);
}

#[test]
fn test_process_once_finalizes_processing_run_with_valid_status() {
    let status = status_of("laptop", "recover-status", RunState::Partial);
    let mut world = processing_world("recover-status", status);
    world.process_once();
    assert!(!world.disk.has(&world.dir(RunPhase::Processing)));
    assert!(world.disk.has(&world.dir(RunPhase::Done)));
}

fn assert_mismatched_processing_status_fails(status: Lookup<RunStatus>, id: &str) {
    let mut world = processing_world(id, status);
    world.process_once();
    assert!(!world.disk.has(&world.dir(RunPhase::Processing)));
    assert!(!world.disk.has(&world.dir(RunPhase::Done)));
    assert!(world.disk.has(&world.dir(RunPhase::Failed)));
    let failed = world.published();
    assert_eq!(failed.nickname.as_str(), "laptop");
    assert_eq!(failed.run_id.as_str(), id);
    assert_eq!(failed.state, RunState::Failed);
    assert_eq!(
        failed.error.as_deref(),
        Some("interrupted processing had mismatched status envelope")
    );
}

#[test]
fn test_process_once_fails_processing_run_with_mismatched_status_nickname() {
    assert_mismatched_processing_status_fails(
        status_of("other-machine", "recover-wrong-nickname", RunState::Done),
        "recover-wrong-nickname",
    );
}

#[test]
fn test_process_once_fails_processing_run_with_mismatched_status_run_id() {
    assert_mismatched_processing_status_fails(
        status_of("laptop", "other-run", RunState::Done),
        "recover-wrong-run-id",
    );
}

#[test]
fn test_mismatched_status_recovery_propagates_terminal_move_failure() {
    let status = status_of("laptop", "other-run", RunState::Done);
    let mut world = processing_world("blocked-failed-move", status);
    let failed = world.dir(RunPhase::Failed);
    world.disk.mkdir_all(&failed);
    world.disk.write(&format!("{failed}/existing"), "occupied");
    let error = world.recover().unwrap_err();
    assert!(error.text().contains("failed to move run-level failure to failed"));
    assert!(world.disk.has(&world.dir(RunPhase::Processing)));
    assert_eq!(world.published().state, RunState::Failed);
    assert_eq!(
        world.published().error.as_deref(),
        Some("interrupted processing had mismatched status envelope")
    );
}

#[test]
fn test_malformed_status_recovery_propagates_failed_status_write_failure() {
    let mut world = processing_world("blocked-status-write", broken("not valid = [toml"));
    let processing = world.dir(RunPhase::Processing);
    world.disk.mkdir_all(&format!("{processing}/status.toml.tmp"));
    world.disk.write(&format!("{processing}/status.toml"), "not valid = [toml");
    let error = world.recover().unwrap_err();
    assert!(error.text().contains("failed to write temporary run failure status"));
    assert!(world.disk.has(&processing));
    assert_eq!(
        world.disk.read(&format!("{processing}/status.toml")),
        Some("not valid = [toml")
    );
    assert!(matches!(&world.status, Lookup::Found(document) if document.parsed.is_err()));
}

#[test]
fn test_process_once_fails_processing_run_with_malformed_status() {
    let mut world = processing_world("recover-malformed", broken("not valid = [toml"));
    world.process_once();
    assert!(!world.disk.has(&world.dir(RunPhase::Processing)));
    assert!(world.disk.has(&world.dir(RunPhase::Failed)));
    assert_eq!(world.published().state, RunState::Failed);
    assert!(world.published().error.as_ref().unwrap().contains("malformed status"));
}

#[test]
fn recovery_refuses_incompatible_status_and_leaves_it_in_place() {
    let content = "purgery_version = \"2.0.0\"\n\
                   run_id = \"recover-incompat-status\"\n\
                   nickname = \"laptop\"\n\
                   state = \"done\"\n";
    let mut world = written_status_world("recover-incompat-status", content);
    let error = world.recover().unwrap_err();
    assert!(error.text().contains("incompatible"));
    assert_status_untouched(&world, content);
}

#[test]
fn process_once_raw_preserves_incompatible_processing_status() {
    let content = "purgery_version = \"2.0.0\"\n\
                   run_id = \"raw-incompat\"\n\
                   nickname = \"laptop\"\n\
                   state = \"done\"\n";
    let mut world = written_status_world("raw-incompat", content);
    assert_eq!(world.process_once(), BatchEnd::Finished);
    assert!(world.disk.has(&world.dir(RunPhase::Processing)));
    assert_status_untouched(&world, content);
    assert!(!world.disk.has(&world.dir(RunPhase::Failed)));
    assert!(!world.disk.has(&world.dir(RunPhase::Done)));
}

#[test]
fn recovery_refuses_missing_version_status() {
    let content = "run_id = \"recover-missing-pv-status\"\n\
                   nickname = \"laptop\"\n\
                   state = \"done\"\n";
    let mut world = written_status_world("recover-missing-pv-status", content);
    let error = world.recover().unwrap_err();
    assert!(matches!(&error, RecoveryError::IncompatibleStatus { .. }));
    assert!(world.disk.has(&world.dir(RunPhase::Processing)));
    assert_status_untouched(&world, content);
    assert!(!world.disk.has(&world.dir(RunPhase::Failed)));
}

#[test]
fn process_once_raw_preserves_missing_version_status() {
    let content = "run_id = \"raw-missing-pv\"\n\
                   nickname = \"laptop\"\n\
                   state = \"done\"\n";
    let mut world = written_status_world("raw-missing-pv", content);
    assert_eq!(world.process_once(), BatchEnd::Finished);
    assert!(world.disk.has(&world.dir(RunPhase::Processing)));
    assert_status_untouched(&world, content);
    assert!(!world.disk.has(&world.dir(RunPhase::Failed)));
}

// Requests for one run

#[test]
fn process_run_target_failure_moves_to_failed() {
    let mut world = single_file("tgt-fail", "univ/default", "a", "a");
    world.manifest = missing();
    assert!(world.target().is_err());
    assert!(!world.disk.has(&world.dir(RunPhase::Ready)));
    assert!(!world.disk.has(&world.dir(RunPhase::Processing)));
    let failed = world.dir(RunPhase::Failed);
    assert!(world.disk.has(&failed));
    assert!(world.disk.has(&format!("{failed}/status.toml")));
}

#[test]
fn process_run_target_incompatible_ready_left_in_place() {
    let mut world = single_file("tgt-incompat", "univ/default", "a", "a");
    let mut foreign = run_config("laptop", "/tmp/dest");
    foreign.purgery_version = "99.0.0".to_string();
    world.run_config = found("99.0.0", foreign);
    world.manifest = missing();
    let refusal = world.target().unwrap_err();
    assert!(refusal.message.starts_with("incompatible run left in place: "));
    assert!(world.disk.has(&world.dir(RunPhase::Ready)));
    assert!(!world.disk.has(&world.dir(RunPhase::Failed)));
    assert!(!world.disk.has(&world.dir(RunPhase::Processing)));
}

#[test]
fn process_run_target_idempotent_on_terminal() {
    let mut world = empty_world("tgt-term");
    let done = world.dir(RunPhase::Done);
    world.disk.mkdir_all(&done);
    world.status = status_of("laptop", "tgt-term", RunState::Done);
    let response = world.target().unwrap();
    assert_eq!(response.outcome, "already_terminal");
    assert_eq!(response.run_phase.as_deref(), Some("done"));
    assert_eq!(response.status_state.as_deref(), Some("done"));
    assert!(world.disk.has(&done));
}

#[test]
fn process_run_target_not_found_errors() {
    let result = empty_world("tgt-nonexistent").target();
    assert!(result.is_err());
    assert!(result.unwrap_err().message.contains("not found"));
}

#[test]
fn process_run_target_ready_normal_path() {
    let mut entry = file_entry("file.txt", 13, Some("test-step"));
    entry.local_path = "/source/file.txt".to_string();
    entry.mtime_ns = 0;
    let mut world = ready_world("tgt-normal", "", vec![(entry, None)]);
    world.run_config = found("0.1.0-test", run_config("laptop", "/tmp/dest"));
    world.config.transforms.push(TransformDefinition {
        program: "/bin/true".to_string(),
        ..transform("test-step", &[])
    });
    let response = world.target().unwrap();
    assert_eq!(response.outcome, "processed");
    assert_eq!(response.message.as_deref(), Some("run processed successfully"));
    assert!(!world.disk.has(&world.dir(RunPhase::Ready)));
    assert!(
        world.disk.has(&world.dir(RunPhase::Failed))
            || world.disk.has(&world.dir(RunPhase::Done))
    );
}

#[test]
fn process_run_target_processing_is_noop() {
    let mut world = empty_world("tgt-processing");
    let processing = world.dir(RunPhase::Processing);
    world.disk.mkdir_all(&processing);
    world.locked_elsewhere = true;
    let response = world.target().unwrap();
    assert_eq!(response.outcome, "already_active");
    assert_eq!(response.run_phase.as_deref(), Some("processing"));
    assert!(response.status_state.is_none());
    assert!(world.disk.has(&processing));
    assert!(!world.disk.has(&format!("{processing}/status.toml")));
    assert!(!world.disk.has(&world.dir(RunPhase::Failed)));
}

#[test]
fn concurrent_process_run_does_not_double_process() {
    let mut entry = file_entry("input.txt", 12, Some("slow-copy"));
    entry.local_path = "/tmp/input.txt".to_string();
    entry.mtime_ns = 1700000000000000000;
    let mut world = ready_world(
        "concurrency-test-001",
        "",
        vec![(entry, Some(Node::File("hello world\n".to_string())))],
    );
    world.run_config = found("0.1.0", run_config("laptop", "/tmp/final"));
    world.disk.mkdir_all("/tmp/final");
    world.config.transforms.push(TransformDefinition {
        program: "/bin/sh".to_string(),
        args: [
            "-c",
            "touch \"$1\"; while [ ! -e \"$2\" ]; do sleep 0.05; done; cp \"$3\" \"$4\"",
            "sh",
            "/tmp/started",
            "/tmp/release",
            "{input}",
            "{target_directory}/out.txt",
        ]
        .map(|s| s.to_string())
        .to_vec(),
        ..transform("slow-copy", &["out.txt"])
    });
    world.program = |disk, plan| {
        let input = disk.read(&plan.args[5]).unwrap().to_string();
        disk.write("/tmp/started", "") && disk.write(&plan.args[6], &input)
    };
    let state = world.state();
    assert_eq!(state.phase, "ready");

    // A first processor claims the run and is at work on it.
    let (end, _) = world.claim();
    assert_eq!(end, ClaimEnd::Claimed);
    let first = process_run_inner(TargetStep::Claim, TargetEvent::Claimed(end));
    world.locked_elsewhere = true;
    let state = world.state();
    assert_eq!(state.phase, "processing");
    assert_eq!(state.processor_state.as_deref(), Some("active"));

    // A second one comes meanwhile.
    let second = world.target().unwrap();
    assert_eq!(second.outcome, "already_active");
    assert_eq!(second.run_phase.as_deref(), Some("processing"));
    assert_eq!(second.status_state, None);
    assert!(!world.disk.has("/tmp/started"));

    // The first one goes on to the end.
    world.locked_elsewhere = false;
    let response = world.target_from(first).unwrap();
    assert_eq!(response.outcome, "processed");
    assert_eq!(response.run_phase.as_deref(), Some("done"));
    assert_eq!(response.status_state.as_deref(), Some("done"));
    assert!(world.disk.has(&world.dir(RunPhase::Done)));
    assert_eq!(world.published().state, RunState::Done);
    assert!(world.disk.has("/tmp/final/out.txt"));
    assert_eq!(world.disk.read("/tmp/final/out.txt"), Some("hello world\n"));
    assert_eq!(world.disk.below("/tmp/final"), ["/tmp/final/out.txt"]);

    let again = world.target().unwrap();
    assert_eq!(again.outcome, "already_terminal");
}

#[test]
fn process_once_loses_claim_race_does_not_move_processing_to_failed() {
    let mut world = empty_world("race-loser");
    let processing = world.dir(RunPhase::Processing);
    world.disk.mkdir_all(&processing);
    let (end, _) = world.claim();
    let outcome = describe_claim(end, &world.nick, &world.id, "", "");
    assert!(matches!(outcome, ReadyClaimOutcome::AlreadyProcessing));
    assert!(world.disk.has(&processing));
    assert!(!world.disk.has(&world.dir(RunPhase::Failed)));
}

#[test]
fn processing_that_cannot_publish_says_so() {
    let places = ProcessPlaces {
        work_area: "/area".to_string(),
        status: "/s".to_string(),
        status_tmp: "/s.tmp".to_string(),
        processing: "/p".to_string(),
        terminal: "/t".to_string(),
        terminal_parent: "/".to_string(),
        terminal_phase: RunPhase::Done,
    };
    let text = |end: ProcessEnd| {
        let wrong = ProcessingError::Other(Failure::new("wrong".to_string()));
        let unpublished = Failure::new("unpublished".to_string());
        match process_answer(end, wrong, unpublished, &places, "denied") {
            Err(ProcessingError::Other(failure)) => failure.full(),
            _ => panic!("not a failure"),
        }
    };
    assert_eq!(text(ProcessEnd::WorkAreaFailed), "failed to create work area: /area: denied");
    assert_eq!(
        text(ProcessEnd::StatusWriteFailed),
        "failed to write temporary status: /s.tmp: denied"
    );
    assert_eq!(text(ProcessEnd::StatusPublishFailed), "failed to finalize status: /s: denied");
    assert_eq!(
        text(ProcessEnd::SettleFailed(MoveStep::ParentFailed)),
        "failed to create done parent: /: denied"
    );
    assert_eq!(
        text(ProcessEnd::SettleFailed(MoveStep::RenameFailed)),
        "failed to move run to done: /p -> /t: denied"
    );
    assert_eq!(text(ProcessEnd::Malformed), "wrong");
    assert_eq!(text(ProcessEnd::FailureNotPublished), "unpublished");
}

// Commits on their own

#[test]
fn test_existing_regular_final_output_is_replaced() {
    let mut world = single_file("test-replace", "univ/videos", "test.mp4", "new content");
    let final_path = "/tmp/storage/univ/videos/test.mp4";
    world.disk.mkdir_all("/tmp/storage/univ/videos");
    world.disk.write(final_path, "old content");
    world.process_run().unwrap();
    assert_eq!(world.disk.read(final_path), Some("new content"));
    assert!(world.disk.has(&format!("{}/status.toml", world.dir(RunPhase::Done))));
    let status = world.published();
    assert_eq!(status.state, RunState::Done);
    assert_eq!(status.entries[0].status, FileStatus::Imported);
}

#[test]
fn test_regular_file_replaces_existing_empty_directory_like_rsync() {
    let mut world = single_file("test-directory-block", "univ/videos", "test.mp4", "content");
    let final_path = "/tmp/storage/univ/videos/test.mp4";
    world.disk.mkdir_all(final_path);
    world.process_run().unwrap();
    assert_eq!(world.disk.read(final_path), Some("content"));
    assert!(world.disk.has(&format!("{}/status.toml", world.dir(RunPhase::Done))));
    assert_eq!(world.published().entries[0].status, FileStatus::Imported);
}

#[test]
fn test_regular_file_replaces_existing_symlink_like_rsync() {
    let mut world = single_file("test-final-symlink", "univ/documents", "a.txt", "content");
    let final_path = "/tmp/storage/univ/documents/a.txt";
    world.disk.mkdir_all("/tmp/storage/univ/documents");
    world.disk.put(final_path, Node::Link("missing-target".to_string()));
    world.process_run().unwrap();
    assert_eq!(world.disk.read(final_path), Some("content"));
    assert_ne!(world.disk.kind(final_path), Some(FileKind::Symlink));
}

#[test]
fn commit_regular_file_refuses_non_empty_directory_without_mutation() {
    let mut disk = staging_disk();
    let final_path = "/tmp/root/subdir/file.txt";
    disk.mkdir_all(final_path);
    disk.write("/tmp/root/subdir/file.txt/child.txt", "child");
    disk.write("/tmp/staging/source.txt", "content");
    let before = disk.nodes.clone();
    let error = commit_file(&mut disk, "/tmp/staging/source.txt", final_path).unwrap_err();
    assert!(error.contains("non-empty destination directory"));
    assert_eq!(
        error,
        "cannot replace non-empty destination directory '/tmp/root/subdir/file.txt': refused"
    );
    assert_eq!(disk.kind(final_path), Some(FileKind::Directory));
    assert!(disk.has("/tmp/root/subdir/file.txt/child.txt"));
    assert_eq!(disk.read("/tmp/root/subdir/file.txt/child.txt"), Some("child"));
    assert_eq!(disk.nodes, before);
}

#[test]
fn regular_file_commit_must_not_create_operational_paths_under_root() {
    let mut disk = staging_disk();
    let final_path = "/tmp/root/subdir/file.txt";
    disk.mkdir_all("/tmp/root/subdir");
    disk.write("/tmp/staging/source.txt", "hello");
    assert!(commit_file(&mut disk, "/tmp/staging/source.txt", final_path).is_ok());
    assert!(disk.has(final_path));
    assert_eq!(disk.below(ROOT), ["/tmp/root/subdir", "/tmp/root/subdir/file.txt"]);
}

#[test]
fn regular_file_commit_allows_final_dotfile() {
    let mut disk = staging_disk();
    disk.mkdir_all(ROOT);
    disk.write("/tmp/staging/source.txt", "secret");
    assert!(commit_file(&mut disk, "/tmp/staging/source.txt", "/tmp/root/.hidden-file").is_ok());
    assert!(disk.has("/tmp/root/.hidden-file"));
    assert_eq!(disk.below(ROOT), ["/tmp/root/.hidden-file"]);
}

#[test]
fn symlink_commit_must_not_create_operational_paths_under_root() {
    let mut disk = staging_disk();
    disk.mkdir_all("/tmp/root/subdir");
    disk.put("/tmp/staging/srclink", Node::Link("/some/target".to_string()));
    assert!(commit_link(&mut disk, "/tmp/staging/srclink", "/tmp/root/subdir/link").is_ok());
    assert_eq!(disk.kind("/tmp/root/subdir/link"), Some(FileKind::Symlink));
    assert_eq!(link_target(&disk, "/tmp/root/subdir/link"), "/some/target");
    assert_eq!(disk.below(ROOT), ["/tmp/root/subdir", "/tmp/root/subdir/link"]);
}

#[test]
fn directory_tree_commit_must_not_create_operational_paths_under_root() {
    let mut disk = staging_disk();
    disk.mkdir("/tmp/staging/srcdir");
    disk.write("/tmp/staging/srcdir/a.txt", "content a");
    disk.write("/tmp/staging/srcdir/b.txt", "content b");
    disk.put("/tmp/staging/srcdir/c", Node::Link("/tmp/target".to_string()));
    disk.mkdir_all(ROOT);
    let result = commit_tree(&mut disk, "/tmp/staging/srcdir", "/tmp/root/dst", ROOT);
    assert_eq!(result, Ok(CommitDisposition::Created));
    assert!(disk.has("/tmp/root/dst"));
    assert!(disk.has("/tmp/root/dst/a.txt"));
    assert!(disk.has("/tmp/root/dst/b.txt"));
    assert_eq!(
        disk.below(ROOT),
        ["/tmp/root/dst", "/tmp/root/dst/a.txt", "/tmp/root/dst/b.txt", "/tmp/root/dst/c"]
    );
}

#[test]
fn directory_tree_commit_consumes_source_tree() {
    let mut disk = staging_disk();
    disk.mkdir_all(ROOT);
    disk.mkdir("/tmp/staging/srcdir");
    disk.write("/tmp/staging/srcdir/a.txt", "aaa");
    disk.write("/tmp/staging/srcdir/b.txt", "bbb");
    disk.put("/tmp/staging/srcdir/link", Node::Link("/some/target".to_string()));
    disk.mkdir("/tmp/staging/srcdir/sub");
    disk.write("/tmp/staging/srcdir/sub/c.txt", "ccc");
    let result = commit_tree(&mut disk, "/tmp/staging/srcdir", "/tmp/root/dst", ROOT);
    assert!(result.is_ok(), "commit failed: {result:?}");

    assert!(!disk.has("/tmp/staging/srcdir/a.txt"));
    assert!(!disk.has("/tmp/staging/srcdir/b.txt"));
    assert!(!disk.has("/tmp/staging/srcdir/link"));
    assert!(!disk.has("/tmp/staging/srcdir/sub/c.txt"));
    assert!(!disk.has("/tmp/staging/srcdir/sub"));
    assert!(!disk.has("/tmp/staging/srcdir"));

    assert_eq!(disk.read("/tmp/root/dst/a.txt"), Some("aaa"));
    assert_eq!(disk.read("/tmp/root/dst/b.txt"), Some("bbb"));
    assert_eq!(link_target(&disk, "/tmp/root/dst/link"), "/some/target");
    assert_eq!(disk.read("/tmp/root/dst/sub/c.txt"), Some("ccc"));
    assert_eq!(
        disk.below(ROOT),
        [
            "/tmp/root/dst",
            "/tmp/root/dst/a.txt",
            "/tmp/root/dst/b.txt",
            "/tmp/root/dst/link",
            "/tmp/root/dst/sub",
            "/tmp/root/dst/sub/c.txt",
        ]
    );
}

#[test]
fn regular_file_commit_moves_source_file() {
    let mut disk = staging_disk();
    disk.write("/tmp/staging/source.txt", "move-me");
    let result = commit_file(&mut disk, "/tmp/staging/source.txt", "/tmp/root/sub/file.txt");
    assert!(result.is_ok(), "commit failed: {result:?}");
    assert!(!disk.has("/tmp/staging/source.txt"));
    assert_eq!(disk.read("/tmp/root/sub/file.txt"), Some("move-me"));
    assert_eq!(disk.below(ROOT), ["/tmp/root/sub", "/tmp/root/sub/file.txt"]);
}

#[test]
fn symlink_replaces_existing_symlink_with_move_semantics() {
    let mut disk = staging_disk();
    disk.mkdir_all("/tmp/root/sub");
    disk.put("/tmp/root/sub/link", Node::Link("/old/target".to_string()));
    disk.put("/tmp/staging/mylink", Node::Link("/new/target".to_string()));
    let result = commit_link(&mut disk, "/tmp/staging/mylink", "/tmp/root/sub/link");
    assert!(result.is_ok(), "commit failed: {result:?}");
    assert_eq!(result.unwrap(), CommitDisposition::Replaced);
    assert!(!disk.has("/tmp/staging/mylink"));
    assert_eq!(link_target(&disk, "/tmp/root/sub/link"), "/new/target");
    assert_eq!(disk.below(ROOT), ["/tmp/root/sub", "/tmp/root/sub/link"]);
}

#[test]
fn test_rsync_oracle_directory_conflicts() {
    let mut disk = staging_disk();
    disk.mkdir_all(ROOT);

    assert_eq!(
        commit_directory(&mut disk, "/tmp/root/missing"),
        Ok(CommitDisposition::Created)
    );
    assert_eq!(disk.kind("/tmp/root/missing"), Some(FileKind::Directory));

    disk.mkdir("/tmp/root/existing");
    disk.write("/tmp/root/existing/extra", "keep");
    assert_eq!(
        commit_directory(&mut disk, "/tmp/root/existing"),
        Ok(CommitDisposition::Kept)
    );
    assert_eq!(disk.read("/tmp/root/existing/extra"), Some("keep"));

    disk.write("/tmp/root/file", "old");
    assert_eq!(
        commit_directory(&mut disk, "/tmp/root/file"),
        Ok(CommitDisposition::Replaced)
    );
    assert_eq!(disk.kind("/tmp/root/file"), Some(FileKind::Directory));

    disk.put("/tmp/root/symlink", Node::Link("elsewhere".to_string()));
    assert_eq!(
        commit_directory(&mut disk, "/tmp/root/symlink"),
        Ok(CommitDisposition::Replaced)
    );
    assert_eq!(disk.kind("/tmp/root/symlink"), Some(FileKind::Directory));
}

#[test]
fn parents_that_are_not_directories_stop_a_commit() {
    let mut disk = work_disk();
    disk.write("/tmp/staging/a", "x");
    disk.put("/tmp/root/p", Node::Link("/elsewhere".to_string()));
    let error = commit_any(&mut disk, "/tmp/staging/a", "/tmp/root/p/a", "/tmp/root").unwrap_err();
    assert_eq!(error, "final parent is not a directory: /tmp/root/p");
    let error = commit_any(&mut disk, "/tmp/staging/a", "/other/a", "/tmp/root").unwrap_err();
    assert_eq!(error, "final parent escapes root: /other");
    let error = commit_any(&mut disk, "/tmp/staging/a", "/", "/tmp/root").unwrap_err();
    assert_eq!(error, "final path has no parent: /");
    disk.remove_tree("/tmp/root");
    disk.write("/tmp/root", "file");
    let error = commit_any(&mut disk, "/tmp/staging/a", "/tmp/root/a", "/tmp/root").unwrap_err();
    assert_eq!(error, "destination root is not a directory: /tmp/root");
}

#[test]
fn a_missing_root_is_created() {
    let mut disk = work_disk();
    disk.write("/tmp/staging/a", "x");
    commit_any(&mut disk, "/tmp/staging/a", "/fresh/root/a", "/fresh/root").unwrap();
    assert_eq!(disk.read("/fresh/root/a"), Some("x"));
}

#[test]
fn the_way_to_a_final_path_stays_below_the_root() {
    let through = |to: &str, root: &str| match final_way(to, root) {
        FinalWay::Through(directories) => directories,
        other => panic!("no way: {other:?}"),
    };
    assert_eq!(through("/tmp/root/a/b/f", "/tmp/root"), ["/tmp/root/a", "/tmp/root/a/b"]);
    assert_eq!(through("/tmp/root//a/./f", "/tmp/root/"), ["/tmp/root/a"]);
    assert!(through("/tmp/root/f", "/tmp/root").is_empty());
    assert_eq!(through("/a/f", "/"), ["/a"]);
    assert_eq!(through("/a/f", ""), ["/", "/a"]);
    assert!(matches!(final_way("/tmp/roots/f", "/tmp/root"), FinalWay::Escapes { .. }));
}

#[test]
fn objects_keep_their_places_below_the_top() {
    let relatives: Vec<String> =
        ["a.txt", "sub", "sub/c.txt"].iter().map(|s| s.to_string()).collect();
    assert_eq!(
        tree_targets("/tmp/root/dst", &relatives),
        ["/tmp/root/dst/a.txt", "/tmp/root/dst/sub", "/tmp/root/dst/sub/c.txt"]
    );
    assert!(tree_targets("/tmp/root/dst", &vec![]).is_empty());
    assert_eq!(nested_place("/tmp/work/tree", "sub/c.txt"), "/tmp/work/tree/sub/c.txt");
}

#[test]
fn trees_with_pipes_are_refused() {
    let mut disk = work_disk();
    disk.mkdir("/tmp/staging/d");
    disk.put("/tmp/staging/d/p", Node::Pipe);
    let error = commit_any(&mut disk, "/tmp/staging/d", "/tmp/root/d", "/tmp/root").unwrap_err();
    assert_eq!(error, "unsupported output entry type: /tmp/staging/d/p");
}

// What is left behind

/// What stands in the terminal directory of a run, by its name below it. Nothing else
/// is left in the work directory but the directories of the phases.
fn left_in(world: &World, phase: RunPhase) -> Vec<String> {
    let dir = world.dir(phase);
    let names = world.disk.below(&dir);
    let mut others = paths_under(world);
    others.retain(|path| !names.contains(path));
    let mut expected = vec![
        "/tmp/purgery/laptop".to_string(),
        parent_of(&dir),
        dir.clone(),
        "/tmp/purgery/laptop/processing".to_string(),
        "/tmp/purgery/laptop/ready".to_string(),
    ];
    expected.sort();
    assert_eq!(others, expected);
    names.iter().map(|path| path[dir.len() + 1..].to_string()).collect()
}

fn link_entry(relative: &str, target: &str, transform: Option<&str>) -> ManifestEntry {
    ManifestEntry {
        kind: ManifestEntryKind::Symlink,
        link_target: Some(target.to_string()),
        mtime_ns: 0,
        ..file_entry(relative, 0, transform)
    }
}

fn directory_entry(relative: &str, transform: Option<&str>) -> ManifestEntry {
    ManifestEntry {
        kind: ManifestEntryKind::Directory,
        mtime_ns: 0,
        ..file_entry(relative, 0, transform)
    }
}

fn program(name: &str, args: &[&str], outputs: &[&str]) -> TransformDefinition {
    TransformDefinition {
        program: "sh".to_string(),
        args: args.iter().map(|s| s.to_string()).collect(),
        ..transform(name, outputs)
    }
}

fn link_target<'a>(disk: &'a Disk, path: &str) -> &'a str {
    match disk.nodes.get(path) {
        Some(Node::Link(target)) => target,
        other => panic!("not a link: {other:?}"),
    }
}

/// Writes the compressed form of its second argument into its third.
fn compresses(disk: &mut Disk, plan: &TransformPlan) -> bool {
    let name = plan.args[1].rsplit('/').next().unwrap();
    let stem = name.rsplit_once('.').map(|(stem, _)| stem).unwrap_or(name);
    disk.mkdir_all(&plan.args[2]) && disk.write(&format!("{}/{stem}.Z.webm", plan.args[2]), "")
}

fn compressing_world(id: &str) -> World {
    let mut world = ready_world(
        id,
        "univ/videos",
        vec![(
            file_entry("video.mp4", 5, Some("compress-video")),
            Some(Node::File("video".to_string())),
        )],
    );
    world.config.transforms = vec![program(
        "compress-video",
        &["--input", "{input}", "{target_directory}"],
        &["{stem}.Z.webm"],
    )];
    world.program = compresses;
    world
}

fn assert_only_compressed(world: &World) {
    let status = world.status_in(RunPhase::Done);
    assert_eq!(status.state, RunState::Done);
    assert_eq!(status.entries[0].status, FileStatus::Imported);
    assert_eq!(status.entries[0].final_paths.len(), 1);
    assert!(!world.disk.has("/tmp/storage/univ/videos/video.mp4"));
    assert!(world.disk.has("/tmp/storage/univ/videos/video.Z.webm"));
}

#[test]
fn test_transform_commits_only_expected_outputs() {
    let mut world = compressing_world("test-pp-only-expected");
    world.process_run().unwrap();
    assert_only_compressed(&world);
}

#[test]
fn test_transform_commits_expected_output() {
    let mut world = compressing_world("test-pp-expected-only");
    world.process_run().unwrap();
    assert_only_compressed(&world);
}

#[test]
fn test_rsync_oracle_regular_file_conflicts() {
    let mut disk = work_disk();
    let file = ManifestEntryKind::RegularFile;
    for name in ["missing", "file", "symlink", "empty-dir"] {
        disk.write("/tmp/staging/source", "new content");
        let destination = format!("/tmp/root/{name}");
        match name {
            "file" => disk.put(&destination, Node::File("old".to_string())),
            "symlink" => disk.put(&destination, Node::Link("target".to_string())),
            "empty-dir" => disk.mkdir(&destination),
            _ => true,
        };
        commit_one(&mut disk, file, "/tmp/staging/source", &destination, "/tmp/root").unwrap();
        assert_eq!(disk.read(&destination), Some("new content"));
        assert_eq!(disk.kind(&destination), Some(FileKind::RegularFile));
    }
    disk.write("/tmp/staging/source", "new content");
    disk.mkdir("/tmp/root/nonempty-dir");
    disk.write("/tmp/root/nonempty-dir/extra", "keep");
    assert!(commit_one(&mut disk, file, "/tmp/staging/source", "/tmp/root/nonempty-dir", "/tmp/root").is_err());
    assert_eq!(disk.read("/tmp/root/nonempty-dir/extra"), Some("keep"));
}

#[test]
fn test_rsync_oracle_symlink_conflicts_and_literal_target() {
    let mut disk = work_disk();
    let link = ManifestEntryKind::Symlink;
    for name in ["missing", "file", "symlink", "empty-dir"] {
        let source = format!("/tmp/staging/source-{name}");
        disk.put(&source, Node::Link("../literal-target".to_string()));
        let destination = format!("/tmp/root/{name}");
        match name {
            "file" => disk.put(&destination, Node::File("old".to_string())),
            "symlink" => disk.put(&destination, Node::Link("old-target".to_string())),
            "empty-dir" => disk.mkdir(&destination),
            _ => true,
        };
        commit_one(&mut disk, link, &source, &destination, "/tmp/root").unwrap();
        assert_eq!(link_target(&disk, &destination), "../literal-target");
    }
    disk.put("/tmp/staging/source-nonempty", Node::Link("../literal-target".to_string()));
    disk.mkdir("/tmp/root/nonempty-dir");
    disk.write("/tmp/root/nonempty-dir/extra", "keep");
    let refused = commit_one(&mut disk, link, "/tmp/staging/source-nonempty", "/tmp/root/nonempty-dir", "/tmp/root");
    assert!(refused.is_err());
    assert_eq!(disk.read("/tmp/root/nonempty-dir/extra"), Some("keep"));
}

#[test]
fn test_rsync_oracle_parent_conflicts_are_resolved_by_directory_entry() {
    let mut disk = work_disk();
    for name in ["file-parent", "symlink-parent"] {
        disk.write("/tmp/staging/source", "child");
        let parent = format!("/tmp/root/{name}");
        if name == "file-parent" {
            disk.write(&parent, "old");
        } else {
            disk.put(&parent, Node::Link("elsewhere".to_string()));
        }
        let child = format!("{parent}/child");
        commit_one(&mut disk, ManifestEntryKind::Directory, "", &parent, "/tmp/root").unwrap();
        commit_one(&mut disk, ManifestEntryKind::RegularFile, "/tmp/staging/source", &child, "/tmp/root")
            .unwrap();
        assert_eq!(disk.read(&child), Some("child"));
    }
}

#[test]
fn out_of_scope_rule_does_not_process_entry() {
    let mut entry = file_entry("a.mp4", 5, None);
    entry.local_path = "/src/a.mp4".to_string();
    entry.mtime_ns = 100;
    let mut world = ready_world(
        "scoped-processing",
        "univ/videos",
        vec![(entry, Some(Node::File("video".to_string())))],
    );
    world.config.transforms = vec![transform("pack", &[])];
    world.process_run().unwrap();
    let status = world.status_in(RunPhase::Done);
    assert_eq!(status.entries.len(), 1);
    assert_eq!(status.entries[0].status, FileStatus::Imported);
    assert!(status.entries[0].transform.is_none());
}

#[test]
fn failed_run_must_not_leave_operational_paths_under_root() {
    let entry = ManifestEntry {
        staged_path: "files/videos/missing.mp4".to_string(),
        ..file_entry("missing.mp4", 11, None)
    };
    let mut world = ready_world("test-fail", "videos", vec![(entry, None)]);
    world.process_run().unwrap();
    assert!(world.disk.has(&world.dir(RunPhase::Failed)));
    assert!(world.disk.below(STORAGE).is_empty());
}

#[test]
fn partial_run_work_area_preserved_under_work_dir_only() {
    let staged = |name: &str| ManifestEntry {
        staged_path: format!("files/videos/{name}"),
        ..file_entry(name, 13, Some("always-fail"))
    };
    let mut world = ready_world(
        "test-partial",
        "univ/videos",
        vec![
            (staged("a.mp4"), Some(Node::File("video a data".to_string()))),
            (staged("b.mp4"), Some(Node::File("video b data".to_string()))),
        ],
    );
    world.config.transforms = vec![transform("always-fail", &[])];
    world.program = fails;
    world.process_run().unwrap();
    assert!(world.disk.has(&world.dir(RunPhase::Failed)));
    assert!(world.disk.below(STORAGE).is_empty());
    assert!(world.disk.has(&format!("{}/work", world.dir(RunPhase::Failed))));
}

/// Its last argument is the directory that the outputs go to.
fn writes_result(disk: &mut Disk, plan: &TransformPlan) -> bool {
    let target = plan.args.last().unwrap();
    disk.mkdir_all(&format!("{target}/_outputs"))
        && disk.write(&format!("{target}/_outputs/result.txt"), "done\n")
}

fn transformed_world(id: &str, name: &str, content: &str, def: TransformDefinition) -> World {
    let mut world = ready_world(
        id,
        "univ/data",
        vec![(
            file_entry(name, content.len() as u64, Some(&def.name)),
            Some(Node::File(content.to_string())),
        )],
    );
    world.config.transforms = vec![def];
    world
}

#[test]
fn transform_outputs_produced_in_work_area_before_commit_to_final() {
    let script = "mkdir -p $0/_outputs && echo done > $0/_outputs/result.txt";
    let def = program("echo-args", &["-c", script, "{target_directory}"], &["_outputs"]);
    let mut world = transformed_world("test-pp-cwd", "input.dat", "input", def);
    world.program = writes_result;
    let result = world.process_run();
    assert!(result.is_ok());
    assert!(world.disk.has(&world.dir(RunPhase::Done)));
    assert_eq!(
        world.disk.below(STORAGE),
        [
            "/tmp/storage/univ",
            "/tmp/storage/univ/data",
            "/tmp/storage/univ/data/_outputs",
            "/tmp/storage/univ/data/_outputs/result.txt",
        ]
    );
    assert_eq!(
        left_in(&world, RunPhase::Done),
        ["files", "files/input.dat", "manifest.toml", "progress.toml", "run.toml", "status.toml"]
    );
    let result = "/tmp/storage/univ/data/_outputs/result.txt";
    assert!(world.disk.has(result));
    assert_eq!(world.disk.read(result), Some("done\n"));
}

#[test]
fn commit_regular_file_replaces_existing_file_without_sibling_temp() {
    let mut disk = staging_disk();
    disk.mkdir_all("/tmp/root/subdir");
    disk.write("/tmp/root/subdir/file.txt", "old content");
    disk.write("/tmp/staging/source.txt", "new content");
    let result = commit_file(&mut disk, "/tmp/staging/source.txt", "/tmp/root/subdir/file.txt");
    assert!(result.is_ok(), "replace failed: {result:?}");
    assert_eq!(disk.read("/tmp/root/subdir/file.txt"), Some("new content"));
    assert_eq!(disk.below(ROOT), ["/tmp/root/subdir", "/tmp/root/subdir/file.txt"]);
}

#[test]
fn commit_symlink_replaces_existing_symlink_without_sibling_temp() {
    let mut disk = staging_disk();
    disk.mkdir_all("/tmp/root/subdir");
    disk.put("/tmp/root/subdir/link", Node::Link("/old/target".to_string()));
    disk.put("/tmp/staging/srclink", Node::Link("/new/target".to_string()));
    let result = commit_link(&mut disk, "/tmp/staging/srclink", "/tmp/root/subdir/link");
    assert!(result.is_ok(), "replace failed: {result:?}");
    assert_eq!(link_target(&disk, "/tmp/root/subdir/link"), "/new/target");
    assert_eq!(disk.below(ROOT), ["/tmp/root/subdir", "/tmp/root/subdir/link"]);
}

#[test]
fn commit_regular_file_replaces_empty_directory_without_sibling_temp() {
    let mut disk = staging_disk();
    disk.mkdir_all("/tmp/root/subdir/file.txt");
    disk.write("/tmp/staging/source.txt", "content");
    let result = commit_file(&mut disk, "/tmp/staging/source.txt", "/tmp/root/subdir/file.txt");
    assert!(result.is_ok(), "replace failed: {result:?}");
    assert_eq!(disk.kind("/tmp/root/subdir/file.txt"), Some(FileKind::RegularFile));
    assert_eq!(disk.read("/tmp/root/subdir/file.txt"), Some("content"));
    assert_eq!(disk.below(ROOT), ["/tmp/root/subdir", "/tmp/root/subdir/file.txt"]);
}

#[test]
fn partial_final_file_after_interrupted_materialization_is_overwritten_by_replay() {
    let mut disk = staging_disk();
    disk.mkdir_all("/tmp/root/subdir");
    disk.write("/tmp/staging/source.txt", "complete content here");
    disk.write("/tmp/root/subdir/file.txt", "partial");
    let result = commit_file(&mut disk, "/tmp/staging/source.txt", "/tmp/root/subdir/file.txt");
    assert!(result.is_ok(), "replay commit failed: {result:?}");
    assert_eq!(disk.read("/tmp/root/subdir/file.txt"), Some("complete content here"));
    assert_eq!(disk.below(ROOT), ["/tmp/root/subdir", "/tmp/root/subdir/file.txt"]);
}

/// A run that was interrupted while its file was being placed.
fn interrupted_world(id: &str) -> World {
    let mut world = single_file(id, "univ/videos", "test.mp4", "replay content");
    let ready = world.dir(RunPhase::Ready);
    let processing = world.dir(RunPhase::Processing);
    world.disk.mkdir_all(&parent_of(&processing));
    assert!(world.disk.rename(&ready, &processing));
    world.disk.mkdir_all("/tmp/storage/univ/videos");
    world.disk.write("/tmp/storage/univ/videos/test.mp4", "partial remnant");
    world
}

fn assert_converged(world: &World) {
    assert!(world.disk.has(&world.dir(RunPhase::Done)));
    assert_eq!(world.disk.read("/tmp/storage/univ/videos/test.mp4"), Some("replay content"));
    assert_eq!(
        world.disk.below(STORAGE),
        [
            "/tmp/storage/univ",
            "/tmp/storage/univ/videos",
            "/tmp/storage/univ/videos/test.mp4",
        ]
    );
    assert_eq!(
        left_in(world, RunPhase::Done),
        ["files", "files/test.mp4", "manifest.toml", "progress.toml", "run.toml", "status.toml"]
    );
}

#[test]
fn replay_from_processing_rebuilds_work_area_and_converges() {
    let mut world = interrupted_world("test-replay");
    assert_eq!(world.process_once(), BatchEnd::Finished);
    assert_converged(&world);
}

#[test]
fn replay_preserves_staged_upload_source() {
    let mut world = interrupted_world("test-replay-staged");
    let staged = format!("{}/files/test.mp4", world.dir(RunPhase::Processing));
    assert!(world.disk.has(&staged));
    let before = world.disk.read(&staged).unwrap().to_string();
    assert_eq!(world.process_once(), BatchEnd::Finished);
    assert!(world.disk.has(&world.dir(RunPhase::Done)));
    let staged = format!("{}/files/test.mp4", world.dir(RunPhase::Done));
    assert!(world.disk.has(&staged));
    assert_eq!(world.disk.read(&staged), Some(before.as_str()));
    assert_eq!(world.disk.read("/tmp/storage/univ/videos/test.mp4"), Some("replay content"));
    assert_converged(&world);
}

fn makes_link(disk: &mut Disk, plan: &TransformPlan) -> bool {
    let target = plan.args.last().unwrap();
    disk.mkdir_all(target)
        && disk.put(&format!("{target}/the-link"), Node::Link("/etc/hostname".to_string()))
}

#[test]
fn transform_symlink_output_committed_without_operational_paths() {
    let script = "mkdir -p $0 && ln -sf /etc/hostname $0/the-link";
    let def = program("make-symlink", &["-c", script, "{target_directory}"], &["the-link"]);
    let mut world = transformed_world("test-pp-symlink", "input.dat", "data", def);
    world.program = makes_link;
    let result = world.process_run();
    assert!(result.is_ok());
    assert!(world.disk.has(&world.dir(RunPhase::Done)));
    assert_eq!(
        world.disk.below(STORAGE),
        [
            "/tmp/storage/univ",
            "/tmp/storage/univ/data",
            "/tmp/storage/univ/data/the-link",
        ]
    );
    assert_eq!(
        left_in(&world, RunPhase::Done),
        ["files", "files/input.dat", "manifest.toml", "progress.toml", "run.toml", "status.toml"]
    );
    let the_link = "/tmp/storage/univ/data/the-link";
    assert_eq!(world.disk.kind(the_link), Some(FileKind::Symlink));
    assert_eq!(link_target(&world.disk, the_link), "/etc/hostname");
}

#[test]
fn symlink_commit_moves_source_symlink() {
    let mut disk = staging_disk();
    disk.mkdir_all(ROOT);
    disk.put("/tmp/staging/mylink", Node::Link("/real/target".to_string()));
    let result = commit_link(&mut disk, "/tmp/staging/mylink", "/tmp/root/sub/link");
    assert!(result.is_ok(), "commit failed: {result:?}");
    assert!(!disk.has("/tmp/staging/mylink"));
    assert_eq!(link_target(&disk, "/tmp/root/sub/link"), "/real/target");
    assert_eq!(disk.below(ROOT), ["/tmp/root/sub", "/tmp/root/sub/link"]);
}

#[test]
fn regular_file_replaces_existing_file_with_move_semantics() {
    let mut disk = staging_disk();
    disk.mkdir_all("/tmp/root/sub");
    disk.write("/tmp/root/sub/data.bin", "old");
    disk.write("/tmp/staging/source.bin", "new");
    let result = commit_file(&mut disk, "/tmp/staging/source.bin", "/tmp/root/sub/data.bin");
    assert!(result.is_ok(), "commit failed: {result:?}");
    assert_eq!(result.unwrap(), CommitDisposition::Replaced);
    assert!(!disk.has("/tmp/staging/source.bin"));
    assert_eq!(disk.read("/tmp/root/sub/data.bin"), Some("new"));
    assert_eq!(disk.below(ROOT), ["/tmp/root/sub", "/tmp/root/sub/data.bin"]);
}

fn makes_tree(disk: &mut Disk, plan: &TransformPlan) -> bool {
    let target = plan.args.last().unwrap();
    disk.mkdir_all(&format!("{target}/out/sub"))
        && disk.write(&format!("{target}/out/sub/a.txt"), "a\n")
        && disk.write(&format!("{target}/out/b.txt"), "b\n")
}

#[test]
fn transform_directory_output_with_recursive_descendants() {
    let script = "mkdir -p $0/out/sub && echo a > $0/out/sub/a.txt && echo b > $0/out/b.txt";
    let def = program("make-tree", &["-c", script, "{target_directory}"], &["out"]);
    let mut world = transformed_world("test-pp-dir", "input.dat", "data", def);
    world.program = makes_tree;
    let result = world.process_run();
    assert!(result.is_ok());
    assert!(world.disk.has(&world.dir(RunPhase::Done)));
    assert_eq!(
        world.disk.below("/tmp/storage/univ/data"),
        [
            "/tmp/storage/univ/data/out",
            "/tmp/storage/univ/data/out/b.txt",
            "/tmp/storage/univ/data/out/sub",
            "/tmp/storage/univ/data/out/sub/a.txt",
        ]
    );
    assert_eq!(
        left_in(&world, RunPhase::Done),
        ["files", "files/input.dat", "manifest.toml", "progress.toml", "run.toml", "status.toml"]
    );
    assert!(world.disk.has("/tmp/storage/univ/data/out/b.txt"));
    assert_eq!(world.disk.read("/tmp/storage/univ/data/out/b.txt"), Some("b\n"));
    assert!(world.disk.has("/tmp/storage/univ/data/out/sub/a.txt"));
    assert_eq!(world.disk.read("/tmp/storage/univ/data/out/sub/a.txt"), Some("a\n"));
}

#[test]
fn non_transform_staged_symlink_preserved_after_materialization() {
    let mut missing_entry = file_entry("missing.dat", 42, None);
    missing_entry.mtime_ns = 2000000;
    let mut world = ready_world(
        "test-symlink-staged",
        "univ/data",
        vec![
            (
                link_entry("mylink", "/usr/share/data", None),
                Some(Node::Link("/usr/share/data".to_string())),
            ),
            (missing_entry, None),
        ],
    );
    world.process_run().unwrap();
    assert!(world.disk.has(&world.dir(RunPhase::Done)));
    assert_eq!(world.status_in(RunPhase::Done).state, RunState::Partial);
    let staged = format!("{}/files/mylink", world.dir(RunPhase::Done));
    assert!(world.disk.has(&staged));
    assert_eq!(link_target(&world.disk, &staged), "/usr/share/data");
    assert!(world.disk.has("/tmp/storage/univ/data/mylink"));
    assert_eq!(link_target(&world.disk, "/tmp/storage/univ/data/mylink"), "/usr/share/data");
    assert_eq!(
        world.disk.below(STORAGE),
        ["/tmp/storage/univ", "/tmp/storage/univ/data", "/tmp/storage/univ/data/mylink"]
    );
    assert_eq!(
        left_in(&world, RunPhase::Done),
        [
            "files",
            "files/mylink",
            "manifest.toml",
            "progress.toml",
            "run.toml",
            "status.toml",
            "work",
        ]
    );
}

#[test]
fn non_transform_regular_file_work_copy_consumed_staged_preserved() {
    let mut world =
        single_file("test-work-consumed", "univ/data", "doc.txt", "original content");
    world.process_run().unwrap();
    let done = world.dir(RunPhase::Done);
    assert!(world.disk.has(&done));
    assert!(world.disk.has(&format!("{done}/files/doc.txt")));
    assert_eq!(world.disk.read(&format!("{done}/files/doc.txt")), Some("original content"));
    assert!(!world.disk.has(&format!("{done}/work")));
    assert!(world.disk.has("/tmp/storage/univ/data/doc.txt"));
    assert_eq!(
        world.disk.read("/tmp/storage/univ/data/doc.txt"),
        Some("original content")
    );
    assert_eq!(
        world.disk.below(STORAGE),
        ["/tmp/storage/univ", "/tmp/storage/univ/data", "/tmp/storage/univ/data/doc.txt"]
    );
    assert_eq!(
        left_in(&world, RunPhase::Done),
        ["files", "files/doc.txt", "manifest.toml", "progress.toml", "run.toml", "status.toml"]
    );
}

#[test]
fn non_transform_symlink_work_copy_consumed_staged_preserved() {
    let mut world = ready_world(
        "test-symlink-consumed",
        "univ/data",
        vec![(
            link_entry("the-link", "/etc/config", None),
            Some(Node::Link("/etc/config".to_string())),
        )],
    );
    world.process_run().unwrap();
    let done = world.dir(RunPhase::Done);
    assert!(world.disk.has(&done));
    assert!(world.disk.has(&format!("{done}/files/the-link")));
    assert_eq!(link_target(&world.disk, &format!("{done}/files/the-link")), "/etc/config");
    assert!(!world.disk.has(&format!("{done}/work")));
    assert!(world.disk.has("/tmp/storage/univ/data/the-link"));
    assert_eq!(link_target(&world.disk, "/tmp/storage/univ/data/the-link"), "/etc/config");
    assert_eq!(
        world.disk.below(STORAGE),
        ["/tmp/storage/univ", "/tmp/storage/univ/data", "/tmp/storage/univ/data/the-link"]
    );
    assert_eq!(
        left_in(&world, RunPhase::Done),
        ["files", "files/the-link", "manifest.toml", "progress.toml", "run.toml", "status.toml"]
    );
}

/// Does what the script in its second argument says: makes the directory in its third
/// and copies a file there.
fn copies_input(disk: &mut Disk, plan: &TransformPlan) -> bool {
    let words: Vec<&str> = plan.args[1].split(' ').collect();
    assert_eq!(words[..5], ["mkdir", "-p", "$0", "&&", "cp"]);
    let target = &plan.args[2];
    let content = disk.read(words[5]).unwrap().to_string();
    disk.mkdir_all(target) && disk.write(&words[6].replace("$0", target), &content)
}

fn copying_world(id: &str) -> World {
    let script = "mkdir -p $0 && cp {input} $0/{file_name}.out";
    let def =
        program("copy-cmd", &["-c", script, "{target_directory}"], &["{file_name}.out"]);
    let mut world = transformed_world(id, "input.bin", "binary data", def);
    world.program = copies_input;
    world
}

#[test]
fn transform_paths_use_destination() {
    let mut world = copying_world("test-pp-destination");
    let result = world.process_run();
    assert!(result.is_ok());
    assert!(world.disk.has(&world.dir(RunPhase::Done)));
    let status = world.status_in(RunPhase::Done);
    for path in status.entries.iter().flat_map(|entry| entry.final_paths.iter()) {
        assert!(!path.contains("laptop"), "final_paths must not contain nickname: {path}");
    }
    assert_eq!(status.entries[0].final_paths, ["/tmp/storage/univ/data/input.bin.out"]);
    assert!(world.disk.has("/tmp/storage/univ/data/input.bin.out"));
    assert_eq!(
        left_in(&world, RunPhase::Done),
        ["files", "files/input.bin", "manifest.toml", "progress.toml", "run.toml", "status.toml"]
    );
}

#[test]
fn transform_work_area_outputs_consumed_after_materialization() {
    let mut world = copying_world("test-pp-consumed");
    let result = world.process_run();
    assert!(result.is_ok());
    let done = world.dir(RunPhase::Done);
    assert!(world.disk.has(&done));
    assert!(world.disk.has(&format!("{done}/files/input.bin")));
    assert_eq!(world.disk.read(&format!("{done}/files/input.bin")), Some("binary data"));
    assert!(!world.disk.has(&format!("{done}/work")));
}

#[test]
fn full_pipeline_status_uses_exact_destination() {
    let mut world =
        single_file("test-run-final-paths", "univ/videos", "test.mp4", "hello world");
    world.process_run().unwrap();
    let status = world.status_in(RunPhase::Done);
    assert_eq!(status.entries.len(), 1);
    assert!(!status.entries[0].final_paths.is_empty());
    for path in &status.entries[0].final_paths {
        assert!(!path.contains("laptop"), "final_paths must not contain nickname: {path}");
    }
    assert_eq!(status.entries[0].final_paths, ["/tmp/storage/univ/videos/test.mp4"]);
}

#[test]
fn process_transformed_symlink_entry() {
    let mut world = ready_world(
        "test-pp-symlink",
        "univ/data",
        vec![(
            link_entry("the-link", "/some/target", Some("test-step")),
            Some(Node::Link("/some/target".to_string())),
        )],
    );
    world.config.transforms = vec![transform("test-step", &[])];
    let result = world.process_run();
    assert!(result.is_ok());
    assert!(world.disk.has(&world.dir(RunPhase::Done)));
    let status = world.status_in(RunPhase::Done);
    assert_eq!(status.entries.len(), 1);
    assert_eq!(status.entries[0].status, FileStatus::Imported);
    assert!(!world.disk.has("/tmp/storage/univ/data/the-link"));
}

#[test]
fn process_transformed_directory_entry() {
    let mut world = ready_world(
        "test-pp-dir",
        "univ/data",
        vec![(directory_entry("photos", Some("test-step")), Some(Node::Dir))],
    );
    let photo = format!("{}/files/photos/photo1.jpg", world.dir(RunPhase::Ready));
    assert!(world.disk.write(&photo, "photo data"));
    world.config.transforms = vec![transform("test-step", &[])];
    world.process_run().unwrap();
    assert!(world.disk.has(&world.dir(RunPhase::Done)));
    assert_eq!(world.published().entries.len(), 1);
    assert_eq!(world.published().entries[0].status, FileStatus::Imported);
    assert!(!world.disk.has("/tmp/storage/univ/data/photos"));
}

/// Writes `result` into the directory in its fourth argument.
fn places_result(disk: &mut Disk, plan: &TransformPlan) -> bool {
    disk.mkdir_all(&plan.args[3]) && disk.write(&format!("{}/result", plan.args[3]), "")
}

#[test]
fn target_directory_placeholder_resolves() {
    let mut world = ready_world(
        "test-final-dest",
        "univ/output",
        vec![(
            file_entry("data.bin", 7, Some("place-at-dest")),
            Some(Node::File("payload".to_string())),
        )],
    );
    world.config.transforms.push(TransformDefinition {
        program: "/tmp/dst-script.sh".to_string(),
        ..program(
            "place-at-dest",
            &["--input", "{input}", "--output-dir", "{target_directory}"],
            &["result"],
        )
    });
    world.program = places_result;
    world.process_run().unwrap();
    let status = world.status_in(RunPhase::Done);
    assert_eq!(status.state, RunState::Done);
    assert_eq!(status.entries[0].status, FileStatus::Imported);
    assert_eq!(status.entries[0].final_paths.len(), 1);
    let expected = "/tmp/storage/univ/output/result";
    assert!(status.entries[0].final_paths.contains(&expected.to_string()));
    assert!(world.disk.has(expected));
}

/// Writes the compressed form of its second argument into its fourth.
fn compresses_to(disk: &mut Disk, plan: &TransformPlan) -> bool {
    let name = plan.args[1].rsplit('/').next().unwrap();
    let stem = name.rsplit_once('.').map(|(stem, _)| stem).unwrap_or(name);
    disk.mkdir_all(&plan.args[3]) && disk.write(&format!("{}/{stem}.Z.webm", plan.args[3]), "")
}

#[test]
fn transform_with_target_directory_and_expected_output() {
    let mut entry = file_entry("video.mp4", 5, Some("compress"));
    entry.local_path = "/home/user/Videos/video.mp4".to_string();
    let mut world = ready_world(
        "test-pp-dst-out",
        "univ/videos",
        vec![(entry, Some(Node::File("video".to_string())))],
    );
    world.config.transforms.push(TransformDefinition {
        program: "/tmp/compress-dst.sh".to_string(),
        ..program(
            "compress",
            &["--input", "{input}", "--output-dir", "{target_directory}"],
            &["{stem}.Z.webm"],
        )
    });
    world.program = compresses_to;
    world.process_run().unwrap();
    assert_only_compressed(&world);
}

/// Writes the output that it owes, wherever it is.
fn writes_absolute(disk: &mut Disk, plan: &TransformPlan) -> bool {
    disk.mkdir_all(&parent_of(&plan.outputs[0])) && disk.write(&plan.outputs[0], "")
}

#[test]
fn transform_absolute_expected_output_outside_destination_succeeds() {
    let mut world = ready_world(
        "test-abs-outside",
        "",
        vec![(
            file_entry("data.bin", 7, Some("write-absolute")),
            Some(Node::File("payload".to_string())),
        )],
    );
    world.run_config = found("0.1.0-test", run_config("laptop", "/tmp/archive"));
    world.disk.mkdir_all("/tmp/other-output");
    let output = "/tmp/other-output/result.webm";
    world.config.transforms.push(TransformDefinition {
        program: "/tmp/write-abs.sh".to_string(),
        ..transform("write-absolute", &[output])
    });
    world.program = writes_absolute;
    world.process_run().unwrap();
    let status = world.status_in(RunPhase::Done);
    assert_eq!(status.state, RunState::Done);
    assert_eq!(status.entries[0].status, FileStatus::Imported);
    assert_eq!(status.entries[0].final_paths, [output]);
    assert!(world.disk.has(output));
    assert!(!world.disk.has("/tmp/archive/result.webm"));
}

#[test]
fn transform_symlink_expected_output_is_not_followed() {
    let mut world = ready_world(
        "not-followed",
        "",
        vec![(
            file_entry("input.txt", 5, Some("generate")),
            Some(Node::File("input".to_string())),
        )],
    );
    world.run_config = found("0.1.0-test", run_config("laptop", "/tmp/area"));
    world.config.transforms.push(transform("generate", &["{stem}.out"]));
    world.disk.mkdir_all("/tmp/area");
    world.disk.write("/tmp/area/target.txt", "secret target contents");
    world.disk.put("/tmp/area/input.out", Node::Link("/tmp/area/target.txt".to_string()));
    world.process_run().unwrap();
    let status = world.status_in(RunPhase::Done);
    assert!(status.entries[0].final_paths.contains(&"/tmp/area/input.out".to_string()));
    assert_eq!(link_target(&world.disk, "/tmp/area/input.out"), "/tmp/area/target.txt");
    assert_eq!(world.disk.read("/tmp/area/target.txt"), Some("secret target contents"));
}

#[test]
fn non_transform_entry_still_commits_to_final_destination() {
    let mut world = single_file("test-idemp-commit", "univ/output", "plain.txt", "plain content");
    world.process_run().unwrap();
    assert!(world.disk.has("/tmp/storage/univ/output/plain.txt"));
    assert_eq!(world.disk.read("/tmp/storage/univ/output/plain.txt"), Some("plain content"));
    let status = world.status_in(RunPhase::Done);
    assert_eq!(status.state, RunState::Done);
    assert_eq!(status.entries[0].status, FileStatus::Imported);
}

#[test]
fn failures_are_published_before_the_run_moves() {
    let mut step = FailureStep::WriteStatus;
    let mut path = vec![step];
    while step != FailureStep::Move(MoveStep::Finished) {
        step = step.advance(true);
        path.push(step);
    }
    assert_eq!(
        path,
        [
            FailureStep::WriteStatus,
            FailureStep::PublishStatus,
            FailureStep::Move(MoveStep::CreateParent),
            FailureStep::Move(MoveStep::Rename),
            FailureStep::Move(MoveStep::RemoveLock),
            FailureStep::Move(MoveStep::Finished),
        ]
    );
    assert_eq!(FailureStep::WriteStatus.advance(false), FailureStep::WriteFailed);
    assert_eq!(FailureStep::PublishStatus.advance(false), FailureStep::PublishFailed);
}

#[test]
fn link_targets_are_compared_by_components() {
    let staged = |target: &str| {
        let mut world = ready_world(
            "test-link-target",
            "univ/data",
            vec![(
                link_entry("mylink", "/usr/share/data", None),
                Some(Node::Link(target.to_string())),
            )],
        );
        world.process_run().unwrap();
        world.published().state
    };
    assert_eq!(staged("/usr/share/data"), RunState::Done);
    assert_eq!(staged("/usr//share/./data/"), RunState::Done);
    assert_eq!(staged("usr/share/data"), RunState::Failed);
    assert_eq!(staged("/usr/share/../share/data"), RunState::Failed);
}

#[test]
fn link_targets_that_are_not_text_match_nothing() {
    let mut world = ready_world(
        "test-odd-link",
        "univ/data",
        vec![(link_entry("mylink", "\u{fffd}", None), Some(Node::OddLink))],
    );
    world.process_run().unwrap();
    assert_eq!(
        world.status_in(RunPhase::Failed).entries[0].error.as_deref(),
        Some("staged symlink target does not match manifest")
    );
    assert!(!world.disk.has("/tmp/storage/univ/data/mylink"));
}

#[test]
fn unsupported_objects_are_not_copied() {
    let mut world = ready_world(
        "test-pipe",
        "univ/data",
        vec![(directory_entry("tree", None), Some(Node::Dir))],
    );
    let staged = format!("{}/files/tree", world.dir(RunPhase::Ready));
    world.disk.write(&format!("{staged}/a.txt"), "a");
    world.disk.put(&format!("{staged}/b.pipe"), Node::Pipe);
    world.disk.write(&format!("{staged}/c.txt"), "c");
    world.process_run().unwrap();
    assert_eq!(
        world.published().entries[0].error.as_deref(),
        Some("unsupported filesystem object in staged directory: b.pipe")
    );
    let work = format!("{}/work/tree", world.dir(RunPhase::Failed));
    assert_eq!(world.disk.below(&work), [format!("{work}/a.txt")]);
    assert!(world.disk.below(STORAGE).is_empty());
}
