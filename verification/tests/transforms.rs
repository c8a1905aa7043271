//! Transforms: what they run, what they owe, and what is said when they fail.

use purgery_server::commit::{final_way, FinalWay};
use purgery_server::entry::path_is_within_root;
use purgery_server::model::{FileKind, ManifestEntryKind, TransformDefinition, TransformKind};
use purgery_server::output::{
    join_bounded_output, BoundedOutput, ReaderReport, MAX_TRANSFORM_OUTPUT_BYTES,
};
use purgery_server::paths::is_normalized_relative;
use purgery_server::phases::{
    probe_processor_lock_readonly, try_lock_existing_run_dir_processor, FlockReply, LockFileOpen,
    LockProbeTrial, LockTrial, ProcessorLockAttempt,
};
use purgery_server::postprocess::{
    apply_postprocessing, apply_postprocessing_with_heartbeat, inspect_output, output_is_inside,
    postprocess_report, postprocess_result, Postprocess, PostprocessEnd, PostprocessPlan,
    PostprocessStage, PostprocessStep, StepDetails,
};
use purgery_server::subprocess::{
    describe_exit_code, drop_repetitions, output_message, spawn_message, wait_message,
    OutputProbe, PollReply, Subprocess, SubprocessEnd, SubprocessEvent, SubprocessStep,
};
use purgery_server::transform::{
    apply_transform, apply_transform_for_target, describe_program_failure, directory_target,
    expand_template, file_stem, program_failure_message, transform_result, validate_transform_definition, Bindings,
    ResolvedTransform, TransformDetails, DEFAULT_HEARTBEAT_SECS,
};

use purgery_server::work::{
    copy_result, prepare_work_entry, start_copy, work_fault_message, CopyEnd, CopyEvent,
    CopyStage, WalkReply, WorkFault, WorkStep,
};

fn strings(list: &[&str]) -> Vec<String> {
    list.iter().map(|s| s.to_string()).collect()
}

fn resolved(name: &str, program: &str, args: &[&str], outputs: &[&str]) -> ResolvedTransform {
    ResolvedTransform {
        name: name.to_string(),
        def: TransformDefinition {
            name: name.to_string(),
            kind: TransformKind::Subprocess,
            program: program.to_string(),
            args: strings(args),
            expected_outputs: strings(outputs),
        },
    }
}

fn details(code: i32, stdout: &str, stderr: &str) -> TransformDetails {
    TransformDetails {
        code: Some(code),
        stdout: Ok(stdout.as_bytes().to_vec()),
        stderr: Ok(stderr.as_bytes().to_vec()),
        detail: "denied".to_string(),
    }
}

/// Runs a program that ends at once; `probe` says what stands where an output is owed.
fn run(outputs: usize, success: bool, probe: fn(usize) -> OutputProbe) -> Subprocess {
    let mut program = Subprocess::start(true);
    loop {
        let event = match program.step {
            SubprocessStep::Poll => SubprocessEvent::Polled(PollReply::Exited(success)),
            SubprocessStep::ResolveOutputs => SubprocessEvent::Resolved(Some(outputs)),
            SubprocessStep::Inspect(i) => SubprocessEvent::Inspected(probe(i)),
            SubprocessStep::Over(_) => return program,
            _ => SubprocessEvent::Done(true),
        };
        program = program.advance(event);
    }
}

fn generate(probe: fn(usize) -> OutputProbe) -> Result<Vec<String>, String> {
    let transform = resolved("generate", "true", &[], &["{stem}.out"]);
    let plan = apply_transform(&transform, "/area/input.txt", "/area", "/area")?;
    let over = run(plan.outputs.len(), true, probe);
    transform_result(&over, "generate", &plan.outputs, &details(0, "", ""))
}

#[test]
fn transform_regular_expected_output_succeeds() {
    let outputs = generate(|_| OutputProbe::Present(FileKind::RegularFile)).unwrap();
    assert_eq!(outputs, ["/area/input.out"]);
}

#[test]
fn transform_missing_expected_output_fails() {
    let error = generate(|_| OutputProbe::NotFound).unwrap_err();
    assert_eq!(error, "expected output not found: /area/input.out");
}

#[test]
fn transform_directory_expected_output_succeeds() {
    let outputs = generate(|_| OutputProbe::Present(FileKind::Directory)).unwrap();
    assert_eq!(outputs, ["/area/input.out"]);
}

#[test]
fn transform_symlink_expected_output_succeeds() {
    let outputs = generate(|_| OutputProbe::Present(FileKind::Symlink)).unwrap();
    assert_eq!(outputs, ["/area/input.out"]);
}

#[test]
fn transform_fifo_expected_output_fails() {
    let error = generate(|_| OutputProbe::Present(FileKind::Other)).unwrap_err();
    assert_eq!(
        error,
        "expected output is not a supported entry type: /area/input.out"
    );
}

#[test]
fn unreadable_outputs_fail() {
    let error = generate(|_| OutputProbe::Unreadable).unwrap_err();
    assert_eq!(error, "failed to inspect expected output '/area/input.out': denied");
}

#[test]
fn test_transforms_path_with_spaces() {
    let transform = resolved("compress-video", "true", &[], &[]);
    let plan = apply_transform(&transform, "/area/some file.mp4", "/area", "/area").unwrap();
    let over = run(plan.outputs.len(), true, |_| OutputProbe::NotFound);
    let outputs =
        transform_result(&over, "compress-video", &plan.outputs, &details(0, "", "")).unwrap();
    assert!(outputs.is_empty());
}

#[test]
fn test_compress_video_verify_output_exists() {
    let transform = resolved("compress-video", "true", &[], &[]);
    let plan = apply_transform(&transform, "/area/video.mp4", "/area", "/area").unwrap();
    assert!(plan.outputs.is_empty());
    let over = run(0, true, |_| OutputProbe::NotFound);
    assert_eq!(over.step, SubprocessStep::Over(SubprocessEnd::Finished));
}

#[test]
fn test_transform_produces_only_expected_outputs() {
    let transform = resolved("compress-video", "true", &[], &["{stem}.Z.webm"]);
    let plan = apply_transform(&transform, "/area/video.mp4", "/area", "/area").unwrap();
    let over = run(plan.outputs.len(), true, |_| OutputProbe::Present(FileKind::RegularFile));
    let outputs =
        transform_result(&over, "compress-video", &plan.outputs, &details(0, "", "")).unwrap();
    assert_eq!(outputs.len(), 1);
    assert!(outputs.contains(&"/area/video.Z.webm".to_string()));
    assert!(!outputs.contains(&"/area/video.mp4".to_string()));
    assert_eq!(outputs, ["/area/video.Z.webm"]);
}

#[test]
fn plans_resolve_the_target_directory() {
    let transform = resolved(
        "place-at-dest",
        "/bin/script",
        &["--input", "{input}", "--output-dir", "{target_directory}"],
        &["result"],
    );
    let plan =
        apply_transform(&transform, "/work/a.bin", "/storage", "/storage/univ/data").unwrap();
    assert_eq!(plan.args, ["--input", "/work/a.bin", "--output-dir", "/storage/univ/data"]);
    assert_eq!(plan.outputs, ["/storage/univ/data/result"]);
    assert_eq!(plan.program, "/bin/script");
    assert_eq!(plan.current_dir, "/work");
    assert_eq!(plan.heartbeat_secs, DEFAULT_HEARTBEAT_SECS);
}

#[test]
fn plans_expect_outputs_below_the_target_directory() {
    let transform = resolved("compress", "/bin/script", &["{input}"], &["{stem}.Z.webm"]);
    let plan =
        apply_transform(&transform, "/work/video.mp4", "/storage", "/storage/univ/videos").unwrap();
    assert_eq!(plan.outputs, ["/storage/univ/videos/video.Z.webm"]);
}

#[test]
fn plans_leave_absolute_outputs_where_they_are() {
    let transform = resolved("write-absolute", "/bin/script", &[], &["/other-output/result.webm"]);
    let plan = apply_transform(&transform, "/work/data.bin", "/archive", "/archive").unwrap();
    assert_eq!(plan.outputs, ["/other-output/result.webm"]);
}

#[test]
fn apply_transform_rejects_invalid_definition_before_spawn() {
    let transform = resolved("bad-transform", "", &[], &["output.txt"]);
    let error = apply_transform(&transform, "/work/test.txt", "/work", "/work").unwrap_err();
    assert_eq!(error, "transform 'bad-transform' definition is invalid: program is empty");
    let transform = resolved("bad-outputs", "true", &[], &["a", "x{input}"]);
    assert_eq!(
        validate_transform_definition(&transform.def).unwrap_err(),
        "expected_outputs must not use {input}: 'x{input}'"
    );
    let transform = resolved("t", "true", &[], &[]);
    let error = apply_transform(&transform, "/", "/work", "/work").unwrap_err();
    assert_eq!(error, "work path has no parent directory");
}

#[test]
fn targets_are_named_after_their_source() {
    let target = directory_target("/work/a.bin", "/storage", "/storage/d");
    assert_eq!(target.operand, "/storage");
    assert_eq!(target.target_path, "/storage/d/a.bin");
    let unnamed = directory_target("/work/..", "/storage", "/storage/d");
    assert_eq!(unnamed.target_path, "/storage/d/output");
    let transform = resolved("t", "true", &["{file_name}"], &[]);
    let plan = apply_transform_for_target(&transform, "/work/a.bin", &target).unwrap();
    assert_eq!(plan.args, ["a.bin"]);
}

#[test]
fn templates_are_expanded_once() {
    let b = Bindings {
        input: "{stem}".to_string(),
        file_name: "f.x".to_string(),
        stem: "f".to_string(),
        target_directory: "/t".to_string(),
    };
    assert_eq!(expand_template("{input}-{file_name}", &b), "{stem}-f.x");
    assert_eq!(expand_template("{{stem}}", &b), "{f}");
    assert_eq!(expand_template("{unknown} plain {", &b), "{unknown} plain {");
    assert_eq!(expand_template("{target_directory}/{stem}", &b), "/t/f");
    assert_eq!(expand_template("", &b), "");
}

#[test]
fn stems_leave_out_one_extension() {
    assert_eq!(file_stem("video.mp4"), "video");
    assert_eq!(file_stem("archive.tar.gz"), "archive.tar");
    assert_eq!(file_stem(".profile"), ".profile");
    assert_eq!(file_stem("plain"), "plain");
}

#[test]
fn failed_programs_are_reported_with_their_output() {
    let over = run(1, false, |_| OutputProbe::NotFound);
    assert_eq!(over.step, SubprocessStep::Over(SubprocessEnd::ProgramFailed));
    let error =
        transform_result(&over, "compress", &vec![], &details(3, "  started \n", "\tbroken\n"))
            .unwrap_err();
    assert_eq!(
        error,
        "compress failed with exit code Some(3)\nstdout: started\nstderr: broken"
    );
    let lost = TransformDetails {
        code: None,
        stdout: Err("pipe read error: closed".to_string()),
        stderr: Ok(vec![b'a', 0xff, b'b']),
        detail: String::new(),
    };
    let error =
        transform_result(&over, "compress", &vec![], &lost).unwrap_err();
    assert_eq!(
        error,
        "compress failed with exit code None\n\
         stdout: (stdout unavailable: pipe read error: closed)\n\
         stderr: a\u{fffd}b"
    );
    assert_eq!(
        program_failure_message("t", Some(-1), "o", "e"),
        "t failed with exit code Some(-1)\nstdout: o\nstderr: e"
    );
}

#[test]
fn programs_that_do_not_run_are_reported() {
    let none = details(0, "", "");
    let outputs = vec![];
    let started = Subprocess::start(true).advance(SubprocessEvent::Done(true));
    let unstarted = started.advance(SubprocessEvent::Done(false));
    let lost = started
        .advance(SubprocessEvent::Done(true))
        .advance(SubprocessEvent::Polled(PollReply::Failed));
    let unknown = started
        .advance(SubprocessEvent::Done(true))
        .advance(SubprocessEvent::Polled(PollReply::Exited(true)))
        .advance(SubprocessEvent::Done(true))
        .advance(SubprocessEvent::Done(true))
        .advance(SubprocessEvent::Resolved(None));
    assert_eq!(
        transform_result(&unstarted, "t", &outputs, &none).unwrap_err(),
        "failed to spawn t: denied"
    );
    assert_eq!(
        transform_result(&lost, "t", &outputs, &none).unwrap_err(),
        "failed to wait for t: denied"
    );
    assert_eq!(
        transform_result(&unknown, "t", &outputs, &none).unwrap_err(),
        "t: denied"
    );
    assert_eq!(spawn_message("t", "d"), "failed to spawn t: d");
    assert_eq!(wait_message("t", "d"), "failed to wait for t: d");
    assert_eq!(
        output_message(OutputProbe::Outside, "/o", "/a", ""),
        "expected output '/o' is outside work area '/a'"
    );
    let stopped = Subprocess::start(true)
        .advance(SubprocessEvent::Done(true))
        .advance(SubprocessEvent::Done(false));
    assert_eq!(stopped.step, SubprocessStep::Over(SubprocessEnd::SpawnFailed));
}

#[test]
fn exit_codes_in_words() {
    assert_eq!(describe_exit_code(None), "None");
    assert_eq!(describe_exit_code(Some(0)), "Some(0)");
    assert_eq!(describe_exit_code(Some(127)), "Some(127)");
    assert_eq!(describe_exit_code(Some(i32::MIN)), "Some(-2147483648)");
}

#[test]
fn outputs_are_recorded_once() {
    let list = strings(&["a", "b", "a", "c", "b"]);
    assert_eq!(drop_repetitions(&list), ["a", "b", "c"]);
    assert_eq!(drop_repetitions(&strings(&["a", "b"])), ["a", "b"]);
}

// Captured output

#[test]
fn short_output_is_kept_as_it_is() {
    let kept = BoundedOutput::new().push(b"hello ").push(b"world").finish();
    assert_eq!(kept, b"hello world");
    let exact = vec![7u8; MAX_TRANSFORM_OUTPUT_BYTES];
    assert_eq!(BoundedOutput::new().push(&exact).finish(), exact);
}

#[test]
fn long_output_keeps_its_end() {
    let mut output = BoundedOutput::new();
    output = output.push(&[b'a'; 4096]);
    for _ in 0..16 {
        output = output.push(&[b'b'; 4096]);
    }
    output = output.push(b"end");
    let kept = output.finish();
    let marker = b"...(output truncated; showing last 65536 bytes)...\n";
    assert!(kept.starts_with(marker));
    assert_eq!(kept.len(), marker.len() + 65536);
    assert!(kept.ends_with(b"bbbend"));
    assert!(!kept[marker.len()..].contains(&b'a'));
}

#[test]
fn readers_hand_over_what_they_have() {
    assert_eq!(join_bounded_output(ReaderReport::NoStream).unwrap(), b"");
    assert_eq!(join_bounded_output(ReaderReport::Kept(vec![1, 2])).unwrap(), [1, 2]);
    assert_eq!(
        join_bounded_output(ReaderReport::Failed("pipe".to_string())).unwrap_err(),
        "pipe"
    );
    assert_eq!(
        join_bounded_output(ReaderReport::Panicked).unwrap_err(),
        "output reader thread panicked"
    );
}

// Postprocessing

fn step(name: &str, outputs: &[&str], keep_original: bool) -> PostprocessStep {
    PostprocessStep {
        name: name.to_string(),
        program: "true".to_string(),
        args: strings(&["{input}"]),
        expected_outputs: strings(outputs),
        keep_original,
    }
}

/// Runs the steps of a plan; the given step fails, if one is given.
fn run_steps(plan: &PostprocessPlan, failing: Option<usize>) -> PostprocessEnd {
    let mut rule = Postprocess::begin(plan);
    loop {
        let index = rule.index;
        let program = match rule.stage {
            PostprocessStage::Run(program) => program,
            PostprocessStage::Over(end) => return end,
        };
        let event = match program.step {
            SubprocessStep::Poll => {
                SubprocessEvent::Polled(PollReply::Exited(failing != Some(index)))
            }
            SubprocessStep::ResolveOutputs => {
                SubprocessEvent::Resolved(Some(0))
            }
            SubprocessStep::Inspect(_) => {
                SubprocessEvent::Inspected(OutputProbe::Present(FileKind::RegularFile))
            }
            _ => SubprocessEvent::Done(true),
        };
        rule = rule.follow(plan, event);
    }
}

fn end_details() -> StepDetails {
    StepDetails { code: Some(2), detail: "denied".to_string() }
}

#[test]
fn postprocessing_collects_the_outputs_of_all_steps() {
    let rule = Some(vec![step("first", &["{stem}.a"], true), step("second", &["{stem}.a", "b"], false)]);
    let plan = apply_postprocessing(&rule, "/area/input.txt").unwrap();
    assert_eq!(plan.work_parent, "/area");
    assert_eq!(plan.heartbeat_secs, 5);
    assert_eq!(plan.steps[0].args, ["/area/input.txt"]);
    let end = run_steps(&plan, None);
    assert_eq!(end, PostprocessEnd::Finished);
    let outputs = postprocess_result(&plan, "/area/input.txt", end, &end_details()).unwrap();
    assert_eq!(outputs, ["/area/input.txt", "/area/input.a", "/area/b"]);
}

#[test]
fn postprocessing_stops_at_the_first_failure() {
    let rule = Some(vec![step("first", &["a"], false), step("second", &["b"], false)]);
    let plan = apply_postprocessing_with_heartbeat(&rule, "/area/input.txt", 1).unwrap();
    let end = run_steps(&plan, Some(0));
    assert_eq!(end, PostprocessEnd::StepFailed(0, SubprocessEnd::ProgramFailed));
    let error = postprocess_result(&plan, "/area/input.txt", end, &end_details()).unwrap_err();
    assert_eq!(error, "first failed with exit code Some(2)");
}

#[test]
fn postprocessing_refuses_outputs_outside_its_area() {
    let rule = Some(vec![step("first", &["/elsewhere/a"], false)]);
    let plan = apply_postprocessing(&rule, "/area/input.txt").unwrap();
    let end = run_steps(&plan, None);
    assert_eq!(
        end,
        PostprocessEnd::StepFailed(0, SubprocessEnd::OutputRefused(0, OutputProbe::Outside))
    );
    let error = postprocess_result(&plan, "/area/input.txt", end, &end_details()).unwrap_err();
    assert_eq!(error, "expected output '/elsewhere/a' is outside work area '/area'");
}

#[test]
fn results_outside_the_work_area_are_never_handed_on() {
    let rule = Some(vec![
        step("first", &["a"], true),
        step("second", &["b", "/elsewhere/a", "/areas/b"], false),
    ]);
    let plan = apply_postprocessing(&rule, "/area/input.txt").unwrap();
    let finished = PostprocessEnd::Finished;
    let error = postprocess_result(&plan, "/area/input.txt", finished, &end_details()).unwrap_err();
    assert_eq!(error, "expected output '/elsewhere/a' is outside work area '/area'");
}

#[test]
fn outputs_outside_the_work_area_are_refused_whatever_is_there() {
    let there = OutputProbe::Present(FileKind::RegularFile);
    assert_eq!(inspect_output("/area/a", "/area", there), there);
    assert_eq!(inspect_output("/area/a", "/area", OutputProbe::NotFound), OutputProbe::NotFound);
    assert_eq!(inspect_output("/elsewhere/a", "/area", there), OutputProbe::Outside);
    assert_eq!(
        inspect_output("/elsewhere/a", "/area", OutputProbe::NotFound),
        OutputProbe::Outside
    );
    assert_eq!(inspect_output("/areas/a", "/area", there), OutputProbe::Outside);
    assert!(output_is_inside("/area/sub/a", "/area"));
    assert!(!output_is_inside("/", "/area"));
}

#[test]
fn steps_owe_the_outputs_of_their_plan() {
    let rule = Some(vec![step("first", &["a", "b"], false)]);
    let plan = apply_postprocessing(&rule, "/area/input.txt").unwrap();
    let mut rule = Postprocess::begin(&plan);
    let mut inspected = 0;
    loop {
        let event = match rule.stage {
            PostprocessStage::Run(program) => match program.step {
                SubprocessStep::Poll => SubprocessEvent::Polled(PollReply::Exited(true)),
                SubprocessStep::ResolveOutputs => SubprocessEvent::Resolved(Some(0)),
                SubprocessStep::Inspect(i) => {
                    assert_eq!(i, inspected);
                    inspected += 1;
                    SubprocessEvent::Inspected(if i == 0 {
                        OutputProbe::Present(FileKind::RegularFile)
                    } else {
                        OutputProbe::NotFound
                    })
                }
                _ => SubprocessEvent::Done(true),
            },
            PostprocessStage::Over(end) => {
                assert_eq!(
                    end,
                    PostprocessEnd::StepFailed(
                        0,
                        SubprocessEnd::OutputRefused(1, OutputProbe::NotFound)
                    )
                );
                let error = postprocess_result(&plan, "/area/input.txt", end, &end_details());
                assert_eq!(error.unwrap_err(), "expected output not found: /area/b");
                break;
            }
        };
        rule = rule.follow(&plan, event);
    }
    assert_eq!(inspected, 2);
}

#[test]
fn postprocessing_needs_a_rule_and_an_output() {
    assert_eq!(
        apply_postprocessing(&None, "/area/input.txt").unwrap_err(),
        "no selected postprocess rule for entry"
    );
    assert_eq!(
        apply_postprocessing(&Some(vec![]), "/").unwrap_err(),
        "work path has no parent directory"
    );
    let plan = apply_postprocessing(&Some(vec![]), "/area/input.txt").unwrap();
    let end = run_steps(&plan, None);
    let error = postprocess_result(&plan, "/area/input.txt", end, &end_details()).unwrap_err();
    assert_eq!(
        error,
        "postprocessing produced zero outputs, but at least one is required"
    );
}

#[test]
fn postprocessing_reports_its_steps() {
    let started = Subprocess::start(false);
    let report = postprocess_report(&started, "first", "data/a.txt").unwrap();
    assert_eq!(report.state, "step_started");
    assert_eq!(report.current_entry, "data/a.txt");
    assert_eq!(report.current_transform, "first");
    assert!(postprocess_report(&started.advance(SubprocessEvent::Done(true)), "f", "e").is_none());
}

// Copies into the work area

#[test]
fn copies_say_what_went_wrong() {
    let refused = |fault: WorkFault| work_fault_message(fault, "d");
    assert_eq!(refused(WorkFault::Parent), "failed to create work parent: d");
    assert_eq!(refused(WorkFault::Directory), "failed to create work directory: d");
    assert_eq!(refused(WorkFault::Subdirectory), "failed to create work subdirectory: d");
    assert_eq!(refused(WorkFault::Walk), "failed to walk staged directory: d");
    assert_eq!(refused(WorkFault::Copy), "failed to copy to work area: d");
    assert_eq!(refused(WorkFault::NestedCopy), "failed to copy staged file to work area: d");
    assert_eq!(refused(WorkFault::ReadLink), "failed to read staged symlink: d");
    assert_eq!(refused(WorkFault::CreateLink), "failed to create work symlink: d");
    assert_eq!(refused(WorkFault::Metadata), "failed to read staged entry metadata: d");
    assert_eq!(refused(WorkFault::NotUtf8), "non-UTF-8 path in staged directory");
    assert_eq!(copy_result(CopyEnd::Copied, "p", "d"), Ok(()));
    assert_eq!(
        copy_result(CopyEnd::Fault(WorkFault::Walk), "p", "d").unwrap_err(),
        "failed to walk staged directory: d"
    );
    assert_eq!(
        copy_result(CopyEnd::Unsupported, "p", "d").unwrap_err(),
        "unsupported filesystem object in staged directory: p"
    );
}

#[test]
fn files_and_links_are_copied_alone() {
    let done = CopyEvent::Done(true);
    let mut copy = start_copy(ManifestEntryKind::RegularFile);
    assert_eq!(copy.stage, CopyStage::Top(WorkStep::CreateParent));
    copy = prepare_work_entry(copy, done);
    assert_eq!(copy.stage, CopyStage::Top(WorkStep::CopyFile));
    assert_eq!(
        prepare_work_entry(copy, CopyEvent::Done(false)).stage,
        CopyStage::Over(CopyEnd::Fault(WorkFault::Copy))
    );
    assert_eq!(prepare_work_entry(copy, done).stage, CopyStage::Over(CopyEnd::Copied));
    let mut copy = start_copy(ManifestEntryKind::Symlink);
    copy = prepare_work_entry(copy, done);
    assert_eq!(copy.stage, CopyStage::Top(WorkStep::ReadLink));
    copy = prepare_work_entry(copy, done);
    assert_eq!(copy.stage, CopyStage::Top(WorkStep::CreateLink));
    assert_eq!(prepare_work_entry(copy, done).stage, CopyStage::Over(CopyEnd::Copied));
}

#[test]
fn directories_are_copied_with_all_that_is_below() {
    let done = CopyEvent::Done(true);
    let mut copy = start_copy(ManifestEntryKind::Directory);
    copy = prepare_work_entry(copy, done);
    assert_eq!(copy.stage, CopyStage::Top(WorkStep::CreateDirectory));
    copy = prepare_work_entry(copy, done);
    assert_eq!(copy.stage, CopyStage::Next);
    let ends = |reply| prepare_work_entry(copy, CopyEvent::Walked(reply)).stage;
    assert_eq!(ends(WalkReply::End), CopyStage::Over(CopyEnd::Copied));
    assert_eq!(ends(WalkReply::Failed), CopyStage::Over(CopyEnd::Fault(WorkFault::Walk)));
    assert_eq!(ends(WalkReply::NotUtf8), CopyStage::Over(CopyEnd::Fault(WorkFault::NotUtf8)));
    copy = prepare_work_entry(copy, CopyEvent::Walked(WalkReply::Object));
    assert_eq!(copy.stage, CopyStage::Examine);
    let next = |kind| prepare_work_entry(copy, CopyEvent::Examined(kind)).stage;
    assert_eq!(next(None), CopyStage::Over(CopyEnd::Fault(WorkFault::Metadata)));
    assert_eq!(next(Some(FileKind::Other)), CopyStage::Over(CopyEnd::Unsupported));
    assert_eq!(
        next(Some(FileKind::Directory)),
        CopyStage::Nested(FileKind::Directory, WorkStep::CreateDirectory)
    );
    copy = prepare_work_entry(copy, CopyEvent::Examined(Some(FileKind::RegularFile)));
    copy = prepare_work_entry(copy, done);
    assert_eq!(copy.stage, CopyStage::Nested(FileKind::RegularFile, WorkStep::CopyFile));
    assert_eq!(
        prepare_work_entry(copy, CopyEvent::Done(false)).stage,
        CopyStage::Over(CopyEnd::Fault(WorkFault::NestedCopy))
    );
    assert_eq!(prepare_work_entry(copy, done).stage, CopyStage::Next);
}

// Locks

fn trial(directory_exists: bool, opened: Result<(), String>, reply: FlockReply) -> LockTrial {
    LockTrial { directory_exists, opened, reply }
}

#[test]
fn locks_are_acquired_or_not() {
    let attempt = |t: LockTrial| try_lock_existing_run_dir_processor(&t, "/r/processor.lock");
    assert_eq!(
        attempt(trial(true, Ok(()), FlockReply::Granted)).unwrap(),
        ProcessorLockAttempt::Acquired
    );
    assert_eq!(
        attempt(trial(true, Ok(()), FlockReply::WouldBlock)).unwrap(),
        ProcessorLockAttempt::Busy
    );
    assert_eq!(
        attempt(trial(false, Ok(()), FlockReply::Granted)).unwrap(),
        ProcessorLockAttempt::Missing
    );
    let error = attempt(trial(true, Err("denied".to_string()), FlockReply::Granted)).unwrap_err();
    assert_eq!(
        error.message,
        "failed to open processor lock file /r/processor.lock: denied"
    );
    let refused = FlockReply::Refused("bad descriptor".to_string());
    assert!(attempt(trial(true, Ok(()), refused)).is_err());
}

#[test]
fn locks_are_probed_without_a_trace() {
    let probe = |directory_exists, file_exists, opened, reply| {
        let trial = LockProbeTrial { directory_exists, file_exists, opened, reply };
        probe_processor_lock_readonly(&trial, "/r/processor.lock")
    };
    assert_eq!(
        probe(false, false, LockFileOpen::NotFound, FlockReply::Granted).unwrap(),
        None
    );
    assert_eq!(
        probe(true, false, LockFileOpen::NotFound, FlockReply::Granted).unwrap(),
        Some(false)
    );
    assert_eq!(
        probe(true, true, LockFileOpen::Opened, FlockReply::Granted).unwrap(),
        Some(false)
    );
    assert_eq!(
        probe(true, true, LockFileOpen::Opened, FlockReply::WouldBlock).unwrap(),
        Some(true)
    );
    assert!(probe(
        true,
        true,
        LockFileOpen::Refused("denied".to_string()),
        FlockReply::Granted
    )
    .is_err());
}

// Paths

#[test]
fn paths_below_a_root() {
    assert!(path_is_within_root("/a/b/c", "/a/b"));
    assert!(!path_is_within_root("/a/bc", "/a/b"));
    assert!(!path_is_within_root("/a/b/../c", "/a/b"));
    assert!(path_is_within_root("/a/b", "/a/b"));
}

#[test]
fn normalized_relative_paths() {
    assert!(is_normalized_relative("files/a.txt"));
    assert!(is_normalized_relative("a"));
    assert!(!is_normalized_relative(""));
    assert!(!is_normalized_relative("/a"));
    assert!(!is_normalized_relative("a//b"));
    assert!(!is_normalized_relative("a/../b"));
    assert!(!is_normalized_relative("./a"));
    assert!(!is_normalized_relative("a/"));
}

#[test]
fn components_ignore_repeated_slashes_and_dots() {
    assert!(path_is_within_root("/a//b/./c/", "/a/b"));
    assert!(path_is_within_root("/a/b/c", "//a/./b//"));
    assert!(!path_is_within_root("a/b", "/a"));
    assert!(path_is_within_root("./a/b", "./a"));
    assert!(!path_is_within_root("a/b", "./a"));
    assert!(path_is_within_root("a/./b", "a/b"));
    assert!(path_is_within_root("a", ""));
    assert!(path_is_within_root("/.", "/"));
}

#[test]
fn the_way_leads_through_every_component() {
    match final_way("/root//x/./y/z", "/root/") {
        FinalWay::Through(directories) => {
            assert_eq!(directories, strings(&["/root/x", "/root/x/y"]));
        }
        other => panic!("unexpected way: {other:?}"),
    }
    assert!(matches!(final_way("/", "/root"), FinalWay::NoParent));
    match final_way("/elsewhere/x", "/root") {
        FinalWay::Escapes { parent } => assert_eq!(parent, "/elsewhere"),
        other => panic!("unexpected way: {other:?}"),
    }
}

#[test]
fn output_is_named_after_the_last_component() {
    let t = resolved("t", "true", &["{file_name}"], &[]);
    let args = |path: &str| apply_transform(&t, path, "/d", "/d").unwrap().args;
    assert_eq!(args("/w/a.txt"), strings(&["a.txt"]));
    assert_eq!(args("/w/a.txt/."), strings(&["a.txt"]));
    assert_eq!(args("/w//a.txt//"), strings(&["a.txt"]));
    assert_eq!(args("/w/.."), strings(&["output"]));
}

#[test]
fn captured_output_is_trimmed_and_made_readable() {
    let stdout = Ok("\u{3000}\u{85}\t out put \u{2029}\r\n".as_bytes().to_vec());
    let stderr = Ok(vec![b' ', b'o', 0xff, b'k', 0xe2, 0x82, 0xac, b'\n']);
    assert_eq!(
        describe_program_failure("t", Some(3), &stdout, &stderr),
        "t failed with exit code Some(3)\nstdout: out put\nstderr: o\u{fffd}k\u{20ac}"
    );
    let kept = Ok("\u{200b}x\u{feff}".as_bytes().to_vec());
    let lost = Err("pipe read error: gone".to_string());
    assert_eq!(
        describe_program_failure("t", None, &kept, &lost),
        "t failed with exit code None\nstdout: \u{200b}x\u{feff}\nstderr: \
         (stderr unavailable: pipe read error: gone)"
    );
}

#[test]
fn exactly_white_space_is_trimmed() {
    let mut trimmed = Vec::new();
    for code in 0..=0x10ffffu32 {
        if let Some(c) = char::from_u32(code) {
            let stdout = Ok(format!("{c}x{c}").into_bytes());
            let message = describe_program_failure("t", None, &stdout, &Ok(vec![]));
            if message == "t failed with exit code None\nstdout: x\nstderr: " {
                trimmed.push(code);
            }
        }
    }
    let mut expected: Vec<u32> = (0x9..=0xd).collect();
    expected.extend([0x20, 0x85, 0xa0, 0x1680]);
    expected.extend(0x2000..=0x200a);
    expected.extend([0x2028, 0x2029, 0x202f, 0x205f, 0x3000]);
    assert_eq!(trimmed, expected);
}
