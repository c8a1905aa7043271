//! Postprocessing: a rule's programs, run one after the other on an entry in its work
//! area.

use vstd::prelude::*;

use crate::paths;
use crate::progress::ProgressUpdate;
use crate::subprocess;
use crate::subprocess::{OutputProbe, Subprocess, SubprocessEnd, SubprocessEvent, SubprocessStep};
use crate::text;
use crate::transform;
use crate::transform::{Bindings, DEFAULT_HEARTBEAT_SECS};

verus! {

/// A step of a rule, as the operator defined it.
#[derive(Debug)]
pub struct PostprocessStep {
    pub name: String,
    pub program: String,
    pub args: Vec<String>,
    pub expected_outputs: Vec<String>,
    /// Whether the entry itself is among the results.
    pub keep_original: bool,
}

/// A step, ready to be run on an entry.
#[derive(Debug)]
pub struct StepPlan {
    pub name: String,
    pub program: String,
    pub args: Vec<String>,
    pub outputs: Vec<String>,
    pub keep_original: bool,
}

/// The steps of a rule, ready to be run on an entry.
#[derive(Debug)]
pub struct PostprocessPlan {
    pub work_parent: String,
    pub steps: Vec<StepPlan>,
    pub heartbeat_secs: u64,
}

/// Whether a plan is that of a step on an entry: its outputs belong beside the entry.
pub open spec fn is_step_plan(
    plan: StepPlan,
    step: PostprocessStep,
    work_path: Seq<char>,
    file_name: Seq<char>,
    work_parent: Seq<char>,
) -> bool {
    let b = transform::bindings_of(work_path, file_name, work_parent);
    &&& plan.name@ == step.name@
    &&& plan.program@ == step.program@
    &&& text::texts(plan.args@) == transform::expand_all(step.args@, b)
    &&& text::texts(plan.outputs@) == transform::output_paths(
        step.expected_outputs@,
        b,
        work_parent,
    )
    &&& plan.keep_original == step.keep_original
}

/// Why postprocessing does not begin, if it does not.
pub open spec fn postprocess_refusal(
    rule: Option<Vec<PostprocessStep>>,
    work_parent: Option<Seq<char>>,
) -> Option<Seq<char>> {
    if work_parent is None {
        Some("work path has no parent directory"@)
    } else if rule is None {
        Some("no selected postprocess rule for entry"@)
    } else {
        None
    }
}

/// Whether a plan runs the steps of a rule on an entry.
pub open spec fn is_postprocess_plan(
    plan: PostprocessPlan,
    steps: Seq<PostprocessStep>,
    work_path: Seq<char>,
    file_name: Seq<char>,
    work_parent: Seq<char>,
    heartbeat_secs: u64,
) -> bool {
    &&& plan.work_parent@ == work_parent
    &&& plan.heartbeat_secs == heartbeat_secs
    &&& plan.steps@.len() == steps.len()
    &&& forall|i: int|
        0 <= i < steps.len() ==> is_step_plan(
            #[trigger] plan.steps@[i],
            steps[i],
            work_path,
            file_name,
            work_parent,
        )
}

fn plan_step(step: &PostprocessStep, work_path: &str, file_name: &str, work_parent: &str) -> (plan:
    StepPlan)
    ensures
        is_step_plan(plan, *step, work_path@, file_name@, work_parent@),
{
    let b = Bindings {
        input: work_path.to_owned(),
        file_name: file_name.to_owned(),
        stem: transform::file_stem(file_name),
        target_directory: work_parent.to_owned(),
    };
    let mut args: Vec<String> = Vec::new();
    let mut i: usize = 0;
    while i < step.args.len()
        invariant
            i <= step.args.len(),
            args@.len() == i,
            forall|j: int|
                0 <= j < i ==> (#[trigger] args@[j])@ == transform::expand(step.args@[j]@, b@),
        decreases step.args.len() - i,
    {
        args.push(transform::expand_template(step.args[i].as_str(), &b));
        i = i + 1;
    }
    assert(text::texts(args@) =~= transform::expand_all(step.args@, b@));
    let mut outputs: Vec<String> = Vec::new();
    let mut k: usize = 0;
    while k < step.expected_outputs.len()
        invariant
            k <= step.expected_outputs.len(),
            outputs@.len() == k,
            forall|j: int|
                0 <= j < k ==> (#[trigger] outputs@[j])@ == paths::path_join(
                    work_parent@,
                    transform::expand(step.expected_outputs@[j]@, b@),
                ),
        decreases step.expected_outputs.len() - k,
    {
        let name = transform::expand_template(step.expected_outputs[k].as_str(), &b);
        outputs.push(paths::join(work_parent, name.as_str()));
        k = k + 1;
    }
    assert(text::texts(outputs@) =~= transform::output_paths(
        step.expected_outputs@,
        b@,
        work_parent@,
    ));
    StepPlan {
        name: step.name.clone(),
        program: step.program.clone(),
        args,
        outputs,
        keep_original: step.keep_original,
    }
}

/// Plans the steps of a rule from what the path library said of the work path: its
/// parent and its file name.
pub fn plan_postprocessing(
    rule: &Option<Vec<PostprocessStep>>,
    work_path: &str,
    work_parent: &Option<String>,
    file_name: &str,
    heartbeat_secs: u64,
) -> (r: Result<PostprocessPlan, String>)
    ensures
        match postprocess_refusal(*rule, text::opt_text(*work_parent)) {
            Some(error) => r matches Err(e) && e@ == error,
            None => r matches Ok(plan) && is_postprocess_plan(
                plan,
                (*rule)->0@,
                work_path@,
                file_name@,
                (*work_parent)->0@,
                heartbeat_secs,
            ),
        },
{
    let parent = match work_parent {
        None => {
            return Err("work path has no parent directory".to_owned());
        },
        Some(parent) => parent,
    };
    let defined = match rule {
        None => {
            return Err("no selected postprocess rule for entry".to_owned());
        },
        Some(defined) => defined,
    };
    let mut steps: Vec<StepPlan> = Vec::new();
    let mut i: usize = 0;
    while i < defined.len()
        invariant
            i <= defined.len(),
            steps@.len() == i,
            forall|j: int|
                0 <= j < i ==> is_step_plan(
                    #[trigger] steps@[j],
                    defined@[j],
                    work_path@,
                    file_name@,
                    parent@,
                ),
        decreases defined.len() - i,
    {
        steps.push(plan_step(&defined[i], work_path, file_name, parent.as_str()));
        i = i + 1;
    }
    Ok(PostprocessPlan { work_parent: parent.clone(), steps, heartbeat_secs })
}

/// Plans the steps of the rule that was selected for an entry, if one was, with a sign
/// of life at the given interval. The entry itself lies in the work area.
pub fn apply_postprocessing_with_heartbeat(
    rule: &Option<Vec<PostprocessStep>>,
    work_path: &str,
    heartbeat_secs: u64,
) -> (r: Result<PostprocessPlan, String>)
    ensures
        match postprocess_refusal(*rule, paths::path_parent(work_path@)) {
            Some(error) => r matches Err(e) && e@ == error,
            None => r matches Ok(plan) && is_postprocess_plan(
                plan,
                (*rule)->0@,
                work_path@,
                transform::name_or(paths::path_file_name(work_path@), "output"@),
                paths::path_parent(work_path@)->0,
                heartbeat_secs,
            ),
        },
        r matches Ok(plan) ==> paths::path_starts_with(work_path@, plan.work_parent@),
{
    let work_parent = paths::parent(work_path);
    let file_name = match paths::file_name(work_path) {
        Some(name) => name,
        None => "output".to_owned(),
    };
    plan_postprocessing(rule, work_path, &work_parent, file_name.as_str(), heartbeat_secs)
}

/// Plans the steps of the rule that was selected for an entry, with a sign of life at
/// the usual interval.
pub fn apply_postprocessing(rule: &Option<Vec<PostprocessStep>>, work_path: &str) -> (r: Result<
    PostprocessPlan,
    String,
>)
    ensures
        match postprocess_refusal(*rule, paths::path_parent(work_path@)) {
            Some(error) => r matches Err(e) && e@ == error,
            None => r matches Ok(plan) && is_postprocess_plan(
                plan,
                (*rule)->0@,
                work_path@,
                transform::name_or(paths::path_file_name(work_path@), "output"@),
                paths::path_parent(work_path@)->0,
                DEFAULT_HEARTBEAT_SECS,
            ),
        },
        r matches Ok(plan) ==> paths::path_starts_with(work_path@, plan.work_parent@),
{
    apply_postprocessing_with_heartbeat(rule, work_path, DEFAULT_HEARTBEAT_SECS)
}

// ---------------------------------------------------------------------------
// Running the steps
// ---------------------------------------------------------------------------

/// How postprocessing ends.
#[derive(Clone, Copy, PartialEq, Eq, Structural, Debug)]
pub enum PostprocessEnd {
    /// Every step succeeded.
    Finished,
    /// The step at this position failed.
    StepFailed(usize, SubprocessEnd),
}

/// The step that is being run, or the end.
#[derive(Clone, Copy, PartialEq, Eq, Structural, Debug)]
pub enum PostprocessStage {
    Run(Subprocess),
    Over(PostprocessEnd),
}

/// The steps of a rule: the one whose turn it is, and how many there are.
#[derive(Clone, Copy, PartialEq, Eq, Structural, Debug)]
pub struct Postprocess {
    pub stage: PostprocessStage,
    pub index: usize,
    pub total: usize,
}

impl Postprocess {
    pub open spec fn well_formed(self) -> bool {
        self.stage matches PostprocessStage::Run(run) ==> run.well_formed() && self.index
            < self.total
    }

    pub open spec fn at(self, stage: PostprocessStage) -> Postprocess {
        Postprocess { stage, ..self }
    }

    /// The state behind an event.
    pub open spec fn after(self, event: SubprocessEvent) -> Postprocess {
        match self.stage {
            PostprocessStage::Run(run) => {
                let next = run.after(event);
                match next.step {
                    SubprocessStep::Over(SubprocessEnd::Finished) => if self.index + 1
                        < self.total {
                        Postprocess {
                            stage: PostprocessStage::Run(subprocess::subprocess_start(false)),
                            index: (self.index + 1) as usize,
                            ..self
                        }
                    } else {
                        self.at(PostprocessStage::Over(PostprocessEnd::Finished))
                    },
                    SubprocessStep::Over(end) => self.at(
                        PostprocessStage::Over(PostprocessEnd::StepFailed(self.index, end)),
                    ),
                    _ => self.at(PostprocessStage::Run(next)),
                }
            },
            PostprocessStage::Over(_) => self,
        }
    }

    /// A rule before its first step.
    pub fn start(total: usize) -> (rule: Postprocess)
        ensures
            rule == postprocess_start(total),
            rule.well_formed(),
    {
        let stage = if total == 0 {
            PostprocessStage::Over(PostprocessEnd::Finished)
        } else {
            PostprocessStage::Run(Subprocess::start(false))
        };
        Postprocess { stage, index: 0, total }
    }

    /// The state behind an event.
    pub fn advance(self, event: SubprocessEvent) -> (next: Postprocess)
        requires
            self.well_formed(),
        ensures
            next == self.after(event),
            next.well_formed(),
    {
        match self.stage {
            PostprocessStage::Run(run) => {
                let next = run.advance(event);
                match next.step {
                    SubprocessStep::Over(SubprocessEnd::Finished) => {
                        if self.index + 1 < self.total {
                            Postprocess {
                                stage: PostprocessStage::Run(Subprocess::start(false)),
                                index: self.index + 1,
                                total: self.total,
                            }
                        } else {
                            Postprocess {
                                stage: PostprocessStage::Over(PostprocessEnd::Finished),
                                index: self.index,
                                total: self.total,
                            }
                        }
                    },
                    SubprocessStep::Over(end) => Postprocess {
                        stage: PostprocessStage::Over(
                            PostprocessEnd::StepFailed(self.index, end),
                        ),
                        index: self.index,
                        total: self.total,
                    },
                    _ => Postprocess {
                        stage: PostprocessStage::Run(next),
                        index: self.index,
                        total: self.total,
                    },
                }
            },
            PostprocessStage::Over(_) => self,
        }
    }
}

/// A rule before its first step.
pub open spec fn postprocess_start(total: usize) -> Postprocess {
    Postprocess {
        stage: if total == 0 {
            PostprocessStage::Over(PostprocessEnd::Finished)
        } else {
            PostprocessStage::Run(subprocess::subprocess_start(false))
        },
        index: 0,
        total,
    }
}

/// A rule on its way, with how many of its steps succeeded.
pub struct PostprocessHistory {
    pub rule: Postprocess,
    pub succeeded: nat,
}

/// The history of a rule after a number of events.
pub open spec fn postprocess_history(total: usize, events: Seq<SubprocessEvent>) ->
    PostprocessHistory
    decreases events.len(),
{
    if events.len() == 0 {
        PostprocessHistory { rule: postprocess_start(total), succeeded: 0 }
    } else {
        let h = postprocess_history(total, events.drop_last());
        PostprocessHistory {
            rule: h.rule.after(events.last()),
            succeeded: match h.rule.stage {
                PostprocessStage::Run(run) => if run.after(events.last()).step
                    == SubprocessStep::Over(SubprocessEnd::Finished) {
                    h.succeeded + 1
                } else {
                    h.succeeded
                },
                PostprocessStage::Over(_) => h.succeeded,
            },
        }
    }
}

spec fn history_fits(h: PostprocessHistory, total: usize) -> bool {
    let rule = h.rule;
    &&& rule.well_formed()
    &&& rule.total == total
    &&& match rule.stage {
        PostprocessStage::Run(run) => h.succeeded == rule.index && !(run.step is Over),
        PostprocessStage::Over(PostprocessEnd::Finished) => h.succeeded == total,
        PostprocessStage::Over(PostprocessEnd::StepFailed(i, end)) => h.succeeded == i && i < total
            && !(end is Finished),
    }
}

proof fn lemma_history_fits(total: usize, events: Seq<SubprocessEvent>)
    ensures
        history_fits(postprocess_history(total, events), total),
    decreases events.len(),
{
    if events.len() > 0 {
        lemma_history_fits(total, events.drop_last());
    }
}

/// A rule is finished only when each of its steps has succeeded, and it stops at the
/// first step that fails.
pub proof fn finished_rules_ran_every_step(total: usize, events: Seq<SubprocessEvent>)
    ensures
        match postprocess_history(total, events).rule.stage {
            PostprocessStage::Over(PostprocessEnd::Finished) => postprocess_history(
                total,
                events,
            ).succeeded == total,
            PostprocessStage::Over(PostprocessEnd::StepFailed(i, _)) => postprocess_history(
                total,
                events,
            ).succeeded == i && i < total,
            PostprocessStage::Run(_) => postprocess_history(total, events).succeeded
                == postprocess_history(total, events).rule.index,
        },
{
    lemma_history_fits(total, events);
}

// ---------------------------------------------------------------------------
// Keeping to the plan
// ---------------------------------------------------------------------------

/// What the inspection of an output amounts to, from what stands in its place: an
/// output outside the work area is refused, whatever is there.
pub open spec fn inspection(
    output: Seq<char>,
    work_parent: Seq<char>,
    found: OutputProbe,
) -> OutputProbe {
    if paths::path_starts_with(output, work_parent) {
        found
    } else {
        OutputProbe::Outside
    }
}

/// Whether an output lies in the work area.
pub fn output_is_inside(output: &str, work_parent: &str) -> (inside: bool)
    ensures
        inside == paths::path_starts_with(output@, work_parent@),
{
    paths::starts_with(output, work_parent)
}

/// What the inspection of an output amounts to, from what stands in its place.
pub fn inspect_output(output: &str, work_parent: &str, found: OutputProbe) -> (probe: OutputProbe)
    ensures
        probe == inspection(output@, work_parent@, found),
{
    if output_is_inside(output, work_parent) {
        found
    } else {
        OutputProbe::Outside
    }
}

/// An event of a rule as its plan has it: a step owes the outputs of its plan, and
/// those must lie in the work area.
pub open spec fn planned_event(
    plan: PostprocessPlan,
    rule: Postprocess,
    event: SubprocessEvent,
) -> SubprocessEvent {
    let outputs = plan.steps@[rule.index as int].outputs;
    match (rule.stage, event) {
        (PostprocessStage::Run(_), SubprocessEvent::Resolved(Some(_))) => SubprocessEvent::Resolved(
            Some(outputs.len()),
        ),
        (PostprocessStage::Run(run), SubprocessEvent::Inspected(found)) => match run.step {
            SubprocessStep::Inspect(i) => SubprocessEvent::Inspected(
                inspection(outputs@[i as int]@, plan.work_parent@, found),
            ),
            _ => event,
        },
        _ => event,
    }
}

/// Whether a rule is on its way through a plan.
pub open spec fn keeps_to(rule: Postprocess, plan: PostprocessPlan) -> bool {
    &&& rule.well_formed()
    &&& rule.total == plan.steps@.len()
    &&& match rule.stage {
        PostprocessStage::Run(run) => match run.step {
            SubprocessStep::Over(_) => false,
            SubprocessStep::Inspect(_) => run.outputs
                == plan.steps@[rule.index as int].outputs@.len(),
            _ => true,
        },
        PostprocessStage::Over(PostprocessEnd::Finished) => true,
        PostprocessStage::Over(PostprocessEnd::StepFailed(k, end)) => k < plan.steps@.len() && (
        end matches SubprocessEnd::OutputRefused(i, _) ==> i
            < plan.steps@[k as int].outputs@.len()),
    }
}

impl Postprocess {
    /// A rule before the first step of its plan.
    pub fn begin(plan: &PostprocessPlan) -> (rule: Postprocess)
        ensures
            rule == postprocess_start(plan.steps.len()),
            keeps_to(rule, *plan),
    {
        Postprocess::start(plan.steps.len())
    }

    /// The state behind an event, as the plan has it.
    pub fn follow(self, plan: &PostprocessPlan, event: SubprocessEvent) -> (next: Postprocess)
        requires
            keeps_to(self, *plan),
        ensures
            next == self.after(planned_event(*plan, self, event)),
            keeps_to(next, *plan),
    {
        let planned = match (self.stage, event) {
            (PostprocessStage::Run(_), SubprocessEvent::Resolved(Some(_))) => {
                SubprocessEvent::Resolved(Some(plan.steps[self.index].outputs.len()))
            },
            (PostprocessStage::Run(run), SubprocessEvent::Inspected(found)) => match run.step {
                SubprocessStep::Inspect(i) => {
                    let output = plan.steps[self.index].outputs[i].as_str();
                    SubprocessEvent::Inspected(
                        inspect_output(output, plan.work_parent.as_str(), found),
                    )
                },
                _ => event,
            },
            _ => event,
        };
        self.advance(planned)
    }
}

/// The outputs that the steps of a rule owe, in their order.
pub open spec fn owed(steps: Seq<StepPlan>) -> Seq<Seq<char>>
    decreases steps.len(),
{
    if steps.len() == 0 {
        Seq::empty()
    } else {
        owed(steps.drop_last()) + text::texts(steps.last().outputs@)
    }
}

/// A rule on its way through its plan, with the outputs that were found in place and
/// accepted.
pub struct PlanHistory {
    pub rule: Postprocess,
    pub present: Seq<Seq<char>>,
}

/// What an event adds to the history.
pub open spec fn plan_observe(
    plan: PostprocessPlan,
    h: PlanHistory,
    event: SubprocessEvent,
) -> PlanHistory {
    let planned = planned_event(plan, h.rule, event);
    PlanHistory {
        rule: h.rule.after(planned),
        present: match (h.rule.stage, planned) {
            (PostprocessStage::Run(run), SubprocessEvent::Inspected(probe)) => match run.step {
                SubprocessStep::Inspect(i) => if subprocess::accepted(probe) {
                    h.present.push(plan.steps@[h.rule.index as int].outputs@[i as int]@)
                } else {
                    h.present
                },
                _ => h.present,
            },
            _ => h.present,
        },
    }
}

/// The history of a rule after a number of events.
pub open spec fn plan_history(plan: PostprocessPlan, events: Seq<SubprocessEvent>) -> PlanHistory
    decreases events.len(),
{
    if events.len() == 0 {
        PlanHistory {
            rule: postprocess_start(plan.steps.len()),
            present: Seq::empty(),
        }
    } else {
        plan_observe(plan, plan_history(plan, events.drop_last()), events.last())
    }
}

/// Whether all of a list of paths lie in the work area.
pub open spec fn all_inside(list: Seq<Seq<char>>, work_parent: Seq<char>) -> bool {
    forall|k: int|
        0 <= k < list.len() ==> paths::path_starts_with(#[trigger] list[k], work_parent)
}

spec fn plan_fits(h: PlanHistory, plan: PostprocessPlan) -> bool {
    let steps = plan.steps@;
    &&& keeps_to(h.rule, plan)
    &&& all_inside(h.present, plan.work_parent@)
    &&& match h.rule.stage {
        PostprocessStage::Run(run) => {
            let outputs = text::texts(steps[h.rule.index as int].outputs@);
            let done = owed(steps.take(h.rule.index as int));
            match run.step {
                SubprocessStep::Inspect(i) => h.present == done + outputs.take(i as int),
                _ => h.present == done,
            }
        },
        PostprocessStage::Over(PostprocessEnd::Finished) => h.present == owed(steps),
        PostprocessStage::Over(PostprocessEnd::StepFailed(_, _)) => true,
    }
}

proof fn lemma_owed_grows(steps: Seq<StepPlan>, k: int)
    requires
        0 <= k < steps.len(),
    ensures
        owed(steps.take(k + 1)) == owed(steps.take(k)) + text::texts(steps[k].outputs@),
{
    assert(steps.take(k + 1).drop_last() =~= steps.take(k));
    assert(steps.take(k + 1).last() == steps[k]);
}

proof fn lemma_plan_fits(plan: PostprocessPlan, events: Seq<SubprocessEvent>)
    ensures
        plan_fits(plan_history(plan, events), plan),
    decreases events.len(),
{
    let steps = plan.steps@;
    if events.len() == 0 {
        assert(steps.take(0) =~= Seq::<StepPlan>::empty());
        assert(owed(steps.take(0)) =~= Seq::<Seq<char>>::empty());
        if steps.len() == 0 {
            assert(steps =~= Seq::<StepPlan>::empty());
        }
    } else {
        lemma_plan_fits(plan, events.drop_last());
        let h = plan_history(plan, events.drop_last());
        let next = plan_history(plan, events);
        match h.rule.stage {
            PostprocessStage::Run(run) => {
                let k = h.rule.index as int;
                let outputs = text::texts(steps[k].outputs@);
                let done = owed(steps.take(k));
                lemma_owed_grows(steps, k);
                assert(steps.take(steps.len() as int) =~= steps);
                assert(outputs.take(outputs.len() as int) =~= outputs);
                assert(outputs.take(0) =~= Seq::<Seq<char>>::empty());
                assert(done + Seq::<Seq<char>>::empty() =~= done);
                match run.step {
                    SubprocessStep::Inspect(i) => {
                        assert((done + outputs.take(i as int)).push(outputs[i as int]) =~= done
                            + outputs.take(i + 1));
                        match planned_event(plan, h.rule, events.last()) {
                            SubprocessEvent::Inspected(probe) => {
                                if subprocess::accepted(probe) {
                                    assert(next.present == h.present.push(outputs[i as int]));
                                }
                            },
                            _ => {},
                        }
                    },
                    _ => {},
                }
            },
            PostprocessStage::Over(_) => {},
        }
    }
}

/// The report that belongs to a step of a rule.
pub fn postprocess_report(run: &Subprocess, name: &str, normalized_path: &str) -> (report: Option<
    ProgressUpdate,
>)
    ensures
        match run.step {
            SubprocessStep::ReportStarted => report matches Some(update)
                && transform::is_transform_report(
                update,
                "step_started"@,
                name@,
                0,
                0,
                normalized_path@,
            ),
            SubprocessStep::ReportRunning => report matches Some(update)
                && transform::is_transform_report(
                update,
                "step_running"@,
                name@,
                0,
                0,
                normalized_path@,
            ),
            SubprocessStep::ReportFinished => report matches Some(update)
                && transform::is_transform_report(
                update,
                "step_finished"@,
                name@,
                0,
                0,
                normalized_path@,
            ),
            _ => report is None,
        },
{
    match run.step {
        SubprocessStep::ReportStarted => Some(
            ProgressUpdate::new("step_started", 0, 0, normalized_path, name),
        ),
        SubprocessStep::ReportRunning => Some(
            ProgressUpdate::new("step_running", 0, 0, normalized_path, name),
        ),
        SubprocessStep::ReportFinished => Some(
            ProgressUpdate::new("step_finished", 0, 0, normalized_path, name),
        ),
        _ => None,
    }
}

/// What the steps of a rule leave: for each the entry itself, where it is kept, and
/// then its outputs.
pub open spec fn collected(steps: Seq<StepPlan>, work_path: Seq<char>) -> Seq<Seq<char>>
    decreases steps.len(),
{
    if steps.len() == 0 {
        Seq::empty()
    } else {
        let before = collected(steps.drop_last(), work_path);
        let step = steps.last();
        if step.keep_original {
            before.push(work_path) + text::texts(step.outputs@)
        } else {
            before + text::texts(step.outputs@)
        }
    }
}

/// The exit code and the system's words for what ended a step.
#[derive(Debug)]
pub struct StepDetails {
    pub code: Option<i32>,
    pub detail: String,
}

/// Why a step failed.
pub open spec fn step_failure(
    step: StepPlan,
    end: SubprocessEnd,
    work_parent: Seq<char>,
    details: StepDetails,
) -> Seq<char> {
    match end {
        SubprocessEnd::SpawnFailed => "failed to spawn "@ + step.name@ + ": "@ + details.detail@,
        SubprocessEnd::WaitFailed => "failed to wait for "@ + step.name@ + ": "@ + details.detail@,
        SubprocessEnd::ProgramFailed => step.name@ + " failed with exit code "@
            + subprocess::exit_code_text(details.code),
        SubprocessEnd::OutputRefused(i, probe) => subprocess::output_text(
            probe,
            step.outputs@[i as int]@,
            work_parent,
            details.detail@,
        ),
        _ => step.name@ + ": "@ + details.detail@,
    }
}

fn step_failure_message(
    step: &StepPlan,
    end: SubprocessEnd,
    work_parent: &str,
    details: &StepDetails,
) -> (m: String)
    requires
        end matches SubprocessEnd::OutputRefused(i, _) ==> i < step.outputs.len(),
    ensures
        m@ == step_failure(*step, end, work_parent@, *details),
{
    let name = step.name.as_str();
    let detail = details.detail.as_str();
    match end {
        SubprocessEnd::SpawnFailed => subprocess::spawn_message(name, detail),
        SubprocessEnd::WaitFailed => subprocess::wait_message(name, detail),
        SubprocessEnd::ProgramFailed => {
            let code = subprocess::describe_exit_code(details.code);
            text::cat3(name, " failed with exit code ", code.as_str())
        },
        SubprocessEnd::OutputRefused(i, probe) => subprocess::output_message(
            probe,
            step.outputs[i].as_str(),
            work_parent,
            detail,
        ),
        _ => text::cat3(name, ": ", detail),
    }
}

/// The first of a list of paths that lies outside the work area, if one does.
pub open spec fn first_outside(list: Seq<Seq<char>>, work_parent: Seq<char>) -> Option<Seq<char>>
    decreases list.len(),
{
    if list.len() == 0 {
        None
    } else {
        match first_outside(list.drop_last(), work_parent) {
            Some(output) => Some(output),
            None => if paths::path_starts_with(list.last(), work_parent) {
                None
            } else {
                Some(list.last())
            },
        }
    }
}

proof fn lemma_first_outside(list: Seq<Seq<char>>, work_parent: Seq<char>)
    ensures
        first_outside(list, work_parent) is None <==> all_inside(list, work_parent),
    decreases list.len(),
{
    if list.len() > 0 {
        let shorter = list.drop_last();
        lemma_first_outside(shorter, work_parent);
        assert forall|k: int|
            all_inside(shorter, work_parent) && paths::path_starts_with(list.last(), work_parent)
                && 0 <= k < list.len() implies paths::path_starts_with(
            #[trigger] list[k],
            work_parent,
        ) by {
            if k < shorter.len() {
                assert(shorter[k] == list[k]);
            }
        }
        assert forall|k: int|
            all_inside(list, work_parent) && 0 <= k
                < shorter.len() implies paths::path_starts_with(#[trigger] shorter[k], work_parent) by {
            assert(shorter[k] == list[k]);
        }
    }
}

proof fn lemma_first_outside_of_longer(
    list: Seq<Seq<char>>,
    more: Seq<Seq<char>>,
    work_parent: Seq<char>,
)
    requires
        first_outside(list, work_parent) is Some,
    ensures
        first_outside(list + more, work_parent) == first_outside(list, work_parent),
    decreases more.len(),
{
    if more.len() == 0 {
        assert(list + more =~= list);
    } else {
        lemma_first_outside_of_longer(list, more.drop_last(), work_parent);
        assert((list + more).drop_last() =~= list + more.drop_last());
    }
}

proof fn lemma_owed_continues(steps: Seq<StepPlan>, k: int)
    requires
        0 <= k <= steps.len(),
    ensures
        owed(steps.take(k)).is_prefix_of(owed(steps)),
    decreases steps.len() - k,
{
    if k == steps.len() {
        assert(steps.take(k) =~= steps);
    } else {
        lemma_owed_grows(steps, k);
        lemma_owed_continues(steps, k + 1);
    }
}

/// The first output of a plan that lies outside the work area, if one does.
fn find_outside(plan: &PostprocessPlan) -> (found: Option<String>)
    ensures
        text::opt_text(found) == first_outside(owed(plan.steps@), plan.work_parent@),
{
    let parent = plan.work_parent.as_str();
    let mut i: usize = 0;
    assert(plan.steps@.take(0) =~= Seq::<StepPlan>::empty());
    while i < plan.steps.len()
        invariant
            i <= plan.steps.len(),
            parent@ == plan.work_parent@,
            first_outside(owed(plan.steps@.take(i as int)), parent@) is None,
        decreases plan.steps.len() - i,
    {
        let outputs = &plan.steps[i].outputs;
        let ghost done = owed(plan.steps@.take(i as int));
        let ghost own = text::texts(outputs@);
        proof {
            lemma_owed_grows(plan.steps@, i as int);
            assert(done + own.take(0) =~= done);
        }
        let mut k: usize = 0;
        while k < outputs.len()
            invariant
                i < plan.steps.len(),
                k <= outputs.len(),
                parent@ == plan.work_parent@,
                own == text::texts(outputs@),
                *outputs == plan.steps@[i as int].outputs,
                done == owed(plan.steps@.take(i as int)),
                first_outside(done + own.take(k as int), parent@) is None,
            decreases outputs.len() - k,
        {
            let output = outputs[k].as_str();
            proof {
                assert((done + own.take(k + 1)).drop_last() =~= done + own.take(k as int));
                assert((done + own.take(k + 1)).last() == output@);
            }
            if !output_is_inside(output, parent) {
                proof {
                    let all = owed(plan.steps@);
                    let seen = done + own.take(k + 1);
                    lemma_owed_grows(plan.steps@, i as int);
                    lemma_owed_continues(plan.steps@, i + 1);
                    let head = owed(plan.steps@.take(i + 1));
                    assert(head == done + own);
                    assert(head =~= all.subrange(0, head.len() as int));
                    assert forall|j: int| 0 <= j < seen.len() implies seen[j] == all[j] by {
                        assert(seen[j] == head[j]);
                        assert(head[j] == all.subrange(0, head.len() as int)[j]);
                    }
                    assert(all =~= seen + all.skip(seen.len() as int));
                    lemma_first_outside_of_longer(seen, all.skip(seen.len() as int), parent@);
                }
                return Some(output.to_owned());
            }
            k = k + 1;
        }
        assert(own.take(k as int) =~= own);
        i = i + 1;
    }
    assert(plan.steps@.take(i as int) =~= plan.steps@);
    None
}

/// The result of postprocessing: what the steps leave, each path once, or why it
/// failed. A rule that leaves nothing has failed, and so has one that leaves something
/// outside the work area.
pub fn postprocess_result(
    plan: &PostprocessPlan,
    work_path: &str,
    end: PostprocessEnd,
    details: &StepDetails,
) -> (r: Result<Vec<String>, String>)
    requires
        end matches PostprocessEnd::StepFailed(k, stopped) ==> k < plan.steps.len() && (
        stopped matches SubprocessEnd::OutputRefused(i, _) ==> i
            < plan.steps@[k as int].outputs.len()),
    ensures
        match end {
            PostprocessEnd::StepFailed(k, stopped) => r matches Err(e) && e@ == step_failure(
                plan.steps@[k as int],
                stopped,
                plan.work_parent@,
                *details,
            ),
            PostprocessEnd::Finished => match first_outside(
                owed(plan.steps@),
                plan.work_parent@,
            ) {
                Some(output) => r matches Err(e) && e@ == subprocess::output_text(
                    OutputProbe::Outside,
                    output,
                    plan.work_parent@,
                    details.detail@,
                ),
                None => {
                    let left = subprocess::keep_first(collected(plan.steps@, work_path@));
                    if left.len() == 0 {
                        r matches Err(e) && e@
                            == "postprocessing produced zero outputs, but at least one is required"@
                    } else {
                        r matches Ok(list) && text::texts(list@) == left
                    }
                },
            },
        },
{
    match end {
        PostprocessEnd::StepFailed(k, stopped) => Err(
            step_failure_message(&plan.steps[k], stopped, plan.work_parent.as_str(), details),
        ),
        PostprocessEnd::Finished => {
            let outside = find_outside(plan);
            if let Some(output) = outside {
                return Err(
                    subprocess::output_message(
                        OutputProbe::Outside,
                        output.as_str(),
                        plan.work_parent.as_str(),
                        details.detail.as_str(),
                    ),
                );
            }
            let mut all: Vec<String> = Vec::new();
            let mut i: usize = 0;
            assert(plan.steps@.take(0) =~= Seq::<StepPlan>::empty());
            assert(text::texts(all@) =~= Seq::<Seq<char>>::empty());
            while i < plan.steps.len()
                invariant
                    i <= plan.steps.len(),
                    text::texts(all@) == collected(plan.steps@.take(i as int), work_path@),
                decreases plan.steps.len() - i,
            {
                let step = &plan.steps[i];
                proof {
                    assert(plan.steps@.take(i + 1).drop_last() =~= plan.steps@.take(i as int));
                    assert(plan.steps@.take(i + 1).last() == *step);
                }
                let ghost before = text::texts(all@);
                let ghost held = all@;
                if step.keep_original {
                    all.push(work_path.to_owned());
                    assert(text::texts(all@) =~= text::texts(held).push(work_path@));
                }
                let ghost kept = all@;
                let mut outputs = text::copy_list(&step.outputs);
                all.append(&mut outputs);
                assert(text::texts(all@) =~= text::texts(kept) + text::texts(step.outputs@));
                i = i + 1;
            }
            assert(plan.steps@.take(i as int) =~= plan.steps@);
            let unique = subprocess::drop_repetitions(&all);
            assert(unique@.len() == text::texts(unique@).len());
            if unique.len() == 0 {
                Err("postprocessing produced zero outputs, but at least one is required".to_owned())
            } else {
                Ok(unique)
            }
        },
    }
}

// ---------------------------------------------------------------------------
// Laws of postprocessing
// ---------------------------------------------------------------------------

/// A rule that followed its plan to the end found every output that its steps owe, in
/// their order, and all of them in the work area.
pub proof fn finished_rules_left_their_outputs_inside(
    plan: PostprocessPlan,
    events: Seq<SubprocessEvent>,
)
    requires
        plan_history(plan, events).rule.stage == PostprocessStage::Over(PostprocessEnd::Finished),
    ensures
        plan_history(plan, events).present == owed(plan.steps@),
        all_inside(owed(plan.steps@), plan.work_parent@),
{
    lemma_plan_fits(plan, events);
}

/// A rule that followed its plan never failed at a step or an output that the plan does
/// not have, so its result can always be told.
pub proof fn followed_plans_have_a_result(plan: PostprocessPlan, events: Seq<SubprocessEvent>)
    ensures
        keeps_to(plan_history(plan, events).rule, plan),
{
    lemma_plan_fits(plan, events);
}

proof fn lemma_collected_is_owed(steps: Seq<StepPlan>, work_path: Seq<char>, x: Seq<char>)
    requires
        collected(steps, work_path).contains(x),
    ensures
        x == work_path || owed(steps).contains(x),
    decreases steps.len(),
{
    let all = collected(steps, work_path);
    let before = collected(steps.drop_last(), work_path);
    let own = text::texts(steps.last().outputs@);
    let earlier = owed(steps.drop_last());
    let i = choose|i: int| 0 <= i < all.len() && all[i] == x;
    let kept: int = if steps.last().keep_original {
        (before.len() + 1) as int
    } else {
        before.len() as int
    };
    if i < before.len() {
        assert(before[i] == x);
        lemma_collected_is_owed(steps.drop_last(), work_path, x);
        if earlier.contains(x) {
            let j = choose|j: int| 0 <= j < earlier.len() && earlier[j] == x;
            assert(owed(steps)[j] == x);
        }
    } else if i >= kept {
        assert(own[i - kept] == x);
        assert(owed(steps)[earlier.len() + (i - kept)] == x);
    }
}

/// What postprocessing hands on holds no path twice, and each is the entry itself or an
/// output that a step owes, found in place and in the work area.
pub proof fn results_are_the_entry_or_outputs_inside(
    plan: PostprocessPlan,
    work_path: Seq<char>,
    events: Seq<SubprocessEvent>,
    x: Seq<char>,
)
    requires
        plan_history(plan, events).rule.stage == PostprocessStage::Over(PostprocessEnd::Finished),
        subprocess::keep_first(collected(plan.steps@, work_path)).contains(x),
    ensures
        subprocess::keep_first(collected(plan.steps@, work_path)).no_duplicates(),
        first_outside(owed(plan.steps@), plan.work_parent@) is None,
        x == work_path || (plan_history(plan, events).present.contains(x)
            && paths::path_starts_with(x, plan.work_parent@)),
{
    let all = collected(plan.steps@, work_path);
    subprocess::repetitions_are_dropped_and_nothing_else(all);
    lemma_collected_is_owed(plan.steps@, work_path, x);
    lemma_plan_fits(plan, events);
    lemma_first_outside(owed(plan.steps@), plan.work_parent@);
}

/// The result of a rule with an output outside the work area is always a failure: what
/// it hands on holds only the entry itself and outputs inside.
pub proof fn results_stay_inside(plan: PostprocessPlan, work_path: Seq<char>, x: Seq<char>)
    requires
        first_outside(owed(plan.steps@), plan.work_parent@) is None,
        subprocess::keep_first(collected(plan.steps@, work_path)).contains(x),
    ensures
        x == work_path || paths::path_starts_with(x, plan.work_parent@),
{
    subprocess::repetitions_are_dropped_and_nothing_else(collected(plan.steps@, work_path));
    lemma_collected_is_owed(plan.steps@, work_path, x);
    lemma_first_outside(owed(plan.steps@), plan.work_parent@);
}

/// An output is judged by what stands in its place if and only if it lies in the work area;
/// one that lies outside is never accepted.
pub proof fn outputs_outside_are_refused(
    output: Seq<char>,
    work_parent: Seq<char>,
    found: OutputProbe,
)
    ensures
        paths::path_starts_with(output, work_parent) ==> inspection(output, work_parent, found)
            == found,
        !paths::path_starts_with(output, work_parent) ==> inspection(output, work_parent, found)
            is Outside,
        subprocess::accepted(inspection(output, work_parent, found)) ==> paths::path_starts_with(
            output,
            work_parent,
        ),
{
}

/// A rule on its way, with the events of each step that is over and those of the step whose
/// turn it is.
pub struct RuleRecord {
    pub rule: Postprocess,
    pub over: Seq<Seq<SubprocessEvent>>,
    pub current: Seq<SubprocessEvent>,
}

/// The record of a rule after a number of events.
pub open spec fn rule_record(total: usize, events: Seq<SubprocessEvent>) -> RuleRecord
    decreases events.len(),
{
    if events.len() == 0 {
        RuleRecord {
            rule: postprocess_start(total),
            over: Seq::empty(),
            current: Seq::empty(),
        }
    } else {
        let r = rule_record(total, events.drop_last());
        let rule = r.rule.after(events.last());
        let longer = r.current.push(events.last());
        if r.rule.stage is Over {
            RuleRecord { rule, ..r }
        } else if subprocess::subprocess_record(false, longer).run.step == SubprocessStep::Over(
            SubprocessEnd::Finished,
        ) {
            RuleRecord { rule, over: r.over.push(longer), current: Seq::empty() }
        } else {
            RuleRecord { rule, over: r.over, current: longer }
        }
    }
}

spec fn steps_finished(over: Seq<Seq<SubprocessEvent>>) -> bool {
    forall|k: int|
        0 <= k < over.len() ==> subprocess::subprocess_record(
            false,
            #[trigger] over[k],
        ).run.step == SubprocessStep::Over(SubprocessEnd::Finished)
}

spec fn rule_record_fits(r: RuleRecord, total: usize) -> bool {
    let run = subprocess::subprocess_record(false, r.current).run;
    &&& r.rule.total == total
    &&& steps_finished(r.over)
    &&& match r.rule.stage {
        PostprocessStage::Run(current) => current == run && r.rule.index == r.over.len()
            && r.rule.index < total && !(run.step is Over),
        PostprocessStage::Over(PostprocessEnd::Finished) => r.over.len() == total,
        PostprocessStage::Over(PostprocessEnd::StepFailed(i, end)) => i == r.over.len() && i < total
            && run.step == SubprocessStep::Over(end) && !(end is Finished),
    }
}

proof fn lemma_rule_record_fits(total: usize, events: Seq<SubprocessEvent>)
    ensures
        rule_record_fits(rule_record(total, events), total),
    decreases events.len(),
{
    if events.len() > 0 {
        let before = rule_record(total, events.drop_last());
        let after = rule_record(total, events);
        let longer = before.current.push(events.last());
        lemma_rule_record_fits(total, events.drop_last());
        assert(longer.drop_last() =~= before.current);
        assert(subprocess::subprocess_record(false, longer).run == subprocess::subprocess_record(
            false,
            before.current,
        ).run.after(events.last()));
        assert(after.over.len() > before.over.len() ==> after.over == before.over.push(longer));
    }
}

/// A rule is finished if and only if each of its steps, one after the other, was started,
/// ended with success and left every output that it owes; it stops at the first step that
/// does not, and tells which and how.
pub proof fn rules_run_their_steps_one_by_one(total: usize, events: Seq<SubprocessEvent>)
    ensures
        ({
            let r = rule_record(total, events);
            let last = subprocess::subprocess_record(false, r.current);
            &&& forall|k: int|
                0 <= k < r.over.len() ==> {
                    let step = subprocess::subprocess_record(false, #[trigger] r.over[k]);
                    &&& step.spawned == Some(true)
                    &&& step.polls.len() > 0 && step.polls.last()
                        == subprocess::PollReply::Exited(true)
                    &&& step.resolved == Some(Some(step.run.outputs))
                    &&& step.inspected.len() == step.run.outputs
                    &&& forall|i: int|
                        0 <= i < step.inspected.len() ==> (
                        #[trigger] step.inspected[i] matches OutputProbe::Present(kind) && !(
                        kind is Other))
                }
            &&& r.rule.stage == PostprocessStage::Over(PostprocessEnd::Finished) <==> r.over.len()
                == total
            &&& r.rule.stage matches PostprocessStage::Over(PostprocessEnd::StepFailed(i, end))
                ==> i == r.over.len() && last.run.step == SubprocessStep::Over(end) && !(
            end is Finished)
            &&& r.rule.stage matches PostprocessStage::Run(run) ==> r.rule.index == r.over.len()
                && run == last.run
        }),
{
    lemma_rule_record_fits(total, events);
    let r = rule_record(total, events);
    assert forall|k: int| 0 <= k < r.over.len() implies {
        let step = subprocess::subprocess_record(false, #[trigger] r.over[k]);
        &&& step.spawned == Some(true)
        &&& step.polls.len() > 0 && step.polls.last() == subprocess::PollReply::Exited(true)
        &&& step.resolved == Some(Some(step.run.outputs))
        &&& step.inspected.len() == step.run.outputs
        &&& forall|i: int|
            0 <= i < step.inspected.len() ==> (
            #[trigger] step.inspected[i] matches OutputProbe::Present(kind) && !(kind is Other))
    } by {
        subprocess::ends_tell_what_happened(false, r.over[k]);
        subprocess::started_programs_were_spawned(false, r.over[k]);
    }
}

/// What the steps of a rule leave is what each leaves, one after the other: the entry
/// itself where the step keeps it, and then the outputs of the step in order. What they owe
/// is the outputs alone.
pub proof fn steps_leave_their_outputs_in_order(
    before: Seq<StepPlan>,
    step: StepPlan,
    work_path: Seq<char>,
)
    ensures
        collected(Seq::empty(), work_path) == Seq::<Seq<char>>::empty(),
        owed(Seq::empty()) == Seq::<Seq<char>>::empty(),
        collected(before + seq![step], work_path) == collected(before, work_path) + (if
        step.keep_original {
            seq![work_path]
        } else {
            Seq::empty()
        }) + text::texts(step.outputs@),
        owed(before + seq![step]) == owed(before) + text::texts(step.outputs@),
{
    let all = before + seq![step];
    assert(all.drop_last() =~= before);
    assert(all.last() == step);
    assert(collected(all, work_path) =~= collected(before, work_path) + (if step.keep_original {
        seq![work_path]
    } else {
        Seq::empty()
    }) + text::texts(step.outputs@));
}

/// The output that is told to lie outside the work area is the first that does.
pub proof fn the_first_output_outside_is_told(list: Seq<Seq<char>>, work_parent: Seq<char>)
    ensures
        match first_outside(list, work_parent) {
            None => forall|k: int|
                0 <= k < list.len() ==> paths::path_starts_with(#[trigger] list[k], work_parent),
            Some(output) => exists|k: int|
                {
                    &&& 0 <= k < list.len()
                    &&& #[trigger] list[k] == output
                    &&& !paths::path_starts_with(output, work_parent)
                    &&& forall|j: int|
                        0 <= j < k ==> paths::path_starts_with(#[trigger] list[j], work_parent)
                },
        },
    decreases list.len(),
{
    if list.len() > 0 {
        let shorter = list.drop_last();
        the_first_output_outside_is_told(shorter, work_parent);
        assert forall|j: int| 0 <= j < shorter.len() implies shorter[j] == #[trigger] list[j] by {}
        match first_outside(shorter, work_parent) {
            Some(output) => {
                let k = choose|k: int|
                    {
                        &&& 0 <= k < shorter.len()
                        &&& #[trigger] shorter[k] == output
                        &&& !paths::path_starts_with(output, work_parent)
                        &&& forall|j: int|
                            0 <= j < k ==> paths::path_starts_with(
                                #[trigger] shorter[j],
                                work_parent,
                            )
                    };
                assert(list[k] == output);
                assert forall|j: int| 0 <= j < k implies paths::path_starts_with(
                    #[trigger] list[j],
                    work_parent,
                ) by {
                    assert(paths::path_starts_with(shorter[j], work_parent));
                }
            },
            None => {
                assert forall|j: int| 0 <= j < shorter.len() implies paths::path_starts_with(
                    #[trigger] list[j],
                    work_parent,
                ) by {
                    assert(paths::path_starts_with(shorter[j], work_parent));
                }
                assert(list[list.len() - 1] == list.last());
            },
        }
    }
}

/// A plan has the steps of its rule in order, each with the program, one argument for each
/// template and one output for each template, the placeholders replaced: the entry, its
/// file name, the stem of that name and, as the target directory, the directory of the
/// entry, in which the outputs belong.
pub proof fn plans_follow_their_rule(
    plan: PostprocessPlan,
    steps: Seq<PostprocessStep>,
    work_path: Seq<char>,
    file_name: Seq<char>,
    work_parent: Seq<char>,
    heartbeat_secs: u64,
    k: int,
    b: transform::BindingsView,
)
    requires
        is_postprocess_plan(plan, steps, work_path, file_name, work_parent, heartbeat_secs),
        0 <= k < steps.len(),
        b.input == work_path,
        b.file_name == file_name,
        b.stem == transform::stem_of(file_name),
        b.target_directory == work_parent,
    ensures
        plan.work_parent@ == work_parent,
        plan.heartbeat_secs == heartbeat_secs,
        plan.steps@.len() == steps.len(),
        plan.steps@[k].name@ == steps[k].name@,
        plan.steps@[k].program@ == steps[k].program@,
        plan.steps@[k].keep_original == steps[k].keep_original,
        plan.steps@[k].args@.len() == steps[k].args@.len(),
        plan.steps@[k].outputs@.len() == steps[k].expected_outputs@.len(),
        forall|i: int|
            0 <= i < steps[k].args@.len() ==> (#[trigger] plan.steps@[k].args@[i])@
                == transform::expand(steps[k].args@[i]@, b),
        forall|i: int|
            0 <= i < steps[k].expected_outputs@.len() ==> (#[trigger] plan.steps@[k].outputs@[i])@
                == paths::path_join(
                work_parent,
                transform::expand(steps[k].expected_outputs@[i]@, b),
            ),
{
    let step = plan.steps@[k];
    assert(is_step_plan(step, steps[k], work_path, file_name, work_parent));
    assert(b == transform::bindings_of(work_path, file_name, work_parent));
    assert(text::texts(step.args@).len() == step.args@.len());
    assert(text::texts(step.outputs@).len() == step.outputs@.len());
    assert forall|i: int| 0 <= i < steps[k].args@.len() implies (
    #[trigger] plan.steps@[k].args@[i])@ == transform::expand(steps[k].args@[i]@, b) by {
        assert(text::texts(step.args@)[i] == step.args@[i]@);
    }
    assert forall|i: int| 0 <= i < steps[k].expected_outputs@.len() implies (
    #[trigger] plan.steps@[k].outputs@[i])@ == paths::path_join(
        work_parent,
        transform::expand(steps[k].expected_outputs@[i]@, b),
    ) by {
        assert(text::texts(step.outputs@)[i] == step.outputs@[i]@);
    }
}

/// Postprocessing begins if and only if a rule was selected and the entry lies in a
/// directory.
pub proof fn selected_rules_begin(
    rule: Option<Vec<PostprocessStep>>,
    work_parent: Option<Seq<char>>,
)
    ensures
        postprocess_refusal(rule, work_parent) is None <==> rule is Some && work_parent is Some,
{
}

} // verus!
