//! What holds of a run across requests: its lease, its way through the phases, and the
//! documents that one part of the server writes and another reads.

use vstd::prelude::*;

use crate::failure;
use crate::gc;
use crate::gc::RunListing;
use crate::model::{
    GCConfig, LeaseFile, Lookup, Manifest, RunConfig, RunPhase, RunState, RunStatus, ServerConfig,
};
use crate::paths;
use crate::phases;
use crate::phases::{FinishDecision, PhasePresence};
use crate::process;
use crate::recover;
use crate::server;
use crate::target;
use crate::version;

verus! {

// ---------------------------------------------------------------------------
// Leases
// ---------------------------------------------------------------------------

/// A lease file that holds a given lease.
pub open spec fn holds_lease(found: Lookup<LeaseFile>, lease: LeaseFile) -> bool {
    found matches Lookup::Found(document) && document.version@ == version::ProbeView::Version(
        lease.purgery_version@,
    ) && document.parsed == Ok::<LeaseFile, String>(lease)
}

/// A run that has begun can be finished for as long as its lease runs.
pub proof fn fresh_leases_allow_finishing(
    work_dir: Seq<char>,
    nickname: Seq<char>,
    run_id: Seq<char>,
    lease_secs: u64,
    begun_at: u64,
    lease: LeaseFile,
    found: Lookup<LeaseFile>,
    present: PhasePresence,
    now: u64,
)
    requires
        phases::is_fresh_lease(lease, nickname, run_id, lease_secs, begun_at),
        holds_lease(found, lease),
        present.incoming,
        present.later() is None,
    ensures
        phases::finish_outcome(work_dir, nickname, run_id, present, found, false, now) is Ok <==> now
            < begun_at + lease_secs,
{
    version::own_version_is_compatible();
}

/// A lease that was accepted once is accepted again after a renewal.
pub proof fn renewals_are_accepted(
    nickname: Seq<char>,
    run_id: Seq<char>,
    action: Seq<char>,
    lease_path: Seq<char>,
    lease: LeaseFile,
    found: Lookup<LeaseFile>,
    renewed: LeaseFile,
    found_again: Lookup<LeaseFile>,
    lease_secs: u64,
    now: u64,
)
    requires
        holds_lease(found, lease),
        phases::lease_refusal(found, action, nickname, run_id, lease_path) is None,
        phases::is_renewal(renewed, lease, lease_secs, now),
        holds_lease(found_again, renewed),
    ensures
        phases::lease_refusal(found_again, action, nickname, run_id, lease_path) is None,
{
}

/// With intervals that pass the server's check, a client that sends its heartbeats in
/// time always finds its lease alive, with at least another interval to spare.
pub proof fn timely_heartbeats_keep_the_lease(
    lease_secs: u64,
    heartbeat_secs: u64,
    lease: LeaseFile,
    renewed: LeaseFile,
    renewed_at: u64,
    now: u64,
)
    requires
        server::interval_error(lease_secs, heartbeat_secs) is None,
        phases::is_renewal(renewed, lease, lease_secs, renewed_at),
        now <= renewed_at + heartbeat_secs,
    ensures
        now + heartbeat_secs <= renewed.expires_at_unix_secs,
        now < renewed.expires_at_unix_secs,
{
}

/// Finishing, renewing and collecting trust the same leases.
pub proof fn one_notion_of_a_valid_lease(
    found: Lookup<LeaseFile>,
    action: Seq<char>,
    nickname: Seq<char>,
    run_id: Seq<char>,
    lease_path: Seq<char>,
)
    ensures
        phases::lease_refusal(found, action, nickname, run_id, lease_path) is None
            <==> gc::lease_distrust(found, nickname, run_id) is None,
{
}

/// An upload that can still be finished is not collected.
pub proof fn unfinished_uploads_are_not_collected(
    gc_config: GCConfig,
    work_dir: Seq<char>,
    nickname: Seq<char>,
    run_id: Seq<char>,
    present: PhasePresence,
    run: RunListing,
    ready_appeared: bool,
    now: u64,
)
    requires
        phases::finish_outcome(
            work_dir,
            nickname,
            run_id,
            present,
            run.lease,
            ready_appeared,
            now,
        ) == Ok::<FinishDecision, failure::FailureView>(FinishDecision::MoveToReady),
    ensures
        gc::run_verdict(gc_config, nickname, run_id, RunPhase::Incoming, run, now) is Ok,
        gc::run_verdict(
            gc_config,
            nickname,
            run_id,
            RunPhase::Incoming,
            run,
            now,
        )->Ok_0.action is Retain,
{
    one_notion_of_a_valid_lease(
        run.lease,
        "finish"@,
        nickname,
        run_id,
        paths::path_join(
            paths::run_dir_path(work_dir, nickname, run_id, RunPhase::Incoming),
            "lease.toml"@,
        ),
    );
}

/// An upload that is given up as abandoned can no longer be finished, at that moment or
/// later.
pub proof fn abandoned_uploads_cannot_finish(
    gc_config: GCConfig,
    work_dir: Seq<char>,
    nickname: Seq<char>,
    run_id: Seq<char>,
    present: PhasePresence,
    run: RunListing,
    ready_appeared: bool,
    collected_at: u64,
    now: u64,
)
    requires
        gc::run_verdict(gc_config, nickname, run_id, RunPhase::Incoming, run, collected_at) is Ok,
        gc::run_verdict(
            gc_config,
            nickname,
            run_id,
            RunPhase::Incoming,
            run,
            collected_at,
        )->Ok_0.action is FailAbandoned,
        collected_at <= now,
    ensures
        phases::finish_outcome(
            work_dir,
            nickname,
            run_id,
            present,
            run.lease,
            ready_appeared,
            now,
        ) != Ok::<FinishDecision, failure::FailureView>(FinishDecision::MoveToReady),
{
    one_notion_of_a_valid_lease(
        run.lease,
        "finish"@,
        nickname,
        run_id,
        paths::path_join(
            paths::run_dir_path(work_dir, nickname, run_id, RunPhase::Incoming),
            "lease.toml"@,
        ),
    );
}

/// Finishing a run twice is finishing it once: wherever an accepted run has got to, the
/// request is answered with success, whatever became of its lease.
pub proof fn finishing_is_idempotent(
    work_dir: Seq<char>,
    nickname: Seq<char>,
    run_id: Seq<char>,
    present: PhasePresence,
    found: Lookup<LeaseFile>,
    ready_appeared: bool,
    now: u64,
)
    requires
        present.later() is Some,
    ensures
        phases::finish_outcome(work_dir, nickname, run_id, present, found, ready_appeared, now)
            == Ok::<FinishDecision, failure::FailureView>(
            FinishDecision::AlreadyAccepted(present.later()->Some_0),
        ),
{
}

// ---------------------------------------------------------------------------
// The way through the phases
// ---------------------------------------------------------------------------

/// What the server does to a run as a whole.
#[derive(Debug)]
pub enum Passage {
    /// An upload begins.
    Begin,
    /// An upload is accepted.
    Finish,
    /// A ready run is taken for processing.
    Claim,
    /// A ready run that makes no sense is failed.
    Reject,
    /// A processed run comes to rest.
    Settle(RunState),
    /// An upload whose client is gone is failed.
    Abandon,
    /// A run whose time is over is deleted.
    Discard(RunPhase),
}

/// A run that is nowhere.
pub open spec fn nowhere() -> PhasePresence {
    PhasePresence { incoming: false, ready: false, processing: false, done: false, failed: false }
}

/// A run with a directory in a phase or not.
pub open spec fn with_phase(present: PhasePresence, phase: RunPhase, there: bool) -> PhasePresence {
    match phase {
        RunPhase::Incoming => PhasePresence { incoming: there, ..present },
        RunPhase::Ready => PhasePresence { ready: there, ..present },
        RunPhase::Processing => PhasePresence { processing: there, ..present },
        RunPhase::Done => PhasePresence { done: there, ..present },
        RunPhase::Failed => PhasePresence { failed: there, ..present },
    }
}

/// A run whose directory was renamed.
pub open spec fn moved(present: PhasePresence, from: RunPhase, to: RunPhase) -> PhasePresence {
    with_phase(with_phase(present, from, false), to, true)
}

/// Whether the server lets a passage happen.
pub open spec fn open_to(present: PhasePresence, passage: Passage) -> bool {
    match passage {
        Passage::Begin => present.earliest() is None,
        Passage::Finish => present.incoming && present.later() is None,
        Passage::Claim | Passage::Reject => present.ready,
        Passage::Settle(_) => present.processing,
        Passage::Abandon => present.incoming,
        Passage::Discard(phase) => present.has(phase),
    }
}

/// Where a run is after a passage.
pub open spec fn pass(present: PhasePresence, passage: Passage) -> PhasePresence {
    match passage {
        Passage::Begin => with_phase(present, RunPhase::Incoming, true),
        Passage::Finish => moved(present, RunPhase::Incoming, RunPhase::Ready),
        Passage::Claim => moved(present, RunPhase::Ready, RunPhase::Processing),
        Passage::Reject => moved(present, RunPhase::Ready, RunPhase::Failed),
        Passage::Settle(state) => moved(present, RunPhase::Processing, state.resting_phase()),
        Passage::Abandon => moved(present, RunPhase::Incoming, RunPhase::Failed),
        Passage::Discard(phase) => with_phase(present, phase, false),
    }
}

/// Where a run is after a number of passages, each of which the server let happen.
pub open spec fn journey(passages: Seq<Passage>) -> PhasePresence
    decreases passages.len(),
{
    if passages.len() == 0 {
        nowhere()
    } else {
        pass(journey(passages.drop_last()), passages.last())
    }
}

/// Whether the server let every passage happen.
pub open spec fn permitted(passages: Seq<Passage>) -> bool
    decreases passages.len(),
{
    passages.len() == 0 || (permitted(passages.drop_last()) && open_to(
        journey(passages.drop_last()),
        passages.last(),
    ))
}

/// Whether a run is in no more than one phase.
pub open spec fn at_most_one_phase(present: PhasePresence) -> bool {
    forall|a: RunPhase, b: RunPhase| #[trigger] present.has(a) && #[trigger] present.has(b) ==> a == b
}

/// A run begins exactly when it is nowhere.
pub proof fn only_unknown_runs_begin(
    work_dir: Seq<char>,
    nickname: Seq<char>,
    run_id: Seq<char>,
    present: PhasePresence,
)
    ensures
        phases::begin_refusal(work_dir, nickname, run_id, present) is None <==> open_to(
            present,
            Passage::Begin,
        ),
        open_to(present, Passage::Begin) <==> present == nowhere(),
{
}

/// A run is moved to ready only from incoming, and only if it is in no other phase.
pub proof fn only_uploads_finish(
    work_dir: Seq<char>,
    nickname: Seq<char>,
    run_id: Seq<char>,
    present: PhasePresence,
    found: Lookup<LeaseFile>,
    ready_appeared: bool,
    now: u64,
)
    requires
        phases::finish_outcome(work_dir, nickname, run_id, present, found, ready_appeared, now)
            == Ok::<FinishDecision, failure::FailureView>(FinishDecision::MoveToReady),
    ensures
        open_to(present, Passage::Finish),
{
}

/// However often a run is begun, finished, processed and collected, it is never in two
/// phases at once.
pub proof fn runs_are_in_one_phase(passages: Seq<Passage>)
    requires
        permitted(passages),
    ensures
        at_most_one_phase(journey(passages)),
    decreases passages.len(),
{
    if passages.len() > 0 {
        runs_are_in_one_phase(passages.drop_last());
        lemma_one_phase_is_kept(journey(passages.drop_last()), passages.last());
    }
}

/// The phase that a passage leaves, if it leaves one.
spec fn left_by(passage: Passage) -> Option<RunPhase> {
    match passage {
        Passage::Begin => None,
        Passage::Finish | Passage::Abandon => Some(RunPhase::Incoming),
        Passage::Claim | Passage::Reject => Some(RunPhase::Ready),
        Passage::Settle(_) => Some(RunPhase::Processing),
        Passage::Discard(phase) => Some(phase),
    }
}

proof fn lemma_one_phase_is_kept(before: PhasePresence, passage: Passage)
    requires
        at_most_one_phase(before),
        open_to(before, passage),
    ensures
        at_most_one_phase(pass(before, passage)),
{
    let after = pass(before, passage);
    match left_by(passage) {
        Some(from) => {
            assert(before.has(from));
            assert forall|a: RunPhase| #[trigger] before.has(a) implies a == from by {}
        },
        None => {
            assert forall|a: RunPhase| !(#[trigger] before.has(a)) by {}
        },
    }
    assert forall|a: RunPhase, b: RunPhase| #[trigger] after.has(a) && #[trigger] after.has(
        b,
    ) implies a == b by {
        assert(before.has(a) ==> Some(a) == left_by(passage));
        assert(before.has(b) ==> Some(b) == left_by(passage));
    }
}

/// How far a phase is along the way.
pub open spec fn rank(phase: RunPhase) -> int {
    match phase {
        RunPhase::Incoming => 0,
        RunPhase::Ready => 1,
        RunPhase::Processing => 2,
        RunPhase::Done | RunPhase::Failed => 3,
    }
}

/// A run only goes forward: where it is after a passage lies behind where it was.
pub proof fn runs_only_go_forward(
    passages: Seq<Passage>,
    passage: Passage,
    from: RunPhase,
    to: RunPhase,
)
    requires
        permitted(passages),
        open_to(journey(passages), passage),
        journey(passages).has(from),
        pass(journey(passages), passage).has(to),
    ensures
        rank(from) < rank(to),
        !from.is_terminal(),
{
    let before = journey(passages);
    runs_are_in_one_phase(passages);
    assert(before.has(to) ==> from == to);
    match passage {
        Passage::Begin => {},
        Passage::Finish | Passage::Abandon => {
            assert(before.has(RunPhase::Incoming));
        },
        Passage::Claim | Passage::Reject => {
            assert(before.has(RunPhase::Ready));
        },
        Passage::Settle(_) => {
            assert(before.has(RunPhase::Processing));
        },
        Passage::Discard(phase) => {
            assert(before.has(phase));
        },
    }
}

// ---------------------------------------------------------------------------
// Statuses
// ---------------------------------------------------------------------------

/// A status file that holds a given status.
pub open spec fn holds_status(found: Lookup<RunStatus>, status: RunStatus) -> bool {
    found matches Lookup::Found(document) && document.version@ == version::ProbeView::Version(
        status.purgery_version@,
    ) && document.parsed == Ok::<RunStatus, String>(status)
}

/// A status of this server for a run: written at the end of processing, or for a
/// failure of the run as a whole.
pub open spec fn is_own_status(status: RunStatus, nickname: Seq<char>, run_id: Seq<char>) -> bool {
    &&& status.purgery_version@ == version::current_version()
    &&& status.belongs_to(nickname, run_id)
}

/// What processing publishes, and what is published for a failed or abandoned run, is a
/// status of this server.
pub proof fn published_statuses_are_own(
    status: RunStatus,
    nickname: Seq<char>,
    run_id: Seq<char>,
    outcomes: Seq<crate::entry::EntryOutcome>,
    error: Seq<char>,
)
    requires
        process::is_status_of(status, nickname, run_id, outcomes) || phases::is_failure_status(
            status,
            nickname,
            run_id,
            error,
        ),
    ensures
        is_own_status(status, nickname, run_id),
{
}

/// A status of this server that rests in its phase is understood by every request: it
/// is what a status request returns and what a processing request reports, it makes the
/// run's state terminal, recovery only moves the run, and collection takes it for valid.
pub proof fn own_statuses_are_understood(
    nickname: Seq<char>,
    run_id: Seq<char>,
    status: RunStatus,
    found: Lookup<RunStatus>,
    status_path: Seq<char>,
)
    requires
        is_own_status(status, nickname, run_id),
        holds_status(found, status),
    ensures
        server::status_contribution(found, nickname, run_id, status_path) == Some(
            Ok::<RunStatus, failure::FailureView>(status),
        ),
        server::terminal_outcome(found, nickname, run_id) is Valid,
        gc::valid_terminal(found, nickname, run_id, status.state.resting_phase()),
        recover::recovery_plan(found, nickname, run_id, status_path)
            == recover::RecoveryPlanView::Settle(status.state),
        target::directory_reading(found, nickname, run_id, status.state.resting_phase()) == Ok::<
            RunState,
            failure::FailureView,
        >(status.state),
{
    version::own_version_is_compatible();
}

/// The status of a run can be read until its retention is over.
pub proof fn results_stay_readable(
    gc_config: GCConfig,
    nickname: Seq<char>,
    run_id: Seq<char>,
    status: RunStatus,
    run: RunListing,
    written_at: u64,
    now: u64,
)
    requires
        is_own_status(status, nickname, run_id),
        holds_status(run.status, status),
        run.status_mtime == Ok::<u64, String>(written_at),
        status.state.resting_phase() is Done ==> now < written_at
            + gc_config.done_retention_secs,
        status.state.resting_phase() is Failed ==> now < written_at
            + gc_config.failed_retention_secs,
        now < u64::MAX,
    ensures
        gc::run_verdict(
            gc_config,
            nickname,
            run_id,
            status.state.resting_phase(),
            run,
            now,
        ) is Ok,
        !(gc::run_verdict(
            gc_config,
            nickname,
            run_id,
            status.state.resting_phase(),
            run,
            now,
        )->Ok_0.action is Remove),
{
    version::own_version_is_compatible();
}

/// An answer that calls a run terminal promises that its status can be read: a status
/// request for what was seen succeeds. A run without a directory has no status file.
pub proof fn terminal_runs_have_a_readable_status(
    sighting: server::RunSighting,
    work_dir: Seq<char>,
    nickname: Seq<char>,
    run_id: Seq<char>,
)
    requires
        server::standing(sighting, nickname, run_id).terminal,
        !sighting.done.exists ==> sighting.done_status is Missing,
    ensures
        server::run_status_answer(
            work_dir,
            nickname,
            run_id,
            sighting.done_status,
            sighting.failed_status,
        ) is Ok,
{
}

// ---------------------------------------------------------------------------
// Run plans
// ---------------------------------------------------------------------------

/// Whether a run configuration that was written is what is found in its place.
pub open spec fn reads_back(found: Lookup<RunConfig>, written: RunConfig) -> bool {
    found matches Lookup::Found(document) && document.version@ == version::ProbeView::Version(
        written.purgery_version@,
    ) && document.parsed == Ok::<RunConfig, String>(written)
}

/// Preparing a run twice resolves its destination once. A relative destination is
/// answered and written back as the absolute one below the current directory, with the
/// nickname and the rest of the plan kept; an absolute one is left alone. A second call,
/// from any directory, then accepts the plan and changes nothing.
pub proof fn preparing_twice_resolves_once(
    config: ServerConfig,
    nickname: Seq<char>,
    run_id: Seq<char>,
    run_config: Lookup<RunConfig>,
    manifest: Lookup<Manifest>,
    cwd: server::CurrentDirectory,
    first: server::PreparePlan,
    run_config_again: Lookup<RunConfig>,
    cwd_again: server::CurrentDirectory,
    second: Result<server::PreparePlan, failure::Failure>,
)
    requires
        cwd.is_valid(),
        server::is_preparation(
            Ok(first),
            config,
            nickname,
            run_id,
            true,
            run_config,
            manifest,
            cwd,
        ),
        match first.rewrite {
            Some(rewrite) => reads_back(run_config_again, rewrite),
            None => run_config_again == run_config,
        },
        server::is_preparation(
            second,
            config,
            nickname,
            run_id,
            true,
            run_config_again,
            manifest,
            cwd_again,
        ),
    ensures
        ({
            let wanted = (run_config->Found_0).parsed->Ok_0;
            if paths::absolute(wanted.destination@) {
                &&& first.rewrite is None
                &&& first.response.destination is None
            } else {
                &&& cwd is Path
                &&& first.rewrite matches Some(rewrite)
                &&& first.response.destination matches Some(destination)
                &&& destination@ == paths::path_join(cwd->Path_0@, wanted.destination@)
                &&& paths::absolute(destination@)
                &&& server::is_rewrite(rewrite, wanted, destination@)
            }
        }),
        second matches Ok(plan) && plan.rewrite is None && plan.response.destination is None,
{
    version::own_version_is_compatible();
}

} // verus!
