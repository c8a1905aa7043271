//! Collection of expired server work state.
//!
//! A pass looks at everything below the work directory and decides, item by item,
//! whether its time is over. A decision rests on the modification time of the item
//! or on a lease, and never on a document that this server does not understand:
//! such an item falls under the orphan policy.

use vstd::prelude::*;

use crate::model::{is_valid_name, GCConfig, LeaseFile, Lookup, RunPhase, RunState, RunStatus};
use crate::text;
use crate::version;
use crate::version::PROTOCOL_VERSION;

verus! {

/// Why an item is judged as it is.
#[derive(Clone, Copy, PartialEq, Eq, Structural, Debug)]
pub enum GcReason {
    InvalidNickname,
    InvalidRunId,
    MissingLease,
    IncompatibleVersion,
    MalformedLease,
    ProtocolMismatch,
    EnvelopeMismatch,
    Lease,
    Retention,
    ProcessingRetention,
    DoneRetention,
    FailedRetention,
    InvalidTerminalStatus,
}

impl GcReason {
    pub open spec fn name(self) -> Seq<char> {
        match self {
            GcReason::InvalidNickname => "invalid nickname"@,
            GcReason::InvalidRunId => "invalid run id"@,
            GcReason::MissingLease => "missing lease"@,
            GcReason::IncompatibleVersion => "incompatible purgery_version"@,
            GcReason::MalformedLease => "malformed lease"@,
            GcReason::ProtocolMismatch => "protocol_version mismatch"@,
            GcReason::EnvelopeMismatch => "lease envelope mismatch"@,
            GcReason::Lease => "lease"@,
            GcReason::Retention => "retention"@,
            GcReason::ProcessingRetention => "processing retention"@,
            GcReason::DoneRetention => "done retention"@,
            GcReason::FailedRetention => "failed retention"@,
            GcReason::InvalidTerminalStatus => "invalid terminal status"@,
        }
    }

    pub fn as_str(self) -> (s: &'static str)
        ensures
            s@ == self.name(),
    {
        match self {
            GcReason::InvalidNickname => "invalid nickname",
            GcReason::InvalidRunId => "invalid run id",
            GcReason::MissingLease => "missing lease",
            GcReason::IncompatibleVersion => "incompatible purgery_version",
            GcReason::MalformedLease => "malformed lease",
            GcReason::ProtocolMismatch => "protocol_version mismatch",
            GcReason::EnvelopeMismatch => "lease envelope mismatch",
            GcReason::Lease => "lease",
            GcReason::Retention => "retention",
            GcReason::ProcessingRetention => "processing retention",
            GcReason::DoneRetention => "done retention",
            GcReason::FailedRetention => "failed retention",
            GcReason::InvalidTerminalStatus => "invalid terminal status",
        }
    }
}

/// When an item expires, and on what ground.
#[derive(Clone, Copy, PartialEq, Eq, Structural, Debug)]
pub struct ExpiryDecision {
    pub expired: bool,
    pub expiry_unix_secs: u64,
    pub reason: GcReason,
}

/// What is to be done with an item.
#[derive(Clone, Copy, PartialEq, Eq, Structural, Debug)]
pub enum GcAction {
    /// Leave it.
    Retain,
    /// Leave it because a processor is at work on it, expired or not.
    KeepLocked,
    /// Delete it with everything below.
    Remove,
    /// Delete what a successful run no longer needs.
    Prune,
    /// Publish a failure status, drop the upload and move the run to failed, in this
    /// order: the steps of an abandoned upload.
    FailAbandoned,
}

/// The judgement on one item.
#[derive(Clone, Copy, PartialEq, Eq, Structural, Debug)]
pub struct GcVerdict {
    pub decision: ExpiryDecision,
    pub action: GcAction,
}

/// What was seen of one run directory.
#[derive(Debug)]
pub struct RunListing {
    pub name: String,
    /// Modification time of the directory.
    pub mtime: Result<u64, String>,
    /// The lease, of an incoming run.
    pub lease: Lookup<LeaseFile>,
    /// Whether a processor holds the lock, of a processing run.
    pub lock: Result<Option<bool>, String>,
    /// The status, of a run in a terminal phase.
    pub status: Lookup<RunStatus>,
    /// Modification time of the status file.
    pub status_mtime: Result<u64, String>,
}

/// What was seen of one directory at the top of the work directory.
#[derive(Debug)]
pub struct NicknameListing {
    pub name: String,
    pub mtime: Result<u64, String>,
    pub incoming: Vec<RunListing>,
    pub ready: Vec<RunListing>,
    pub processing: Vec<RunListing>,
    pub done: Vec<RunListing>,
    pub failed: Vec<RunListing>,
}

/// Which item of a listing is meant: a directory at the top, or a run in it.
#[derive(Clone, Copy, PartialEq, Eq, Structural, Debug)]
pub enum GcTarget {
    Client { index: usize },
    Run { index: usize, phase: RunPhase, run: usize },
}

/// An item and the judgement on it.
#[derive(Clone, Copy, PartialEq, Eq, Structural, Debug)]
pub struct GcStep {
    pub target: GcTarget,
    pub verdict: GcVerdict,
}

/// What a pass does: the judgements in order, up to the first item that could not
/// be judged.
#[derive(Debug)]
pub struct GcPlan {
    pub steps: Vec<GcStep>,
    pub failure: Option<String>,
}

struct GcItem {
    target: GcTarget,
    verdict: Result<GcVerdict, String>,
}

/// The moment at which a retention that began at `since` is over.
pub open spec fn expiry_at(since: u64, retention: u64) -> u64 {
    if since + retention > u64::MAX {
        u64::MAX
    } else {
        (since + retention) as u64
    }
}

/// The decision for a given expiry: an item expires the moment its time comes.
pub open spec fn decide(expiry: u64, reason: GcReason, now: u64) -> ExpiryDecision {
    ExpiryDecision { expired: now >= expiry, expiry_unix_secs: expiry, reason }
}

/// The decision for a retention that runs from a modification time.
pub open spec fn decide_from_mtime(
    mtime: Result<u64, String>,
    retention: u64,
    reason: GcReason,
    now: u64,
) -> Result<ExpiryDecision, Seq<char>> {
    match mtime {
        Ok(since) => Ok(decide(expiry_at(since, retention), reason, now)),
        Err(error) => Err(error@),
    }
}

/// Why a lease cannot be trusted, if it cannot.
pub open spec fn lease_distrust(
    lease: Lookup<LeaseFile>,
    nickname: Seq<char>,
    run_id: Seq<char>,
) -> Option<GcReason> {
    match lease {
        Lookup::Found(document) => if !version::probe_compatible(document.version@) {
            Some(GcReason::IncompatibleVersion)
        } else {
            match document.parsed {
                Err(_) => Some(GcReason::MalformedLease),
                Ok(lease) => if lease.protocol_version != PROTOCOL_VERSION {
                    Some(GcReason::ProtocolMismatch)
                } else if lease.nickname@ != nickname || lease.run_id@ != run_id {
                    Some(GcReason::EnvelopeMismatch)
                } else {
                    None
                },
            }
        },
        _ => Some(GcReason::MissingLease),
    }
}

/// The status of a run directory that this server can trust: readable, written by
/// a compatible producer, and written for this run.
pub open spec fn trusted_state(
    status: Lookup<RunStatus>,
    nickname: Seq<char>,
    run_id: Seq<char>,
) -> Option<RunState> {
    match status {
        Lookup::Found(document) => match document.parsed {
            Ok(status) => if version::probe_compatible(document.version@) && status.belongs_to(
                nickname,
                run_id,
            ) {
                Some(status.state)
            } else {
                None
            },
            Err(_) => None,
        },
        _ => None,
    }
}

/// Whether a terminal directory holds a trusted status that fits its phase.
pub open spec fn valid_terminal(
    status: Lookup<RunStatus>,
    nickname: Seq<char>,
    run_id: Seq<char>,
    phase: RunPhase,
) -> bool {
    match trusted_state(status, nickname, run_id) {
        Some(state) => phase.is_terminal() && state.resting_phase() == phase,
        None => false,
    }
}

/// The decision on a terminal directory: by the age of its status while the status
/// is valid, by the age of the directory under the orphan policy otherwise.
pub open spec fn terminal_decision(
    gc: GCConfig,
    nickname: Seq<char>,
    run_id: Seq<char>,
    phase: RunPhase,
    run: RunListing,
    now: u64,
) -> Result<ExpiryDecision, Seq<char>> {
    if valid_terminal(run.status, nickname, run_id, phase) {
        if phase is Done {
            decide_from_mtime(
                run.status_mtime,
                gc.done_retention_secs,
                GcReason::DoneRetention,
                now,
            )
        } else {
            decide_from_mtime(
                run.status_mtime,
                gc.failed_retention_secs,
                GcReason::FailedRetention,
                now,
            )
        }
    } else {
        decide_from_mtime(
            run.mtime,
            gc.orphan_retention_secs,
            GcReason::InvalidTerminalStatus,
            now,
        )
    }
}

/// When a run expires.
pub open spec fn run_decision(
    gc: GCConfig,
    nickname: Seq<char>,
    run_id: Seq<char>,
    phase: RunPhase,
    run: RunListing,
    now: u64,
) -> Result<ExpiryDecision, Seq<char>> {
    match phase {
        RunPhase::Incoming => match lease_distrust(run.lease, nickname, run_id) {
            Some(reason) => decide_from_mtime(run.mtime, gc.orphan_retention_secs, reason, now),
            None => Ok(
                decide(
                    (run.lease->Found_0).parsed->Ok_0.expires_at_unix_secs,
                    GcReason::Lease,
                    now,
                ),
            ),
        },
        RunPhase::Ready => decide_from_mtime(
            run.mtime,
            gc.ready_retention_secs,
            GcReason::Retention,
            now,
        ),
        RunPhase::Processing => match decide_from_mtime(
            run.mtime,
            gc.processing_retention_secs,
            GcReason::ProcessingRetention,
            now,
        ) {
            Ok(decision) => match run.lock {
                Ok(_) => Ok(decision),
                Err(error) => Err(error@),
            },
            Err(error) => Err(error),
        },
        RunPhase::Done | RunPhase::Failed => terminal_decision(
            gc,
            nickname,
            run_id,
            phase,
            run,
            now,
        ),
    }
}

/// What follows for a run from the decision on it.
pub open spec fn run_action(
    nickname: Seq<char>,
    run_id: Seq<char>,
    phase: RunPhase,
    run: RunListing,
    decision: ExpiryDecision,
) -> GcAction {
    if phase is Processing && run.lock == Ok::<Option<bool>, String>(Some(true)) {
        GcAction::KeepLocked
    } else if decision.expired {
        if phase is Incoming && decision.reason is Lease {
            GcAction::FailAbandoned
        } else {
            GcAction::Remove
        }
    } else if phase is Done && trusted_state(run.status, nickname, run_id) == Some(
        RunState::Done,
    ) {
        GcAction::Prune
    } else {
        GcAction::Retain
    }
}

/// The judgement on a run directory whose name is a run identifier.
pub open spec fn run_verdict(
    gc: GCConfig,
    nickname: Seq<char>,
    run_id: Seq<char>,
    phase: RunPhase,
    run: RunListing,
    now: u64,
) -> Result<GcVerdict, Seq<char>> {
    match run_decision(gc, nickname, run_id, phase, run, now) {
        Ok(decision) => Ok(
            GcVerdict { decision, action: run_action(nickname, run_id, phase, run, decision) },
        ),
        Err(error) => Err(error),
    }
}

/// The judgement on a directory whose name means nothing to the server.
pub open spec fn orphan_verdict(
    gc: GCConfig,
    mtime: Result<u64, String>,
    reason: GcReason,
    now: u64,
) -> Result<GcVerdict, Seq<char>> {
    match decide_from_mtime(mtime, gc.orphan_retention_secs, reason, now) {
        Ok(decision) => Ok(
            GcVerdict {
                decision,
                action: if decision.expired {
                    GcAction::Remove
                } else {
                    GcAction::Retain
                },
            },
        ),
        Err(error) => Err(error),
    }
}

/// The judgement on a directory found in a phase.
pub open spec fn listed_verdict(
    gc: GCConfig,
    nickname: Seq<char>,
    phase: RunPhase,
    run: RunListing,
    now: u64,
) -> Result<GcVerdict, Seq<char>> {
    if crate::model::valid_name(run.name@) {
        run_verdict(gc, nickname, run.name@, phase, run, now)
    } else {
        orphan_verdict(gc, run.mtime, GcReason::InvalidRunId, now)
    }
}

/// The runs of a client in a phase.
pub open spec fn phase_listing(client: NicknameListing, phase: RunPhase) -> Seq<RunListing> {
    match phase {
        RunPhase::Incoming => client.incoming@,
        RunPhase::Ready => client.ready@,
        RunPhase::Processing => client.processing@,
        RunPhase::Done => client.done@,
        RunPhase::Failed => client.failed@,
    }
}

/// The judgements on the runs of a client in a phase.
pub open spec fn phase_items(
    gc: GCConfig,
    client: NicknameListing,
    index: int,
    phase: RunPhase,
    now: u64,
) -> Seq<(GcTarget, Result<GcVerdict, Seq<char>>)> {
    let runs = phase_listing(client, phase);
    Seq::new(
        runs.len(),
        |k: int|
            (
                GcTarget::Run { index: index as usize, phase, run: k as usize },
                listed_verdict(gc, client.name@, phase, runs[k], now),
            ),
    )
}

/// The judgements on a directory at the top and on what is below it.
pub open spec fn client_items(
    gc: GCConfig,
    client: NicknameListing,
    index: int,
    now: u64,
) -> Seq<(GcTarget, Result<GcVerdict, Seq<char>>)> {
    if crate::model::valid_name(client.name@) {
        phase_items(gc, client, index, RunPhase::Incoming, now) + phase_items(
            gc,
            client,
            index,
            RunPhase::Ready,
            now,
        ) + phase_items(gc, client, index, RunPhase::Processing, now) + phase_items(
            gc,
            client,
            index,
            RunPhase::Done,
            now,
        ) + phase_items(gc, client, index, RunPhase::Failed, now)
    } else {
        seq![
            (
                GcTarget::Client { index: index as usize },
                orphan_verdict(gc, client.mtime, GcReason::InvalidNickname, now),
            ),
        ]
    }
}

/// The judgements on everything listed, in the order of a pass: client by client,
/// and for each client the phases in the order in which a run goes through them.
pub open spec fn all_items(
    gc: GCConfig,
    clients: Seq<NicknameListing>,
    now: u64,
) -> Seq<(GcTarget, Result<GcVerdict, Seq<char>>)>
    decreases clients.len(),
{
    if clients.len() == 0 {
        Seq::empty()
    } else {
        all_items(gc, clients.drop_last(), now) + client_items(
            gc,
            clients.last(),
            clients.len() - 1,
            now,
        )
    }
}

/// Whether a plan follows the judgements: all of them, or those before the first
/// item that could not be judged.
pub open spec fn plan_follows(
    plan: GcPlan,
    items: Seq<(GcTarget, Result<GcVerdict, Seq<char>>)>,
) -> bool {
    &&& plan.steps@.len() <= items.len()
    &&& forall|k: int|
        0 <= k < plan.steps@.len() ==> items[k] == (
            (#[trigger] plan.steps@[k]).target,
            Ok::<GcVerdict, Seq<char>>(plan.steps@[k].verdict),
        )
    &&& match plan.failure {
        None => plan.steps@.len() == items.len(),
        Some(error) => plan.steps@.len() < items.len() && items[plan.steps@.len() as int].1
            == Err::<GcVerdict, Seq<char>>(error@),
    }
}

spec fn item_views(items: Seq<GcItem>) -> Seq<(GcTarget, Result<GcVerdict, Seq<char>>)> {
    items.map_values(
        |item: GcItem|
            (
                item.target,
                match item.verdict {
                    Ok(verdict) => Ok::<GcVerdict, Seq<char>>(verdict),
                    Err(error) => Err(error@),
                },
            ),
    )
}

/// The decision for a given expiry.
fn decide_at(expiry: u64, reason: GcReason, now: u64) -> (decision: ExpiryDecision)
    ensures
        decision == decide(expiry, reason, now),
{
    ExpiryDecision { expired: now >= expiry, expiry_unix_secs: expiry, reason }
}

/// The decision for a retention that runs from a modification time.
pub fn expiry_from_mtime(
    mtime: &Result<u64, String>,
    retention_secs: u64,
    now: u64,
    reason: GcReason,
) -> (decision: Result<ExpiryDecision, String>)
    ensures
        text::agrees(decision, decide_from_mtime(*mtime, retention_secs, reason, now)),
{
    match mtime {
        Ok(since) => Ok(decide_at(since.saturating_add(retention_secs), reason, now)),
        Err(error) => Err(error.clone()),
    }
}

/// Why a lease cannot be trusted, if it cannot.
pub fn distrust_lease(lease: &Lookup<LeaseFile>, nickname: &str, run_id: &str) -> (reason: Option<
    GcReason,
>)
    ensures
        reason == lease_distrust(*lease, nickname@, run_id@),
{
    match lease {
        Lookup::Found(document) => {
            if !version::is_probe_compatible(&document.version) {
                return Some(GcReason::IncompatibleVersion);
            }
            match &document.parsed {
                Err(_) => Some(GcReason::MalformedLease),
                Ok(lease) => {
                    if lease.protocol_version != PROTOCOL_VERSION {
                        Some(GcReason::ProtocolMismatch)
                    } else if !text::same_text(lease.nickname.as_str(), nickname)
                        || !text::same_text(lease.run_id.as_str(), run_id) {
                        Some(GcReason::EnvelopeMismatch)
                    } else {
                        None
                    }
                },
            }
        },
        _ => Some(GcReason::MissingLease),
    }
}

/// The state in a status that this server can trust.
pub fn read_trusted_state(status: &Lookup<RunStatus>, nickname: &str, run_id: &str) -> (state:
    Option<RunState>)
    ensures
        state == trusted_state(*status, nickname@, run_id@),
{
    match status {
        Lookup::Found(document) => match &document.parsed {
            Ok(status) => {
                if version::is_probe_compatible(&document.version) && text::same_text(
                    status.nickname.as_str(),
                    nickname,
                ) && text::same_text(status.run_id.as_str(), run_id) {
                    Some(status.state)
                } else {
                    None
                }
            },
            Err(_) => None,
        },
        _ => None,
    }
}

/// Whether a terminal directory holds a trusted status that fits its phase.
pub fn classify_terminal_status(
    status: &Lookup<RunStatus>,
    nickname: &str,
    run_id: &str,
    phase: RunPhase,
) -> (valid: bool)
    ensures
        valid == valid_terminal(*status, nickname@, run_id@, phase),
{
    match (phase, read_trusted_state(status, nickname, run_id)) {
        (RunPhase::Done, Some(RunState::Done)) => true,
        (RunPhase::Done, Some(RunState::Partial)) => true,
        (RunPhase::Failed, Some(RunState::Failed)) => true,
        _ => false,
    }
}

/// The decision on a terminal directory.
pub fn expiry_for_terminal(
    gc: &GCConfig,
    nickname: &str,
    run_id: &str,
    phase: RunPhase,
    run: &RunListing,
    now: u64,
) -> (decision: Result<ExpiryDecision, String>)
    ensures
        text::agrees(decision, terminal_decision(*gc, nickname@, run_id@, phase, *run, now)),
{
    if classify_terminal_status(&run.status, nickname, run_id, phase) {
        match phase {
            RunPhase::Done => expiry_from_mtime(
                &run.status_mtime,
                gc.done_retention_secs,
                now,
                GcReason::DoneRetention,
            ),
            _ => expiry_from_mtime(
                &run.status_mtime,
                gc.failed_retention_secs,
                now,
                GcReason::FailedRetention,
            ),
        }
    } else {
        expiry_from_mtime(
            &run.mtime,
            gc.orphan_retention_secs,
            now,
            GcReason::InvalidTerminalStatus,
        )
    }
}

/// Judges a run whose upload has not finished. Its lease decides, if the lease can
/// be trusted; otherwise it is an orphan.
pub fn collect_incoming(
    gc: &GCConfig,
    nickname: &str,
    run_id: &str,
    run: &RunListing,
    now: u64,
) -> (verdict: Result<GcVerdict, String>)
    ensures
        text::agrees(verdict, run_verdict(*gc, nickname@, run_id@, RunPhase::Incoming, *run, now)),
{
    match distrust_lease(&run.lease, nickname, run_id) {
        Some(reason) => match expiry_from_mtime(&run.mtime, gc.orphan_retention_secs, now, reason) {
            Ok(decision) => {
                let action = if decision.expired {
                    GcAction::Remove
                } else {
                    GcAction::Retain
                };
                Ok(GcVerdict { decision, action })
            },
            Err(error) => Err(error),
        },
        None => {
            let expires: u64 = match &run.lease {
                Lookup::Found(document) => match &document.parsed {
                    Ok(lease) => lease.expires_at_unix_secs,
                    Err(_) => 0,
                },
                _ => 0,
            };
            let decision = decide_at(expires, GcReason::Lease, now);
            let action = if decision.expired {
                GcAction::FailAbandoned
            } else {
                GcAction::Retain
            };
            Ok(GcVerdict { decision, action })
        },
    }
}

/// Judges a run that is being processed. While a processor holds the lock the run
/// stays, however old it is.
pub fn collect_processing(
    gc: &GCConfig,
    nickname: &str,
    run_id: &str,
    run: &RunListing,
    now: u64,
) -> (verdict: Result<GcVerdict, String>)
    ensures
        text::agrees(verdict, run_verdict(*gc, nickname@, run_id@, RunPhase::Processing, *run, now)),
{
    match expiry_from_mtime(
        &run.mtime,
        gc.processing_retention_secs,
        now,
        GcReason::ProcessingRetention,
    ) {
        Ok(decision) => match &run.lock {
            Ok(Some(true)) => Ok(GcVerdict { decision, action: GcAction::KeepLocked }),
            Ok(_) => {
                let action = if decision.expired {
                    GcAction::Remove
                } else {
                    GcAction::Retain
                };
                Ok(GcVerdict { decision, action })
            },
            Err(error) => Err(error.clone()),
        },
        Err(error) => Err(error),
    }
}

/// Judges a run in done. An expired run goes; a successful one that stays is freed
/// of what it no longer needs.
pub fn collect_done(
    gc: &GCConfig,
    nickname: &str,
    run_id: &str,
    run: &RunListing,
    now: u64,
) -> (verdict: Result<GcVerdict, String>)
    ensures
        text::agrees(verdict, run_verdict(*gc, nickname@, run_id@, RunPhase::Done, *run, now)),
{
    match expiry_for_terminal(gc, nickname, run_id, RunPhase::Done, run, now) {
        Ok(decision) => {
            let action = if decision.expired {
                GcAction::Remove
            } else {
                match read_trusted_state(&run.status, nickname, run_id) {
                    Some(RunState::Done) => GcAction::Prune,
                    _ => GcAction::Retain,
                }
            };
            Ok(GcVerdict { decision, action })
        },
        Err(error) => Err(error),
    }
}

/// Judges a run in failed.
pub fn collect_failed(
    gc: &GCConfig,
    nickname: &str,
    run_id: &str,
    run: &RunListing,
    now: u64,
) -> (verdict: Result<GcVerdict, String>)
    ensures
        text::agrees(verdict, run_verdict(*gc, nickname@, run_id@, RunPhase::Failed, *run, now)),
{
    match expiry_for_terminal(gc, nickname, run_id, RunPhase::Failed, run, now) {
        Ok(decision) => {
            let action = if decision.expired {
                GcAction::Remove
            } else {
                GcAction::Retain
            };
            Ok(GcVerdict { decision, action })
        },
        Err(error) => Err(error),
    }
}

/// Judges by the age of the directory alone.
fn expire_by_mtime(
    mtime: &Result<u64, String>,
    retention_secs: u64,
    now: u64,
    reason: GcReason,
) -> (verdict: Result<GcVerdict, String>)
    ensures
        ({
            let decision = decide_from_mtime(*mtime, retention_secs, reason, now);
            match verdict {
                Ok(v) => decision == Ok::<ExpiryDecision, Seq<char>>(v.decision) && v.action == (
                if v.decision.expired {
                    GcAction::Remove
                } else {
                    GcAction::Retain
                }),
                Err(e) => decision == Err::<ExpiryDecision, Seq<char>>(e@),
            }
        }),
{
    match expiry_from_mtime(mtime, retention_secs, now, reason) {
        Ok(decision) => {
            let action = if decision.expired {
                GcAction::Remove
            } else {
                GcAction::Retain
            };
            Ok(GcVerdict { decision, action })
        },
        Err(error) => Err(error),
    }
}

/// Judges a directory found in a phase.
pub fn collect_run(
    gc: &GCConfig,
    nickname: &str,
    phase: RunPhase,
    run: &RunListing,
    now: u64,
) -> (verdict: Result<GcVerdict, String>)
    ensures
        text::agrees(verdict, listed_verdict(*gc, nickname@, phase, *run, now)),
{
    let run_id = run.name.as_str();
    if !is_valid_name(run_id) {
        return expire_by_mtime(&run.mtime, gc.orphan_retention_secs, now, GcReason::InvalidRunId);
    }
    match phase {
        RunPhase::Incoming => collect_incoming(gc, nickname, run_id, run, now),
        RunPhase::Ready => expire_by_mtime(
            &run.mtime,
            gc.ready_retention_secs,
            now,
            GcReason::Retention,
        ),
        RunPhase::Processing => collect_processing(gc, nickname, run_id, run, now),
        RunPhase::Done => collect_done(gc, nickname, run_id, run, now),
        RunPhase::Failed => collect_failed(gc, nickname, run_id, run, now),
    }
}

fn collect_phase(
    gc: &GCConfig,
    client: &NicknameListing,
    index: usize,
    phase: RunPhase,
    now: u64,
    items: &mut Vec<GcItem>,
)
    ensures
        item_views(final(items)@) == item_views(old(items)@) + phase_items(
            *gc,
            *client,
            index as int,
            phase,
            now,
        ),
{
    let runs: &Vec<RunListing> = match phase {
        RunPhase::Incoming => &client.incoming,
        RunPhase::Ready => &client.ready,
        RunPhase::Processing => &client.processing,
        RunPhase::Done => &client.done,
        RunPhase::Failed => &client.failed,
    };
    let ghost start = item_views(items@);
    let ghost expected = phase_items(*gc, *client, index as int, phase, now);
    let mut k: usize = 0;
    assert(item_views(items@) =~= start + expected.take(0));
    while k < runs.len()
        invariant
            k <= runs.len(),
            runs@ == phase_listing(*client, phase),
            expected == phase_items(*gc, *client, index as int, phase, now),
            item_views(items@) == start + expected.take(k as int),
        decreases runs.len() - k,
    {
        let verdict = collect_run(gc, client.name.as_str(), phase, &runs[k], now);
        let ghost before = items@;
        items.push(GcItem { target: GcTarget::Run { index, phase, run: k }, verdict });
        proof {
            assert(item_views(items@) =~= item_views(before).push(expected[k as int]));
            assert(expected.take(k + 1) =~= expected.take(k as int).push(expected[k as int]));
            assert(start + expected.take(k + 1) =~= (start + expected.take(k as int)).push(
                expected[k as int],
            ));
        }
        k = k + 1;
    }
    assert(expected.take(k as int) =~= expected);
}

fn collect_client(
    gc: &GCConfig,
    client: &NicknameListing,
    index: usize,
    now: u64,
    items: &mut Vec<GcItem>,
)
    ensures
        item_views(final(items)@) == item_views(old(items)@) + client_items(
            *gc,
            *client,
            index as int,
            now,
        ),
{
    let ghost start = item_views(items@);
    if is_valid_name(client.name.as_str()) {
        collect_phase(gc, client, index, RunPhase::Incoming, now, items);
        collect_phase(gc, client, index, RunPhase::Ready, now, items);
        collect_phase(gc, client, index, RunPhase::Processing, now, items);
        collect_phase(gc, client, index, RunPhase::Done, now, items);
        collect_phase(gc, client, index, RunPhase::Failed, now, items);
        assert(item_views(items@) =~= start + client_items(*gc, *client, index as int, now));
    } else {
        let verdict = expire_by_mtime(
            &client.mtime,
            gc.orphan_retention_secs,
            now,
            GcReason::InvalidNickname,
        );
        items.push(GcItem { target: GcTarget::Client { index }, verdict });
        assert(item_views(items@) =~= start + client_items(*gc, *client, index as int, now));
    }
}

/// Plans a pass over everything that was seen below the work directory. The steps
/// are to be carried out in order; `failure` is what stops the pass behind them.
pub fn run_gc(gc: &GCConfig, clients: &Vec<NicknameListing>, now: u64) -> (plan: GcPlan)
    ensures
        plan_follows(plan, all_items(*gc, clients@, now)),
{
    let mut items: Vec<GcItem> = Vec::new();
    let mut i: usize = 0;
    assert(clients@.take(0) =~= Seq::<NicknameListing>::empty());
    assert(item_views(items@) =~= Seq::<(GcTarget, Result<GcVerdict, Seq<char>>)>::empty());
    while i < clients.len()
        invariant
            i <= clients.len(),
            item_views(items@) == all_items(*gc, clients@.take(i as int), now),
        decreases clients.len() - i,
    {
        collect_client(gc, &clients[i], i, now, &mut items);
        proof {
            assert(clients@.take(i + 1).drop_last() =~= clients@.take(i as int));
        }
        i = i + 1;
    }
    assert(clients@.take(i as int) =~= clients@);
    let mut steps: Vec<GcStep> = Vec::new();
    let mut k: usize = 0;
    while k < items.len()
        invariant
            k <= items.len(),
            k == steps@.len(),
            item_views(items@) == all_items(*gc, clients@, now),
            forall|j: int|
                0 <= j < k ==> item_views(items@)[j] == (
                    (#[trigger] steps@[j]).target,
                    Ok::<GcVerdict, Seq<char>>(steps@[j].verdict),
                ),
        decreases items.len() - k,
    {
        match &items[k].verdict {
            Ok(verdict) => {
                steps.push(GcStep { target: items[k].target, verdict: *verdict });
            },
            Err(error) => {
                return GcPlan { steps, failure: Some(error.clone()) };
            },
        }
        k = k + 1;
    }
    GcPlan { steps, failure: None }
}

/// How far an item is from its expiry, for the log.
#[derive(Clone, Copy, PartialEq, Eq, Structural, Debug)]
pub enum GcDistance {
    SecondsPastExpiry(u64),
    SecondsUntilDeletion(u64),
}

/// The distance between now and an item's expiry.
pub fn log_decision(decision: ExpiryDecision, now: u64) -> (distance: GcDistance)
    ensures
        distance == (if decision.expired {
            GcDistance::SecondsPastExpiry(
                if now >= decision.expiry_unix_secs {
                    (now - decision.expiry_unix_secs) as u64
                } else {
                    0
                },
            )
        } else {
            GcDistance::SecondsUntilDeletion(
                if decision.expiry_unix_secs >= now {
                    (decision.expiry_unix_secs - now) as u64
                } else {
                    0
                },
            )
        }),
{
    if decision.expired {
        GcDistance::SecondsPastExpiry(now.saturating_sub(decision.expiry_unix_secs))
    } else {
        GcDistance::SecondsUntilDeletion(decision.expiry_unix_secs.saturating_sub(now))
    }
}

/// What a name in the directory of a successful run stands for.
#[derive(Clone, Copy, PartialEq, Eq, Structural, Debug)]
pub enum PayloadClass {
    Files,
    Work,
    Lease,
    Progress,
    Lock,
    Temporary,
    Kept,
}

/// Whether a text ends in `.tmp`.
pub open spec fn is_temporary(name: Seq<char>) -> bool {
    name.len() >= 4 && name.subrange(name.len() - 4, name.len() as int) == ".tmp"@
}

/// What a name in the directory of a successful run stands for.
pub open spec fn payload_class(name: Seq<char>) -> PayloadClass {
    if name == "files"@ {
        PayloadClass::Files
    } else if name == "work"@ {
        PayloadClass::Work
    } else if name == "lease.toml"@ {
        PayloadClass::Lease
    } else if name == "progress.toml"@ {
        PayloadClass::Progress
    } else if name == "processor.lock"@ {
        PayloadClass::Lock
    } else if is_temporary(name) {
        PayloadClass::Temporary
    } else {
        PayloadClass::Kept
    }
}

/// The positions of the names of a class, in order.
pub open spec fn positions(names: Seq<String>, class: PayloadClass) -> Seq<usize>
    decreases names.len(),
{
    if names.len() == 0 {
        Seq::empty()
    } else if payload_class(names.last()@) == class {
        positions(names.drop_last(), class).push((names.len() - 1) as usize)
    } else {
        positions(names.drop_last(), class)
    }
}

/// What pruning removes: directory trees and single files, as positions in the
/// listing of the run's directory.
#[derive(Debug)]
pub struct PrunePlan {
    pub trees: Vec<usize>,
    pub files: Vec<usize>,
}

fn classify_payload(name: &str) -> (class: PayloadClass)
    ensures
        class == payload_class(name@),
{
    if text::same_text(name, "files") {
        return PayloadClass::Files;
    }
    if text::same_text(name, "work") {
        return PayloadClass::Work;
    }
    if text::same_text(name, "lease.toml") {
        return PayloadClass::Lease;
    }
    if text::same_text(name, "progress.toml") {
        return PayloadClass::Progress;
    }
    if text::same_text(name, "processor.lock") {
        return PayloadClass::Lock;
    }
    let length: usize = name.unicode_len();
    if length >= 4 && text::same_text(name.substring_char(length - 4, length), ".tmp") {
        PayloadClass::Temporary
    } else {
        PayloadClass::Kept
    }
}

fn append_positions(names: &Vec<String>, class: PayloadClass, out: &mut Vec<usize>)
    ensures
        final(out)@ == old(out)@ + positions(names@, class),
{
    let ghost start = out@;
    let mut i: usize = 0;
    assert(names@.take(0) =~= Seq::<String>::empty());
    assert(out@ =~= start + positions(names@.take(0), class));
    while i < names.len()
        invariant
            i <= names.len(),
            out@ == start + positions(names@.take(i as int), class),
        decreases names.len() - i,
    {
        proof {
            assert(names@.take(i + 1).drop_last() =~= names@.take(i as int));
            assert(names@.take(i + 1).last() == names@[i as int]);
        }
        if classify_payload(names[i].as_str()) == class {
            out.push(i);
            assert(out@ =~= start + positions(names@.take(i + 1), class));
        }
        i = i + 1;
    }
    assert(names@.take(i as int) =~= names@);
}

/// Plans what to remove from the directory of a successful run, whose names are
/// given: the upload, the work area, and the files that served the processing.
/// Trees go first, then the named files, then temporary files.
pub fn prune_success_terminal(names: &Vec<String>) -> (plan: PrunePlan)
    ensures
        plan.trees@ == positions(names@, PayloadClass::Files) + positions(
            names@,
            PayloadClass::Work,
        ),
        plan.files@ == positions(names@, PayloadClass::Lease) + positions(
            names@,
            PayloadClass::Progress,
        ) + positions(names@, PayloadClass::Lock) + positions(names@, PayloadClass::Temporary),
{
    let mut trees: Vec<usize> = Vec::new();
    append_positions(names, PayloadClass::Files, &mut trees);
    assert(trees@ =~= positions(names@, PayloadClass::Files));
    append_positions(names, PayloadClass::Work, &mut trees);
    let mut files: Vec<usize> = Vec::new();
    append_positions(names, PayloadClass::Lease, &mut files);
    assert(files@ =~= positions(names@, PayloadClass::Lease));
    append_positions(names, PayloadClass::Progress, &mut files);
    append_positions(names, PayloadClass::Lock, &mut files);
    append_positions(names, PayloadClass::Temporary, &mut files);
    PrunePlan { trees, files }
}

/// A listed position holds a name of the class.
pub proof fn positions_are_of_their_class(names: Seq<String>, class: PayloadClass, k: int)
    requires
        names.len() <= usize::MAX,
        0 <= k < positions(names, class).len(),
    ensures
        positions(names, class)[k] < names.len(),
        payload_class(names[positions(names, class)[k] as int]@) == class,
    decreases names.len(),
{
    if names.len() > 0 {
        let shorter = positions(names.drop_last(), class);
        if k < shorter.len() {
            positions_are_of_their_class(names.drop_last(), class, k);
        }
    }
}

/// Every name of the class is listed.
pub proof fn positions_are_complete(names: Seq<String>, class: PayloadClass, i: int)
    requires
        names.len() <= usize::MAX,
        0 <= i < names.len(),
        payload_class(names[i]@) == class,
    ensures
        positions(names, class).contains(i as usize),
    decreases names.len(),
{
    let shorter = positions(names.drop_last(), class);
    if i == names.len() - 1 {
        assert(positions(names, class).last() == i as usize);
    } else {
        positions_are_complete(names.drop_last(), class, i);
        let k = choose|k: int| 0 <= k < shorter.len() && shorter[k] == i as usize;
        assert(positions(names, class)[k] == i as usize);
    }
}

/// Pruning keeps what observers of a finished run read: its status, its
/// configuration and its manifest.
pub proof fn pruning_keeps_observable_state()
    ensures
        payload_class("status.toml"@) is Kept,
        payload_class("run.toml"@) is Kept,
        payload_class("manifest.toml"@) is Kept,
{
    reveal_strlit("files");
    reveal_strlit("work");
    reveal_strlit("lease.toml");
    reveal_strlit("progress.toml");
    reveal_strlit("processor.lock");
    reveal_strlit(".tmp");
    reveal_strlit("status.toml");
    reveal_strlit("run.toml");
    reveal_strlit("manifest.toml");
    let kept = seq!["status.toml"@, "run.toml"@, "manifest.toml"@];
    assert forall|k: int| 0 <= k < 3 implies payload_class(#[trigger] kept[k]) is Kept by {
        let name = kept[k];
        assert(name.last() == 'l');
        assert(name[0] == 's' || name[0] == 'r' || name[0] == 'm');
        assert("files"@[0] == 'f');
        assert("work"@[0] == 'w');
        assert("lease.toml"@[0] == 'l');
        assert("progress.toml"@[0] == 'p');
        assert("processor.lock"@[0] == 'p');
        if is_temporary(name) {
            assert(name.subrange(name.len() - 4, name.len() as int)[3] == ".tmp"@[3]);
        }
    }
    assert(payload_class(kept[0]) is Kept);
    assert(payload_class(kept[1]) is Kept);
    assert(payload_class(kept[2]) is Kept);
}

/// A run on which a processor is at work is never collected.
pub proof fn locked_runs_are_kept(
    gc: GCConfig,
    nickname: Seq<char>,
    run_id: Seq<char>,
    run: RunListing,
    now: u64,
)
    requires
        run.lock == Ok::<Option<bool>, String>(Some(true)),
    ensures
        run_verdict(gc, nickname, run_id, RunPhase::Processing, run, now) matches Ok(verdict)
            ==> verdict.action is KeepLocked,
{
}

/// Nothing is deleted or failed before it has expired, and nothing that has
/// expired is pruned.
pub proof fn only_expired_items_are_collected(
    gc: GCConfig,
    nickname: Seq<char>,
    phase: RunPhase,
    run: RunListing,
    now: u64,
)
    ensures
        listed_verdict(gc, nickname, phase, run, now) matches Ok(verdict) ==> {
            &&& verdict.decision.expired <==> now >= verdict.decision.expiry_unix_secs
            &&& verdict.action is Remove ==> verdict.decision.expired
            &&& verdict.action is FailAbandoned ==> verdict.decision.expired
            &&& verdict.action is Prune ==> !verdict.decision.expired
        },
{
}

/// What has expired stays expired: with the same observations, a later pass gives
/// the same expiry.
pub proof fn expiry_does_not_move(
    gc: GCConfig,
    nickname: Seq<char>,
    phase: RunPhase,
    run: RunListing,
    now: u64,
    later: u64,
)
    requires
        now <= later,
    ensures
        match (
            listed_verdict(gc, nickname, phase, run, now),
            listed_verdict(gc, nickname, phase, run, later),
        ) {
            (Ok(first), Ok(second)) => {
                &&& first.decision.expiry_unix_secs == second.decision.expiry_unix_secs
                &&& first.decision.expired ==> second.decision.expired
            },
            (Err(first), Err(second)) => first == second,
            _ => false,
        },
{
}

/// Pruning cannot prolong the life of a finished run: while the status is valid,
/// only the age of the status file counts, whatever else changes in the directory.
pub proof fn pruning_does_not_extend_retention(
    gc: GCConfig,
    nickname: Seq<char>,
    run_id: Seq<char>,
    phase: RunPhase,
    before: RunListing,
    after: RunListing,
    now: u64,
)
    requires
        phase.is_terminal(),
        valid_terminal(before.status, nickname, run_id, phase),
        after.status == before.status,
        after.status_mtime == before.status_mtime,
    ensures
        run_verdict(gc, nickname, run_id, phase, after, now) == run_verdict(
            gc,
            nickname,
            run_id,
            phase,
            before,
            now,
        ),
{
}

/// The life of a finished run hangs on the age of its status file alone: while the
/// status is valid, the run is deleted exactly when the file is as old as the retention
/// of its phase. At the last second that can be told, a run whose retention ends later
/// still is deleted too, so that moment is left out.
pub proof fn finished_runs_expire_by_the_age_of_their_status(
    gc: GCConfig,
    nickname: Seq<char>,
    run_id: Seq<char>,
    phase: RunPhase,
    run: RunListing,
    since: u64,
    now: u64,
)
    requires
        valid_terminal(run.status, nickname, run_id, phase),
        run.status_mtime == Ok::<u64, String>(since),
        ({
            let retention = if phase is Done {
                gc.done_retention_secs
            } else {
                gc.failed_retention_secs
            };
            now < u64::MAX || since + retention <= u64::MAX
        }),
    ensures
        ({
            let retention = if phase is Done {
                gc.done_retention_secs
            } else {
                gc.failed_retention_secs
            };
            run_verdict(gc, nickname, run_id, phase, run, now) matches Ok(verdict) && (
            verdict.action is Remove <==> now - since >= retention)
        }),
{
}

/// Only a run that succeeded, with a status that this server can trust, is pruned.
pub proof fn only_successful_runs_are_pruned(
    gc: GCConfig,
    nickname: Seq<char>,
    run_id: Seq<char>,
    phase: RunPhase,
    run: RunListing,
    now: u64,
)
    ensures
        run_verdict(gc, nickname, run_id, phase, run, now) matches Ok(verdict) ==> (
        verdict.action is Prune ==> phase is Done && trusted_state(run.status, nickname, run_id)
            == Some(RunState::Done)),
{
}

/// The expiry of a lease that cannot be trusted is not looked at: two incoming runs
/// that are distrusted for the same reason and are equally old fare alike.
pub proof fn distrusted_leases_decide_nothing(
    gc: GCConfig,
    nickname: Seq<char>,
    run_id: Seq<char>,
    one: RunListing,
    other: RunListing,
    now: u64,
)
    requires
        lease_distrust(one.lease, nickname, run_id) is Some,
        lease_distrust(other.lease, nickname, run_id) == lease_distrust(
            one.lease,
            nickname,
            run_id,
        ),
        one.mtime == other.mtime,
    ensures
        run_verdict(gc, nickname, run_id, RunPhase::Incoming, one, now) == run_verdict(
            gc,
            nickname,
            run_id,
            RunPhase::Incoming,
            other,
            now,
        ),
{
}

/// A run that came to rest where its state belongs is kept for the retention of
/// that phase, counted from its status, and not as an orphan.
pub proof fn settled_runs_are_not_orphans(
    gc: GCConfig,
    nickname: Seq<char>,
    run_id: Seq<char>,
    run: RunListing,
    state: RunState,
    now: u64,
)
    requires
        trusted_state(run.status, nickname, run_id) == Some(state),
        run.status_mtime is Ok,
    ensures
        ({
            let phase = state.resting_phase();
            let retention = if phase is Done {
                gc.done_retention_secs
            } else {
                gc.failed_retention_secs
            };
            run_verdict(gc, nickname, run_id, phase, run, now) matches Ok(verdict)
                && verdict.decision.expiry_unix_secs == expiry_at(run.status_mtime->Ok_0, retention)
                && !(verdict.decision.reason is InvalidTerminalStatus)
        }),
{
}

/// A run that waits to be processed is deleted exactly when it is as old as the retention
/// of ready runs. Of a run whose age cannot be told nothing is decided. At the last second
/// that can be told, a run whose retention ends later still is deleted too, so that moment
/// is left out.
pub proof fn ready_runs_expire_by_their_age(
    gc: GCConfig,
    nickname: Seq<char>,
    run: RunListing,
    since: u64,
    now: u64,
)
    requires
        crate::model::valid_name(run.name@),
        run.mtime == Ok::<u64, String>(since),
        now < u64::MAX || since + gc.ready_retention_secs <= u64::MAX,
    ensures
        listed_verdict(gc, nickname, RunPhase::Ready, run, now) matches Ok(verdict)
            && verdict.action == (if now - since >= gc.ready_retention_secs {
            GcAction::Remove
        } else {
            GcAction::Retain
        }),
{
}

/// A run that is in processing and that no processor holds is deleted exactly when it is
/// as old as the retention of such runs; one that a processor holds stays, however old it
/// is; and while it cannot be told whether one holds it, the pass stops.
pub proof fn processing_runs_expire_by_their_age(
    gc: GCConfig,
    nickname: Seq<char>,
    run: RunListing,
    since: u64,
    now: u64,
)
    requires
        crate::model::valid_name(run.name@),
        run.mtime == Ok::<u64, String>(since),
        now < u64::MAX || since + gc.processing_retention_secs <= u64::MAX,
    ensures
        match run.lock {
            Ok(Some(true)) => listed_verdict(
                gc,
                nickname,
                RunPhase::Processing,
                run,
                now,
            ) matches Ok(verdict) && verdict.action is KeepLocked,
            Ok(_) => listed_verdict(gc, nickname, RunPhase::Processing, run, now) matches Ok(verdict)
                && verdict.action == (if now - since >= gc.processing_retention_secs {
                GcAction::Remove
            } else {
                GcAction::Retain
            }),
            Err(error) => listed_verdict(gc, nickname, RunPhase::Processing, run, now) == Err::<
                GcVerdict,
                Seq<char>,
            >(error@),
        },
{
}

/// An upload lives as long as its lease: with a lease of this protocol, written for this
/// run by a compatible client, the run is failed exactly from the moment on at which the
/// lease ends, whatever its age.
pub proof fn uploads_expire_with_their_lease(
    gc: GCConfig,
    nickname: Seq<char>,
    run: RunListing,
    lease: LeaseFile,
    now: u64,
)
    requires
        crate::model::valid_name(run.name@),
        run.lease matches Lookup::Found(document) && version::probe_compatible(document.version@)
            && document.parsed == Ok::<LeaseFile, String>(lease),
        lease.protocol_version == PROTOCOL_VERSION,
        lease.nickname@ == nickname,
        lease.run_id@ == run.name@,
    ensures
        listed_verdict(gc, nickname, RunPhase::Incoming, run, now) matches Ok(verdict)
            && verdict.action == (if now >= lease.expires_at_unix_secs {
            GcAction::FailAbandoned
        } else {
            GcAction::Retain
        }),
{
}

/// Whatever the server cannot make sense of is deleted exactly when it is as old as the
/// retention of orphans: a directory whose name is no run identifier, an upload whose
/// lease is missing, unreadable, of another protocol, of an incompatible client or of
/// another run, and a finished run whose status is missing, unreadable, incompatible, of
/// another run or of another state than its place says.
pub proof fn orphans_expire_by_their_age(
    gc: GCConfig,
    nickname: Seq<char>,
    phase: RunPhase,
    run: RunListing,
    since: u64,
    now: u64,
)
    requires
        run.mtime == Ok::<u64, String>(since),
        now < u64::MAX || since + gc.orphan_retention_secs <= u64::MAX,
        ({
            ||| !crate::model::valid_name(run.name@)
            ||| phase is Incoming && !(run.lease is Found)
            ||| phase is Incoming && (run.lease matches Lookup::Found(document) && (
            !version::probe_compatible(document.version@) || document.parsed is Err
                || document.parsed->Ok_0.protocol_version != PROTOCOL_VERSION
                || document.parsed->Ok_0.nickname@ != nickname || document.parsed->Ok_0.run_id@
                != run.name@))
            ||| phase is Done && !(run.status matches Lookup::Found(document)
                && version::probe_compatible(document.version@) && (
            document.parsed matches Ok(status) && status.nickname@ == nickname && status.run_id@
                == run.name@ && (status.state is Done || status.state is Partial)))
            ||| phase is Failed && !(run.status matches Lookup::Found(document)
                && version::probe_compatible(document.version@) && (
            document.parsed matches Ok(status) && status.nickname@ == nickname && status.run_id@
                == run.name@ && status.state is Failed))
        }),
    ensures
        listed_verdict(gc, nickname, phase, run, now) matches Ok(verdict) && (
        verdict.action is Remove <==> now - since >= gc.orphan_retention_secs),
        !(listed_verdict(gc, nickname, phase, run, now)->Ok_0.action is FailAbandoned),
{
}

/// A finished run with a status of its own, written by a compatible server and saying the
/// state in which such runs rest, is deleted exactly when the status is as old as the
/// retention of its phase; until then it is pruned if it succeeded altogether, and left
/// alone otherwise.
pub proof fn finished_runs_are_pruned_and_then_deleted(
    gc: GCConfig,
    nickname: Seq<char>,
    phase: RunPhase,
    run: RunListing,
    status: RunStatus,
    since: u64,
    now: u64,
)
    requires
        crate::model::valid_name(run.name@),
        run.status matches Lookup::Found(document) && version::probe_compatible(document.version@)
            && document.parsed == Ok::<RunStatus, String>(status),
        status.nickname@ == nickname,
        status.run_id@ == run.name@,
        run.status_mtime == Ok::<u64, String>(since),
        now < u64::MAX || since + gc.done_retention_secs <= u64::MAX && since
            + gc.failed_retention_secs <= u64::MAX,
    ensures
        phase is Done && status.state is Done ==> (listed_verdict(
            gc,
            nickname,
            phase,
            run,
            now,
        ) matches Ok(verdict) && verdict.action == (if now - since >= gc.done_retention_secs {
            GcAction::Remove
        } else {
            GcAction::Prune
        })),
        phase is Done && status.state is Partial ==> (listed_verdict(
            gc,
            nickname,
            phase,
            run,
            now,
        ) matches Ok(verdict) && verdict.action == (if now - since >= gc.done_retention_secs {
            GcAction::Remove
        } else {
            GcAction::Retain
        })),
        phase is Failed && status.state is Failed ==> (listed_verdict(
            gc,
            nickname,
            phase,
            run,
            now,
        ) matches Ok(verdict) && verdict.action == (if now - since >= gc.failed_retention_secs {
            GcAction::Remove
        } else {
            GcAction::Retain
        })),
{
}

/// A directory at the top whose name is no nickname is deleted exactly when it is as old
/// as the retention of orphans.
pub proof fn foreign_directories_expire_by_their_age(
    gc: GCConfig,
    client: NicknameListing,
    index: int,
    since: u64,
    now: u64,
)
    requires
        !crate::model::valid_name(client.name@),
        client.mtime == Ok::<u64, String>(since),
        now < u64::MAX || since + gc.orphan_retention_secs <= u64::MAX,
        0 <= index <= usize::MAX,
    ensures
        client_items(gc, client, index, now).len() == 1,
        ({
            let item = client_items(gc, client, index, now)[0];
            &&& item.0 == (GcTarget::Client { index: index as usize })
            &&& item.1 matches Ok(verdict)
            &&& verdict.action == (if now - since >= gc.orphan_retention_secs {
                GcAction::Remove
            } else {
                GcAction::Retain
            })
        }),
{
}

/// A judgement tells the moment at which the time of an item is over: the retention behind
/// its modification time.
pub proof fn verdicts_tell_when_their_time_is_over(
    gc: GCConfig,
    nickname: Seq<char>,
    phase: RunPhase,
    run: RunListing,
    now: u64,
)
    ensures
        listed_verdict(gc, nickname, phase, run, now) matches Ok(verdict) ==> {
            &&& verdict.decision.expired <==> now >= verdict.decision.expiry_unix_secs
            &&& phase is Ready && crate::model::valid_name(run.name@) && run.mtime->Ok_0
                + gc.ready_retention_secs <= u64::MAX ==> verdict.decision.expiry_unix_secs
                == run.mtime->Ok_0 + gc.ready_retention_secs
            &&& phase is Processing && crate::model::valid_name(run.name@) && run.mtime->Ok_0
                + gc.processing_retention_secs <= u64::MAX ==> verdict.decision.expiry_unix_secs
                == run.mtime->Ok_0 + gc.processing_retention_secs
            &&& !crate::model::valid_name(run.name@) && run.mtime->Ok_0 + gc.orphan_retention_secs
                <= u64::MAX ==> verdict.decision.expiry_unix_secs == run.mtime->Ok_0
                + gc.orphan_retention_secs
        },
{
}

/// The place of a phase on the way of a run.
pub open spec fn phase_rank(phase: RunPhase) -> int {
    match phase {
        RunPhase::Incoming => 0,
        RunPhase::Ready => 1,
        RunPhase::Processing => 2,
        RunPhase::Done => 3,
        RunPhase::Failed => 4,
    }
}

/// Whether an item comes before another in a pass.
pub open spec fn comes_before(first: GcTarget, second: GcTarget) -> bool {
    match (first, second) {
        (GcTarget::Client { index: a }, GcTarget::Client { index: b }) => a < b,
        (GcTarget::Client { index: a }, GcTarget::Run { index: b, .. }) => a < b,
        (GcTarget::Run { index: a, .. }, GcTarget::Client { index: b }) => a < b,
        (
            GcTarget::Run { index: a, phase: p, run: j },
            GcTarget::Run { index: b, phase: q, run: k },
        ) => a < b || a == b && (phase_rank(p) < phase_rank(q) || p == q && j < k),
    }
}

/// The names of a client in a phase.
pub open spec fn listed_in(client: NicknameListing, phase: RunPhase) -> Seq<RunListing> {
    match phase {
        RunPhase::Incoming => client.incoming@,
        RunPhase::Ready => client.ready@,
        RunPhase::Processing => client.processing@,
        RunPhase::Done => client.done@,
        RunPhase::Failed => client.failed@,
    }
}

/// The judgement that is due on an item of a listing, if there is such an item.
pub open spec fn due_verdict(
    gc: GCConfig,
    clients: Seq<NicknameListing>,
    target: GcTarget,
    now: u64,
) -> Option<Result<GcVerdict, Seq<char>>> {
    match target {
        GcTarget::Client { index } => if index < clients.len() && !crate::model::valid_name(
            clients[index as int].name@,
        ) {
            Some(orphan_verdict(gc, clients[index as int].mtime, GcReason::InvalidNickname, now))
        } else {
            None
        },
        GcTarget::Run { index, phase, run } => if index < clients.len() && crate::model::valid_name(
            clients[index as int].name@,
        ) && run < listed_in(clients[index as int], phase).len() {
            Some(
                listed_verdict(
                    gc,
                    clients[index as int].name@,
                    phase,
                    listed_in(clients[index as int], phase)[run as int],
                    now,
                ),
            )
        } else {
            None
        },
    }
}

proof fn lemma_client_items(gc: GCConfig, client: NicknameListing, index: int, now: u64)
    requires
        0 <= index < usize::MAX,
    ensures
        forall|j: int|
            0 <= j < client_items(gc, client, index, now).len() ==> match (
            #[trigger] client_items(gc, client, index, now)[j]).0 {
                GcTarget::Client { index: i } => {
                    &&& i == index
                    &&& !crate::model::valid_name(client.name@)
                    &&& client_items(gc, client, index, now)[j].1 == orphan_verdict(
                        gc,
                        client.mtime,
                        GcReason::InvalidNickname,
                        now,
                    )
                },
                GcTarget::Run { index: i, phase, run } => {
                    &&& i == index
                    &&& crate::model::valid_name(client.name@)
                    &&& run < listed_in(client, phase).len()
                    &&& client_items(gc, client, index, now)[j].1 == listed_verdict(
                        gc,
                        client.name@,
                        phase,
                        listed_in(client, phase)[run as int],
                        now,
                    )
                },
            },
        forall|j: int, k: int|
            0 <= j < k < client_items(gc, client, index, now).len() ==> comes_before(
                (#[trigger] client_items(gc, client, index, now)[j]).0,
                (#[trigger] client_items(gc, client, index, now)[k]).0,
            ),
        forall|phase: RunPhase, run: usize|
            crate::model::valid_name(client.name@) && run < listed_in(client, phase).len()
                ==> exists|j: int|
                0 <= j < client_items(gc, client, index, now).len() && (
                #[trigger] client_items(gc, client, index, now)[j]).0 == #[trigger] run_target(
                    index as usize,
                    phase,
                    run,
                ),
{
    let items = client_items(gc, client, index, now);
    if crate::model::valid_name(client.name@) {
        let n0: int = client.incoming.len() as int;
        let n1: int = n0 + client.ready.len();
        let n2: int = n1 + client.processing.len();
        let n3: int = n2 + client.done.len();
        let n4: int = n3 + client.failed.len();
        assert(items.len() == n4);
        assert forall|j: int| 0 <= j < n4 implies (#[trigger] items[j]).0 == run_target(
            index as usize,
            if j < n0 {
                RunPhase::Incoming
            } else if j < n1 {
                RunPhase::Ready
            } else if j < n2 {
                RunPhase::Processing
            } else if j < n3 {
                RunPhase::Done
            } else {
                RunPhase::Failed
            },
            (if j < n0 {
                j
            } else if j < n1 {
                j - n0
            } else if j < n2 {
                j - n1
            } else if j < n3 {
                j - n2
            } else {
                j - n3
            }) as usize,
        ) by {
            if j < n0 {
                assert(items[j] == phase_items(gc, client, index, RunPhase::Incoming, now)[j]);
            } else if j < n1 {
                assert(items[j] == phase_items(gc, client, index, RunPhase::Ready, now)[j - n0]);
            } else if j < n2 {
                assert(items[j] == phase_items(gc, client, index, RunPhase::Processing, now)[j
                    - n1]);
            } else if j < n3 {
                assert(items[j] == phase_items(gc, client, index, RunPhase::Done, now)[j - n2]);
            } else {
                assert(items[j] == phase_items(gc, client, index, RunPhase::Failed, now)[j - n3]);
            }
        }
        assert forall|phase: RunPhase, run: usize|
            run < listed_in(client, phase).len() implies exists|j: int|
            0 <= j < items.len() && (#[trigger] items[j]).0 == #[trigger] run_target(
                index as usize,
                phase,
                run,
            ) by {
            let j: int = match phase {
                RunPhase::Incoming => run as int,
                RunPhase::Ready => n0 + run,
                RunPhase::Processing => n1 + run,
                RunPhase::Done => n2 + run,
                RunPhase::Failed => n3 + run,
            };
            assert(items[j].0 == run_target(index as usize, phase, run));
        }
    }
}

/// A run as an item.
pub open spec fn run_target(index: usize, phase: RunPhase, run: usize) -> GcTarget {
    GcTarget::Run { index, phase, run }
}

/// A pass judges everything that is listed, each item once and by what was seen of it
/// alone: client by client, and for each client the phases in the order in which a run
/// goes through them. Below a directory whose name is no nickname nothing is judged but
/// the directory.
pub proof fn passes_judge_everything_once(gc: GCConfig, clients: Seq<NicknameListing>, now: u64)
    requires
        clients.len() < usize::MAX,
    ensures
        forall|j: int|
            0 <= j < all_items(gc, clients, now).len() ==> due_verdict(
                gc,
                clients,
                (#[trigger] all_items(gc, clients, now)[j]).0,
                now,
            ) == Some(all_items(gc, clients, now)[j].1),
        forall|j: int, k: int|
            0 <= j < k < all_items(gc, clients, now).len() ==> comes_before(
                (#[trigger] all_items(gc, clients, now)[j]).0,
                (#[trigger] all_items(gc, clients, now)[k]).0,
            ),
        forall|target: GcTarget|
            (#[trigger] due_verdict(gc, clients, target, now)) is Some ==> exists|j: int|
                0 <= j < all_items(gc, clients, now).len() && (
                #[trigger] all_items(gc, clients, now)[j]).0 == target,
    decreases clients.len(),
{
    if clients.len() > 0 {
        let last = clients.len() - 1;
        let fewer = clients.drop_last();
        let head = all_items(gc, fewer, now);
        let tail = client_items(gc, clients.last(), last, now);
        let items = all_items(gc, clients, now);
        passes_judge_everything_once(gc, fewer, now);
        lemma_client_items(gc, clients.last(), last, now);
        assert forall|j: int| 0 <= j < items.len() implies due_verdict(
            gc,
            clients,
            (#[trigger] items[j]).0,
            now,
        ) == Some(items[j].1) by {
            if j < head.len() {
                assert(items[j] == head[j]);
                assert(due_verdict(gc, fewer, head[j].0, now) == Some(head[j].1));
            } else {
                assert(items[j] == tail[j - head.len()]);
            }
        }
        assert forall|j: int, k: int| 0 <= j < k < items.len() implies comes_before(
            (#[trigger] items[j]).0,
            (#[trigger] items[k]).0,
        ) by {
            if k < head.len() {
                assert(items[j] == head[j] && items[k] == head[k]);
            } else if j < head.len() {
                assert(items[j] == head[j]);
                assert(due_verdict(gc, fewer, head[j].0, now) is Some);
                assert(items[k] == tail[k - head.len()]);
            } else {
                assert(items[j] == tail[j - head.len()]);
                assert(items[k] == tail[k - head.len()]);
            }
        }
        assert forall|target: GcTarget|
            (#[trigger] due_verdict(gc, clients, target, now)) is Some implies exists|j: int|
            0 <= j < items.len() && (#[trigger] items[j]).0 == target by {
            let index: int = match target {
                GcTarget::Client { index } => index as int,
                GcTarget::Run { index, .. } => index as int,
            };
            if index < last {
                assert(fewer[index] == clients[index]);
                assert(due_verdict(gc, fewer, target, now) is Some);
                let j = choose|j: int| 0 <= j < head.len() && (#[trigger] head[j]).0 == target;
                assert(items[j].0 == target);
            } else {
                match target {
                    GcTarget::Client { .. } => {
                        assert(tail[0].0 == target);
                        assert(items[head.len() as int].0 == target);
                    },
                    GcTarget::Run { index: i, phase, run } => {
                        assert(run_target(last as usize, phase, run) == target);
                        let j = choose|j: int|
                            0 <= j < tail.len() && (#[trigger] tail[j]).0 == run_target(
                                last as usize,
                                phase,
                                run,
                            );
                        assert(items[head.len() + j].0 == target);
                    },
                }
            }
        }
    }
}

/// A plan holds the judgements in order and all of them, unless one could not be made:
/// then it ends before the first such item, and says why.
pub proof fn plans_stop_at_the_first_failure(
    plan: GcPlan,
    items: Seq<(GcTarget, Result<GcVerdict, Seq<char>>)>,
)
    requires
        plan_follows(plan, items),
    ensures
        forall|k: int|
            0 <= k < plan.steps@.len() ==> {
                &&& items[k].0 == (#[trigger] plan.steps@[k]).target
                &&& items[k].1 == Ok::<GcVerdict, Seq<char>>(plan.steps@[k].verdict)
            },
        (forall|k: int| 0 <= k < items.len() ==> (#[trigger] items[k]).1 is Ok) ==> plan.failure
            is None && plan.steps@.len() == items.len(),
        forall|k: int|
            0 <= k < items.len() && (#[trigger] items[k]).1 is Err && (forall|j: int|
                0 <= j < k ==> (#[trigger] items[j]).1 is Ok) ==> plan.steps@.len() == k && (
            plan.failure matches Some(error) && items[k].1 == Err::<GcVerdict, Seq<char>>(error@)),
{
    let n = plan.steps@.len() as int;
    assert forall|k: int|
        0 <= k < items.len() && (#[trigger] items[k]).1 is Err && (forall|j: int|
            0 <= j < k ==> (#[trigger] items[j]).1 is Ok) implies plan.steps@.len() == k && (
    plan.failure matches Some(error) && items[k].1 == Err::<GcVerdict, Seq<char>>(error@)) by {
        if k < n {
            assert(plan.steps@[k].target == items[k].0);
        }
    }
}

/// Pruning deletes from the directory of a successful run the upload and the work area
/// with all that is in them, and of the files exactly the lease, the progress, the lock
/// and what has a name that ends in `.tmp`: each once, and nothing else.
pub proof fn pruning_deletes_the_payload_and_nothing_else(names: Seq<String>, i: int)
    requires
        names.len() <= usize::MAX,
        0 <= i < names.len(),
    ensures
        positions(names, PayloadClass::Files).contains(i as usize) <==> names[i]@ == "files"@,
        positions(names, PayloadClass::Work).contains(i as usize) <==> names[i]@ == "work"@,
        positions(names, PayloadClass::Lease).contains(i as usize) <==> names[i]@ == "lease.toml"@,
        positions(names, PayloadClass::Progress).contains(i as usize) <==> names[i]@
            == "progress.toml"@,
        positions(names, PayloadClass::Lock).contains(i as usize) <==> names[i]@
            == "processor.lock"@,
        positions(names, PayloadClass::Temporary).contains(i as usize) <==> names[i]@.len() >= 4
            && names[i]@.skip(names[i]@.len() - 4) == ".tmp"@,
{
    reveal_strlit("files");
    reveal_strlit("work");
    reveal_strlit("lease.toml");
    reveal_strlit("progress.toml");
    reveal_strlit("processor.lock");
    reveal_strlit(".tmp");
    let name = names[i]@;
    assert("files"@[0] == 'f' && "work"@[0] == 'w' && "lease.toml"@[0] == 'l');
    assert("progress.toml"@.len() == 13 && "processor.lock"@.len() == 14);
    assert("progress.toml"@[0] == 'p' && "processor.lock"@[0] == 'p');
    if name.len() >= 4 {
        assert(name.skip(name.len() - 4) =~= name.subrange(name.len() - 4, name.len() as int));
        assert(name.skip(name.len() - 4)[3] == name.last());
        assert(".tmp"@[3] == 'p');
        assert("files"@.last() == 's' && "work"@.last() == 'k' && "lease.toml"@.last() == 'l'
            && "progress.toml"@.last() == 'l' && "processor.lock"@.last() == 'k');
    }
    let classes = seq![
        PayloadClass::Files,
        PayloadClass::Work,
        PayloadClass::Lease,
        PayloadClass::Progress,
        PayloadClass::Lock,
        PayloadClass::Temporary,
    ];
    assert forall|c: int| 0 <= c < 6 implies (positions(names, #[trigger] classes[c]).contains(
        i as usize,
    ) <==> payload_class(name) == classes[c]) by {
        let class = classes[c];
        if payload_class(name) == class {
            positions_are_complete(names, class, i);
        }
        if positions(names, class).contains(i as usize) {
            let k = choose|k: int|
                0 <= k < positions(names, class).len() && positions(names, class)[k] == i as usize;
            positions_are_of_their_class(names, class, k);
        }
    }
    assert(classes[0] is Files && classes[1] is Work && classes[2] is Lease && classes[3]
        is Progress && classes[4] is Lock && classes[5] is Temporary);
}

/// A position is listed once, and positions come in the order of the listing.
pub proof fn positions_come_in_order(names: Seq<String>, class: PayloadClass, j: int, k: int)
    requires
        names.len() <= usize::MAX,
        0 <= j < k < positions(names, class).len(),
    ensures
        positions(names, class)[j] < positions(names, class)[k],
    decreases names.len(),
{
    if names.len() > 0 {
        let shorter = positions(names.drop_last(), class);
        if k < shorter.len() {
            positions_come_in_order(names.drop_last(), class, j, k);
        } else {
            positions_are_of_their_class(names.drop_last(), class, j);
        }
    }
}

/// The reason of a judgement tells on what it rests: the name, the lease or the status, as
/// far as each can be trusted, and otherwise the phase.
pub proof fn reasons_tell_what_a_judgement_rests_on(
    gc: GCConfig,
    nickname: Seq<char>,
    phase: RunPhase,
    run: RunListing,
    now: u64,
)
    requires
        listed_verdict(gc, nickname, phase, run, now) is Ok,
    ensures
        ({
            let reason = listed_verdict(gc, nickname, phase, run, now)->Ok_0.decision.reason;
            let named = crate::model::valid_name(run.name@);
            let document = run.lease->Found_0;
            &&& reason is InvalidRunId <==> !named
            &&& reason is Retention <==> named && phase is Ready
            &&& reason is ProcessingRetention <==> named && phase is Processing
            &&& named && phase is Incoming ==> {
                &&& reason is MissingLease <==> !(run.lease is Found)
                &&& run.lease is Found ==> {
                    let current = document.parsed->Ok_0;
                    let foreign = !version::probe_compatible(document.version@);
                    let read = !foreign && document.parsed is Ok;
                    &&& reason is IncompatibleVersion <==> foreign
                    &&& reason is MalformedLease <==> !foreign && document.parsed is Err
                    &&& reason is ProtocolMismatch <==> read && current.protocol_version
                        != PROTOCOL_VERSION
                    &&& reason is EnvelopeMismatch <==> read && current.protocol_version
                        == PROTOCOL_VERSION && (current.nickname@ != nickname || current.run_id@
                        != run.name@)
                    &&& reason is Lease <==> read && current.protocol_version == PROTOCOL_VERSION
                        && current.nickname@ == nickname && current.run_id@ == run.name@
                }
            }
            &&& named && (phase is Done || phase is Failed) ==> reason is DoneRetention || reason
                is FailedRetention || reason is InvalidTerminalStatus
            &&& reason is DoneRetention ==> phase is Done
            &&& reason is FailedRetention ==> phase is Failed
        }),
{
}

} // verus!
