//! The answers that the server gives to its clients.

use vstd::prelude::*;

verus! {

/// Where a client may upload a new run.
#[derive(Debug)]
pub struct BeginRunResponse {
    pub protocol_version: u32,
    pub purgery_version: String,
    pub nickname: String,
    pub run_id: String,
    pub incoming_dir: String,
    pub files_dir: String,
    pub run_config_path: String,
    pub manifest_path: String,
    pub heartbeat_interval_secs: u64,
}

/// The outcome of validating a run plan; the destination only if it was resolved.
#[derive(Debug)]
pub struct PrepareRunResponse {
    pub protocol_version: u32,
    pub purgery_version: String,
    pub nickname: String,
    pub run_id: String,
    pub destination: Option<String>,
}

/// Where a run stands, as far as the work directory shows.
#[derive(Debug)]
pub struct RunStateResponse {
    pub protocol_version: u32,
    pub purgery_version: String,
    pub nickname: String,
    pub run_id: String,
    pub phase: String,
    pub terminal: bool,
    pub message: String,
    pub updated_at_unix_secs: u64,
    pub observed_at_unix_secs: u64,
    pub progress_state: Option<String>,
    pub entry_index: Option<usize>,
    pub entry_total: Option<usize>,
    pub current_entry: Option<String>,
    pub current_transform: Option<String>,
    pub progress_status: Option<String>,
    pub processor_state: Option<String>,
}

/// What a request to process a run came to.
#[derive(Debug)]
pub struct ProcessRunResponse {
    pub protocol_version: u32,
    pub purgery_version: String,
    pub nickname: String,
    pub run_id: String,
    pub outcome: String,
    pub run_phase: Option<String>,
    pub status_state: Option<String>,
    pub message: Option<String>,
}

/// Why a request was refused.
#[derive(Debug)]
pub struct ProtocolErrorDetail {
    pub code: String,
    pub message: String,
}

/// The envelope of a refused request.
#[derive(Debug)]
pub struct ProtocolErrorResponse {
    pub protocol_version: u32,
    pub purgery_version: String,
    pub command: String,
    pub ok: bool,
    pub error: ProtocolErrorDetail,
}

} // verus!
