//! The server side of one-way file flows: runs arrive in a work directory, are
//! processed one phase at a time and end in a terminal phase with a status.

pub mod batch;
pub mod claim;
pub mod cli;
pub mod commit;
pub mod entry;
pub mod failure;
pub mod gc;
pub mod inputs;
pub mod lifecycle;
pub mod model;
pub mod output;
pub mod paths;
pub mod phases;
pub mod postprocess;
pub mod process;
pub mod progress;
pub mod protocol;
pub mod publish;
pub mod recover;
pub mod server;
pub mod shell;
pub mod subprocess;
pub mod target;
pub mod text;
pub mod transform;
pub mod version;
pub mod work;
