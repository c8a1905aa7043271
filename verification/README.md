# purgery_server

The server of Purgery, which runs one-way file flows: a client uploads a run, the
server imports its entries, optionally through a transform, and leaves a status behind.

The rules of the server are a library verified with Verus (`src/`). The program around
it (`app/`) reads and writes files, takes locks, runs programs and talks TOML.

## How the two work together

The library touches no file. What it decides at once is a function of what was seen
(`phases::finish_run`, `server::run_state`, `gc::run_gc`). What takes several steps is a
step enum together with a function from a step and a report to the next step; the program
carries the step out and reports back. The program drives these machines:

| Work | Machine |
| --- | --- |
| one pass over all runs | `batch::process_once_raw` |
| a request for one run | `target::process_run_inner` |
| claiming a ready run | `claim::claim_ready_run` |
| processing a run | `process::process_processing_run` |
| recovering an interrupted run | `recover::recover_processing_run_if_unlocked` |
| one entry of a run | `entry::process_manifest_entry` |
| copying an entry | `work::prepare_work_entry` |
| running a program | `subprocess::Subprocess` |
| placing an output | `commit::Commit`, `commit::commit_directory_tree` |
| setting up an upload | `phases::BeginStep` |
| publishing a failure | `phases::FailureStep` |
| failing an abandoned upload | `phases::AbandonStep` |
| replacing a document | `publish::PublishStep` |

Documents reach the library as `model::Lookup`: missing, unreadable, or found with a probed
version and the outcome of parsing. A document of another release line is never acted on.

## Modules

- `model`, `protocol`, `failure`, `text`, `version`, `paths`: names, documents, errors,
  text building, version agreement, and paths.
- `inputs`, `progress`, `publish`, `phases`, `server`, `cli`: the requests of a client and of an
  operator.
- `batch`, `target`, `claim`, `process`, `recover`, `entry`, `work`, `commit`: what happens
  to a run.
- `transform`, `postprocess`, `subprocess`, `output`: programs and what they leave.
- `gc`: what expires, and when.
- `shell`: quoting for a remote shell.
- `lifecycle`: what holds across the modules, from the first request to the last reading of
  a status.

## What is taken on trust

Paths are handled by `camino` (`paths.rs`), the version key of a document is read by `toml`
(`version.rs`), and bytes become text through the standard library (`transform.rs`,
`text.rs`). The contracts of these calls are stated beside them.
