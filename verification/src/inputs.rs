//! The documents that a run is processed from.

use vstd::prelude::*;

use crate::failure;
use crate::failure::Failure;
use crate::model::{Document, Lookup, Manifest, Nickname, RunConfig, RunId};
use crate::text;
use crate::version;
use crate::version::TomlVersionCheck;

verus! {

/// Why a run was not processed.
#[derive(Debug)]
pub enum ProcessingError {
    /// A document of the run has a missing or incompatible version. The run must be
    /// left in place: no failure status, no move to failed, no other change.
    Incompatible { path: String, message: String },
    /// Anything else that went wrong. The run is to be failed.
    Other(Failure),
}

/// Why a run was not processed, as characters.
pub enum ProcessingErrorView {
    Incompatible { path: Seq<char>, message: Seq<char> },
    Other(failure::FailureView),
}

impl View for ProcessingError {
    type V = ProcessingErrorView;

    open spec fn view(&self) -> ProcessingErrorView {
        match self {
            ProcessingError::Incompatible { path, message } => ProcessingErrorView::Incompatible {
                path: path@,
                message: message@,
            },
            ProcessingError::Other(failure) => ProcessingErrorView::Other(failure@),
        }
    }
}

impl ProcessingError {
    /// The text of the error.
    pub fn text(&self) -> (s: String)
        ensures
            s@ == (match self {
                ProcessingError::Incompatible { message, .. } => message@,
                ProcessingError::Other(failure) => failure.message@,
            }),
    {
        match self {
            ProcessingError::Incompatible { message, .. } => message.clone(),
            ProcessingError::Other(failure) => failure.message.clone(),
        }
    }
}

impl From<Failure> for ProcessingError {
    fn from(failure: Failure) -> (error: ProcessingError) {
        ProcessingError::Other(failure)
    }
}

impl vstd::std_specs::convert::FromSpecImpl<Failure> for ProcessingError {
    open spec fn obeys_from_spec() -> bool {
        true
    }

    open spec fn from_spec(failure: Failure) -> ProcessingError {
        ProcessingError::Other(failure)
    }
}

/// What does not fit between a run's directory and its documents, if anything.
pub open spec fn envelope_error(
    nickname: Seq<char>,
    run_id: Seq<char>,
    run_config: RunConfig,
    manifest: Manifest,
) -> Option<Seq<char>> {
    if run_config.nickname@ != nickname {
        Some(
            "run config nickname '"@ + run_config.nickname@ + "' does not match '"@ + nickname
                + "'"@,
        )
    } else if manifest.nickname@ != nickname {
        Some(
            "manifest nickname '"@ + manifest.nickname@ + "' does not match '"@ + nickname + "'"@,
        )
    } else if manifest.run_id@ != run_id {
        Some("manifest run_id '"@ + manifest.run_id@ + "' does not match '"@ + run_id + "'"@)
    } else {
        None
    }
}

/// Checks that the documents of a run were written for it.
pub fn validate_envelope(
    nickname: &Nickname,
    run_id: &RunId,
    run_config: &RunConfig,
    manifest: &Manifest,
) -> (r: Result<(), String>)
    ensures
        match envelope_error(nickname@, run_id@, *run_config, *manifest) {
            Some(error) => r matches Err(e) && e@ == error,
            None => r is Ok,
        },
{
    if !text::same_text(run_config.nickname.as_str(), nickname.as_str()) {
        return Err(
            text::cat5(
                "run config nickname '",
                run_config.nickname.as_str(),
                "' does not match '",
                nickname.as_str(),
                "'",
            ),
        );
    }
    if !text::same_text(manifest.nickname.as_str(), nickname.as_str()) {
        return Err(
            text::cat5(
                "manifest nickname '",
                manifest.nickname.as_str(),
                "' does not match '",
                nickname.as_str(),
                "'",
            ),
        );
    }
    if !text::same_text(manifest.run_id.as_str(), run_id.as_str()) {
        return Err(
            text::cat5(
                "manifest run_id '",
                manifest.run_id.as_str(),
                "' does not match '",
                run_id.as_str(),
                "'",
            ),
        );
    }
    Ok(())
}

/// Why a document of a run cannot be used, if it cannot. `what` names the document.
pub open spec fn document_error<T>(
    found: Lookup<T>,
    what: Seq<char>,
    path: Seq<char>,
) -> Option<ProcessingErrorView> {
    match found {
        Lookup::Missing(error) | Lookup::Unreadable(error) => Some(
            ProcessingErrorView::Other(
                failure::plain("failed to read "@ + what + ": "@ + error@),
            ),
        ),
        Lookup::Found(document) => match document.version@ {
            version::ProbeView::Missing => Some(
                ProcessingErrorView::Incompatible {
                    path,
                    message: "incompatible "@ + what + " version: "@
                        + version::missing_version_reason(),
                },
            ),
            version::ProbeView::Invalid(error) => Some(
                ProcessingErrorView::Other(
                    failure::plain("invalid "@ + what + " TOML: "@ + error),
                ),
            ),
            version::ProbeView::Version(v) => if !version::compatible(v) {
                Some(
                    ProcessingErrorView::Incompatible {
                        path,
                        message: "incompatible "@ + what + " version: "@
                            + version::foreign_version_reason(v),
                    },
                )
            } else {
                match document.parsed {
                    Err(error) => Some(
                        ProcessingErrorView::Other(
                            failure::plain("failed to parse "@ + what + ": "@ + error@),
                        ),
                    ),
                    Ok(_) => None,
                }
            },
        },
    }
}

fn check_document<T>(found: &Lookup<T>, what: &str, path: &str) -> (r: Result<(), ProcessingError>)
    ensures
        match document_error(*found, what@, path@) {
            Some(error) => r matches Err(e) && e@ == error,
            None => r is Ok,
        },
{
    match found {
        Lookup::Missing(error) | Lookup::Unreadable(error) => Err(
            ProcessingError::Other(
                Failure::new(text::cat4("failed to read ", what, ": ", error.as_str())),
            ),
        ),
        Lookup::Found(document) => match version::check_probe(&document.version) {
            TomlVersionCheck::Incompatible { reason } => Err(
                ProcessingError::Incompatible {
                    path: path.to_owned(),
                    message: text::cat4("incompatible ", what, " version: ", reason.as_str()),
                },
            ),
            TomlVersionCheck::InvalidToml { error } => Err(
                ProcessingError::Other(
                    Failure::new(text::cat4("invalid ", what, " TOML: ", error.as_str())),
                ),
            ),
            TomlVersionCheck::Compatible => match &document.parsed {
                Err(error) => Err(
                    ProcessingError::Other(
                        Failure::new(text::cat4("failed to parse ", what, ": ", error.as_str())),
                    ),
                ),
                Ok(_) => Ok(()),
            },
        },
    }
}

/// Why a run cannot be processed from its documents, if it cannot.
pub open spec fn inputs_error(
    run_config: Lookup<RunConfig>,
    manifest: Lookup<Manifest>,
    nickname: Seq<char>,
    run_id: Seq<char>,
    run_config_path: Seq<char>,
    manifest_path: Seq<char>,
) -> Option<ProcessingErrorView> {
    match document_error(run_config, "run config"@, run_config_path) {
        Some(error) => Some(error),
        None => match document_error(manifest, "manifest"@, manifest_path) {
            Some(error) => Some(error),
            None => match envelope_error(
                nickname,
                run_id,
                (run_config->Found_0).parsed->Ok_0,
                (manifest->Found_0).parsed->Ok_0,
            ) {
                Some(error) => Some(
                    ProcessingErrorView::Other(
                        failure::plain("envelope validation failed: "@ + error),
                    ),
                ),
                None => None,
            },
        },
    }
}

/// Checks the configuration and the manifest of a run before anything is changed:
/// readable, of a compatible version, well-formed, and written for this run.
pub fn read_compatible_run_inputs(
    run_config: &Lookup<RunConfig>,
    manifest: &Lookup<Manifest>,
    nickname: &Nickname,
    run_id: &RunId,
    run_config_path: &str,
    manifest_path: &str,
) -> (r: Result<(), ProcessingError>)
    ensures
        match inputs_error(
            *run_config,
            *manifest,
            nickname@,
            run_id@,
            run_config_path@,
            manifest_path@,
        ) {
            Some(error) => r matches Err(e) && e@ == error,
            None => r is Ok,
        },
        r is Ok ==> (run_config matches Lookup::Found(document) && document.parsed is Ok) && (
        manifest matches Lookup::Found(document) && document.parsed is Ok),
{
    match check_document(run_config, "run config", run_config_path) {
        Err(error) => {
            return Err(error);
        },
        Ok(()) => {},
    }
    match check_document(manifest, "manifest", manifest_path) {
        Err(error) => {
            return Err(error);
        },
        Ok(()) => {},
    }
    match (run_config, manifest) {
        (Lookup::Found(config_document), Lookup::Found(manifest_document)) => match (
            &config_document.parsed,
            &manifest_document.parsed,
        ) {
            (Ok(config), Ok(entries)) => match validate_envelope(
                nickname,
                run_id,
                config,
                entries,
            ) {
                Err(error) => Err(
                    ProcessingError::Other(
                        Failure::new(
                            text::cat2("envelope validation failed: ", error.as_str()),
                        ),
                    ),
                ),
                Ok(()) => Ok(()),
            },
            _ => Ok(()),
        },
        _ => Ok(()),
    }
}

/// What the documents of a run amount to.
#[derive(Clone, Copy, PartialEq, Eq, Structural, Debug)]
pub enum InputsVerdict {
    Compatible,
    Incompatible,
    Malformed,
}

/// What the check of a run's documents amounts to.
pub open spec fn inputs_verdict(error: Option<ProcessingErrorView>) -> InputsVerdict {
    match error {
        None => InputsVerdict::Compatible,
        Some(ProcessingErrorView::Incompatible { .. }) => InputsVerdict::Incompatible,
        Some(ProcessingErrorView::Other(_)) => InputsVerdict::Malformed,
    }
}

/// What the check of a run's documents amounts to.
pub fn judge_inputs(r: &Result<(), ProcessingError>) -> (verdict: InputsVerdict)
    ensures
        verdict == inputs_verdict(
            match r {
                Ok(_) => None,
                Err(error) => Some(error@),
            },
        ),
{
    match r {
        Ok(_) => InputsVerdict::Compatible,
        Err(ProcessingError::Incompatible { .. }) => InputsVerdict::Incompatible,
        Err(ProcessingError::Other(_)) => InputsVerdict::Malformed,
    }
}

/// A run is found incompatible only because of a version: whenever both documents
/// are of this release line, nothing about them makes the run incompatible.
pub proof fn incompatibility_is_about_versions(
    run_config: Document<RunConfig>,
    manifest: Document<Manifest>,
    nickname: Seq<char>,
    run_id: Seq<char>,
    run_config_path: Seq<char>,
    manifest_path: Seq<char>,
)
    requires
        version::probe_compatible(run_config.version@),
        version::probe_compatible(manifest.version@),
    ensures
        !(inputs_verdict(
            inputs_error(
                Lookup::Found(run_config),
                Lookup::Found(manifest),
                nickname,
                run_id,
                run_config_path,
                manifest_path,
            ),
        ) is Incompatible),
{
}

/// A run configuration of another release line is never blamed on its contents: the
/// run is incompatible, whatever else its documents hold.
pub proof fn foreign_run_configs_are_incompatible(
    run_config: Document<RunConfig>,
    manifest: Lookup<Manifest>,
    nickname: Seq<char>,
    run_id: Seq<char>,
    run_config_path: Seq<char>,
    manifest_path: Seq<char>,
)
    requires
        !version::probe_compatible(run_config.version@),
        !(run_config.version@ is Invalid),
    ensures
        inputs_verdict(
            inputs_error(
                Lookup::Found(run_config),
                manifest,
                nickname,
                run_id,
                run_config_path,
                manifest_path,
            ),
        ) is Incompatible,
{
}

/// A run can be processed if and only if both its documents can be read, are of this
/// release line, are well-formed and name the run: the configuration its client, the
/// manifest its client and its identifier. It is of another release line if and only if
/// the first document with which something is wrong names no version or one of another
/// release line.
pub proof fn runs_are_judged_by_both_documents(
    run_config: Lookup<RunConfig>,
    manifest: Lookup<Manifest>,
    nickname: Seq<char>,
    run_id: Seq<char>,
    run_config_path: Seq<char>,
    manifest_path: Seq<char>,
)
    ensures
        ({
            let verdict = inputs_verdict(
                inputs_error(
                    run_config,
                    manifest,
                    nickname,
                    run_id,
                    run_config_path,
                    manifest_path,
                ),
            );
            let sound_config = run_config matches Lookup::Found(document) && (
            document.version@ matches version::ProbeView::Version(v) && "0.1."@.is_prefix_of(v))
                && document.parsed is Ok;
            let foreign_config = run_config matches Lookup::Found(document) && (document.version@
                is Missing || (document.version@ matches version::ProbeView::Version(v)
                && !"0.1."@.is_prefix_of(v)));
            let sound_manifest = manifest matches Lookup::Found(document) && (
            document.version@ matches version::ProbeView::Version(v) && "0.1."@.is_prefix_of(v))
                && document.parsed is Ok;
            let foreign_manifest = manifest matches Lookup::Found(document) && (document.version@
                is Missing || (document.version@ matches version::ProbeView::Version(v)
                && !"0.1."@.is_prefix_of(v)));
            &&& verdict is Compatible <==> {
                &&& sound_config && sound_manifest
                &&& (run_config->Found_0).parsed->Ok_0.nickname@ == nickname
                &&& (manifest->Found_0).parsed->Ok_0.nickname@ == nickname
                &&& (manifest->Found_0).parsed->Ok_0.run_id@ == run_id
            }
            &&& verdict is Incompatible <==> foreign_config || sound_config && foreign_manifest
        }),
{
    match run_config {
        Lookup::Found(document) => match document.version@ {
            version::ProbeView::Version(v) => {
                version::compatible_versions_begin_alike(v);
            },
            _ => {},
        },
        _ => {},
    }
    match manifest {
        Lookup::Found(document) => match document.version@ {
            version::ProbeView::Version(v) => {
                version::compatible_versions_begin_alike(v);
            },
            _ => {},
        },
        _ => {},
    }
}

/// Documents that were not written for a run are told by the first name that does not fit:
/// the name that was found, and then the name that was expected.
pub proof fn envelope_errors_tell_the_first_mismatch(
    nickname: Seq<char>,
    run_id: Seq<char>,
    run_config: RunConfig,
    manifest: Manifest,
)
    ensures
        ({
            let error = envelope_error(nickname, run_id, run_config, manifest);
            &&& run_config.nickname@ != nickname ==> error is Some && (run_config.nickname@
                + "' does not match '"@ + nickname + "'"@).is_suffix_of(error->0)
            &&& run_config.nickname@ == nickname && manifest.nickname@ != nickname ==> error is Some
                && (manifest.nickname@ + "' does not match '"@ + nickname + "'"@).is_suffix_of(
                error->0,
            )
            &&& run_config.nickname@ == nickname && manifest.nickname@ == nickname
                && manifest.run_id@ != run_id ==> error is Some && (manifest.run_id@
                + "' does not match '"@ + run_id + "'"@).is_suffix_of(error->0)
            &&& error is None <==> run_config.nickname@ == nickname && manifest.nickname@ == nickname
                && manifest.run_id@ == run_id
        }),
{
    let between = "' does not match '"@;
    let first = run_config.nickname@ + between + nickname + "'"@;
    let second = manifest.nickname@ + between + nickname + "'"@;
    let third = manifest.run_id@ + between + run_id + "'"@;
    text::joined_texts_keep_both_ends("run config nickname '"@, first);
    assert("run config nickname '"@ + first =~= "run config nickname '"@ + run_config.nickname@
        + between + nickname + "'"@);
    text::joined_texts_keep_both_ends("manifest nickname '"@, second);
    assert("manifest nickname '"@ + second =~= "manifest nickname '"@ + manifest.nickname@ + between
        + nickname + "'"@);
    text::joined_texts_keep_both_ends("manifest run_id '"@, third);
    assert("manifest run_id '"@ + third =~= "manifest run_id '"@ + manifest.run_id@ + between
        + run_id + "'"@);
}

/// A processing error is told in full: a version that does not fit with the document and the
/// words for it, anything else as the failure that it is.
pub proof fn processing_errors_keep_their_words(error: ProcessingError)
    ensures
        error matches ProcessingError::Incompatible { path, message } ==> error@ == (
        ProcessingErrorView::Incompatible { path: path@, message: message@ }),
        error matches ProcessingError::Other(failure) ==> error@ == ProcessingErrorView::Other(
            failure@,
        ),
{
}

} // verus!
