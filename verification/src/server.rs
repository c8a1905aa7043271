//! Requests about a run and about the server itself: validating a run plan, reading
//! statuses, telling where a run stands, and checking the configuration.

use vstd::prelude::*;

use crate::failure;
use crate::failure::Failure;
use crate::inputs;
use crate::model::{
    find_transform, Lookup, Manifest, ManifestEntry, Nickname, ProcessingProgress, RunConfig, RunId,
    RunPhase, RunStatus, ServerConfig, TransformDefinition,
};
use crate::paths;
use crate::protocol::{PrepareRunResponse, RunStateResponse};
use crate::text;
use crate::transform;
use crate::version;
use crate::version::{current_purgery_version, VersionProbe, PROTOCOL_VERSION};

verus! {

// ---------------------------------------------------------------------------
// Validating a run plan
// ---------------------------------------------------------------------------

/// The server's current directory, as far as it can be told.
#[derive(Debug)]
pub enum CurrentDirectory {
    Unknown(String),
    NotUtf8,
    Path(String),
}

impl CurrentDirectory {
    /// A current directory that is known is absolute.
    pub open spec fn is_valid(self) -> bool {
        self matches CurrentDirectory::Path(dir) ==> paths::absolute(dir@)
    }
}

/// Why the version of a document is refused, if it is. `what` names the document.
pub open spec fn version_refusal(probe: version::ProbeView, what: Seq<char>, path: Seq<char>) ->
    Option<Seq<char>> {
    match probe {
        version::ProbeView::Missing => Some(
            what + " "@ + path + ": "@ + version::missing_version_reason(),
        ),
        version::ProbeView::Invalid(error) => Some(
            what + " "@ + path + ": invalid TOML: "@ + error,
        ),
        version::ProbeView::Version(v) => if version::compatible(v) {
            None
        } else {
            Some(what + " "@ + path + ": "@ + version::foreign_version_reason(v))
        },
    }
}

/// Why a document of a run plan is refused, if it is.
pub open spec fn plan_document_refusal<T>(found: Lookup<T>, what: Seq<char>, path: Seq<char>) ->
    Option<failure::FailureView> {
    match found {
        Lookup::Missing(error) | Lookup::Unreadable(error) => Some(
            failure::caused("failed to read "@ + what, error@),
        ),
        Lookup::Found(document) => match version_refusal(document.version@, what, path) {
            Some(error) => Some(failure::plain(error)),
            None => match document.parsed {
                Err(error) => Some(failure::caused("failed to parse "@ + what, error@)),
                Ok(_) => None,
            },
        },
    }
}

fn check_version(probe: &VersionProbe, what: &str, path: &str) -> (r: Result<(), String>)
    ensures
        match version_refusal(probe@, what@, path@) {
            Some(error) => r matches Err(e) && e@ == error,
            None => r is Ok,
        },
{
    match probe {
        VersionProbe::Missing => Err(text::cat5(what, " ", path, ": ", "missing purgery_version")),
        VersionProbe::Invalid(error) => Err(
            text::cat5(what, " ", path, ": invalid TOML: ", error.as_str()),
        ),
        VersionProbe::Version(v) => {
            if version::is_compatible(v.as_str()) {
                Ok(())
            } else {
                let reason = text::cat4(
                    "incompatible purgery_version: producer ",
                    v.as_str(),
                    ", current ",
                    current_purgery_version(),
                );
                Err(text::cat5(what, " ", path, ": ", reason.as_str()))
            }
        },
    }
}

fn check_plan_document<T>(found: &Lookup<T>, what: &str, path: &str) -> (r: Result<(), Failure>)
    ensures
        failure::refuses(r, plan_document_refusal(*found, what@, path@)),
{
    match found {
        Lookup::Missing(error) | Lookup::Unreadable(error) => Err(
            Failure::with_cause(text::cat2("failed to read ", what), error.as_str()),
        ),
        Lookup::Found(document) => match check_version(&document.version, what, path) {
            Err(error) => Err(Failure::new(error)),
            Ok(()) => match &document.parsed {
                Err(error) => Err(
                    Failure::with_cause(text::cat2("failed to parse ", what), error.as_str()),
                ),
                Ok(_) => Ok(()),
            },
        },
    }
}

/// Why the entries of a run plan are refused, if they are: there must be exactly one,
/// with a transform that is defined and makes sense.
pub open spec fn entries_refusal(
    entries: Seq<ManifestEntry>,
    transforms: Seq<TransformDefinition>,
) -> Option<Seq<char>> {
    if entries.len() != 1 {
        Some(
            "server run manifest must contain exactly one entry, got "@ + text::decimal(
                entries.len(),
            ),
        )
    } else {
        let relative = entries[0].relative_path@;
        match entries[0].transform {
            None => Some("server run entry '"@ + relative + "' has no transform"@),
            Some(name) => {
                let subject = "run plan validation failed for '"@ + relative + "': transform '"@
                    + name@;
                match first_definition(transforms, name@) {
                    None => Some(subject + "' not defined on server"@),
                    Some(def) => match transform::definition_error(def) {
                        Some(error) => Some(subject + "' definition is invalid: "@ + error),
                        None => None,
                    },
                }
            },
        }
    }
}

/// The first definition of a name.
pub open spec fn first_definition(
    transforms: Seq<TransformDefinition>,
    name: Seq<char>,
) -> Option<TransformDefinition>
    decreases transforms.len(),
{
    if transforms.len() == 0 {
        None
    } else if transforms[0].name@ == name {
        Some(transforms[0])
    } else {
        first_definition(transforms.skip(1), name)
    }
}

proof fn lemma_first_definition(transforms: Seq<TransformDefinition>, i: int, name: Seq<char>)
    requires
        0 <= i < transforms.len(),
        transforms[i].name@ == name,
        forall|j: int| 0 <= j < i ==> (#[trigger] transforms[j]).name@ != name,
    ensures
        first_definition(transforms, name) == Some(transforms[i]),
    decreases i,
{
    if i > 0 {
        assert(transforms[0].name@ != name);
        assert forall|j: int| 0 <= j < i - 1 implies (#[trigger] transforms.skip(1)[j]).name@
            != name by {
            assert(transforms[j + 1].name@ != name);
        }
        lemma_first_definition(transforms.skip(1), i - 1, name);
    }
}

/// What a name stands for does not depend on where one looks first: any transform of
/// that name is its definition.
pub proof fn definitions_are_the_ones_of_their_name(config: ServerConfig, i: int)
    requires
        config.well_formed(),
        0 <= i < config.transforms@.len(),
    ensures
        first_definition(config.transforms@, config.transforms@[i].name@) == Some(
            config.transforms@[i],
        ),
{
    let transforms = config.transforms@;
    assert forall|j: int| 0 <= j < i implies (#[trigger] transforms[j]).name@
        != transforms[i].name@ by {
        if transforms[j].name@ == transforms[i].name@ {
            crate::model::names_are_defined_once(transforms, j, i);
        }
    }
    lemma_first_definition(transforms, i, transforms[i].name@);
}

proof fn lemma_no_definition(transforms: Seq<TransformDefinition>, name: Seq<char>)
    requires
        !crate::model::defines(transforms, name),
    ensures
        first_definition(transforms, name) is None,
    decreases transforms.len(),
{
    if transforms.len() > 0 {
        assert(transforms[0].name@ != name);
        assert forall|j: int| 0 <= j < transforms.skip(1).len() implies (
        #[trigger] transforms.skip(1)[j]).name@ != name by {
            assert(transforms[j + 1].name@ != name);
        }
        lemma_no_definition(transforms.skip(1), name);
    }
}

fn check_entries(entries: &Vec<ManifestEntry>, transforms: &Vec<TransformDefinition>) -> (r: Result<
    (),
    String,
>)
    ensures
        match entries_refusal(entries@, transforms@) {
            Some(error) => r matches Err(e) && e@ == error,
            None => r is Ok,
        },
{
    if entries.len() != 1 {
        let count = text::format_decimal(entries.len() as u64);
        return Err(
            text::cat2(
                "server run manifest must contain exactly one entry, got ",
                count.as_str(),
            ),
        );
    }
    let relative = entries[0].relative_path.as_str();
    match &entries[0].transform {
        None => Err(text::cat3("server run entry '", relative, "' has no transform")),
        Some(name) => match find_transform(transforms, name.as_str()) {
            None => {
                proof {
                    lemma_no_definition(transforms@, name@);
                }
                Err(
                    text::cat5(
                        "run plan validation failed for '",
                        relative,
                        "': transform '",
                        name.as_str(),
                        "' not defined on server",
                    ),
                )
            },
            Some(i) => {
                proof {
                    lemma_first_definition(transforms@, i as int, name@);
                }
                match transform::validate_transform_definition(&transforms[i]) {
                    Err(error) => {
                        let mut m = text::cat5(
                            "run plan validation failed for '",
                            relative,
                            "': transform '",
                            name.as_str(),
                            "' definition is invalid: ",
                        );
                        m.append(error.as_str());
                        Err(m)
                    },
                    Ok(()) => Ok(()),
                }
            },
        },
    }
}

/// Why a run plan is refused by what it says, if it is.
pub open spec fn plan_refusal(
    config: ServerConfig,
    nickname: Seq<char>,
    run_id: Seq<char>,
    incoming_exists: bool,
    run_config: Lookup<RunConfig>,
    manifest: Lookup<Manifest>,
) -> Option<failure::FailureView> {
    let incoming = paths::run_dir_path(config.work_dir@, nickname, run_id, RunPhase::Incoming);
    if !incoming_exists {
        Some(
            failure::plain(
                "incoming directory does not exist for run "@ + nickname + "/"@ + run_id
                    + " at '"@ + incoming + "'"@,
            ),
        )
    } else {
        match plan_document_refusal(
            run_config,
            "run config"@,
            paths::path_join(incoming, "run.toml"@),
        ) {
            Some(refusal) => Some(refusal),
            None => {
                let wanted = (run_config->Found_0).parsed->Ok_0;
                if !wanted.delete_after_import {
                    Some(failure::plain("transform runs require delete_after_import = true"@))
                } else {
                    match plan_document_refusal(
                        manifest,
                        "manifest"@,
                        paths::path_join(incoming, "manifest.toml"@),
                    ) {
                        Some(refusal) => Some(refusal),
                        None => {
                            let listed = (manifest->Found_0).parsed->Ok_0;
                            match inputs::envelope_error(nickname, run_id, wanted, listed) {
                                Some(error) => Some(
                                    failure::plain("envelope validation failed: "@ + error),
                                ),
                                None => match entries_refusal(
                                    listed.entries@,
                                    config.transforms@,
                                ) {
                                    Some(error) => Some(failure::plain(error)),
                                    None => None,
                                },
                            }
                        },
                    }
                }
            },
        }
    }
}

/// What resolving the destination of a run plan comes to: nothing for an absolute one,
/// otherwise the destination below the current directory.
pub open spec fn resolved_destination(destination: Seq<char>, cwd: CurrentDirectory) -> Result<
    Option<Seq<char>>,
    failure::FailureView,
> {
    if paths::absolute(destination) {
        Ok(None)
    } else {
        match cwd {
            CurrentDirectory::Unknown(error) => Err(
                failure::caused("failed to get current working directory"@, error@),
            ),
            CurrentDirectory::NotUtf8 => Err(
                failure::plain("resolved destination path is not valid UTF-8"@),
            ),
            CurrentDirectory::Path(dir) => Ok(Some(paths::path_join(dir@, destination))),
        }
    }
}

fn resolve_destination(destination: &str, cwd: &CurrentDirectory) -> (r: Result<
    Option<String>,
    Failure,
>)
    ensures
        match resolved_destination(destination@, *cwd) {
            Ok(resolved) => r matches Ok(found) && text::opt_text(found) == resolved,
            Err(refusal) => r matches Err(f) && f@ == refusal,
        },
        cwd.is_valid() ==> (r matches Ok(Some(resolved)) ==> paths::absolute(resolved@)),
{
    if paths::is_absolute(destination) {
        return Ok(None);
    }
    match cwd {
        CurrentDirectory::Unknown(error) => Err(
            Failure::with_cause(
                "failed to get current working directory".to_owned(),
                error.as_str(),
            ),
        ),
        CurrentDirectory::NotUtf8 => Err(
            Failure::new("resolved destination path is not valid UTF-8".to_owned()),
        ),
        CurrentDirectory::Path(dir) => Ok(Some(paths::join(dir.as_str(), destination))),
    }
}

/// An accepted run plan: the run configuration to write in place of the client's, if
/// its destination had to be resolved, and the answer.
#[derive(Debug)]
pub struct PreparePlan {
    pub rewrite: Option<RunConfig>,
    pub response: PrepareRunResponse,
}

/// Whether a run configuration is another one with its destination resolved.
pub open spec fn is_rewrite(rewrite: RunConfig, wanted: RunConfig, destination: Seq<char>) -> bool {
    &&& rewrite.purgery_version@ == version::current_version()
    &&& rewrite.nickname@ == wanted.nickname@
    &&& rewrite.destination@ == destination
    &&& rewrite.delete_after_import == wanted.delete_after_import
}

/// Whether a run plan is accepted as it should be.
pub open spec fn is_prepare_plan(
    plan: PreparePlan,
    nickname: Seq<char>,
    run_id: Seq<char>,
    wanted: RunConfig,
    resolved: Option<Seq<char>>,
) -> bool {
    &&& plan.response.protocol_version == PROTOCOL_VERSION
    &&& plan.response.purgery_version@ == version::current_version()
    &&& plan.response.nickname@ == nickname
    &&& plan.response.run_id@ == run_id
    &&& text::opt_text(plan.response.destination) == resolved
    &&& match resolved {
        Some(destination) => plan.rewrite matches Some(rewrite) && is_rewrite(
            rewrite,
            wanted,
            destination,
        ),
        None => plan.rewrite is None,
    }
}

/// Whether a run plan is answered as it should be. Below an absolute current directory
/// a destination is resolved to an absolute one.
pub open spec fn is_preparation(
    r: Result<PreparePlan, Failure>,
    config: ServerConfig,
    nickname: Seq<char>,
    run_id: Seq<char>,
    incoming_exists: bool,
    run_config: Lookup<RunConfig>,
    manifest: Lookup<Manifest>,
    cwd: CurrentDirectory,
) -> bool {
    &&& match plan_refusal(config, nickname, run_id, incoming_exists, run_config, manifest) {
        Some(refusal) => r matches Err(f) && f@ == refusal,
        None => {
            let wanted = (run_config->Found_0).parsed->Ok_0;
            match resolved_destination(wanted.destination@, cwd) {
                Err(refusal) => r matches Err(f) && f@ == refusal,
                Ok(resolved) => r matches Ok(plan) && is_prepare_plan(
                    plan,
                    nickname,
                    run_id,
                    wanted,
                    resolved,
                ),
            }
        },
    }
    &&& cwd.is_valid() ==> (r matches Ok(plan) ==> (plan.response.destination matches Some(
        destination,
    ) ==> paths::absolute(destination@)))
}

/// Validates a run plan before anything is uploaded. A relative destination is
/// resolved against the current directory, so that processing does not depend on where
/// the server is started.
pub fn prepare_run(
    config: &ServerConfig,
    nickname: &Nickname,
    run_id: &RunId,
    incoming_exists: bool,
    run_config: &Lookup<RunConfig>,
    manifest: &Lookup<Manifest>,
    cwd: &CurrentDirectory,
) -> (r: Result<PreparePlan, Failure>)
    requires
        config.well_formed(),
    ensures
        is_preparation(
            r,
            *config,
            nickname@,
            run_id@,
            incoming_exists,
            *run_config,
            *manifest,
            *cwd,
        ),
{
    let incoming = paths::run_dir(config.work_dir.as_str(), nickname, run_id, RunPhase::Incoming);
    if !incoming_exists {
        return Err(
            Failure::new(
                text::cat7(
                    "incoming directory does not exist for run ",
                    nickname.as_str(),
                    "/",
                    run_id.as_str(),
                    " at '",
                    incoming.as_str(),
                    "'",
                ),
            ),
        );
    }
    let run_config_path = paths::join(incoming.as_str(), "run.toml");
    match check_plan_document(run_config, "run config", run_config_path.as_str()) {
        Err(failure) => {
            return Err(failure);
        },
        Ok(()) => {},
    }
    let wanted: &RunConfig = match run_config {
        Lookup::Found(document) => match &document.parsed {
            Ok(wanted) => wanted,
            Err(error) => {
                return Err(
                    Failure::with_cause("failed to parse run config".to_owned(), error.as_str()),
                );
            },
        },
        Lookup::Missing(error) | Lookup::Unreadable(error) => {
            return Err(
                Failure::with_cause("failed to read run config".to_owned(), error.as_str()),
            );
        },
    };
    if !wanted.delete_after_import {
        return Err(
            Failure::new("transform runs require delete_after_import = true".to_owned()),
        );
    }
    let manifest_path = paths::join(incoming.as_str(), "manifest.toml");
    match check_plan_document(manifest, "manifest", manifest_path.as_str()) {
        Err(failure) => {
            return Err(failure);
        },
        Ok(()) => {},
    }
    let listed: &Manifest = match manifest {
        Lookup::Found(document) => match &document.parsed {
            Ok(listed) => listed,
            Err(error) => {
                return Err(
                    Failure::with_cause("failed to parse manifest".to_owned(), error.as_str()),
                );
            },
        },
        Lookup::Missing(error) | Lookup::Unreadable(error) => {
            return Err(
                Failure::with_cause("failed to read manifest".to_owned(), error.as_str()),
            );
        },
    };
    match inputs::validate_envelope(nickname, run_id, wanted, listed) {
        Err(error) => {
            return Err(
                Failure::new(text::cat2("envelope validation failed: ", error.as_str())),
            );
        },
        Ok(()) => {},
    }
    match check_entries(&listed.entries, &config.transforms) {
        Err(error) => {
            return Err(Failure::new(error));
        },
        Ok(()) => {},
    }
    match resolve_destination(wanted.destination.as_str(), cwd) {
        Err(failure) => Err(failure),
        Ok(resolved) => {
            let rewrite = match &resolved {
                Some(destination) => Some(
                    RunConfig {
                        purgery_version: current_purgery_version().to_owned(),
                        nickname: wanted.nickname.clone(),
                        destination: destination.clone(),
                        delete_after_import: wanted.delete_after_import,
                    },
                ),
                None => None,
            };
            Ok(
                PreparePlan {
                    rewrite,
                    response: PrepareRunResponse {
                        protocol_version: PROTOCOL_VERSION,
                        purgery_version: current_purgery_version().to_owned(),
                        nickname: nickname.as_str().to_owned(),
                        run_id: run_id.as_str().to_owned(),
                        destination: resolved,
                    },
                },
            )
        },
    }
}

/// The definition of a name is the first one in the list that has it; a name has none if
/// and only if no definition in the list has it.
pub proof fn names_stand_for_their_first_definition(
    before: Seq<TransformDefinition>,
    def: TransformDefinition,
    behind: Seq<TransformDefinition>,
    name: Seq<char>,
)
    requires
        forall|j: int| 0 <= j < before.len() ==> (#[trigger] before[j]).name@ != name,
    ensures
        first_definition(before, name) is None,
        def.name@ == name ==> first_definition(before + seq![def] + behind, name) == Some(def),
{
    if crate::model::defines(before, name) {
        let i = choose|i: int| 0 <= i < before.len() && (#[trigger] before[i]).name@ == name;
        assert(before[i].name@ != name);
    }
    lemma_no_definition(before, name);
    let all = before + seq![def] + behind;
    if def.name@ == name {
        assert forall|j: int| 0 <= j < before.len() implies (#[trigger] all[j]).name@ != name by {
            assert(before[j].name@ != name);
        }
        assert(all[before.len() as int] == def);
        lemma_first_definition(all, before.len() as int, name);
    }
}

/// A run plan is accepted if and only if the upload has begun, both documents can be read,
/// are of this release line, are well-formed and name the run, the client asks for the
/// deletion of what it uploads, and there is exactly one entry, with a transform that is
/// defined and makes sense.
pub proof fn plans_are_accepted_as_a_whole(
    config: ServerConfig,
    nickname: Seq<char>,
    run_id: Seq<char>,
    incoming_exists: bool,
    run_config: Lookup<RunConfig>,
    manifest: Lookup<Manifest>,
)
    ensures
        plan_refusal(config, nickname, run_id, incoming_exists, run_config, manifest) is None
            <==> {
            &&& incoming_exists
            &&& run_config matches Lookup::Found(asked)
            &&& asked.version@ matches version::ProbeView::Version(v)
            &&& version::compatible(v)
            &&& asked.parsed matches Ok(wanted)
            &&& wanted.delete_after_import
            &&& wanted.nickname@ == nickname
            &&& manifest matches Lookup::Found(announced)
            &&& announced.version@ matches version::ProbeView::Version(w)
            &&& version::compatible(w)
            &&& announced.parsed matches Ok(listed)
            &&& listed.nickname@ == nickname
            &&& listed.run_id@ == run_id
            &&& listed.entries@.len() == 1
            &&& listed.entries@[0].transform matches Some(name)
            &&& first_definition(config.transforms@, name@) matches Some(def)
            &&& transform::definition_error(def) is None
        },
{
}

/// An accepted run plan keeps an absolute destination as it is. A relative one is put below
/// the current directory, in the answer and in the configuration that is written in place
/// of the client's, of which nothing else changes; without a current directory that can be
/// told, the plan is refused.
pub proof fn destinations_are_resolved_once(
    r: Result<PreparePlan, Failure>,
    config: ServerConfig,
    nickname: Seq<char>,
    run_id: Seq<char>,
    incoming_exists: bool,
    run_config: Lookup<RunConfig>,
    manifest: Lookup<Manifest>,
    cwd: CurrentDirectory,
)
    requires
        is_preparation(
            r,
            config,
            nickname,
            run_id,
            incoming_exists,
            run_config,
            manifest,
            cwd,
        ),
        plan_refusal(config, nickname, run_id, incoming_exists, run_config, manifest) is None,
    ensures
        ({
            let wanted = (run_config->Found_0).parsed->Ok_0;
            let relative = !(wanted.destination@.len() > 0 && wanted.destination@[0] == '/');
            &&& r is Ok <==> !relative || cwd is Path
            &&& r matches Ok(plan) ==> {
                &&& plan.response.nickname@ == nickname
                &&& plan.response.run_id@ == run_id
                &&& plan.response.protocol_version == PROTOCOL_VERSION
                &&& plan.response.purgery_version@ == version::current_version()
                &&& plan.response.destination is Some <==> relative
                &&& plan.rewrite is Some <==> relative
                &&& relative ==> {
                    let place = paths::path_join(cwd->Path_0@, wanted.destination@);
                    &&& plan.response.destination->0@ == place
                    &&& plan.rewrite->0.destination@ == place
                    &&& plan.rewrite->0.nickname@ == wanted.nickname@
                    &&& plan.rewrite->0.delete_after_import == wanted.delete_after_import
                    &&& plan.rewrite->0.purgery_version@ == version::current_version()
                }
            }
        }),
{
}

// ---------------------------------------------------------------------------
// Reading a status
// ---------------------------------------------------------------------------

/// What the status file of a terminal phase contributes: nothing, the answer, or a
/// refusal.
pub open spec fn status_contribution(
    found: Lookup<RunStatus>,
    nickname: Seq<char>,
    run_id: Seq<char>,
    path: Seq<char>,
) -> Option<Result<RunStatus, failure::FailureView>> {
    match found {
        Lookup::Missing(_) => None,
        Lookup::Unreadable(error) => Some(
            Err(failure::caused("failed to read status from '"@ + path + "'"@, error@)),
        ),
        Lookup::Found(document) => match document.parsed {
            Ok(status) => if !version::compatible(status.purgery_version@) {
                None
            } else if !status.belongs_to(nickname, run_id) {
                Some(
                    Err(
                        failure::plain(
                            "status envelope mismatch in '"@ + path + "': expected "@ + nickname
                                + "/"@ + run_id + ", got "@ + status.nickname@ + "/"@
                                + status.run_id@,
                        ),
                    ),
                )
            } else {
                Some(Ok(status))
            },
            Err(error) => if document.version@ is Missing {
                None
            } else {
                Some(
                    Err(failure::plain("malformed status file '"@ + path + "': "@ + error@)),
                )
            },
        },
    }
}

/// What reading the status of a run must come to: that of done if it contributes,
/// otherwise that of failed.
pub open spec fn run_status_answer(
    work_dir: Seq<char>,
    nickname: Seq<char>,
    run_id: Seq<char>,
    done: Lookup<RunStatus>,
    failed: Lookup<RunStatus>,
) -> Result<RunStatus, failure::FailureView> {
    let path = |phase: RunPhase|
        paths::path_join(
            paths::run_dir_path(work_dir, nickname, run_id, phase),
            "status.toml"@,
        );
    match status_contribution(done, nickname, run_id, path(RunPhase::Done)) {
        Some(answer) => answer,
        None => match status_contribution(failed, nickname, run_id, path(RunPhase::Failed)) {
            Some(answer) => answer,
            None => Err(
                failure::plain(
                    "no compatible status found for run "@ + nickname + "/"@ + run_id
                        + " in done or failed"@,
                ),
            ),
        },
    }
}

fn contribute(found: Lookup<RunStatus>, nickname: &Nickname, run_id: &RunId, path: &str) -> (r:
    Option<Result<RunStatus, Failure>>)
    ensures
        match status_contribution(found, nickname@, run_id@, path@) {
            None => r is None,
            Some(expected) => r matches Some(answer) && failure::agrees(answer, expected),
        },
{
    match found {
        Lookup::Missing(_) => None,
        Lookup::Unreadable(error) => Some(
            Err(
                Failure::with_cause(
                    text::cat3("failed to read status from '", path, "'"),
                    error.as_str(),
                ),
            ),
        ),
        Lookup::Found(document) => match document.parsed {
            Ok(status) => {
                if !version::is_compatible(status.purgery_version.as_str()) {
                    return None;
                }
                if !status.is_for(nickname, run_id) {
                    let mut m = text::cat7(
                        "status envelope mismatch in '",
                        path,
                        "': expected ",
                        nickname.as_str(),
                        "/",
                        run_id.as_str(),
                        ", got ",
                    );
                    m.append(status.nickname.as_str());
                    m.append("/");
                    m.append(status.run_id.as_str());
                    return Some(Err(Failure::new(m)));
                }
                Some(Ok(status))
            },
            Err(error) => match document.version {
                VersionProbe::Missing => None,
                _ => Some(
                    Err(
                        Failure::new(
                            text::cat4("malformed status file '", path, "': ", error.as_str()),
                        ),
                    ),
                ),
            },
        },
    }
}

/// Reads the status of a run from done or failed. A status of another release line is
/// passed over.
pub fn read_run_status(
    config: &ServerConfig,
    nickname: &Nickname,
    run_id: &RunId,
    done: Lookup<RunStatus>,
    failed: Lookup<RunStatus>,
) -> (r: Result<RunStatus, Failure>)
    ensures
        failure::agrees(
            r,
            run_status_answer(config.work_dir@, nickname@, run_id@, done, failed),
        ),
{
    let work_dir = config.work_dir.as_str();
    let done_dir = paths::run_dir(work_dir, nickname, run_id, RunPhase::Done);
    let done_path = paths::join(done_dir.as_str(), "status.toml");
    match contribute(done, nickname, run_id, done_path.as_str()) {
        Some(answer) => {
            return answer;
        },
        None => {},
    }
    let failed_dir = paths::run_dir(work_dir, nickname, run_id, RunPhase::Failed);
    let failed_path = paths::join(failed_dir.as_str(), "status.toml");
    match contribute(failed, nickname, run_id, failed_path.as_str()) {
        Some(answer) => answer,
        None => Err(
            Failure::new(
                text::cat5(
                    "no compatible status found for run ",
                    nickname.as_str(),
                    "/",
                    run_id.as_str(),
                    " in done or failed",
                ),
            ),
        ),
    }
}

/// A status is passed over only if it is missing or of another release line.
pub open spec fn passed_over(found: Lookup<RunStatus>) -> bool {
    match found {
        Lookup::Missing(_) => true,
        Lookup::Unreadable(_) => false,
        Lookup::Found(document) => match document.parsed {
            Ok(status) => !"0.1."@.is_prefix_of(status.purgery_version@),
            Err(_) => document.version@ is Missing,
        },
    }
}

/// The status of a run is that in done, or that in failed where the one in done is passed
/// over: one that can be read, is of this release line and was written for this run.
/// Anything else is an error, and a damaged status in done is not made good by one in
/// failed.
pub proof fn statuses_are_read_from_done_first(
    work_dir: Seq<char>,
    nickname: Seq<char>,
    run_id: Seq<char>,
    done: Lookup<RunStatus>,
    failed: Lookup<RunStatus>,
    status: RunStatus,
)
    ensures
        run_status_answer(work_dir, nickname, run_id, done, failed) == Ok::<
            RunStatus,
            failure::FailureView,
        >(status) <==> {
            let read = if passed_over(done) {
                failed
            } else {
                done
            };
            &&& read matches Lookup::Found(document)
            &&& document.parsed == Ok::<RunStatus, String>(status)
            &&& "0.1."@.is_prefix_of(status.purgery_version@)
            &&& status.nickname@ == nickname
            &&& status.run_id@ == run_id
        },
{
    match done {
        Lookup::Found(document) => match document.parsed {
            Ok(first) => {
                version::compatible_versions_begin_alike(first.purgery_version@);
            },
            Err(_) => {},
        },
        _ => {},
    }
    match failed {
        Lookup::Found(document) => match document.parsed {
            Ok(second) => {
                version::compatible_versions_begin_alike(second.purgery_version@);
            },
            Err(_) => {},
        },
        _ => {},
    }
}

// ---------------------------------------------------------------------------
// Where a run stands
// ---------------------------------------------------------------------------

/// What is wrong with the status of a terminal directory.
#[derive(Clone, Copy, PartialEq, Eq, Structural, Debug)]
pub enum StatusDefect {
    Unreadable,
    EnvelopeMismatch,
    Malformed,
}

impl StatusDefect {
    pub open spec fn name(self) -> Seq<char> {
        match self {
            StatusDefect::Unreadable => "missing/unreadable"@,
            StatusDefect::EnvelopeMismatch => "envelope mismatch"@,
            StatusDefect::Malformed => "malformed"@,
        }
    }

    fn as_str(self) -> (s: &'static str)
        ensures
            s@ == self.name(),
    {
        match self {
            StatusDefect::Unreadable => "missing/unreadable",
            StatusDefect::EnvelopeMismatch => "envelope mismatch",
            StatusDefect::Malformed => "malformed",
        }
    }
}

/// What the status file of a terminal directory amounts to.
#[derive(Clone, Copy, PartialEq, Eq, Structural, Debug)]
pub enum TerminalStatusOutcome {
    /// Compatible, and written for this run.
    Valid,
    /// Of a missing or another version. It says nothing to this server.
    Incompatible,
    /// Damaged.
    Malformed(StatusDefect),
}

/// What the status file of a terminal directory amounts to.
pub open spec fn terminal_outcome(
    found: Lookup<RunStatus>,
    nickname: Seq<char>,
    run_id: Seq<char>,
) -> TerminalStatusOutcome {
    match found {
        Lookup::Missing(_) | Lookup::Unreadable(_) => TerminalStatusOutcome::Malformed(
            StatusDefect::Unreadable,
        ),
        Lookup::Found(document) => match document.parsed {
            Ok(status) => if !version::compatible(status.purgery_version@) {
                TerminalStatusOutcome::Incompatible
            } else if !status.belongs_to(nickname, run_id) {
                TerminalStatusOutcome::Malformed(StatusDefect::EnvelopeMismatch)
            } else {
                TerminalStatusOutcome::Valid
            },
            Err(_) => if document.version@ is Missing {
                TerminalStatusOutcome::Incompatible
            } else {
                TerminalStatusOutcome::Malformed(StatusDefect::Malformed)
            },
        },
    }
}

/// Judges the status file of a terminal directory.
pub fn try_read_status(found: &Lookup<RunStatus>, nickname: &Nickname, run_id: &RunId) -> (outcome:
    TerminalStatusOutcome)
    ensures
        outcome == terminal_outcome(*found, nickname@, run_id@),
{
    match found {
        Lookup::Found(document) => match &document.parsed {
            Ok(status) => {
                if !version::is_compatible(status.purgery_version.as_str()) {
                    TerminalStatusOutcome::Incompatible
                } else if !status.is_for(nickname, run_id) {
                    TerminalStatusOutcome::Malformed(StatusDefect::EnvelopeMismatch)
                } else {
                    TerminalStatusOutcome::Valid
                }
            },
            Err(_) => match &document.version {
                VersionProbe::Missing => TerminalStatusOutcome::Incompatible,
                _ => TerminalStatusOutcome::Malformed(StatusDefect::Malformed),
            },
        },
        _ => TerminalStatusOutcome::Malformed(StatusDefect::Unreadable),
    }
}

/// What an answer says of progress.
#[derive(Debug)]
pub struct ProgressFields {
    pub message: String,
    pub updated_at: u64,
    pub state: Option<String>,
    pub entry_index: Option<usize>,
    pub entry_total: Option<usize>,
    pub current_entry: Option<String>,
    pub current_transform: Option<String>,
    pub status: Option<String>,
}

/// What an answer says of progress, as characters.
pub struct ProgressFieldsView {
    pub message: Seq<char>,
    pub updated_at: u64,
    pub state: Option<Seq<char>>,
    pub entry_index: Option<usize>,
    pub entry_total: Option<usize>,
    pub current_entry: Option<Seq<char>>,
    pub current_transform: Option<Seq<char>>,
    pub status: Option<Seq<char>>,
}

impl View for ProgressFields {
    type V = ProgressFieldsView;

    open spec fn view(&self) -> ProgressFieldsView {
        ProgressFieldsView {
            message: self.message@,
            updated_at: self.updated_at,
            state: text::opt_text(self.state),
            entry_index: self.entry_index,
            entry_total: self.entry_total,
            current_entry: text::opt_text(self.current_entry),
            current_transform: text::opt_text(self.current_transform),
            status: text::opt_text(self.status),
        }
    }
}

/// What an answer says without progress that it could repeat.
pub open spec fn bare_fields(message: Seq<char>, updated_at: u64, status: Option<Seq<char>>) ->
    ProgressFieldsView {
    ProgressFieldsView {
        message,
        updated_at,
        state: None,
        entry_index: None,
        entry_total: None,
        current_entry: None,
        current_transform: None,
        status,
    }
}

/// What an answer says of the progress of a run in processing. `modified` is the time
/// of the last change to the run's directory.
pub open spec fn progress_fields(
    found: Lookup<ProcessingProgress>,
    nickname: Seq<char>,
    run_id: Seq<char>,
    modified: u64,
) -> ProgressFieldsView {
    match found {
        Lookup::Missing(_) | Lookup::Unreadable(_) => bare_fields(
            "run phase: processing"@,
            modified,
            Some("missing"@),
        ),
        Lookup::Found(document) => match document.parsed {
            Err(_) => if document.version@ is Missing {
                bare_fields(
                    "run phase: processing (progress missing purgery_version)"@,
                    modified,
                    Some("incompatible_version"@),
                )
            } else {
                bare_fields(
                    "run phase: processing (malformed progress)"@,
                    modified,
                    Some("malformed"@),
                )
            },
            Ok(progress) => if !version::compatible(progress.purgery_version@) {
                bare_fields(
                    "run phase: processing (incompatible progress version)"@,
                    modified,
                    Some("incompatible_version"@),
                )
            } else if progress.nickname@ == nickname && progress.run_id@ == run_id {
                ProgressFieldsView {
                    message: "processing: "@ + text::decimal((progress.entry_index + 1) as nat)
                        + "/"@ + text::decimal(progress.entry_total as nat)
                        + " entries, current: "@ + progress.current_entry@ + " transform: "@
                        + progress.current_transform@,
                    updated_at: progress.updated_at_unix_secs,
                    state: Some(progress.state@),
                    entry_index: Some(progress.entry_index),
                    entry_total: Some(progress.entry_total),
                    current_entry: Some(progress.current_entry@),
                    current_transform: Some(progress.current_transform@),
                    status: Some("valid"@),
                }
            } else {
                bare_fields(
                    "run phase: processing (progress envelope mismatch)"@,
                    modified,
                    Some("envelope_mismatch"@),
                )
            },
        },
    }
}

fn plain_fields(message: String, updated_at: u64, status: Option<String>) -> (fields: ProgressFields)
    ensures
        fields@ == bare_fields(message@, updated_at, text::opt_text(status)),
{
    ProgressFields {
        message,
        updated_at,
        state: None,
        entry_index: None,
        entry_total: None,
        current_entry: None,
        current_transform: None,
        status,
    }
}

/// Reads what an answer says of the progress of a run in processing.
pub fn read_progress_fields(
    found: &Lookup<ProcessingProgress>,
    nickname: &Nickname,
    run_id: &RunId,
    modified: u64,
) -> (fields: ProgressFields)
    ensures
        fields@ == progress_fields(*found, nickname@, run_id@, modified),
{
    match found {
        Lookup::Missing(_) | Lookup::Unreadable(_) => plain_fields(
            "run phase: processing".to_owned(),
            modified,
            Some("missing".to_owned()),
        ),
        Lookup::Found(document) => match &document.parsed {
            Err(_) => match &document.version {
                VersionProbe::Missing => plain_fields(
                    "run phase: processing (progress missing purgery_version)".to_owned(),
                    modified,
                    Some("incompatible_version".to_owned()),
                ),
                _ => plain_fields(
                    "run phase: processing (malformed progress)".to_owned(),
                    modified,
                    Some("malformed".to_owned()),
                ),
            },
            Ok(progress) => {
                if !version::is_compatible(progress.purgery_version.as_str()) {
                    return plain_fields(
                        "run phase: processing (incompatible progress version)".to_owned(),
                        modified,
                        Some("incompatible_version".to_owned()),
                    );
                }
                if !text::same_text(progress.nickname.as_str(), nickname.as_str())
                    || !text::same_text(progress.run_id.as_str(), run_id.as_str()) {
                    return plain_fields(
                        "run phase: processing (progress envelope mismatch)".to_owned(),
                        modified,
                        Some("envelope_mismatch".to_owned()),
                    );
                }
                let position = text::format_wide_decimal(progress.entry_index as u128 + 1);
                let total = text::format_wide_decimal(progress.entry_total as u128);
                let mut message = text::cat5(
                    "processing: ",
                    position.as_str(),
                    "/",
                    total.as_str(),
                    " entries, current: ",
                );
                message.append(progress.current_entry.as_str());
                message.append(" transform: ");
                message.append(progress.current_transform.as_str());
                ProgressFields {
                    message,
                    updated_at: progress.updated_at_unix_secs,
                    state: Some(progress.state.clone()),
                    entry_index: Some(progress.entry_index),
                    entry_total: Some(progress.entry_total),
                    current_entry: Some(progress.current_entry.clone()),
                    current_transform: Some(progress.current_transform.clone()),
                    status: Some("valid".to_owned()),
                }
            },
        },
    }
}

/// What was seen of a run in one phase: whether its directory is there, and when the
/// directory was last changed, if that can be told.
#[derive(Clone, Copy, PartialEq, Eq, Structural, Debug)]
pub struct PhaseSighting {
    pub exists: bool,
    pub modified: Option<u64>,
}

impl PhaseSighting {
    pub open spec fn modified_or_zero(self) -> u64 {
        match self.modified {
            Some(at) => at,
            None => 0,
        }
    }

    fn modified_at(self) -> (at: u64)
        ensures
            at == self.modified_or_zero(),
    {
        match self.modified {
            Some(at) => at,
            None => 0,
        }
    }
}

/// What was seen of a run in all phases.
#[derive(Debug)]
pub struct RunSighting {
    pub incoming: PhaseSighting,
    pub ready: PhaseSighting,
    pub processing: PhaseSighting,
    pub progress: Lookup<ProcessingProgress>,
    /// Whether a processor is at work on the run, if that can be told.
    pub active: Option<bool>,
    pub done: PhaseSighting,
    pub done_status: Lookup<RunStatus>,
    pub failed: PhaseSighting,
    pub failed_status: Lookup<RunStatus>,
}

/// What an answer says of a run.
pub struct StandingView {
    pub phase: Seq<char>,
    pub terminal: bool,
    pub fields: ProgressFieldsView,
    pub processor: Option<Seq<char>>,
}

/// What an answer says of a run that is not over, or of which no status is trusted.
pub open spec fn unsettled(phase: Seq<char>, message: Seq<char>, updated_at: u64) -> StandingView {
    StandingView {
        phase,
        terminal: false,
        fields: bare_fields(message, updated_at, None),
        processor: None,
    }
}

/// What the state of a processor is called.
pub open spec fn processor_name(active: Option<bool>) -> Option<Seq<char>> {
    match active {
        Some(true) => Some("active"@),
        Some(false) => Some("idle"@),
        None => None,
    }
}

/// What a terminal directory contributes to an answer, if anything.
pub open spec fn terminal_standing(
    phase: RunPhase,
    sighting: PhaseSighting,
    status: Lookup<RunStatus>,
    nickname: Seq<char>,
    run_id: Seq<char>,
) -> Option<StandingView> {
    if !sighting.exists {
        None
    } else {
        match terminal_outcome(status, nickname, run_id) {
            TerminalStatusOutcome::Incompatible => None,
            TerminalStatusOutcome::Valid => Some(
                StandingView {
                    phase: phase.name(),
                    terminal: true,
                    fields: bare_fields(
                        "run is "@ + phase.name(),
                        sighting.modified_or_zero(),
                        None,
                    ),
                    processor: None,
                },
            ),
            TerminalStatusOutcome::Malformed(defect) => Some(
                unsettled(
                    "corrupt"@,
                    phase.name() + " directory exists but status is "@ + defect.name(),
                    sighting.modified_or_zero(),
                ),
            ),
        }
    }
}

/// Where a run stands: the earliest phase in which it was seen; a terminal phase only
/// with a status that this server understands.
pub open spec fn standing(sighting: RunSighting, nickname: Seq<char>, run_id: Seq<char>) ->
    StandingView {
    if sighting.incoming.exists {
        unsettled(
            "incoming"@,
            "run phase: "@ + "incoming"@,
            sighting.incoming.modified_or_zero(),
        )
    } else if sighting.ready.exists {
        unsettled("ready"@, "run phase: "@ + "ready"@, sighting.ready.modified_or_zero())
    } else if sighting.processing.exists {
        StandingView {
            phase: "processing"@,
            terminal: false,
            fields: progress_fields(
                sighting.progress,
                nickname,
                run_id,
                sighting.processing.modified_or_zero(),
            ),
            processor: processor_name(sighting.active),
        }
    } else {
        match terminal_standing(
            RunPhase::Done,
            sighting.done,
            sighting.done_status,
            nickname,
            run_id,
        ) {
            Some(found) => found,
            None => match terminal_standing(
                RunPhase::Failed,
                sighting.failed,
                sighting.failed_status,
                nickname,
                run_id,
            ) {
                Some(found) => found,
                None => unsettled("not_found"@, "no matching run found"@, 0),
            },
        }
    }
}

/// Whether an answer says where a run stands.
pub open spec fn is_state_answer(
    response: RunStateResponse,
    nickname: Seq<char>,
    run_id: Seq<char>,
    now: u64,
    view: StandingView,
) -> bool {
    &&& response.protocol_version == PROTOCOL_VERSION
    &&& response.purgery_version@ == version::current_version()
    &&& response.nickname@ == nickname
    &&& response.run_id@ == run_id
    &&& response.phase@ == view.phase
    &&& response.terminal == view.terminal
    &&& response.message@ == view.fields.message
    &&& response.updated_at_unix_secs == view.fields.updated_at
    &&& response.observed_at_unix_secs == now
    &&& text::opt_text(response.progress_state) == view.fields.state
    &&& response.entry_index == view.fields.entry_index
    &&& response.entry_total == view.fields.entry_total
    &&& text::opt_text(response.current_entry) == view.fields.current_entry
    &&& text::opt_text(response.current_transform) == view.fields.current_transform
    &&& text::opt_text(response.progress_status) == view.fields.status
    &&& text::opt_text(response.processor_state) == view.processor
}

fn state_answer(
    nickname: &Nickname,
    run_id: &RunId,
    now: u64,
    phase: &str,
    terminal: bool,
    fields: ProgressFields,
    processor: Option<String>,
) -> (response: RunStateResponse)
    ensures
        is_state_answer(
            response,
            nickname@,
            run_id@,
            now,
            (StandingView {
                phase: phase@,
                terminal,
                fields: fields@,
                processor: text::opt_text(processor),
            }),
        ),
{
    RunStateResponse {
        protocol_version: PROTOCOL_VERSION,
        purgery_version: current_purgery_version().to_owned(),
        nickname: nickname.as_str().to_owned(),
        run_id: run_id.as_str().to_owned(),
        phase: phase.to_owned(),
        terminal,
        message: fields.message,
        updated_at_unix_secs: fields.updated_at,
        observed_at_unix_secs: now,
        progress_state: fields.state,
        entry_index: fields.entry_index,
        entry_total: fields.entry_total,
        current_entry: fields.current_entry,
        current_transform: fields.current_transform,
        progress_status: fields.status,
        processor_state: processor,
    }
}

fn terminal_answer(
    phase: RunPhase,
    sighting: PhaseSighting,
    status: &Lookup<RunStatus>,
    nickname: &Nickname,
    run_id: &RunId,
    now: u64,
) -> (r: Option<RunStateResponse>)
    ensures
        match terminal_standing(phase, sighting, *status, nickname@, run_id@) {
            None => r is None,
            Some(view) => r matches Some(response) && is_state_answer(
                response,
                nickname@,
                run_id@,
                now,
                view,
            ),
        },
{
    if !sighting.exists {
        return None;
    }
    let modified: u64 = sighting.modified_at();
    match try_read_status(status, nickname, run_id) {
        TerminalStatusOutcome::Incompatible => None,
        TerminalStatusOutcome::Valid => Some(
            state_answer(
                nickname,
                run_id,
                now,
                phase.as_str(),
                true,
                plain_fields(text::cat2("run is ", phase.as_str()), modified, None),
                None,
            ),
        ),
        TerminalStatusOutcome::Malformed(defect) => Some(
            state_answer(
                nickname,
                run_id,
                now,
                "corrupt",
                false,
                plain_fields(
                    text::cat3(
                        phase.as_str(),
                        " directory exists but status is ",
                        defect.as_str(),
                    ),
                    modified,
                    None,
                ),
                None,
            ),
        ),
    }
}

/// Tells where a run stands, without requiring that it is over.
pub fn run_state(sighting: &RunSighting, nickname: &Nickname, run_id: &RunId, now: u64) -> (response:
    RunStateResponse)
    ensures
        is_state_answer(
            response,
            nickname@,
            run_id@,
            now,
            standing(*sighting, nickname@, run_id@),
        ),
{
    if sighting.incoming.exists {
        let modified: u64 = sighting.incoming.modified_at();
        let message = text::cat2("run phase: ", "incoming");
        return state_answer(
            nickname,
            run_id,
            now,
            "incoming",
            false,
            plain_fields(message, modified, None),
            None,
        );
    }
    if sighting.ready.exists {
        let modified: u64 = sighting.ready.modified_at();
        let message = text::cat2("run phase: ", "ready");
        return state_answer(
            nickname,
            run_id,
            now,
            "ready",
            false,
            plain_fields(message, modified, None),
            None,
        );
    }
    if sighting.processing.exists {
        let modified: u64 = sighting.processing.modified_at();
        let fields = read_progress_fields(&sighting.progress, nickname, run_id, modified);
        let processor = match sighting.active {
            Some(true) => Some("active".to_owned()),
            Some(false) => Some("idle".to_owned()),
            None => None,
        };
        return state_answer(nickname, run_id, now, "processing", false, fields, processor);
    }
    match terminal_answer(
        RunPhase::Done,
        sighting.done,
        &sighting.done_status,
        nickname,
        run_id,
        now,
    ) {
        Some(response) => {
            return response;
        },
        None => {},
    }
    match terminal_answer(
        RunPhase::Failed,
        sighting.failed,
        &sighting.failed_status,
        nickname,
        run_id,
        now,
    ) {
        Some(response) => response,
        None => state_answer(
            nickname,
            run_id,
            now,
            "not_found",
            false,
            plain_fields("no matching run found".to_owned(), 0, None),
            None,
        ),
    }
}

/// An answer calls a run terminal only if a status of this release line, written for
/// the run, was read.
pub proof fn terminal_states_have_a_status(
    sighting: RunSighting,
    nickname: Seq<char>,
    run_id: Seq<char>,
)
    requires
        standing(sighting, nickname, run_id).terminal,
    ensures
        terminal_outcome(sighting.done_status, nickname, run_id) is Valid || terminal_outcome(
            sighting.failed_status,
            nickname,
            run_id,
        ) is Valid,
{
}

/// The status of a terminal directory is valid if and only if it can be read, is of this
/// release line and was written for this run; it says nothing if and only if it names no
/// version or one of another release line; in every other case it is damaged.
pub proof fn terminal_statuses_are_judged_by_version_and_run(
    found: Lookup<RunStatus>,
    nickname: Seq<char>,
    run_id: Seq<char>,
)
    ensures
        terminal_outcome(found, nickname, run_id) is Valid <==> {
            &&& found matches Lookup::Found(document)
            &&& document.parsed matches Ok(status)
            &&& "0.1."@.is_prefix_of(status.purgery_version@)
            &&& status.nickname@ == nickname
            &&& status.run_id@ == run_id
        },
        terminal_outcome(found, nickname, run_id) is Incompatible <==> (
        found matches Lookup::Found(document) && match document.parsed {
            Ok(status) => !"0.1."@.is_prefix_of(status.purgery_version@),
            Err(_) => document.version@ is Missing,
        }),
        terminal_outcome(found, nickname, run_id) == TerminalStatusOutcome::Malformed(
            StatusDefect::Unreadable,
        ) <==> !(found is Found),
{
    match found {
        Lookup::Found(document) => match document.parsed {
            Ok(status) => {
                version::compatible_versions_begin_alike(status.purgery_version@);
            },
            Err(_) => {},
        },
        _ => {},
    }
}

/// Progress is repeated in an answer if and only if it can be read, is of this release line
/// and belongs to this run; then the answer names what the progress says and when it was
/// written. Otherwise the answer names nothing of it but why, and dates from the last
/// change to the run.
pub proof fn progress_is_repeated_or_explained(
    found: Lookup<ProcessingProgress>,
    nickname: Seq<char>,
    run_id: Seq<char>,
    modified: u64,
)
    ensures
        ({
            let fields = progress_fields(found, nickname, run_id, modified);
            let read = found matches Lookup::Found(document) && document.parsed is Ok;
            let progress = (found->Found_0).parsed->Ok_0;
            let valid = read && "0.1."@.is_prefix_of(progress.purgery_version@)
                && progress.nickname@ == nickname && progress.run_id@ == run_id;
            &&& fields.state is Some <==> valid
            &&& fields.entry_index is Some <==> valid
            &&& fields.entry_total is Some <==> valid
            &&& fields.current_entry is Some <==> valid
            &&& fields.current_transform is Some <==> valid
            &&& valid ==> {
                &&& fields.state == Some(progress.state@)
                &&& fields.entry_index == Some(progress.entry_index)
                &&& fields.entry_total == Some(progress.entry_total)
                &&& fields.current_entry == Some(progress.current_entry@)
                &&& fields.current_transform == Some(progress.current_transform@)
                &&& fields.updated_at == progress.updated_at_unix_secs
                &&& fields.status == Some("valid"@)
            }
            &&& !valid ==> fields.updated_at == modified
            &&& !(found is Found) ==> fields.status == Some("missing"@)
            &&& read && !"0.1."@.is_prefix_of(progress.purgery_version@) ==> fields.status == Some(
                "incompatible_version"@,
            )
            &&& read && "0.1."@.is_prefix_of(progress.purgery_version@) && !valid ==> fields.status
                == Some("envelope_mismatch"@)
            &&& found is Found && !read ==> fields.status == Some(
                if (found->Found_0).version@ is Missing {
                    "incompatible_version"@
                } else {
                    "malformed"@
                },
            )
        }),
{
    match found {
        Lookup::Found(document) => match document.parsed {
            Ok(progress) => {
                version::compatible_versions_begin_alike(progress.purgery_version@);
            },
            Err(_) => {},
        },
        _ => {},
    }
}

/// A run stands in the first phase, in the order in which a run goes through them, in which
/// it was seen. In done or failed it stands, and is over, only with a valid status; a
/// damaged status makes it corrupt; a status of another release line is passed over. A run
/// that was seen nowhere else is not found.
pub proof fn runs_stand_in_the_first_phase(
    sighting: RunSighting,
    nickname: Seq<char>,
    run_id: Seq<char>,
)
    ensures
        ({
            let view = standing(sighting, nickname, run_id);
            let open = sighting.incoming.exists || sighting.ready.exists
                || sighting.processing.exists;
            let done = terminal_outcome(sighting.done_status, nickname, run_id);
            let failed = terminal_outcome(sighting.failed_status, nickname, run_id);
            let in_done = !open && sighting.done.exists && !(done is Incompatible);
            let in_failed = !open && !in_done && sighting.failed.exists && !(failed is Incompatible);
            let at = |sighting: PhaseSighting|
                if sighting.modified is Some {
                    sighting.modified->0
                } else {
                    0
                };
            &&& sighting.incoming.exists ==> view.phase == "incoming"@ && view.fields.updated_at
                == at(sighting.incoming)
            &&& !sighting.incoming.exists && sighting.ready.exists ==> view.phase == "ready"@
                && view.fields.updated_at == at(sighting.ready)
            &&& !sighting.incoming.exists && !sighting.ready.exists && sighting.processing.exists
                ==> view.phase == "processing"@ && view.processor == (match sighting.active {
                Some(active) => Some(
                    if active {
                        "active"@
                    } else {
                        "idle"@
                    },
                ),
                None => None,
            }) && view.fields == progress_fields(
                sighting.progress,
                nickname,
                run_id,
                at(sighting.processing),
            )
            &&& in_done ==> view.phase == (if done is Valid {
                "done"@
            } else {
                "corrupt"@
            }) && view.fields.updated_at == at(sighting.done)
            &&& in_failed ==> view.phase == (if failed is Valid {
                "failed"@
            } else {
                "corrupt"@
            }) && view.fields.updated_at == at(sighting.failed)
            &&& !open && !in_done && !in_failed ==> view.phase == "not_found"@
                && view.fields.updated_at == 0
            &&& view.terminal <==> in_done && done is Valid || in_failed && failed is Valid
            &&& view.processor is Some ==> view.phase == "processing"@
        }),
{
}

// ---------------------------------------------------------------------------
// Checking and bootstrapping the server
// ---------------------------------------------------------------------------

/// What was seen of the work directory.
#[derive(Clone, Copy, PartialEq, Eq, Structural, Debug)]
pub struct WorkDirSighting {
    pub exists: bool,
    pub is_dir: bool,
}

/// What is wrong with the intervals of a configuration, if anything. A heartbeat must
/// come at least twice within a lease.
pub open spec fn interval_error(lease_secs: u64, heartbeat_secs: u64) -> Option<Seq<char>> {
    if lease_secs == 0 {
        Some("gc.incoming_lease_secs must be greater than 0"@)
    } else if heartbeat_secs == 0 {
        Some("gc.heartbeat_interval_secs must be greater than 0"@)
    } else if heartbeat_secs > lease_secs / 2 {
        Some(
            "gc.heartbeat_interval_secs ("@ + text::decimal(heartbeat_secs as nat)
                + ") must be <= half of gc.incoming_lease_secs ("@ + text::decimal(
                lease_secs as nat,
            ) + ") to provide a safety margin for lease renewal"@,
        )
    } else {
        None
    }
}

/// What is wrong with the first transform that is not in order, if there is one: its
/// definition, or that its program cannot be found.
pub open spec fn transform_error(
    transforms: Seq<TransformDefinition>,
    programs: Seq<Result<(), String>>,
) -> Option<Seq<char>>
    decreases transforms.len(),
{
    if transforms.len() == 0 {
        None
    } else {
        match transform_error(transforms.drop_last(), programs.drop_last()) {
            Some(error) => Some(error),
            None => match transform::definition_error(transforms.last()) {
                Some(error) => Some("transform '"@ + transforms.last().name@ + "': "@ + error),
                None => match programs.last() {
                    Err(error) => Some(error@),
                    Ok(_) => None,
                },
            },
        }
    }
}

/// What is wrong with the server, if anything.
pub open spec fn server_error(
    config: ServerConfig,
    work_dir: WorkDirSighting,
    programs: Seq<Result<(), String>>,
) -> Option<Seq<char>> {
    match interval_error(config.gc.incoming_lease_secs, config.gc.heartbeat_interval_secs) {
        Some(error) => Some(error),
        None => if !work_dir.exists {
            Some(
                "work_dir '"@ + config.work_dir@
                    + "' does not exist (run `purgery-server bootstrap` to create it)"@,
            )
        } else if !work_dir.is_dir {
            Some("work_dir '"@ + config.work_dir@ + "' exists but is not a directory"@)
        } else {
            transform_error(config.transforms@, programs)
        },
    }
}

fn check_intervals(lease_secs: u64, heartbeat_secs: u64) -> (r: Result<(), String>)
    ensures
        match interval_error(lease_secs, heartbeat_secs) {
            Some(error) => r matches Err(e) && e@ == error,
            None => r is Ok,
        },
{
    if lease_secs == 0 {
        return Err("gc.incoming_lease_secs must be greater than 0".to_owned());
    }
    if heartbeat_secs == 0 {
        return Err("gc.heartbeat_interval_secs must be greater than 0".to_owned());
    }
    if heartbeat_secs > lease_secs / 2 {
        let heartbeat = text::format_decimal(heartbeat_secs);
        let lease = text::format_decimal(lease_secs);
        return Err(
            text::cat5(
                "gc.heartbeat_interval_secs (",
                heartbeat.as_str(),
                ") must be <= half of gc.incoming_lease_secs (",
                lease.as_str(),
                ") to provide a safety margin for lease renewal",
            ),
        );
    }
    Ok(())
}

/// Checks the server without changing anything: the intervals, the work directory, and
/// the transforms. `programs` says for each transform whether its program was found.
pub fn server_check(
    config: &ServerConfig,
    work_dir: WorkDirSighting,
    programs: &Vec<Result<(), String>>,
) -> (r: Result<(), Failure>)
    requires
        config.well_formed(),
        programs.len() == config.transforms.len(),
    ensures
        failure::refuses(
            r,
            match server_error(*config, work_dir, programs@) {
                Some(error) => Some(failure::plain(error)),
                None => None,
            },
        ),
{
    match check_intervals(config.gc.incoming_lease_secs, config.gc.heartbeat_interval_secs) {
        Err(error) => {
            return Err(Failure::new(error));
        },
        Ok(()) => {},
    }
    if !work_dir.exists {
        return Err(
            Failure::new(
                text::cat3(
                    "work_dir '",
                    config.work_dir.as_str(),
                    "' does not exist (run `purgery-server bootstrap` to create it)",
                ),
            ),
        );
    }
    if !work_dir.is_dir {
        return Err(
            Failure::new(
                text::cat3(
                    "work_dir '",
                    config.work_dir.as_str(),
                    "' exists but is not a directory",
                ),
            ),
        );
    }
    let transforms = &config.transforms;
    let mut i: usize = 0;
    assert(transforms@.take(0) =~= Seq::<TransformDefinition>::empty());
    while i < transforms.len()
        invariant
            i <= transforms.len(),
            *transforms == config.transforms,
            programs.len() == transforms.len(),
            transform_error(transforms@.take(i as int), programs@.take(i as int)) is None,
            interval_error(config.gc.incoming_lease_secs, config.gc.heartbeat_interval_secs)
                is None,
            work_dir.exists,
            work_dir.is_dir,
        decreases transforms.len() - i,
    {
        proof {
            assert(transforms@.take(i + 1).drop_last() =~= transforms@.take(i as int));
            assert(programs@.take(i + 1).drop_last() =~= programs@.take(i as int));
            assert(transforms@.take(i + 1).last() == transforms@[i as int]);
            assert(programs@.take(i + 1).last() == programs@[i as int]);
        }
        match transform::validate_transform_definition(&transforms[i]) {
            Err(error) => {
                proof {
                    lemma_first_error_stays(transforms@, programs@, i + 1);
                }
                return Err(
                    Failure::new(
                        text::cat4(
                            "transform '",
                            transforms[i].name.as_str(),
                            "': ",
                            error.as_str(),
                        ),
                    ),
                );
            },
            Ok(()) => {},
        }
        match &programs[i] {
            Err(error) => {
                proof {
                    lemma_first_error_stays(transforms@, programs@, i + 1);
                }
                return Err(Failure::new(error.clone()));
            },
            Ok(_) => {},
        }
        i = i + 1;
    }
    assert(transforms@.take(i as int) =~= transforms@);
    assert(programs@.take(i as int) =~= programs@);
    Ok(())
}

proof fn lemma_first_error_stays(
    transforms: Seq<TransformDefinition>,
    programs: Seq<Result<(), String>>,
    n: int,
)
    requires
        0 <= n <= transforms.len(),
        programs.len() == transforms.len(),
        transform_error(transforms.take(n), programs.take(n)) is Some,
    ensures
        transform_error(transforms, programs) == transform_error(
            transforms.take(n),
            programs.take(n),
        ),
    decreases transforms.len(),
{
    if n == transforms.len() {
        assert(transforms.take(n) =~= transforms);
        assert(programs.take(n) =~= programs);
    } else {
        assert(transforms.drop_last().take(n) =~= transforms.take(n));
        assert(programs.drop_last().take(n) =~= programs.take(n));
        lemma_first_error_stays(transforms.drop_last(), programs.drop_last(), n);
    }
}

/// What setting up the work directory comes to, given whether it could be created.
pub fn bootstrap(config: &ServerConfig, created: &Result<(), String>) -> (r: Result<(), Failure>)
    ensures
        failure::refuses(
            r,
            match created {
                Ok(_) => None,
                Err(error) => Some(
                    failure::caused("failed to create work_dir: "@ + config.work_dir@, error@),
                ),
            },
        ),
{
    match created {
        Ok(_) => Ok(()),
        Err(error) => Err(
            Failure::with_cause(
                text::cat2("failed to create work_dir: ", config.work_dir.as_str()),
                error.as_str(),
            ),
        ),
    }
}

/// The intervals of a configuration are accepted if and only if neither is zero and two
/// heartbeats fit into a lease.
pub proof fn two_heartbeats_fit_into_a_lease(lease_secs: u64, heartbeat_secs: u64)
    ensures
        interval_error(lease_secs, heartbeat_secs) is None <==> heartbeat_secs > 0 && 2
            * heartbeat_secs <= lease_secs,
{
}

/// The transforms are in order if and only if every definition makes sense and every
/// program was found; otherwise the first transform with which something is wrong is told.
pub proof fn transforms_are_checked_one_by_one(
    transforms: Seq<TransformDefinition>,
    programs: Seq<Result<(), String>>,
)
    requires
        programs.len() == transforms.len(),
    ensures
        transform_error(transforms, programs) is None <==> forall|i: int|
            0 <= i < transforms.len() ==> transform::definition_error(#[trigger] transforms[i])
                is None && programs[i] is Ok,
    decreases transforms.len(),
{
    if transforms.len() > 0 {
        let (fewer, found) = (transforms.drop_last(), programs.drop_last());
        transforms_are_checked_one_by_one(fewer, found);
        let last = transforms.len() - 1;
        assert forall|i: int| 0 <= i < last implies fewer[i] == #[trigger] transforms[i] && found[i]
            == programs[i] by {}
        if forall|i: int|
            0 <= i < transforms.len() ==> transform::definition_error(#[trigger] transforms[i])
                is None && programs[i] is Ok {
            assert(transform::definition_error(transforms[last]) is None);
            assert forall|i: int| 0 <= i < fewer.len() implies transform::definition_error(
                #[trigger] fewer[i],
            ) is None && found[i] is Ok by {
                assert(transform::definition_error(transforms[i]) is None);
            }
        }
        if transform_error(transforms, programs) is None {
            assert forall|i: int| 0 <= i < transforms.len() implies transform::definition_error(
                #[trigger] transforms[i],
            ) is None && programs[i] is Ok by {
                if i < last {
                    assert(transform::definition_error(fewer[i]) is None);
                }
            }
        }
    }
}

/// The server is in order if and only if its intervals are accepted, its work directory is
/// there and is a directory, and its transforms are in order.
pub proof fn servers_are_checked_as_a_whole(
    config: ServerConfig,
    work_dir: WorkDirSighting,
    programs: Seq<Result<(), String>>,
)
    requires
        programs.len() == config.transforms@.len(),
    ensures
        server_error(config, work_dir, programs) is None <==> {
            &&& config.gc.heartbeat_interval_secs > 0
            &&& 2 * config.gc.heartbeat_interval_secs <= config.gc.incoming_lease_secs
            &&& work_dir.exists && work_dir.is_dir
            &&& forall|i: int|
                0 <= i < config.transforms@.len() ==> transform::definition_error(
                    #[trigger] config.transforms@[i],
                ) is None && programs[i] is Ok
        },
{
    transforms_are_checked_one_by_one(config.transforms@, programs);
}

/// An answer about where a run stands names the run, who answers and when, and repeats what
/// was found of it, field by field.
pub proof fn state_answers_repeat_what_was_found(
    response: RunStateResponse,
    nickname: Seq<char>,
    run_id: Seq<char>,
    now: u64,
    view: StandingView,
)
    requires
        is_state_answer(response, nickname, run_id, now, view),
    ensures
        response.protocol_version == PROTOCOL_VERSION,
        response.purgery_version@ == version::current_version(),
        response.nickname@ == nickname,
        response.run_id@ == run_id,
        response.observed_at_unix_secs == now,
        response.phase@ == view.phase,
        response.terminal == view.terminal,
        response.message@ == view.fields.message,
        response.updated_at_unix_secs == view.fields.updated_at,
        text::opt_text(response.progress_state) == view.fields.state,
        response.entry_index == view.fields.entry_index,
        response.entry_total == view.fields.entry_total,
        text::opt_text(response.current_entry) == view.fields.current_entry,
        text::opt_text(response.current_transform) == view.fields.current_transform,
        text::opt_text(response.progress_status) == view.fields.status,
        text::opt_text(response.processor_state) == view.processor,
{
}

/// What an answer says of progress is told in full.
pub proof fn progress_fields_are_told_in_full(fields: ProgressFields)
    ensures
        fields@.message == fields.message@,
        fields@.updated_at == fields.updated_at,
        fields@.state == text::opt_text(fields.state),
        fields@.entry_index == fields.entry_index,
        fields@.entry_total == fields.entry_total,
        fields@.current_entry == text::opt_text(fields.current_entry),
        fields@.current_transform == text::opt_text(fields.current_transform),
        fields@.status == text::opt_text(fields.status),
{
}

} // verus!
