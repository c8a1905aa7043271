//! What the command line asks for, how a refused request is answered, and where the
//! configuration is found.

use vstd::prelude::*;

use crate::failure;
use crate::failure::Failure;
use crate::model;
use crate::model::{Nickname, RunId};
use crate::protocol::{ProtocolErrorDetail, ProtocolErrorResponse};
use crate::text;
use crate::version;
use crate::version::{current_purgery_version, PROTOCOL_VERSION};

verus! {

/// What the command line asks for.
#[derive(Debug)]
pub enum Command {
    Version,
    ProcessOnce,
    BeginRun { nickname: String, run_id: String },
    FinishRun { nickname: String, run_id: String },
    Status { nickname: String, run_id: String },
    Check,
    Bootstrap,
    Gc,
    PrepareRun { nickname: String, run_id: String },
    HeartbeatRun { nickname: String, run_id: String },
    RunState { nickname: String, run_id: String },
    ProcessRun { nickname: String, run_id: String },
}

impl Command {
    /// Whether a client sends the command: exactly the commands that name a run.
    pub open spec fn is_protocol(self) -> bool {
        match self {
            Command::Version
            | Command::ProcessOnce
            | Command::Check
            | Command::Bootstrap
            | Command::Gc => false,
            _ => true,
        }
    }

    /// The command as it is written on the wire.
    pub open spec fn name(self) -> Seq<char> {
        match self {
            Command::Version => "version"@,
            Command::ProcessOnce => "process-once"@,
            Command::BeginRun { nickname: _, run_id: _ } => "begin-run"@,
            Command::FinishRun { nickname: _, run_id: _ } => "finish-run"@,
            Command::Status { nickname: _, run_id: _ } => "status"@,
            Command::Check => "check"@,
            Command::Bootstrap => "bootstrap"@,
            Command::Gc => "gc"@,
            Command::PrepareRun { nickname: _, run_id: _ } => "prepare-run"@,
            Command::HeartbeatRun { nickname: _, run_id: _ } => "heartbeat-run"@,
            Command::RunState { nickname: _, run_id: _ } => "run-state"@,
            Command::ProcessRun { nickname: _, run_id: _ } => "process-run"@,
        }
    }
}

/// Whether a failure of the command is answered with an error envelope.
pub fn is_protocol_command(cmd: &Command) -> (yes: bool)
    ensures
        yes == cmd.is_protocol(),
{
    match cmd {
        Command::BeginRun { .. }
        | Command::PrepareRun { .. }
        | Command::FinishRun { .. }
        | Command::HeartbeatRun { .. }
        | Command::RunState { .. }
        | Command::Status { .. }
        | Command::ProcessRun { .. } => true,
        _ => false,
    }
}

/// The command as it is written in error envelopes.
pub fn command_name(cmd: &Command) -> (name: &'static str)
    ensures
        name@ == cmd.name(),
{
    match cmd {
        Command::BeginRun { .. } => "begin-run",
        Command::PrepareRun { .. } => "prepare-run",
        Command::FinishRun { .. } => "finish-run",
        Command::HeartbeatRun { .. } => "heartbeat-run",
        Command::RunState { .. } => "run-state",
        Command::Status { .. } => "status",
        Command::ProcessRun { .. } => "process-run",
        Command::Version => "version",
        Command::ProcessOnce => "process-once",
        Command::Check => "check",
        Command::Bootstrap => "bootstrap",
        Command::Gc => "gc",
    }
}

/// The code under which a failed command is reported.
pub open spec fn error_code(command: Seq<char>) -> Seq<char> {
    if command == "prepare-run"@ {
        "run_plan_invalid"@
    } else {
        "server_error"@
    }
}

/// The code under which a failed command is reported: a refused run plan is the
/// client's to mend, anything else the server's.
pub fn protocol_error_code(command: &str) -> (code: &'static str)
    ensures
        code@ == error_code(command@),
{
    if text::same_text(command, "prepare-run") {
        "run_plan_invalid"
    } else {
        "server_error"
    }
}

/// Whether an envelope reports a failure under a code.
pub open spec fn is_error_envelope(
    envelope: ProtocolErrorResponse,
    command: Seq<char>,
    code: Seq<char>,
    message: Seq<char>,
) -> bool {
    &&& envelope.protocol_version == PROTOCOL_VERSION
    &&& envelope.purgery_version@ == version::current_version()
    &&& envelope.command@ == command
    &&& !envelope.ok
    &&& envelope.error.code@ == code
    &&& envelope.error.message@ == message
}

/// A failure in one line: the message, then what caused it.
pub open spec fn one_line(error: failure::FailureView) -> Seq<char> {
    match error.cause {
        Some(cause) => error.message + ": "@ + cause,
        None => error.message,
    }
}

/// The envelope that reports a failure.
pub fn protocol_error(command: &str, error: &Failure, code: &str) -> (envelope:
    ProtocolErrorResponse)
    ensures
        is_error_envelope(envelope, command@, code@, one_line(error@)),
{
    ProtocolErrorResponse {
        protocol_version: PROTOCOL_VERSION,
        purgery_version: current_purgery_version().to_owned(),
        command: command.to_owned(),
        ok: false,
        error: ProtocolErrorDetail { code: code.to_owned(), message: error.full() },
    }
}

/// What is answered in place of the result of a request: an envelope exactly if the
/// request failed.
pub fn run_protocol(command: &str, code: &str, outcome: &Result<(), Failure>) -> (answer: Option<
    ProtocolErrorResponse,
>)
    ensures
        match outcome {
            Ok(_) => answer is None,
            Err(error) => answer matches Some(envelope) && is_error_envelope(
                envelope,
                command@,
                code@,
                one_line(error@),
            ),
        },
{
    match outcome {
        Ok(_) => None,
        Err(error) => Some(protocol_error(command, error, code)),
    }
}

/// How a failure before the command could run (finding, reading or applying the
/// configuration) is answered: by an envelope if a client asked, otherwise not.
pub fn setup_failure(cmd: &Command, error: &Failure) -> (answer: Option<ProtocolErrorResponse>)
    ensures
        if cmd.is_protocol() {
            answer matches Some(envelope) && is_error_envelope(
                envelope,
                cmd.name(),
                "server_config_invalid"@,
                one_line(error@),
            )
        } else {
            answer is None
        },
{
    if is_protocol_command(cmd) {
        Some(protocol_error(command_name(cmd), error, "server_config_invalid"))
    } else {
        None
    }
}

/// Accepts the names in a request, or answers that the request is invalid. The
/// nickname is looked at first.
pub fn validate_nickname_and_run_id(command: &str, nickname_str: &str, run_id_str: &str) -> (r:
    Result<(Nickname, RunId), ProtocolErrorResponse>)
    ensures
        if !model::valid_name(nickname_str@) {
            r matches Err(envelope) && is_error_envelope(
                envelope,
                command@,
                "invalid_request"@,
                "invalid nickname: "@ + model::name_refusal(nickname_str@),
            )
        } else if !model::valid_name(run_id_str@) {
            r matches Err(envelope) && is_error_envelope(
                envelope,
                command@,
                "invalid_request"@,
                "invalid run ID: "@ + model::name_refusal(run_id_str@),
            )
        } else {
            r matches Ok(names) && names.0@ == nickname_str@ && names.1@ == run_id_str@
        },
{
    let nickname = match Nickname::new(nickname_str.to_owned()) {
        Ok(nickname) => nickname,
        Err(error) => {
            let failure = Failure::new(text::cat2("invalid nickname: ", error.as_str()));
            return Err(protocol_error(command, &failure, "invalid_request"));
        },
    };
    let run_id = match RunId::new(run_id_str.to_owned()) {
        Ok(run_id) => run_id,
        Err(error) => {
            let failure = Failure::new(text::cat2("invalid run ID: ", error.as_str()));
            return Err(protocol_error(command, &failure, "invalid_request"));
        },
    };
    Ok((nickname, run_id))
}

/// The time in seconds, given how long the epoch has passed; the epoch itself if the
/// clock stands before it.
pub fn unix_now(since_epoch: Option<u64>) -> (now: u64)
    ensures
        now == (match since_epoch {
            Some(secs) => secs,
            None => 0u64,
        }),
{
    match since_epoch {
        Some(secs) => secs,
        None => 0,
    }
}

// ---------------------------------------------------------------------------
// Logging
// ---------------------------------------------------------------------------

/// How much is logged.
#[derive(Clone, Copy, PartialEq, Eq, Structural, Debug)]
pub enum LogLevel {
    Error,
    Warn,
    Info,
    Debug,
    Trace,
}

impl LogLevel {
    /// The choice of a name, if there is one.
    pub open spec fn named(s: Seq<char>) -> Option<LogLevel> {
        if s == "error"@ {
            Some(LogLevel::Error)
        } else if s == "warn"@ {
            Some(LogLevel::Warn)
        } else if s == "info"@ {
            Some(LogLevel::Info)
        } else if s == "debug"@ {
            Some(LogLevel::Debug)
        } else if s == "trace"@ {
            Some(LogLevel::Trace)
        } else {
            None
        }
    }

    /// Reads a level by its name.
    pub fn parse(s: &str) -> (level: Option<LogLevel>)
        ensures
            level == LogLevel::named(s@),
    {
        if text::same_text(s, "error") {
            Some(LogLevel::Error)
        } else if text::same_text(s, "warn") {
            Some(LogLevel::Warn)
        } else if text::same_text(s, "info") {
            Some(LogLevel::Info)
        } else if text::same_text(s, "debug") {
            Some(LogLevel::Debug)
        } else if text::same_text(s, "trace") {
            Some(LogLevel::Trace)
        } else {
            None
        }
    }
}

/// How a log line looks.
#[derive(Clone, Copy, PartialEq, Eq, Structural, Debug)]
pub enum LogFormat {
    Pretty,
    Compact,
    Json,
}

impl LogFormat {
    /// The choice of a name, if there is one.
    pub open spec fn named(s: Seq<char>) -> Option<LogFormat> {
        if s == "pretty"@ {
            Some(LogFormat::Pretty)
        } else if s == "compact"@ {
            Some(LogFormat::Compact)
        } else if s == "json"@ {
            Some(LogFormat::Json)
        } else {
            None
        }
    }

    /// Reads a format by its name.
    pub fn parse(s: &str) -> (format: Option<LogFormat>)
        ensures
            format == LogFormat::named(s@),
    {
        if text::same_text(s, "pretty") {
            Some(LogFormat::Pretty)
        } else if text::same_text(s, "compact") {
            Some(LogFormat::Compact)
        } else if text::same_text(s, "json") {
            Some(LogFormat::Json)
        } else {
            None
        }
    }
}

/// Whether log lines are coloured.
#[derive(Clone, Copy, PartialEq, Eq, Structural, Debug)]
pub enum ColorMode {
    Auto,
    Always,
    Never,
}

impl ColorMode {
    /// The choice of a name, if there is one.
    pub open spec fn named(s: Seq<char>) -> Option<ColorMode> {
        if s == "auto"@ {
            Some(ColorMode::Auto)
        } else if s == "always"@ {
            Some(ColorMode::Always)
        } else if s == "never"@ {
            Some(ColorMode::Never)
        } else {
            None
        }
    }

    /// Reads a mode by its name.
    pub fn parse(s: &str) -> (mode: Option<ColorMode>)
        ensures
            mode == ColorMode::named(s@),
    {
        if text::same_text(s, "auto") {
            Some(ColorMode::Auto)
        } else if text::same_text(s, "always") {
            Some(ColorMode::Always)
        } else if text::same_text(s, "never") {
            Some(ColorMode::Never)
        } else {
            None
        }
    }
}

/// How the server logs.
#[derive(Clone, Copy, PartialEq, Eq, Structural, Debug)]
pub struct LoggingConfig {
    pub level: LogLevel,
    pub format: LogFormat,
    pub color: ColorMode,
}

/// What the command line says of logging.
#[derive(Debug)]
pub struct LoggingOverrides {
    pub quiet: bool,
    pub verbose: bool,
    pub log_level: Option<String>,
    pub log_format: Option<String>,
    pub color: Option<String>,
}

/// What is wrong with the overrides, if anything: the first unknown name, level before
/// format before colour.
pub open spec fn override_error(overrides: LoggingOverrides) -> Option<Seq<char>> {
    if overrides.log_level is Some && LogLevel::named(overrides.log_level->Some_0@) is None {
        Some("invalid log level: unknown log level '"@ + overrides.log_level->Some_0@ + "'"@)
    } else if overrides.log_format is Some && LogFormat::named(overrides.log_format->Some_0@) is None {
        Some("invalid log format: unknown log format '"@ + overrides.log_format->Some_0@ + "'"@)
    } else if overrides.color is Some && ColorMode::named(overrides.color->Some_0@) is None {
        Some("invalid color mode: unknown color mode '"@ + overrides.color->Some_0@ + "'"@)
    } else {
        None
    }
}

/// Whether a configuration is the base with the overrides laid over it. A level by name
/// counts more than `verbose`, which counts more than `quiet`.
pub open spec fn is_overridden(
    result: LoggingConfig,
    base: LoggingConfig,
    overrides: LoggingOverrides,
) -> bool {
    &&& match overrides.log_level {
        Some(name) => Some(result.level) == LogLevel::named(name@),
        None => result.level == if overrides.verbose {
            LogLevel::Debug
        } else if overrides.quiet {
            LogLevel::Error
        } else {
            base.level
        },
    }
    &&& match overrides.log_format {
        Some(name) => Some(result.format) == LogFormat::named(name@),
        None => result.format == base.format,
    }
    &&& match overrides.color {
        Some(name) => Some(result.color) == ColorMode::named(name@),
        None => result.color == base.color,
    }
}

/// Lays what the command line says of logging over the configuration.
pub fn apply_cli_overrides(base: LoggingConfig, overrides: &LoggingOverrides) -> (r: Result<
    LoggingConfig,
    Failure,
>)
    ensures
        match override_error(*overrides) {
            Some(error) => r matches Err(f) && f@ == failure::plain(error),
            None => r matches Ok(result) && is_overridden(result, base, *overrides),
        },
{
    let mut result = base;
    if overrides.quiet {
        result.level = LogLevel::Error;
    }
    if overrides.verbose {
        result.level = LogLevel::Debug;
    }
    match &overrides.log_level {
        Some(name) => match LogLevel::parse(name.as_str()) {
            Some(level) => {
                result.level = level;
            },
            None => {
                return Err(
                    Failure::new(
                        text::cat3(
                            "invalid log level: unknown log level '",
                            name.as_str(),
                            "'",
                        ),
                    ),
                );
            },
        },
        None => {},
    }
    match &overrides.log_format {
        Some(name) => match LogFormat::parse(name.as_str()) {
            Some(format) => {
                result.format = format;
            },
            None => {
                return Err(
                    Failure::new(
                        text::cat3(
                            "invalid log format: unknown log format '",
                            name.as_str(),
                            "'",
                        ),
                    ),
                );
            },
        },
        None => {},
    }
    match &overrides.color {
        Some(name) => match ColorMode::parse(name.as_str()) {
            Some(color) => {
                result.color = color;
            },
            None => {
                return Err(
                    Failure::new(
                        text::cat3(
                            "invalid color mode: unknown color mode '",
                            name.as_str(),
                            "'",
                        ),
                    ),
                );
            },
        },
        None => {},
    }
    Ok(result)
}

// ---------------------------------------------------------------------------
// Finding the configuration
// ---------------------------------------------------------------------------

/// What the environment says of where the configuration is, and which of the
/// candidates exist.
#[derive(Debug)]
pub struct ConfigEnvironment {
    pub explicit: Option<String>,
    pub xdg_config_home: Option<String>,
    pub xdg_exists: bool,
    pub home: Option<String>,
    pub home_exists: bool,
    pub etc_exists: bool,
}

/// A variable that is set, and not to nothing.
pub open spec fn set_to(variable: Option<String>) -> Option<Seq<char>> {
    match variable {
        Some(value) => if value@.len() > 0 {
            Some(value@)
        } else {
            None
        },
        None => None,
    }
}

/// The candidate below a configuration directory.
pub open spec fn xdg_candidate(xdg_config_home: Seq<char>) -> Seq<char> {
    xdg_config_home + "/purgery/server.toml"@
}

/// The candidate below a home directory.
pub open spec fn home_candidate(home: Seq<char>) -> Seq<char> {
    home + "/.config/purgery/server.toml"@
}

/// The candidate below a configuration directory.
pub fn xdg_config_path(xdg_config_home: &str) -> (path: String)
    ensures
        path@ == xdg_candidate(xdg_config_home@),
{
    text::cat2(xdg_config_home, "/purgery/server.toml")
}

/// The candidate below a home directory.
pub fn home_config_path(home: &str) -> (path: String)
    ensures
        path@ == home_candidate(home@),
{
    text::cat2(home, "/.config/purgery/server.toml")
}

/// Where the configuration is: where it is said to be, otherwise the first candidate
/// that exists.
pub open spec fn config_place(env: ConfigEnvironment) -> Option<Seq<char>> {
    if set_to(env.explicit) is Some {
        set_to(env.explicit)
    } else if set_to(env.xdg_config_home) is Some && env.xdg_exists {
        Some(xdg_candidate(set_to(env.xdg_config_home)->Some_0))
    } else if set_to(env.home) is Some && env.home_exists {
        Some(home_candidate(set_to(env.home)->Some_0))
    } else if env.etc_exists {
        Some("/etc/purgery/server.toml"@)
    } else {
        None
    }
}

/// What is said where no configuration is found.
pub open spec fn no_config() -> failure::FailureView {
    failure::plain(
        "no server config found; use --config, $PURGERY_SERVER_CONFIG_PATH, $XDG_CONFIG_HOME/purgery/server.toml, ~/.config/purgery/server.toml, or /etc/purgery/server.toml"@,
    )
}

fn is_set(variable: &Option<String>) -> (yes: bool)
    ensures
        yes == set_to(*variable) is Some,
{
    match variable {
        Some(value) => value.as_str().unicode_len() > 0,
        None => false,
    }
}

/// Finds the configuration.
pub fn find_config(env: &ConfigEnvironment) -> (r: Result<String, Failure>)
    ensures
        match config_place(*env) {
            Some(place) => r matches Ok(path) && path@ == place,
            None => r matches Err(f) && f@ == no_config(),
        },
{
    match &env.explicit {
        Some(path) => {
            if is_set(&env.explicit) {
                return Ok(path.clone());
            }
        },
        None => {},
    }
    match &env.xdg_config_home {
        Some(xdg_config_home) => {
            if is_set(&env.xdg_config_home) && env.xdg_exists {
                return Ok(xdg_config_path(xdg_config_home.as_str()));
            }
        },
        None => {},
    }
    match &env.home {
        Some(home) => {
            if is_set(&env.home) && env.home_exists {
                return Ok(home_config_path(home.as_str()));
            }
        },
        None => {},
    }
    if env.etc_exists {
        return Ok("/etc/purgery/server.toml".to_owned());
    }
    Err(
        Failure::new(
            "no server config found; use --config, $PURGERY_SERVER_CONFIG_PATH, $XDG_CONFIG_HOME/purgery/server.toml, ~/.config/purgery/server.toml, or /etc/purgery/server.toml".to_owned(),
        ),
    )
}

/// The path of the configuration: the one on the command line unless it is empty,
/// otherwise the one that is found.
pub fn choose_config(given: &Option<String>, env: &ConfigEnvironment) -> (r: Result<
    String,
    Failure,
>)
    ensures
        match set_to(*given) {
            Some(place) => r matches Ok(path) && path@ == place,
            None => match config_place(*env) {
                Some(place) => r matches Ok(path) && path@ == place,
                None => r matches Err(f) && f@ == no_config(),
            },
        },
{
    match given {
        Some(path) => {
            if is_set(given) {
                return Ok(path.clone());
            }
        },
        None => {},
    }
    find_config(env)
}

/// A refused run plan is told apart from every other failure by its code.
pub proof fn run_plan_failures_have_their_own_code(a: Command, b: Command)
    requires
        error_code(a.name()) == error_code(b.name()),
        a is PrepareRun,
    ensures
        b is PrepareRun,
{
    reveal_strlit("run_plan_invalid");
    reveal_strlit("server_error");
    reveal_strlit("version");
    reveal_strlit("process-once");
    reveal_strlit("begin-run");
    reveal_strlit("finish-run");
    reveal_strlit("status");
    reveal_strlit("check");
    reveal_strlit("bootstrap");
    reveal_strlit("gc");
    reveal_strlit("prepare-run");
    reveal_strlit("heartbeat-run");
    reveal_strlit("run-state");
    reveal_strlit("process-run");
    assert(error_code(a.name())[0] == 'r');
    if b.name() == "prepare-run"@ {
        assert(b.name()[2] == 'e');
        assert(b.name()[1] == 'r');
    }
}

/// A failure is answered with an envelope exactly for the commands that name a run.
pub proof fn clients_name_a_run(cmd: Command)
    ensures
        cmd.is_protocol() <==> match cmd {
            Command::BeginRun { .. }
            | Command::FinishRun { .. }
            | Command::Status { .. }
            | Command::PrepareRun { .. }
            | Command::HeartbeatRun { .. }
            | Command::RunState { .. }
            | Command::ProcessRun { .. } => true,
            _ => false,
        },
{
}

/// A level by name counts more than the wish for more or fewer lines, and the wish for more
/// counts more than that for fewer; what the command line does not say stays as it is
/// configured. Overrides are refused if and only if one of them is no name.
pub proof fn overrides_are_laid_over_the_configuration(
    result: LoggingConfig,
    base: LoggingConfig,
    overrides: LoggingOverrides,
)
    requires
        is_overridden(result, base, overrides),
        override_error(overrides) is None,
    ensures
        overrides.log_level is None && !overrides.verbose && !overrides.quiet ==> result.level
            == base.level,
        overrides.log_level is None && overrides.verbose ==> result.level is Debug,
        overrides.log_level is None && !overrides.verbose && overrides.quiet ==> result.level
            is Error,
        overrides.log_format is None ==> result.format == base.format,
        overrides.color is None ==> result.color == base.color,
        overrides.log_level matches Some(name) ==> name@ == (match result.level {
            LogLevel::Error => "error"@,
            LogLevel::Warn => "warn"@,
            LogLevel::Info => "info"@,
            LogLevel::Debug => "debug"@,
            LogLevel::Trace => "trace"@,
        }),
        overrides.log_format matches Some(name) ==> name@ == (match result.format {
            LogFormat::Pretty => "pretty"@,
            LogFormat::Compact => "compact"@,
            LogFormat::Json => "json"@,
        }),
        overrides.color matches Some(name) ==> name@ == (match result.color {
            ColorMode::Auto => "auto"@,
            ColorMode::Always => "always"@,
            ColorMode::Never => "never"@,
        }),
{
}

/// Every level, format and mode can be chosen by its name, and by no other.
pub proof fn choices_have_names(level: LogLevel, format: LogFormat, color: ColorMode, s: Seq<char>)
    ensures
        LogLevel::named(s) == Some(level) ==> s == (match level {
            LogLevel::Error => "error"@,
            LogLevel::Warn => "warn"@,
            LogLevel::Info => "info"@,
            LogLevel::Debug => "debug"@,
            LogLevel::Trace => "trace"@,
        }),
        LogLevel::named("error"@) == Some(LogLevel::Error),
        LogLevel::named("warn"@) == Some(LogLevel::Warn),
        LogLevel::named("info"@) == Some(LogLevel::Info),
        LogLevel::named("debug"@) == Some(LogLevel::Debug),
        LogLevel::named("trace"@) == Some(LogLevel::Trace),
        LogFormat::named(s) == Some(format) ==> s == (match format {
            LogFormat::Pretty => "pretty"@,
            LogFormat::Compact => "compact"@,
            LogFormat::Json => "json"@,
        }),
        LogFormat::named("pretty"@) == Some(LogFormat::Pretty),
        LogFormat::named("compact"@) == Some(LogFormat::Compact),
        LogFormat::named("json"@) == Some(LogFormat::Json),
        ColorMode::named(s) == Some(color) ==> s == (match color {
            ColorMode::Auto => "auto"@,
            ColorMode::Always => "always"@,
            ColorMode::Never => "never"@,
        }),
        ColorMode::named("auto"@) == Some(ColorMode::Auto),
        ColorMode::named("always"@) == Some(ColorMode::Always),
        ColorMode::named("never"@) == Some(ColorMode::Never),
{
    reveal_strlit("error");
    reveal_strlit("warn");
    reveal_strlit("info");
    reveal_strlit("debug");
    reveal_strlit("trace");
    reveal_strlit("pretty");
    reveal_strlit("compact");
    reveal_strlit("json");
    reveal_strlit("auto");
    reveal_strlit("always");
    reveal_strlit("never");
    assert("error"@[0] == 'e' && "warn"@[0] == 'w' && "info"@[0] == 'i' && "debug"@[0] == 'd'
        && "trace"@[0] == 't');
    assert("pretty"@[0] == 'p' && "compact"@[0] == 'c' && "json"@[0] == 'j');
    assert("auto"@.len() == 4 && "always"@.len() == 6 && "never"@.len() == 5);
}

/// The configuration is where the environment says it is, if it says so; otherwise it is
/// below the configuration directory, below the home directory or in the place for the
/// whole system, the first of these at which there is one. A variable that is set to
/// nothing counts as not set.
pub proof fn the_first_configuration_counts(env: ConfigEnvironment)
    ensures
        ({
            let explicit = env.explicit is Some && env.explicit->0@.len() > 0;
            let xdg = env.xdg_config_home is Some && env.xdg_config_home->0@.len() > 0
                && env.xdg_exists;
            let home = env.home is Some && env.home->0@.len() > 0 && env.home_exists;
            &&& explicit ==> config_place(env) == Some(env.explicit->0@)
            &&& !explicit && xdg ==> config_place(env) == Some(
                env.xdg_config_home->0@ + "/purgery/server.toml"@,
            )
            &&& !explicit && !xdg && home ==> config_place(env) == Some(
                env.home->0@ + "/.config/purgery/server.toml"@,
            )
            &&& !explicit && !xdg && !home && env.etc_exists ==> config_place(env) == Some(
                "/etc/purgery/server.toml"@,
            )
            &&& config_place(env) is None <==> !explicit && !xdg && !home && !env.etc_exists
        }),
{
}

/// An error envelope tells the failure with its cause: a failure without one in its own
/// words, and one with a cause with the words of the cause behind it.
pub proof fn envelopes_tell_the_cause(message: Seq<char>, cause: Seq<char>)
    ensures
        one_line(failure::plain(message)) == message,
        one_line(failure::caused(message, cause)) == message + ": "@ + cause,
{
}

/// The names of the commands differ, so that an answer tells which one it is to.
pub proof fn commands_are_told_apart(a: Command, b: Command)
    requires
        a.is_protocol(),
        b.is_protocol(),
        a.name() == b.name(),
    ensures
        a is BeginRun <==> b is BeginRun,
        a is FinishRun <==> b is FinishRun,
        a is Status <==> b is Status,
        a is PrepareRun <==> b is PrepareRun,
        a is HeartbeatRun <==> b is HeartbeatRun,
        a is RunState <==> b is RunState,
        a is ProcessRun <==> b is ProcessRun,
{
    reveal_strlit("begin-run");
    reveal_strlit("finish-run");
    reveal_strlit("status");
    reveal_strlit("prepare-run");
    reveal_strlit("heartbeat-run");
    reveal_strlit("run-state");
    reveal_strlit("process-run");
    assert("begin-run"@[0] == 'b' && "finish-run"@[0] == 'f' && "status"@[0] == 's'
        && "heartbeat-run"@[0] == 'h' && "run-state"@[0] == 'r');
    assert("prepare-run"@[0] == 'p' && "process-run"@[0] == 'p');
    assert("prepare-run"@[2] == 'e' && "process-run"@[2] == 'o');
}

/// An error envelope names the command, says that it failed, under which code and why, and
/// who answers; a refused run plan has a code of its own.
pub proof fn envelopes_name_the_command(
    envelope: ProtocolErrorResponse,
    cmd: Command,
    error: failure::FailureView,
)
    requires
        is_error_envelope(envelope, cmd.name(), error_code(cmd.name()), one_line(error)),
    ensures
        !envelope.ok,
        envelope.command@ == cmd.name(),
        envelope.protocol_version == PROTOCOL_VERSION,
        envelope.purgery_version@ == version::current_version(),
        envelope.error.message@ == one_line(error),
        cmd is PrepareRun ==> envelope.error.code@ == "run_plan_invalid"@,
        !(cmd is PrepareRun) ==> envelope.error.code@ == "server_error"@,
{
    reveal_strlit("version");
    reveal_strlit("process-once");
    reveal_strlit("begin-run");
    reveal_strlit("finish-run");
    reveal_strlit("status");
    reveal_strlit("check");
    reveal_strlit("bootstrap");
    reveal_strlit("gc");
    reveal_strlit("prepare-run");
    reveal_strlit("heartbeat-run");
    reveal_strlit("run-state");
    reveal_strlit("process-run");
    assert("prepare-run"@[0] == 'p' && "prepare-run"@[2] == 'e');
    assert("version"@[0] == 'v' && "begin-run"@[0] == 'b' && "finish-run"@[0] == 'f'
        && "status"@[0] == 's' && "check"@[0] == 'c' && "bootstrap"@[0] == 'b' && "gc"@[0] == 'g'
        && "heartbeat-run"@[0] == 'h' && "run-state"@[0] == 'r');
    assert("process-once"@[2] == 'o' && "process-run"@[2] == 'o');
}

} // verus!
