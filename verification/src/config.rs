//! Worker configuration: the arguments, the environment and the config file
//! brought together.
//!
//! The environment wins over the file, and the file over the defaults. What
//! belongs to one model (token, context window, reasoning effort) comes from
//! the source that names the model, so that a default model's settings never
//! leak into a session under another model.
use vstd::prelude::*;
use vstd::string::*;

use crate::chat::copy_opt;
use crate::text::{blank, cat2, is_blank, opt_text, parse_number, parsed_number, same_text, trim, trimmed};

verus! {

/// How deep subagents nest: a root session may spawn subagents, and those are
/// leaves.
pub const MAX_SUBAGENT_DEPTH: u32 = 1;

/// How many tool calls run at once by default.
pub const DEFAULT_MAX_TOOL_CONCURRENCY: usize = 8;

/// The bits of the default compression threshold, three quarters.
pub const DEFAULT_THRESHOLD_BITS: u64 = 0x3FE8_0000_0000_0000;

/// The bits of the smallest positive normal fraction.
pub const MIN_THRESHOLD_BITS: u64 = 0x0010_0000_0000_0000;

/// The bits of one.
pub const MAX_THRESHOLD_BITS: u64 = 0x3FF0_0000_0000_0000;

/// The bits of infinity; positive bits above them are no number.
pub const INFINITY_BITS: u64 = 0x7FF0_0000_0000_0000;

/// The bit of the sign.
pub const SIGN_BIT: u64 = 0x8000_0000_0000_0000;

/// The data directory by default.
pub const DEFAULT_DATA_DIR: &'static str = "./data";

/// The argument that names the session.
pub const SESSION_ID_ARG: &'static str = "--session-id";

/// A model of the config file.
#[derive(Debug, Clone, PartialEq, Eq)]
pub struct ModelConfig {
    pub base_url: String,
    pub name: String,
    pub token: Option<String>,
    pub nickname: Option<String>,
    pub context_window: Option<u64>,
    pub reasoning_effort: Option<String>,
}

/// The config file, as far as a worker reads it.
#[derive(Debug, Clone, PartialEq, Eq)]
pub struct FileConfig {
    pub data_dir: String,
    pub agents_dir: String,
    /// The first model of the file.
    pub default_model: Option<ModelConfig>,
    pub max_tool_concurrency: usize,
    /// The bits of the compression threshold.
    pub context_compression_threshold: u64,
}

/// The environment, as far as a worker reads it.
#[derive(Debug, Clone, PartialEq, Eq)]
pub struct Environment {
    pub data_dir: Option<String>,
    pub agents_dir: Option<String>,
    pub subagent_depth: Option<String>,
    pub model_base_url: Option<String>,
    pub model_name: Option<String>,
    pub auth_token: Option<String>,
    pub context_window: Option<String>,
    pub reasoning_effort: Option<String>,
    pub max_tool_concurrency: Option<String>,
    /// The bits of the compression threshold, where the variable holds a
    /// number.
    pub context_compression_threshold: Option<u64>,
}

/// What a worker runs with.
#[derive(Debug, Clone, PartialEq, Eq)]
pub struct WorkerConfig {
    pub session_id: String,
    pub data_dir: String,
    pub agents_dir: String,
    pub model_base_url: String,
    pub model_name: String,
    pub auth_token: Option<String>,
    pub context_window: Option<u64>,
    pub reasoning_effort: Option<String>,
    /// Within the hard cap.
    pub subagent_depth: u32,
    /// At least one.
    pub max_tool_concurrency: usize,
    /// The bits of the compression threshold, above zero and at most one.
    pub context_compression_threshold: u64,
}

/// Why there is no configuration.
#[derive(Debug, Clone, PartialEq, Eq)]
pub enum ConfigError {
    MissingSessionId,
    BadDepth(String),
    MissingBaseUrl,
    MissingModelName,
}

/// The words for an error.
pub open spec fn error_text(e: ConfigError) -> Seq<char> {
    match e {
        ConfigError::MissingSessionId => "missing required argument: --session-id <id>"@,
        ConfigError::BadDepth(v) => "invalid MO_SUBAGENT_DEPTH: "@ + v@,
        ConfigError::MissingBaseUrl => "missing model base URL: set MO_MODEL_BASE_URL or configure [[models]] in mo.toml"@,
        ConfigError::MissingModelName => "missing model name: set MO_MODEL_NAME or configure [[models]] in mo.toml"@,
    }
}

impl ConfigError {
    /// The words for the error.
    pub fn message(&self) -> (r: String)
        ensures
            r@ == error_text(*self),
    {
        match self {
            ConfigError::MissingSessionId => "missing required argument: --session-id <id>".to_owned(),
            ConfigError::BadDepth(v) => cat2("invalid MO_SUBAGENT_DEPTH: ", v.as_str()),
            ConfigError::MissingBaseUrl => "missing model base URL: set MO_MODEL_BASE_URL or configure [[models]] in mo.toml".to_owned(),
            ConfigError::MissingModelName => "missing model name: set MO_MODEL_NAME or configure [[models]] in mo.toml".to_owned(),
        }
    }
}

// ---------------------------------------------------------------------------
// The model
// ---------------------------------------------------------------------------

/// A model and its settings, from one source.
#[derive(Debug, Clone, PartialEq, Eq)]
pub struct ResolvedModel {
    pub base_url: String,
    pub name: String,
    pub token: Option<String>,
    pub context_window: Option<u64>,
    pub reasoning_effort: Option<String>,
}

/// The texts of a resolved model.
#[verifier::ext_equal]
pub struct ModelView {
    pub base_url: Seq<char>,
    pub name: Seq<char>,
    pub token: Option<Seq<char>>,
    pub context_window: Option<u64>,
    pub reasoning_effort: Option<Seq<char>>,
}

impl View for ResolvedModel {
    type V = ModelView;

    open spec fn view(&self) -> ModelView {
        ModelView {
            base_url: self.base_url@,
            name: self.name@,
            token: opt_text(self.token),
            context_window: self.context_window,
            reasoning_effort: opt_text(self.reasoning_effort),
        }
    }
}

/// A value that is not empty.
pub open spec fn non_empty(value: Option<Seq<char>>) -> Option<Seq<char>> {
    match value {
        Some(v) if v.len() > 0 => Some(v),
        _ => None,
    }
}

/// A reasoning effort without the blanks around it; a blank one is none.
pub open spec fn effort(value: Option<Seq<char>>) -> Option<Seq<char>> {
    match value {
        Some(v) if !blank(v) => Some(trimmed(v)),
        _ => None,
    }
}

/// A context window, where the value is a number.
pub open spec fn window(value: Option<Seq<char>>) -> Option<u64> {
    match value {
        Some(v) => match parsed_number(v, u64::MAX as nat) {
            Some(n) => Some(n as u64),
            None => None,
        },
        None => None,
    }
}

/// The model that the environment and the file come to.
pub open spec fn model_of(
    file_default: Option<ModelConfig>,
    env_base_url: Option<Seq<char>>,
    env_name: Option<Seq<char>>,
    env_token: Option<Seq<char>>,
    env_context_window: Option<Seq<char>>,
    env_reasoning_effort: Option<Seq<char>>,
) -> Result<ModelView, ConfigError> {
    match (env_base_url, env_name) {
        (Some(base_url), Some(name)) => Ok(
            ModelView {
                base_url,
                name,
                token: non_empty(env_token),
                context_window: window(env_context_window),
                reasoning_effort: effort(env_reasoning_effort),
            },
        ),
        _ => match file_default {
            Some(model) => Ok(
                ModelView {
                    base_url: model.base_url@,
                    name: model.name@,
                    token: opt_text(model.token),
                    context_window: model.context_window,
                    reasoning_effort: opt_text(model.reasoning_effort),
                },
            ),
            None => Err(
                if env_base_url is None {
                    ConfigError::MissingBaseUrl
                } else {
                    ConfigError::MissingModelName
                },
            ),
        },
    }
}

/// A model that the environment names takes nothing from the config file.
pub proof fn law_env_model_ignores_the_file(
    file: Option<ModelConfig>,
    other: Option<ModelConfig>,
    base_url: Seq<char>,
    name: Seq<char>,
    token: Option<Seq<char>>,
    context_window: Option<Seq<char>>,
    reasoning_effort: Option<Seq<char>>,
)
    ensures
        model_of(file, Some(base_url), Some(name), token, context_window, reasoning_effort)
            == model_of(other, Some(base_url), Some(name), token, context_window, reasoning_effort),
{
}

/// A model of the config file takes nothing from the environment: where the
/// environment lacks the base URL or the name, the file counts whole.
pub proof fn law_file_model_ignores_the_env(
    file: ModelConfig,
    base_url: Option<Seq<char>>,
    name: Option<Seq<char>>,
    token: Option<Seq<char>>,
    context_window: Option<Seq<char>>,
    reasoning_effort: Option<Seq<char>>,
)
    requires
        base_url is None || name is None,
    ensures
        model_of(Some(file), base_url, name, token, context_window, reasoning_effort) == model_of(
            Some(file),
            None,
            None,
            None,
            None,
            None,
        ),
{
}

/// A reasoning effort without the blanks around it; a blank one is none.
pub fn normalize_reasoning_effort(value: Option<String>) -> (r: Option<String>)
    ensures
        opt_text(r) == effort(opt_text(value)),
{
    match value {
        Some(v) => if is_blank(v.as_str()) {
            None
        } else {
            Some(trim(v.as_str()).to_owned())
        },
        None => None,
    }
}

/// The session's model and its settings: from the environment where it names
/// a model, otherwise the default model of the config file.
pub fn resolve_model(
    file_default: Option<&ModelConfig>,
    env_base_url: Option<String>,
    env_name: Option<String>,
    env_token: Option<String>,
    env_context_window: Option<String>,
    env_reasoning_effort: Option<String>,
) -> (r: Result<ResolvedModel, ConfigError>)
    ensures
        match r {
            Ok(m) => model_of(
                match file_default {
                    Some(f) => Some(*f),
                    None => None,
                },
                opt_text(env_base_url),
                opt_text(env_name),
                opt_text(env_token),
                opt_text(env_context_window),
                opt_text(env_reasoning_effort),
            ) == Ok::<ModelView, ConfigError>(m@),
            Err(e) => model_of(
                match file_default {
                    Some(f) => Some(*f),
                    None => None,
                },
                opt_text(env_base_url),
                opt_text(env_name),
                opt_text(env_token),
                opt_text(env_context_window),
                opt_text(env_reasoning_effort),
            ) == Err::<ModelView, ConfigError>(e),
        },
{
    match (env_base_url, env_name) {
        (Some(base_url), Some(name)) => {
            let token = match env_token {
                Some(v) => if v.as_str().is_empty() {
                    None
                } else {
                    Some(v)
                },
                None => None,
            };
            let context_window: Option<u64> = match env_context_window {
                Some(v) => parse_number(v.as_str(), u64::MAX),
                None => None,
            };
            Ok(
                ResolvedModel {
                    base_url,
                    name,
                    token,
                    context_window,
                    reasoning_effort: normalize_reasoning_effort(env_reasoning_effort),
                },
            )
        },
        (env_base_url, _) => match file_default {
            Some(model) => Ok(
                ResolvedModel {
                    base_url: model.base_url.clone(),
                    name: model.name.clone(),
                    token: copy_opt(&model.token),
                    context_window: model.context_window,
                    reasoning_effort: copy_opt(&model.reasoning_effort),
                },
            ),
            None => Err(
                if env_base_url.is_none() {
                    ConfigError::MissingBaseUrl
                } else {
                    ConfigError::MissingModelName
                },
            ),
        },
    }
}

// ---------------------------------------------------------------------------
// The whole configuration
// ---------------------------------------------------------------------------

/// The session that the arguments name: the last one counts, and a trailing
/// argument without a value names none.
pub open spec fn session_arg(args: Seq<String>, found: Option<Seq<char>>) -> Option<Seq<char>>
    decreases args.len(),
{
    if args.len() == 0 {
        found
    } else if args[0]@ == SESSION_ID_ARG@ {
        if args.len() == 1 {
            None
        } else {
            session_arg(args.skip(2), Some(args[1]@))
        }
    } else {
        session_arg(args.skip(1), found)
    }
}

/// The bits of a value that is no number.
pub open spec fn no_number(bits: u64) -> bool {
    INFINITY_BITS < bits < SIGN_BIT || bits > SIGN_BIT + INFINITY_BITS
}

/// A threshold kept above zero and at most one; what is no number gives the
/// default.
pub open spec fn clamped(bits: u64) -> u64 {
    if no_number(bits) {
        DEFAULT_THRESHOLD_BITS
    } else if bits >= SIGN_BIT || bits < MIN_THRESHOLD_BITS {
        MIN_THRESHOLD_BITS
    } else if bits > MAX_THRESHOLD_BITS {
        MAX_THRESHOLD_BITS
    } else {
        bits
    }
}

/// A depth within the hard cap.
pub open spec fn capped_depth(depth: nat) -> nat {
    if depth < MAX_SUBAGENT_DEPTH {
        depth
    } else {
        MAX_SUBAGENT_DEPTH as nat
    }
}

/// The first of two texts that is given.
pub open spec fn first_text(a: Option<Seq<char>>, b: Seq<char>) -> Seq<char> {
    match a {
        Some(t) => t,
        None => b,
    }
}

/// The number of tool calls that run at once: from the environment where it
/// holds a number, then from the file, then the default; at least one.
pub open spec fn concurrency_of(env: Option<Seq<char>>, file: Option<FileConfig>) -> usize {
    let from_file = match file {
        Some(f) => f.max_tool_concurrency,
        None => DEFAULT_MAX_TOOL_CONCURRENCY,
    };
    let n = match env {
        Some(v) => match parsed_number(v, usize::MAX as nat) {
            Some(n) => n as usize,
            None => from_file,
        },
        None => from_file,
    };
    if n < 1 {
        1
    } else {
        n
    }
}

/// The configuration is that of the arguments, the environment and the file.
pub open spec fn configures(
    cfg: WorkerConfig,
    args: Seq<String>,
    env: Environment,
    file: Option<FileConfig>,
    default_agents_dir: Seq<char>,
    model: ModelView,
    depth: nat,
) -> bool {
    &&& session_arg(args, None) == Some(cfg.session_id@)
    &&& cfg.data_dir@ == first_text(
        opt_text(env.data_dir),
        match file {
            Some(f) => f.data_dir@,
            None => DEFAULT_DATA_DIR@,
        },
    )
    &&& cfg.agents_dir@ == first_text(
        opt_text(env.agents_dir),
        match file {
            Some(f) => f.agents_dir@,
            None => default_agents_dir,
        },
    )
    &&& cfg.model_base_url@ == model.base_url
    &&& cfg.model_name@ == model.name
    &&& opt_text(cfg.auth_token) == model.token
    &&& cfg.context_window == model.context_window
    &&& opt_text(cfg.reasoning_effort) == model.reasoning_effort
    &&& cfg.subagent_depth as nat == capped_depth(depth)
    &&& cfg.max_tool_concurrency == concurrency_of(opt_text(env.max_tool_concurrency), file)
    &&& cfg.context_compression_threshold == clamped(
        match env.context_compression_threshold {
            Some(bits) => bits,
            None => match file {
                Some(f) => f.context_compression_threshold,
                None => DEFAULT_THRESHOLD_BITS,
            },
        },
    )
}

/// The depth that the environment gives the session: none means the root.
pub open spec fn depth_of(env: Option<Seq<char>>) -> Option<nat> {
    match env {
        Some(v) => parsed_number(v, u32::MAX as nat),
        None => Some(0),
    }
}

/// The default model of a config file.
pub open spec fn default_model(file: Option<FileConfig>) -> Option<ModelConfig> {
    match file {
        Some(f) => f.default_model,
        None => None,
    }
}

/// The model that the environment and the file come to.
pub open spec fn configured_model(env: Environment, file: Option<FileConfig>) -> Result<
    ModelView,
    ConfigError,
> {
    model_of(
        default_model(file),
        opt_text(env.model_base_url),
        opt_text(env.model_name),
        opt_text(env.auth_token),
        opt_text(env.context_window),
        opt_text(env.reasoning_effort),
    )
}

fn find_session_arg(args: &Vec<String>) -> (r: Option<String>)
    ensures
        opt_text(r) == session_arg(args@, None),
{
    let mut found: Option<String> = None;
    let mut i: usize = 0;
    assert(args@.skip(0) =~= args@);
    while i < args.len()
        invariant
            i <= args.len(),
            session_arg(args@, None) == session_arg(args@.skip(i as int), opt_text(found)),
        decreases args.len() - i,
    {
        assert(args@.skip(i as int)[0] == args@[i as int]);
        if same_text(args[i].as_str(), SESSION_ID_ARG) {
            if i + 1 == args.len() {
                return None;
            }
            assert(args@.skip(i as int)[1] == args@[i + 1]);
            assert(args@.skip(i as int).skip(2) =~= args@.skip(i + 2));
            found = Some(args[i + 1].clone());
            i = i + 2;
        } else {
            assert(args@.skip(i as int).skip(1) =~= args@.skip(i + 1));
            i = i + 1;
        }
    }
    assert(args@.skip(i as int).len() == 0);
    found
}

/// A threshold kept above zero and at most one, so that no setting disables
/// the compression.
pub fn clamp_threshold(bits: u64) -> (r: u64)
    ensures
        r == clamped(bits),
        MIN_THRESHOLD_BITS <= r <= MAX_THRESHOLD_BITS,
{
    if bits >= SIGN_BIT {
        if bits - SIGN_BIT > INFINITY_BITS {
            DEFAULT_THRESHOLD_BITS
        } else {
            MIN_THRESHOLD_BITS
        }
    } else if bits > INFINITY_BITS {
        DEFAULT_THRESHOLD_BITS
    } else if bits < MIN_THRESHOLD_BITS {
        MIN_THRESHOLD_BITS
    } else if bits > MAX_THRESHOLD_BITS {
        MAX_THRESHOLD_BITS
    } else {
        bits
    }
}

fn tool_concurrency(env: &Option<String>, file: &Option<FileConfig>) -> (r: usize)
    ensures
        r == concurrency_of(opt_text(*env), *file),
        r >= 1,
{
    let from_file: usize = match file {
        Some(f) => f.max_tool_concurrency,
        None => DEFAULT_MAX_TOOL_CONCURRENCY,
    };
    let n: usize = match env {
        Some(v) => match parse_number(v.as_str(), usize::MAX as u64) {
            Some(n) => n as usize,
            None => from_file,
        },
        None => from_file,
    };
    if n < 1 {
        1
    } else {
        n
    }
}

/// Brings the arguments (without the program name), the environment and the
/// config file together. `default_agents_dir` is the agents directory where
/// neither the environment nor the file names one.
pub fn parse_config(
    args: &Vec<String>,
    env: &Environment,
    file: &Option<FileConfig>,
    default_agents_dir: &str,
) -> (r: Result<WorkerConfig, ConfigError>)
    ensures
        match r {
            Ok(cfg) => depth_of(opt_text(env.subagent_depth)) matches Some(depth)
                && configured_model(*env, *file) matches Ok(model) && configures(
                cfg,
                args@,
                *env,
                *file,
                default_agents_dir@,
                model,
                depth,
            ),
            Err(ConfigError::MissingSessionId) => session_arg(args@, None) is None,
            Err(ConfigError::BadDepth(v)) => session_arg(args@, None) is Some && depth_of(
                opt_text(env.subagent_depth),
            ) is None && opt_text(env.subagent_depth) == Some(v@),
            Err(e) => session_arg(args@, None) is Some && depth_of(
                opt_text(env.subagent_depth),
            ) is Some && configured_model(*env, *file) == Err::<ModelView, ConfigError>(e),
        },
        session_arg(args@, None) is None ==> r == Err::<WorkerConfig, ConfigError>(
            ConfigError::MissingSessionId,
        ),
        r is Ok <==> session_arg(args@, None) is Some && depth_of(
            opt_text(env.subagent_depth),
        ) is Some && configured_model(*env, *file) is Ok,
        r matches Ok(cfg) ==> cfg.subagent_depth <= MAX_SUBAGENT_DEPTH && cfg.max_tool_concurrency
            >= 1 && MIN_THRESHOLD_BITS <= cfg.context_compression_threshold <= MAX_THRESHOLD_BITS,
{
    let session_id = match find_session_arg(args) {
        Some(id) => id,
        None => {
            return Err(ConfigError::MissingSessionId);
        },
    };
    let data_dir = match (&env.data_dir, file) {
        (Some(dir), _) => dir.clone(),
        (None, Some(f)) => f.data_dir.clone(),
        (None, None) => DEFAULT_DATA_DIR.to_owned(),
    };
    let agents_dir = match (&env.agents_dir, file) {
        (Some(dir), _) => dir.clone(),
        (None, Some(f)) => f.agents_dir.clone(),
        (None, None) => default_agents_dir.to_owned(),
    };
    let subagent_depth: u32 = match &env.subagent_depth {
        Some(v) => match parse_number(v.as_str(), u32::MAX as u64) {
            Some(n) => if n < MAX_SUBAGENT_DEPTH as u64 {
                n as u32
            } else {
                MAX_SUBAGENT_DEPTH
            },
            None => {
                return Err(ConfigError::BadDepth(v.clone()));
            },
        },
        None => 0,
    };
    let file_default = match file {
        Some(f) => f.default_model.as_ref(),
        None => None,
    };
    let model = match resolve_model(
        file_default,
        copy_opt(&env.model_base_url),
        copy_opt(&env.model_name),
        copy_opt(&env.auth_token),
        copy_opt(&env.context_window),
        copy_opt(&env.reasoning_effort),
    ) {
        Ok(model) => model,
        Err(e) => {
            return Err(e);
        },
    };
    let threshold: u64 = match (env.context_compression_threshold, file) {
        (Some(bits), _) => bits,
        (None, Some(f)) => f.context_compression_threshold,
        (None, None) => DEFAULT_THRESHOLD_BITS,
    };
    Ok(
        WorkerConfig {
            session_id,
            data_dir,
            agents_dir,
            model_base_url: model.base_url,
            model_name: model.name,
            auth_token: model.token,
            context_window: model.context_window,
            reasoning_effort: model.reasoning_effort,
            subagent_depth,
            max_tool_concurrency: tool_concurrency(&env.max_tool_concurrency, file),
            context_compression_threshold: clamp_threshold(threshold),
        },
    )
}

} // verus!
