//! Where each setting of a worker comes from.
use vstd::prelude::*;
use vstd::string::*;

use crate::config::{
    clamped, concurrency_of, configured_model, configures, depth_of, effort, error_text, model_of,
    session_arg, window, ConfigError, Environment, FileConfig, ModelConfig, ModelView,
    WorkerConfig,
};
use crate::text::{blank, decimal, opt_text, parsed_number, trimmed};

verus! {

/// No argument of the list is the one that names the session.
pub open spec fn names_no_session(args: Seq<String>) -> bool {
    forall|i: int| 0 <= i < args.len() ==> (#[trigger] args[i])@ != "--session-id"@
}

/// The argument behind `--session-id` names the session, whatever stands before
/// it; and what is named later counts more.
pub proof fn law_the_argument_behind_the_flag_counts(
    before: Seq<String>,
    flag: String,
    id: String,
    rest: Seq<String>,
    found: Option<Seq<char>>,
)
    requires
        names_no_session(before),
        flag@ == "--session-id"@,
    ensures
        session_arg(before + seq![flag, id] + rest, found) == session_arg(rest, Some(id@)),
        session_arg(before, found) == found,
        session_arg(before.push(flag), found) is None,
    decreases before.len(),
{
    let all = before + seq![flag, id] + rest;
    let open = before.push(flag);
    if before.len() == 0 {
        assert(all[0] == flag && all[1] == id);
        assert(all.skip(2) =~= rest);
        assert(open[0] == flag);
    } else {
        let tail = before.skip(1);
        assert(before[0]@ != "--session-id"@);
        assert(all[0] == before[0] && open[0] == before[0]);
        assert forall|i: int| 0 <= i < tail.len() implies (#[trigger] tail[i])@
            != "--session-id"@ by {
            assert(tail[i] == before[i + 1]);
        }
        law_the_argument_behind_the_flag_counts(tail, flag, id, rest, found);
        assert(all.skip(1) =~= tail + seq![flag, id] + rest);
        assert(open.skip(1) =~= tail.push(flag));
    }
}

/// The last session that is named is the one.
pub proof fn law_the_last_named_session_counts(
    before: Seq<String>,
    flag: String,
    first: String,
    between: Seq<String>,
    last: String,
    after: Seq<String>,
)
    requires
        names_no_session(before),
        names_no_session(between),
        names_no_session(after),
        flag@ == "--session-id"@,
    ensures
        session_arg(before + seq![flag, last] + after, None) == Some(last@),
        session_arg(before + seq![flag, first] + (between + seq![flag, last] + after), None)
            == Some(last@),
{
    law_the_argument_behind_the_flag_counts(before, flag, last, after, None);
    law_the_argument_behind_the_flag_counts(
        before,
        flag,
        first,
        between + seq![flag, last] + after,
        None,
    );
    law_the_argument_behind_the_flag_counts(between, flag, last, after, Some(first@));
    law_the_argument_behind_the_flag_counts(after, flag, last, after, Some(last@));
}

/// A model that the environment names in full is used as it is named there, with
/// its own settings; otherwise the model of the file is; and without either the
/// first thing that is missing is told.
pub proof fn law_the_model_comes_from_one_place(
    file: Option<ModelConfig>,
    base_url: Option<Seq<char>>,
    name: Option<Seq<char>>,
    token: Option<Seq<char>>,
    size: Option<Seq<char>>,
    thinking: Option<Seq<char>>,
)
    ensures
        ({
            let model = model_of(file, base_url, name, token, size, thinking);
            &&& base_url is Some && name is Some ==> (model matches Ok(m) && {
                &&& m.base_url == base_url->0
                &&& m.name == name->0
                &&& token is None ==> m.token is None
                &&& token matches Some(t) ==> m.token == (if t.len() > 0 {
                    Some(t)
                } else {
                    None
                })
                &&& size is None ==> m.context_window is None
                &&& thinking is None ==> m.reasoning_effort is None
                &&& thinking matches Some(t) ==> m.reasoning_effort == (if blank(t) {
                    None
                } else {
                    Some(trimmed(t))
                })
            })
            &&& base_url is None || name is None ==> match file {
                Some(f) => model matches Ok(m) && {
                    &&& m.base_url == f.base_url@
                    &&& m.name == f.name@
                    &&& (f.token is None <==> m.token is None)
                    &&& f.token matches Some(t) ==> m.token == Some(t@)
                    &&& m.context_window == f.context_window
                    &&& (f.reasoning_effort is None <==> m.reasoning_effort is None)
                    &&& f.reasoning_effort matches Some(t) ==> m.reasoning_effort == Some(t@)
                },
                None => {
                    &&& base_url is None ==> model == Err::<ModelView, ConfigError>(
                        ConfigError::MissingBaseUrl,
                    )
                    &&& base_url is Some ==> model == Err::<ModelView, ConfigError>(
                        ConfigError::MissingModelName,
                    )
                },
            }
        }),
{
}

/// A context window is read from the digits of the environment; a text that is
/// no number gives none.
pub proof fn law_the_window_is_read_as_a_number(size: nat, text: Seq<char>)
    requires
        size <= u64::MAX,
    ensures
        window(Some(decimal(size))) == Some(size as u64),
        parsed_number(text, u64::MAX as nat) is None ==> window(Some(text)) is None,
        window(None) is None,
        effort(None) is None,
        blank(text) ==> effort(Some(text)) is None,
        !blank(text) ==> effort(Some(text)) == Some(trimmed(text)),
{
    crate::text_laws::law_numbers_read_back(size, u64::MAX as nat);
}

/// The threshold of the compression stays as it is from the smallest positive
/// fraction to one; what is larger counts as one, what is not positive as the
/// smallest, and what is no number as three quarters.
pub proof fn law_the_threshold_stays_in_range(bits: u64)
    ensures
        0x0010_0000_0000_0000 <= clamped(bits) <= 0x3FF0_0000_0000_0000,
        0x0010_0000_0000_0000 <= bits <= 0x3FF0_0000_0000_0000 ==> clamped(bits) == bits,
        0x3FF0_0000_0000_0000 < bits <= 0x7FF0_0000_0000_0000 ==> clamped(bits)
            == 0x3FF0_0000_0000_0000,
        bits < 0x0010_0000_0000_0000 ==> clamped(bits) == 0x0010_0000_0000_0000,
        0x8000_0000_0000_0000 <= bits <= 0xFFF0_0000_0000_0000 ==> clamped(bits)
            == 0x0010_0000_0000_0000,
        0x7FF0_0000_0000_0000 < bits < 0x8000_0000_0000_0000 ==> clamped(bits)
            == 0x3FE8_0000_0000_0000,
        bits > 0xFFF0_0000_0000_0000 ==> clamped(bits) == 0x3FE8_0000_0000_0000,
{
}

/// The number of calls at once is that of the environment, where it holds a
/// number, then that of the file, then eight; never less than one.
pub proof fn law_the_environment_comes_before_the_file(
    n: nat,
    text: Seq<char>,
    file: Option<FileConfig>,
)
    requires
        n <= usize::MAX,
    ensures
        ({
            let from_file = if file is Some {
                (file->0).max_tool_concurrency
            } else {
                8
            };
            let kept = if from_file == 0 {
                1
            } else {
                from_file
            };
            &&& n > 0 ==> concurrency_of(Some(decimal(n)), file) == n
            &&& concurrency_of(Some(decimal(0)), file) == 1
            &&& concurrency_of(None, file) == kept
            &&& parsed_number(text, usize::MAX as nat) is None ==> concurrency_of(Some(text), file)
                == kept
        }),
{
    crate::text_laws::law_numbers_read_back(n, usize::MAX as nat);
    crate::text_laws::law_numbers_read_back(0, usize::MAX as nat);
}

/// A session without a depth is a root; any number is a depth, and what is no
/// number is none.
pub proof fn law_a_depth_is_a_number(n: nat, text: Seq<char>)
    requires
        n <= u32::MAX,
    ensures
        depth_of(None) == Some(0nat),
        depth_of(Some(decimal(n))) == Some(n),
        parsed_number(text, u32::MAX as nat) is None ==> depth_of(Some(text)) is None,
{
    crate::text_laws::law_numbers_read_back(n, u32::MAX as nat);
}

/// Each setting is that of the environment where it has one, then that of the
/// file, then the default; and no session is more than one level deep.
pub proof fn law_each_setting_has_its_source(
    cfg: WorkerConfig,
    args: Seq<String>,
    env: Environment,
    file: Option<FileConfig>,
    agents: Seq<char>,
    model: ModelView,
    depth: nat,
)
    requires
        configures(cfg, args, env, file, agents, model, depth),
    ensures
        session_arg(args, None) == Some(cfg.session_id@),
        env.data_dir matches Some(dir) ==> cfg.data_dir@ == dir@,
        env.data_dir is None && file is Some ==> cfg.data_dir@ == (file->0).data_dir@,
        env.data_dir is None && file is None ==> cfg.data_dir@ == "./data"@,
        env.agents_dir matches Some(dir) ==> cfg.agents_dir@ == dir@,
        env.agents_dir is None && file is Some ==> cfg.agents_dir@ == (file->0).agents_dir@,
        env.agents_dir is None && file is None ==> cfg.agents_dir@ == agents,
        cfg.model_base_url@ == model.base_url,
        cfg.model_name@ == model.name,
        model.token is None <==> cfg.auth_token is None,
        cfg.auth_token matches Some(token) ==> model.token == Some(token@),
        cfg.context_window == model.context_window,
        model.reasoning_effort is None <==> cfg.reasoning_effort is None,
        cfg.reasoning_effort matches Some(t) ==> model.reasoning_effort == Some(t@),
        depth == 0 ==> cfg.subagent_depth == 0,
        depth > 0 ==> cfg.subagent_depth == 1,
        cfg.max_tool_concurrency == concurrency_of(opt_text(env.max_tool_concurrency), file),
        env.context_compression_threshold matches Some(bits)
            ==> cfg.context_compression_threshold == clamped(bits),
        env.context_compression_threshold is None && file is Some
            ==> cfg.context_compression_threshold == clamped(
            (file->0).context_compression_threshold,
        ),
        env.context_compression_threshold is None && file is None
            ==> cfg.context_compression_threshold == 0x3FE8_0000_0000_0000,
{
}

/// Each error says what is missing, or shows the value that is wrong.
pub proof fn law_errors_say_what_is_wrong(value: String)
    ensures
        error_text(ConfigError::MissingSessionId)
            == "missing required argument: --session-id <id>"@,
        error_text(ConfigError::BadDepth(value)) == "invalid MO_SUBAGENT_DEPTH: "@ + value@,
        error_text(ConfigError::MissingBaseUrl)
            == "missing model base URL: set MO_MODEL_BASE_URL or configure [[models]] in mo.toml"@,
        error_text(ConfigError::MissingModelName)
            == "missing model name: set MO_MODEL_NAME or configure [[models]] in mo.toml"@,
{
}

/// The model is that of the environment and of the first model of the file.
pub proof fn law_the_first_model_of_the_file_counts(env: Environment, file: Option<FileConfig>)
    ensures
        env.model_base_url is Some && env.model_name is Some ==> (configured_model(
            env,
            file,
        ) matches Ok(m) && m.base_url == env.model_base_url->0@ && m.name == env.model_name->0@
            && m.context_window == window(opt_text(env.context_window)) && m.reasoning_effort
            == effort(opt_text(env.reasoning_effort)) && m.token == (if env.auth_token is Some
            && env.auth_token->0@.len() > 0 {
            Some(env.auth_token->0@)
        } else {
            None
        })),
        (env.model_base_url is None || env.model_name is None) && file is Some
            && (file->0).default_model is Some ==> (configured_model(env, file) matches Ok(m)
            && m.base_url == (file->0).default_model->0.base_url@ && m.name
            == (file->0).default_model->0.name@ && m.context_window
            == (file->0).default_model->0.context_window && m.token == opt_text(
            (file->0).default_model->0.token,
        ) && m.reasoning_effort == opt_text((file->0).default_model->0.reasoning_effort)),
        (env.model_base_url is None || env.model_name is None) && (file is None
            || (file->0).default_model is None) ==> configured_model(env, file) is Err,
{
}

} // verus!
