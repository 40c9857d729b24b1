//! The tool definitions advertised to the model.
use vstd::prelude::*;
use vstd::string::*;

use crate::text::{list_holds, lists, same_text};
use crate::tools::{
    TOOL_ASK_USER, TOOL_BASH, TOOL_BASH_IN_BACKGROUND, TOOL_CREATE_FILE, TOOL_EDIT_FILE,
    TOOL_LOAD_SKILL, TOOL_READ_FILE, TOOL_REMOVE_FILE, TOOL_REQUEST_MODE_CHANGE,
    TOOL_SPAWN_SUBAGENT,
};

verus! {

/// What `read_file` does.
pub const ABOUT_READ_FILE: &'static str = "Read a UTF-8 text file inside the working directory or inside a global skill folder (the load_skill tool returns skill folder paths). Output is capped at ~1 MB.";

/// What `edit_file` does.
pub const ABOUT_EDIT_FILE: &'static str = "Replace old_string with new_string in a file. The match must be unique unless replace_all is true. Returns the full new file content.";

/// What `create_file` does.
pub const ABOUT_CREATE_FILE: &'static str = "Create a new file with the given content inside the working directory. The parent directory must already exist and the file must not exist (use edit_file to modify existing files). Returns the content written.";

/// What `remove_file` does.
pub const ABOUT_REMOVE_FILE: &'static str = "Remove a regular file inside the working directory. Directories and symlinks are refused. Returns a confirmation.";

/// What `bash` does.
pub const ABOUT_BASH: &'static str = "Run a shell command via sh -c in the working directory. 120s timeout — the whole process group is killed on timeout. Avoid piping output through `tail`/`head`: it buffers everything, so nothing is streamed to the UI until the command ends (and a timeout looks like a hang). For long-running builds (Gradle, etc.), run them in the background (`nohup ... > build.log 2>&1 &`) and poll the log file. Returns stdout, stderr and the exit code.";

/// What `bash_in_background` does.
pub const ABOUT_BASH_IN_BACKGROUND: &'static str = "Run a long-lived shell command via sh -c in the working directory and return immediately. action=run starts `command` and returns a process id; action=status and action=kill take that `process_id`. There is no timeout, and stdout/stderr are discarded: redirect them to a file in the command itself.";

/// What `spawn_subagent` does.
pub const ABOUT_SPAWN_SUBAGENT: &'static str = "Spawn a subagent (a nested agent session with the same working directory) to work on a self-contained subtask, and wait for its final answer. Subagents cannot spawn further subagents (the depth hard limit is 1). The subagent runs in the given mode (default: this session's current mode) — build has full access; plan and explore keep the codebase read-only (writes go to the subagent's own scratch dir).";

/// What `load_skill` does.
pub const ABOUT_LOAD_SKILL: &'static str = "Load a global skill's full instructions on demand. Skills are listed in the system prompt with only their name and description; pass the skill name to get its SKILL.md content and the absolute path of its folder, from which reference files, scripts, and other resources can be read with read_file.";

/// What `request_mode_change` does.
pub const ABOUT_REQUEST_MODE_CHANGE: &'static str = "Request the user (in the UI) to switch this session's mode. Use this when the task needs a mode you do not have — e.g. you are in plan/explore mode and need to modify the codebase, or you are in build mode and only need to plan/explore. In plan mode, call this once the plan is ready and has no open questions the user must answer; if the plan has must-answer questions, list them and wait for the user's answers instead. The user approves or rejects the request in the UI; on approval the session switches mode and continues the run, so you can then do the work. Root sessions only: subagents must ask their parent agent instead. Write `message` in the user's language (the language the user writes in).";

/// What `ask_user` does.
pub const ABOUT_ASK_USER: &'static str = "Ask the user (in the UI) a clarification question when you need more input: a choice between approaches, a preference, or a detail only the user can decide. Exactly one question per call; ask again for further questions once the previous one was answered. After calling it, stop and wait: the user's answer arrives as a user message carrying a JSON object keyed by question_id. Root sessions only: subagents must ask their parent agent instead.";

/// The kind of a parameter.
#[derive(Debug, Clone, PartialEq, Eq)]
pub enum ParamKind {
    /// A string.
    Text,
    /// A boolean.
    Flag,
    /// A string out of a list.
    Choice(Vec<&'static str>),
    /// A list of objects whose fields are strings, each with its description.
    Objects(Vec<(&'static str, &'static str)>),
}

/// A parameter of a tool.
#[derive(Debug, Clone, PartialEq, Eq)]
pub struct ToolParam {
    pub name: &'static str,
    pub kind: ParamKind,
    pub description: &'static str,
    pub required: bool,
}

/// A tool as the model sees it. No other parameters are accepted.
#[derive(Debug, Clone, PartialEq, Eq)]
pub struct ToolDefinition {
    pub name: &'static str,
    pub description: &'static str,
    pub params: Vec<ToolParam>,
}

/// The texts of a `ParamKind`.
#[verifier::ext_equal]
pub enum KindView {
    Text,
    Flag,
    Choice(Seq<Seq<char>>),
    Objects(Seq<(Seq<char>, Seq<char>)>),
}

/// The texts of a `ToolParam`.
#[verifier::ext_equal]
pub struct ParamView {
    pub name: Seq<char>,
    pub kind: KindView,
    pub description: Seq<char>,
    pub required: bool,
}

/// The texts of a `ToolDefinition`.
#[verifier::ext_equal]
pub struct DefinitionView {
    pub name: Seq<char>,
    pub description: Seq<char>,
    pub params: Seq<ParamView>,
}

impl View for ParamKind {
    type V = KindView;

    open spec fn view(&self) -> KindView {
        match self {
            ParamKind::Text => KindView::Text,
            ParamKind::Flag => KindView::Flag,
            ParamKind::Choice(options) => KindView::Choice(
                options@.map_values(|o: &'static str| o@),
            ),
            ParamKind::Objects(fields) => KindView::Objects(
                fields@.map_values(|f: (&'static str, &'static str)| (f.0@, f.1@)),
            ),
        }
    }
}

impl View for ToolParam {
    type V = ParamView;

    open spec fn view(&self) -> ParamView {
        ParamView {
            name: self.name@,
            kind: self.kind@,
            description: self.description@,
            required: self.required,
        }
    }
}

impl View for ToolDefinition {
    type V = DefinitionView;

    open spec fn view(&self) -> DefinitionView {
        DefinitionView {
            name: self.name@,
            description: self.description@,
            params: self.params@.map_values(|p: ToolParam| p@),
        }
    }
}

/// A parameter.
pub open spec fn param(name: Seq<char>, kind: KindView, description: Seq<char>, required: bool) -> ParamView {
    ParamView { name, kind, description, required }
}

fn make_param(name: &'static str, kind: ParamKind, description: &'static str, required: bool) -> (r: ToolParam)
    ensures
        r@ == param(name@, kind@, description@, required),
{
    ToolParam { name, kind, description, required }
}

/// The choice of a mode.
pub open spec fn mode_choice() -> KindView {
    KindView::Choice(seq!["build"@, "plan"@, "explore"@])
}

fn modes() -> (r: ParamKind)
    ensures
        r@ == mode_choice(),
{
    let options: Vec<&'static str> = vec!["build", "plan", "explore"];
    let kind = ParamKind::Choice(options);
    assert(kind@->Choice_0 =~= seq!["build"@, "plan"@, "explore"@]);
    kind
}

/// The choice of a background action.
pub open spec fn action_choice() -> KindView {
    KindView::Choice(seq!["run"@, "kill"@, "status"@])
}

fn actions() -> (r: ParamKind)
    ensures
        r@ == action_choice(),
{
    let options: Vec<&'static str> = vec!["run", "kill", "status"];
    let kind = ParamKind::Choice(options);
    assert(kind@->Choice_0 =~= seq!["run"@, "kill"@, "status"@]);
    kind
}

/// The fields of an option of a question.
pub open spec fn option_objects() -> KindView {
    KindView::Objects(
        seq![
            ("option_title"@, "The precise, concise label the user picks (also the answer value)."@),
            ("option_text"@, "A longer explanation of this option for the user."@),
        ],
    )
}

fn option_fields() -> (r: ParamKind)
    ensures
        r@ == option_objects(),
{
    let fields: Vec<(&'static str, &'static str)> = vec![
        ("option_title", "The precise, concise label the user picks (also the answer value)."),
        ("option_text", "A longer explanation of this option for the user."),
    ];
    let kind = ParamKind::Objects(fields);
    assert(kind@->Objects_0 =~= option_objects()->Objects_0);
    kind
}

/// The definition of `read_file`.
pub open spec fn read_file_definition() -> DefinitionView {
    DefinitionView {
        name: TOOL_READ_FILE@,
        description: ABOUT_READ_FILE@,
        params: seq![
            param("path"@, KindView::Text, "Path to the file, relative to the working directory (or absolute)."@, true),
        ],
    }
}

fn define_read_file() -> (r: ToolDefinition)
    ensures
        r@ == read_file_definition(),
{
    let mut params: Vec<ToolParam> = Vec::new();
    params.push(make_param("path", ParamKind::Text, "Path to the file, relative to the working directory (or absolute).", true));
    let def = ToolDefinition { name: TOOL_READ_FILE, description: ABOUT_READ_FILE, params };
    assert(def@.params =~= read_file_definition().params);
    def
}

/// The definition of `edit_file`.
pub open spec fn edit_file_definition() -> DefinitionView {
    DefinitionView {
        name: TOOL_EDIT_FILE@,
        description: ABOUT_EDIT_FILE@,
        params: seq![
            param("path"@, KindView::Text, "Path to the file, relative to the working directory (or absolute)."@, true),
            param("old_string"@, KindView::Text, "Exact text to replace. Must appear exactly once unless replace_all is set."@, true),
            param("new_string"@, KindView::Text, "Replacement text."@, true),
            param("replace_all"@, KindView::Flag, "Replace every occurrence. Default false."@, false),
        ],
    }
}

fn define_edit_file() -> (r: ToolDefinition)
    ensures
        r@ == edit_file_definition(),
{
    let mut params: Vec<ToolParam> = Vec::new();
    params.push(make_param("path", ParamKind::Text, "Path to the file, relative to the working directory (or absolute).", true));
    params.push(make_param("old_string", ParamKind::Text, "Exact text to replace. Must appear exactly once unless replace_all is set.", true));
    params.push(make_param("new_string", ParamKind::Text, "Replacement text.", true));
    params.push(make_param("replace_all", ParamKind::Flag, "Replace every occurrence. Default false.", false));
    let def = ToolDefinition { name: TOOL_EDIT_FILE, description: ABOUT_EDIT_FILE, params };
    assert(def@.params =~= edit_file_definition().params);
    def
}

/// The definition of `create_file`.
pub open spec fn create_file_definition() -> DefinitionView {
    DefinitionView {
        name: TOOL_CREATE_FILE@,
        description: ABOUT_CREATE_FILE@,
        params: seq![
            param("path"@, KindView::Text, "Path to the new file, relative to the working directory (or absolute)."@, true),
            param("content"@, KindView::Text, "Full content to write to the file."@, true),
        ],
    }
}

fn define_create_file() -> (r: ToolDefinition)
    ensures
        r@ == create_file_definition(),
{
    let mut params: Vec<ToolParam> = Vec::new();
    params.push(make_param("path", ParamKind::Text, "Path to the new file, relative to the working directory (or absolute).", true));
    params.push(make_param("content", ParamKind::Text, "Full content to write to the file.", true));
    let def = ToolDefinition { name: TOOL_CREATE_FILE, description: ABOUT_CREATE_FILE, params };
    assert(def@.params =~= create_file_definition().params);
    def
}

/// The definition of `remove_file`.
pub open spec fn remove_file_definition() -> DefinitionView {
    DefinitionView {
        name: TOOL_REMOVE_FILE@,
        description: ABOUT_REMOVE_FILE@,
        params: seq![
            param("path"@, KindView::Text, "Path to the file to remove, relative to the working directory (or absolute)."@, true),
        ],
    }
}

fn define_remove_file() -> (r: ToolDefinition)
    ensures
        r@ == remove_file_definition(),
{
    let mut params: Vec<ToolParam> = Vec::new();
    params.push(make_param("path", ParamKind::Text, "Path to the file to remove, relative to the working directory (or absolute).", true));
    let def = ToolDefinition { name: TOOL_REMOVE_FILE, description: ABOUT_REMOVE_FILE, params };
    assert(def@.params =~= remove_file_definition().params);
    def
}

/// The definition of `bash`.
pub open spec fn bash_definition() -> DefinitionView {
    DefinitionView {
        name: TOOL_BASH@,
        description: ABOUT_BASH@,
        params: seq![
            param("command"@, KindView::Text, "The shell command to run."@, true),
        ],
    }
}

fn define_bash() -> (r: ToolDefinition)
    ensures
        r@ == bash_definition(),
{
    let mut params: Vec<ToolParam> = Vec::new();
    params.push(make_param("command", ParamKind::Text, "The shell command to run.", true));
    let def = ToolDefinition { name: TOOL_BASH, description: ABOUT_BASH, params };
    assert(def@.params =~= bash_definition().params);
    def
}

/// The definition of `bash_in_background`.
pub open spec fn bash_in_background_definition() -> DefinitionView {
    DefinitionView {
        name: TOOL_BASH_IN_BACKGROUND@,
        description: ABOUT_BASH_IN_BACKGROUND@,
        params: seq![
            param("action"@, action_choice(), "What to do: run a command, kill a process, or report its status."@, true),
            param("command"@, KindView::Text, "The shell command to run (action=run)."@, false),
            param("process_id"@, KindView::Text, "The process id returned by action=run (action=status and action=kill)."@, false),
        ],
    }
}

fn define_bash_in_background() -> (r: ToolDefinition)
    ensures
        r@ == bash_in_background_definition(),
{
    let mut params: Vec<ToolParam> = Vec::new();
    params.push(make_param("action", actions(), "What to do: run a command, kill a process, or report its status.", true));
    params.push(make_param("command", ParamKind::Text, "The shell command to run (action=run).", false));
    params.push(make_param("process_id", ParamKind::Text, "The process id returned by action=run (action=status and action=kill).", false));
    let def = ToolDefinition { name: TOOL_BASH_IN_BACKGROUND, description: ABOUT_BASH_IN_BACKGROUND, params };
    assert(def@.params =~= bash_in_background_definition().params);
    def
}

/// The definition of `spawn_subagent`.
pub open spec fn spawn_subagent_definition() -> DefinitionView {
    DefinitionView {
        name: TOOL_SPAWN_SUBAGENT@,
        description: ABOUT_SPAWN_SUBAGENT@,
        params: seq![
            param("prompt"@, KindView::Text, "Self-contained instructions for the subagent."@, true),
            param("mode"@, mode_choice(), "Mode for the subagent: build (default, full access), plan (plan-only, codebase read-only), explore (investigate, codebase read-only). Defaults to this session's current mode."@, false),
        ],
    }
}

fn define_spawn_subagent() -> (r: ToolDefinition)
    ensures
        r@ == spawn_subagent_definition(),
{
    let mut params: Vec<ToolParam> = Vec::new();
    params.push(make_param("prompt", ParamKind::Text, "Self-contained instructions for the subagent.", true));
    params.push(make_param("mode", modes(), "Mode for the subagent: build (default, full access), plan (plan-only, codebase read-only), explore (investigate, codebase read-only). Defaults to this session's current mode.", false));
    let def = ToolDefinition { name: TOOL_SPAWN_SUBAGENT, description: ABOUT_SPAWN_SUBAGENT, params };
    assert(def@.params =~= spawn_subagent_definition().params);
    def
}

/// The definition of `load_skill`.
pub open spec fn load_skill_definition() -> DefinitionView {
    DefinitionView {
        name: TOOL_LOAD_SKILL@,
        description: ABOUT_LOAD_SKILL@,
        params: seq![
            param("name"@, KindView::Text, "Name of the skill to load."@, true),
        ],
    }
}

fn define_load_skill() -> (r: ToolDefinition)
    ensures
        r@ == load_skill_definition(),
{
    let mut params: Vec<ToolParam> = Vec::new();
    params.push(make_param("name", ParamKind::Text, "Name of the skill to load.", true));
    let def = ToolDefinition { name: TOOL_LOAD_SKILL, description: ABOUT_LOAD_SKILL, params };
    assert(def@.params =~= load_skill_definition().params);
    def
}

/// The definition of `request_mode_change`.
pub open spec fn request_mode_change_definition() -> DefinitionView {
    DefinitionView {
        name: TOOL_REQUEST_MODE_CHANGE@,
        description: ABOUT_REQUEST_MODE_CHANGE@,
        params: seq![
            param("mode"@, mode_choice(), "The mode to switch to."@, true),
            param("message"@, KindView::Text, "A short message for the user, in the user's language, explaining why the mode switch is needed and what you will do once approved."@, true),
        ],
    }
}

fn define_request_mode_change() -> (r: ToolDefinition)
    ensures
        r@ == request_mode_change_definition(),
{
    let mut params: Vec<ToolParam> = Vec::new();
    params.push(make_param("mode", modes(), "The mode to switch to.", true));
    params.push(make_param("message", ParamKind::Text, "A short message for the user, in the user's language, explaining why the mode switch is needed and what you will do once approved.", true));
    let def = ToolDefinition { name: TOOL_REQUEST_MODE_CHANGE, description: ABOUT_REQUEST_MODE_CHANGE, params };
    assert(def@.params =~= request_mode_change_definition().params);
    def
}

/// The definition of `ask_user`.
pub open spec fn ask_user_definition() -> DefinitionView {
    DefinitionView {
        name: TOOL_ASK_USER@,
        description: ABOUT_ASK_USER@,
        params: seq![
            param("question_title"@, KindView::Text, "The precise, concise headline of the question (shown to the user)."@, true),
            param("question_text"@, KindView::Text, "A longer explanation of the question for the user."@, true),
            param("options"@, option_objects(), "Preset choices. May be empty for a free-text-only question."@, true),
        ],
    }
}

fn define_ask_user() -> (r: ToolDefinition)
    ensures
        r@ == ask_user_definition(),
{
    let mut params: Vec<ToolParam> = Vec::new();
    params.push(make_param("question_title", ParamKind::Text, "The precise, concise headline of the question (shown to the user).", true));
    params.push(make_param("question_text", ParamKind::Text, "A longer explanation of the question for the user.", true));
    params.push(make_param("options", option_fields(), "Preset choices. May be empty for a free-text-only question.", true));
    let def = ToolDefinition { name: TOOL_ASK_USER, description: ABOUT_ASK_USER, params };
    assert(def@.params =~= ask_user_definition().params);
    def
}

/// All the tools.
pub open spec fn all_definitions() -> Seq<DefinitionView> {
    seq![
        read_file_definition(),
        edit_file_definition(),
        create_file_definition(),
        remove_file_definition(),
        bash_definition(),
        bash_in_background_definition(),
        spawn_subagent_definition(),
        load_skill_definition(),
        request_mode_change_definition(),
        ask_user_definition(),
    ]
}

/// A tool that no session can switch off.
pub open spec fn fixed_tool(name: Seq<char>) -> bool {
    name == TOOL_READ_FILE@ || name == TOOL_EDIT_FILE@ || name == TOOL_CREATE_FILE@ || name
        == TOOL_REMOVE_FILE@ || name == TOOL_BASH@
}

/// A tool that a session with these enabled tools may use: an empty list
/// enables all of them.
pub open spec fn enabled_tool(enabled: Seq<String>, name: Seq<char>) -> bool {
    enabled.len() == 0 || fixed_tool(name) || lists(enabled, name)
}

/// The definitions of the enabled tools, in order.
pub open spec fn enabled_definitions(
    all: Seq<DefinitionView>,
    enabled: Seq<String>,
) -> Seq<DefinitionView>
    decreases all.len(),
{
    if all.len() == 0 {
        Seq::empty()
    } else {
        let before = enabled_definitions(all.drop_last(), enabled);
        if enabled_tool(enabled, all.last().name) {
            before.push(all.last())
        } else {
            before
        }
    }
}

/// Whether a session with these enabled tools may use a tool.
pub fn tool_enabled(enabled: &Vec<String>, name: &str) -> (r: bool)
    ensures
        r == enabled_tool(enabled@, name@),
{
    enabled.len() == 0 || same_text(name, TOOL_READ_FILE) || same_text(name, TOOL_EDIT_FILE)
        || same_text(name, TOOL_CREATE_FILE) || same_text(name, TOOL_REMOVE_FILE) || same_text(
        name,
        TOOL_BASH,
    ) || list_holds(enabled, name)
}

fn push_enabled(
    out: &mut Vec<ToolDefinition>,
    def: ToolDefinition,
    enabled: &Vec<String>,
    Ghost(before): Ghost<Seq<DefinitionView>>,
)
    requires
        old(out)@.map_values(|d: ToolDefinition| d@) == enabled_definitions(before, enabled@),
    ensures
        final(out)@.map_values(|d: ToolDefinition| d@) == enabled_definitions(
            before.push(def@),
            enabled@,
        ),
{
    let ghost had = out@;
    assert(before.push(def@).drop_last() =~= before);
    if tool_enabled(enabled, def.name) {
        out.push(def);
        assert(out@.map_values(|d: ToolDefinition| d@) =~= had.map_values(
            |d: ToolDefinition| d@,
        ).push(def@));
    }
}

/// The definitions of the tools that a session may use: those of disabled
/// tools are left out, so that the model sees only what the user allowed.
pub fn tool_definitions(enabled: &Vec<String>) -> (r: Vec<ToolDefinition>)
    ensures
        r@.map_values(|d: ToolDefinition| d@) == enabled_definitions(all_definitions(), enabled@),
{
    let mut out: Vec<ToolDefinition> = Vec::new();
    let ghost mut seen: Seq<DefinitionView> = Seq::empty();
    assert(out@.map_values(|d: ToolDefinition| d@) =~= Seq::<DefinitionView>::empty());
    push_enabled(&mut out, define_read_file(), enabled, Ghost(seen));
    proof {
        seen = seen.push(read_file_definition());
    }
    push_enabled(&mut out, define_edit_file(), enabled, Ghost(seen));
    proof {
        seen = seen.push(edit_file_definition());
    }
    push_enabled(&mut out, define_create_file(), enabled, Ghost(seen));
    proof {
        seen = seen.push(create_file_definition());
    }
    push_enabled(&mut out, define_remove_file(), enabled, Ghost(seen));
    proof {
        seen = seen.push(remove_file_definition());
    }
    push_enabled(&mut out, define_bash(), enabled, Ghost(seen));
    proof {
        seen = seen.push(bash_definition());
    }
    push_enabled(&mut out, define_bash_in_background(), enabled, Ghost(seen));
    proof {
        seen = seen.push(bash_in_background_definition());
    }
    push_enabled(&mut out, define_spawn_subagent(), enabled, Ghost(seen));
    proof {
        seen = seen.push(spawn_subagent_definition());
    }
    push_enabled(&mut out, define_load_skill(), enabled, Ghost(seen));
    proof {
        seen = seen.push(load_skill_definition());
    }
    push_enabled(&mut out, define_request_mode_change(), enabled, Ghost(seen));
    proof {
        seen = seen.push(request_mode_change_definition());
    }
    push_enabled(&mut out, define_ask_user(), enabled, Ghost(seen));
    proof {
        seen = seen.push(ask_user_definition());
    }
    assert(seen =~= all_definitions());
    out
}

/// The names of all the tools.
pub open spec fn known_tool(name: Seq<char>) -> bool {
    fixed_tool(name) || name == TOOL_BASH_IN_BACKGROUND@ || name == TOOL_SPAWN_SUBAGENT@ || name
        == TOOL_LOAD_SKILL@ || name == TOOL_REQUEST_MODE_CHANGE@ || name == TOOL_ASK_USER@
}

/// Whether a tool of this name exists.
pub fn is_known_tool(name: &str) -> (r: bool)
    ensures
        r == known_tool(name@),
{
    same_text(name, TOOL_READ_FILE) || same_text(name, TOOL_EDIT_FILE) || same_text(
        name,
        TOOL_CREATE_FILE,
    ) || same_text(name, TOOL_REMOVE_FILE) || same_text(name, TOOL_BASH) || same_text(
        name,
        TOOL_BASH_IN_BACKGROUND,
    ) || same_text(name, TOOL_SPAWN_SUBAGENT) || same_text(name, TOOL_LOAD_SKILL) || same_text(
        name,
        TOOL_REQUEST_MODE_CHANGE,
    ) || same_text(name, TOOL_ASK_USER)
}

/// An advertised tool is one that the session may use.
pub proof fn law_advertised_tools_are_enabled(
    all: Seq<DefinitionView>,
    enabled: Seq<String>,
    def: DefinitionView,
)
    ensures
        enabled_definitions(all, enabled).contains(def) <==> all.contains(def) && enabled_tool(
            enabled,
            def.name,
        ),
    decreases all.len(),
{
    if all.len() > 0 {
        let d = all.drop_last();
        law_advertised_tools_are_enabled(d, enabled, def);
        let before = enabled_definitions(d, enabled);
        assert(all =~= d.push(all.last()));
        if d.contains(def) {
            let i = choose|i: int| 0 <= i < d.len() && d[i] == def;
            assert(all[i] == def);
        }
        if all.last() == def {
            assert(all[all.len() - 1] == def);
        }
        if all.contains(def) && all.last() != def {
            let i = choose|i: int| 0 <= i < all.len() && all[i] == def;
            assert(d[i] == def);
        }
        if enabled_tool(enabled, all.last().name) {
            let next = before.push(all.last());
            if before.contains(def) {
                let i = choose|i: int| 0 <= i < before.len() && before[i] == def;
                assert(next[i] == def);
            }
            assert(next[before.len() as int] == all.last());
            if next.contains(def) && all.last() != def {
                let i = choose|i: int| 0 <= i < next.len() && next[i] == def;
                assert(before[i] == def);
            }
        }
    }
}

} // verus!
