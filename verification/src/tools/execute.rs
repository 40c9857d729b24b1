//! The dispatch of tool calls.
//!
//! The caller parses the arguments and does what a `ToolTask` says; this
//! module decides what it says, and what a file tool may do.
use vstd::prelude::*;
use vstd::string::*;

use crate::journal::{JournalEvent, JournalEventKind};
use crate::session::{parsed_mode, unknown_mode_text, Mode};
use crate::skills::{skills_view, Skill, SkillView};
use crate::text::{cat2, cat3, cat4, opt_text, same_text, texts};
use crate::tools::ask_user::AskUserArgs;
use crate::tools::bash_in_background::{execute, request_of, request_text, BackgroundRequest};
use crate::tools::definitions::{enabled_tool, is_known_tool, known_tool, tool_enabled};
use crate::tools::fs::PathLookup;
use crate::tools::permission::{
    ask_guidance, ask_permission, ask_refusal, call_decision, held, preflight, read_policy,
    write_policy, PathPolicy, PolicyView, Preflight, OPERATION_READ, OPERATION_WRITE, REQUEST_ID,
};
use crate::tools::request_mode_change::RequestModeChangeArgs;
use crate::tools::{
    ToolContext, TOOL_ASK_USER, TOOL_BASH, TOOL_BASH_IN_BACKGROUND, TOOL_CREATE_FILE,
    TOOL_EDIT_FILE, TOOL_LOAD_SKILL, TOOL_READ_FILE, TOOL_REMOVE_FILE, TOOL_REQUEST_MODE_CHANGE,
    TOOL_SPAWN_SUBAGENT,
};

verus! {

/// The parsed arguments of a tool call.
#[derive(Debug, Clone, PartialEq, Eq)]
pub enum ToolArgs {
    ReadFile { path: String },
    EditFile { path: String, old_string: String, new_string: String, replace_all: bool },
    CreateFile { path: String, content: String },
    RemoveFile { path: String },
    Bash { command: String },
    BashInBackground { action: String, command: Option<String>, process_id: Option<String> },
    SpawnSubagent { prompt: String, mode: Option<String> },
    LoadSkill { name: String },
    RequestModeChange(RequestModeChangeArgs),
    AskUser(AskUserArgs),
}

/// What a tool call comes to.
#[derive(Debug, Clone, PartialEq, Eq)]
pub enum ToolTask {
    /// A file tool: its path is decided on first.
    File { operation: &'static str, path: String },
    Bash { command: String },
    Background(BackgroundRequest),
    Subagent { prompt: String, mode: Mode },
    LoadSkill { name: String },
    RequestModeChange,
    AskUser,
}

/// The texts of a `ToolTask`.
#[verifier::ext_equal]
pub enum TaskView {
    File { operation: Seq<char>, path: Seq<char> },
    Bash { command: Seq<char> },
    Background(Seq<char>, Seq<char>),
    Subagent { prompt: Seq<char>, mode: Mode },
    LoadSkill { name: Seq<char> },
    RequestModeChange,
    AskUser,
}

impl View for ToolTask {
    type V = TaskView;

    open spec fn view(&self) -> TaskView {
        match self {
            ToolTask::File { operation, path } => TaskView::File {
                operation: operation@,
                path: path@,
            },
            ToolTask::Bash { command } => TaskView::Bash { command: command@ },
            ToolTask::Background(request) => {
                let (action, argument) = request_text(*request);
                TaskView::Background(action, argument)
            },
            ToolTask::Subagent { prompt, mode } => TaskView::Subagent {
                prompt: prompt@,
                mode: *mode,
            },
            ToolTask::LoadSkill { name } => TaskView::LoadSkill { name: name@ },
            ToolTask::RequestModeChange => TaskView::RequestModeChange,
            ToolTask::AskUser => TaskView::AskUser,
        }
    }
}

/// The operation and the path of a file-tool call.
pub open spec fn file_call(args: ToolArgs) -> Option<(Seq<char>, Seq<char>)> {
    match args {
        ToolArgs::ReadFile { path } => Some((OPERATION_READ@, path@)),
        ToolArgs::EditFile { path, .. } => Some((OPERATION_WRITE@, path@)),
        ToolArgs::CreateFile { path, .. } => Some((OPERATION_WRITE@, path@)),
        ToolArgs::RemoveFile { path } => Some((OPERATION_WRITE@, path@)),
        _ => None,
    }
}

/// The tool that arguments belong to.
pub open spec fn tool_for(args: ToolArgs) -> Seq<char> {
    match args {
        ToolArgs::ReadFile { .. } => TOOL_READ_FILE@,
        ToolArgs::EditFile { .. } => TOOL_EDIT_FILE@,
        ToolArgs::CreateFile { .. } => TOOL_CREATE_FILE@,
        ToolArgs::RemoveFile { .. } => TOOL_REMOVE_FILE@,
        ToolArgs::Bash { .. } => TOOL_BASH@,
        ToolArgs::BashInBackground { .. } => TOOL_BASH_IN_BACKGROUND@,
        ToolArgs::SpawnSubagent { .. } => TOOL_SPAWN_SUBAGENT@,
        ToolArgs::LoadSkill { .. } => TOOL_LOAD_SKILL@,
        ToolArgs::RequestModeChange(_) => TOOL_REQUEST_MODE_CHANGE@,
        ToolArgs::AskUser(_) => TOOL_ASK_USER@,
    }
}

fn tool_name(args: &ToolArgs) -> (r: &'static str)
    ensures
        r@ == tool_for(*args),
{
    match args {
        ToolArgs::ReadFile { .. } => TOOL_READ_FILE,
        ToolArgs::EditFile { .. } => TOOL_EDIT_FILE,
        ToolArgs::CreateFile { .. } => TOOL_CREATE_FILE,
        ToolArgs::RemoveFile { .. } => TOOL_REMOVE_FILE,
        ToolArgs::Bash { .. } => TOOL_BASH,
        ToolArgs::BashInBackground { .. } => TOOL_BASH_IN_BACKGROUND,
        ToolArgs::SpawnSubagent { .. } => TOOL_SPAWN_SUBAGENT,
        ToolArgs::LoadSkill { .. } => TOOL_LOAD_SKILL,
        ToolArgs::RequestModeChange(_) => TOOL_REQUEST_MODE_CHANGE,
        ToolArgs::AskUser(_) => TOOL_ASK_USER,
    }
}

/// The complaint about the arguments of a tool.
pub open spec fn invalid_arguments(name: Seq<char>, e: Seq<char>) -> Seq<char> {
    "invalid arguments for "@ + name + ": "@ + e
}

/// The refusal of a tool that the session switched off.
pub open spec fn disabled_text(name: Seq<char>) -> Seq<char> {
    "tool "@ + name + " is disabled in this session"@
}

/// The task of parsed arguments.
pub open spec fn task_of(mode: Mode, name: Seq<char>, args: ToolArgs) -> Result<
    TaskView,
    Seq<char>,
> {
    match args {
        ToolArgs::ReadFile { path } => Ok(
            TaskView::File { operation: OPERATION_READ@, path: path@ },
        ),
        ToolArgs::EditFile { path, .. } => Ok(
            TaskView::File { operation: OPERATION_WRITE@, path: path@ },
        ),
        ToolArgs::CreateFile { path, .. } => Ok(
            TaskView::File { operation: OPERATION_WRITE@, path: path@ },
        ),
        ToolArgs::RemoveFile { path } => Ok(
            TaskView::File { operation: OPERATION_WRITE@, path: path@ },
        ),
        ToolArgs::Bash { command } => Ok(TaskView::Bash { command: command@ }),
        ToolArgs::BashInBackground { action, command, process_id } => match request_of(
            action@,
            opt_text(command),
            opt_text(process_id),
        ) {
            Ok((action, argument)) => Ok(TaskView::Background(action, argument)),
            Err(e) => Err(e),
        },
        ToolArgs::SpawnSubagent { prompt, mode: raw } => match raw {
            Some(raw) => match parsed_mode(raw@) {
                Some(m) => Ok(TaskView::Subagent { prompt: prompt@, mode: m }),
                None => Err(invalid_arguments(name, unknown_mode_text(raw@))),
            },
            None => Ok(TaskView::Subagent { prompt: prompt@, mode }),
        },
        ToolArgs::LoadSkill { name: skill } => Ok(TaskView::LoadSkill { name: skill@ }),
        ToolArgs::RequestModeChange(_) => Ok(TaskView::RequestModeChange),
        ToolArgs::AskUser(_) => Ok(TaskView::AskUser),
    }
}

/// What a tool call comes to, or why it is not dispatched.
pub open spec fn dispatched(
    ctx: ToolContext,
    name: Seq<char>,
    args: Result<ToolArgs, String>,
) -> Result<TaskView, Seq<char>> {
    if !known_tool(name) {
        Err("unknown tool: "@ + name)
    } else if !enabled_tool(ctx.session.tools@, name) {
        Err(disabled_text(name))
    } else {
        match args {
            Err(e) => Err(invalid_arguments(name, e@)),
            Ok(args) => if tool_for(args) != name {
                Err(invalid_arguments(name, "they belong to "@ + tool_for(args)))
            } else {
                task_of(ctx.session.mode, name, args)
            },
        }
    }
}

/// The texts of a dispatched call.
pub open spec fn task_text(r: Result<ToolTask, String>) -> Result<TaskView, Seq<char>> {
    match r {
        Ok(t) => Ok(t@),
        Err(e) => Err(e@),
    }
}

fn invalid(name: &str, e: &str) -> (r: String)
    ensures
        r@ == invalid_arguments(name@, e@),
{
    cat4("invalid arguments for ", name, ": ", e)
}

/// Dispatches a tool call. `args` are the arguments as parsed for this tool,
/// or what is wrong with them. A tool that the session switched off is refused
/// even if the model names it, and so are the arguments of another tool.
pub fn execute_tool(ctx: &ToolContext, name: &str, args: &Result<ToolArgs, String>) -> (r: Result<
    ToolTask,
    String,
>)
    ensures
        task_text(r) == dispatched(*ctx, name@, *args),
{
    if !is_known_tool(name) {
        return Err(cat2("unknown tool: ", name));
    }
    if !tool_enabled(&ctx.session.tools, name) {
        return Err(cat3("tool ", name, " is disabled in this session"));
    }
    let args = match args {
        Ok(args) => args,
        Err(e) => {
            return Err(invalid(name, e.as_str()));
        },
    };
    if !same_text(tool_name(args), name) {
        return Err(invalid(name, cat2("they belong to ", tool_name(args)).as_str()));
    }
    match args {
        ToolArgs::ReadFile { path } => Ok(
            ToolTask::File { operation: OPERATION_READ, path: path.clone() },
        ),
        ToolArgs::EditFile { path, .. } => Ok(
            ToolTask::File { operation: OPERATION_WRITE, path: path.clone() },
        ),
        ToolArgs::CreateFile { path, .. } => Ok(
            ToolTask::File { operation: OPERATION_WRITE, path: path.clone() },
        ),
        ToolArgs::RemoveFile { path } => Ok(
            ToolTask::File { operation: OPERATION_WRITE, path: path.clone() },
        ),
        ToolArgs::Bash { command } => Ok(ToolTask::Bash { command: command.clone() }),
        ToolArgs::BashInBackground { action, command, process_id } => match execute(
            action.as_str(),
            command,
            process_id,
        ) {
            Ok(request) => Ok(ToolTask::Background(request)),
            Err(e) => Err(e),
        },
        ToolArgs::SpawnSubagent { prompt, mode } => match mode {
            Some(raw) => match Mode::parse(raw.as_str()) {
                Ok(m) => Ok(ToolTask::Subagent { prompt: prompt.clone(), mode: m }),
                Err(e) => Err(invalid(name, e.as_str())),
            },
            None => Ok(ToolTask::Subagent { prompt: prompt.clone(), mode: ctx.session.mode }),
        },
        ToolArgs::LoadSkill { name: skill } => Ok(ToolTask::LoadSkill { name: skill.clone() }),
        ToolArgs::RequestModeChange(_) => Ok(ToolTask::RequestModeChange),
        ToolArgs::AskUser(_) => Ok(ToolTask::AskUser),
    }
}

/// A disabled tool is never dispatched.
pub proof fn law_disabled_tools_are_refused(
    ctx: ToolContext,
    name: Seq<char>,
    args: Result<ToolArgs, String>,
)
    requires
        !enabled_tool(ctx.session.tools@, name),
    ensures
        dispatched(ctx, name, args) is Err,
{
}

/// The tools that a task may be for.
pub open spec fn tools_of_task(task: TaskView) -> Set<Seq<char>> {
    match task {
        TaskView::File { operation, .. } => if operation == OPERATION_READ@ {
            set![TOOL_READ_FILE@]
        } else {
            set![TOOL_EDIT_FILE@, TOOL_CREATE_FILE@, TOOL_REMOVE_FILE@]
        },
        TaskView::Bash { .. } => set![TOOL_BASH@],
        TaskView::Background(..) => set![TOOL_BASH_IN_BACKGROUND@],
        TaskView::Subagent { .. } => set![TOOL_SPAWN_SUBAGENT@],
        TaskView::LoadSkill { .. } => set![TOOL_LOAD_SKILL@],
        TaskView::RequestModeChange => set![TOOL_REQUEST_MODE_CHANGE@],
        TaskView::AskUser => set![TOOL_ASK_USER@],
    }
}

/// A task is one of the tool that was named, and that tool is enabled: no call
/// reaches a tool that the session switched off.
pub proof fn law_tasks_are_of_the_named_tool(
    ctx: ToolContext,
    name: Seq<char>,
    args: Result<ToolArgs, String>,
)
    ensures
        dispatched(ctx, name, args) matches Ok(task) ==> tools_of_task(task).contains(name)
            && enabled_tool(ctx.session.tools@, name),
{
    reveal_strlit("read");
    reveal_strlit("write");
    assert(OPERATION_READ@.len() == 4);
    assert(OPERATION_WRITE@.len() == 5);
}

// ---------------------------------------------------------------------------
// File tools
// ---------------------------------------------------------------------------

/// The roots that reads may reach besides the working directory: the folders
/// of the skills, then the scratch directory.
pub open spec fn extra_roots(skills: Seq<SkillView>, scratch: Seq<char>) -> Seq<Seq<char>> {
    skills.map_values(|s: SkillView| s.path).push(scratch)
}

/// The roots that reads may reach besides the working directory.
pub fn read_roots(skills: &Vec<Skill>, scratch: &str) -> (r: Vec<String>)
    ensures
        texts(r@) == extra_roots(skills_view(skills@), scratch@),
{
    let mut roots: Vec<String> = Vec::new();
    let mut i: usize = 0;
    while i < skills.len()
        invariant
            i <= skills.len(),
            roots@.len() == i,
            forall|k: int| 0 <= k < i ==> (#[trigger] roots@[k])@ == skills@[k].path@,
        decreases skills.len() - i,
    {
        roots.push(skills[i].path.clone());
        i = i + 1;
    }
    roots.push(scratch.to_owned());
    assert(texts(roots@) =~= extra_roots(skills_view(skills@), scratch@));
    roots
}

/// What a file tool may do.
#[derive(Debug, Clone, PartialEq, Eq)]
pub enum FileDecision {
    /// Run the operation with exactly this path approved.
    Run { approved: String },
    /// The user is asked: the event to journal, and what the call returns.
    Asked { event: JournalEventKind, reply: String },
}

/// Decides what a file tool may do: run, ask the user, or fail.
pub fn decide_file(
    ctx: &ToolContext,
    tool: &str,
    operation: &'static str,
    raw: &str,
    roots: &Vec<String>,
    lookup: &PathLookup,
    scratch_lookup: &PathLookup,
    events: &Result<Vec<JournalEvent>, String>,
) -> (r: Result<FileDecision, String>)
    ensures
        match call_decision(
            *ctx,
            tool@,
            operation@,
            raw@,
            roots@,
            *lookup,
            *scratch_lookup,
            *events,
        ) {
            Err(e) => r matches Err(t) && t@ == e,
            Ok(PolicyView::Run(path)) => r matches Ok(FileDecision::Run { approved }) && approved@
                == path,
            Ok(PolicyView::Ask(asked)) => match ask_refusal(*ctx, *events) {
                Some(e) => r matches Err(t) && t@ == e,
                None => r matches Ok(FileDecision::Asked { event, reply }) && reply@
                    == ask_guidance(tool@, asked, raw@) && (
                event matches JournalEventKind::PermissionRequest {
                    request_id,
                    tool: Some(t),
                    operation: Some(o),
                    path: Some(p),
                    items,
                } && request_id@ == REQUEST_ID@ && t@ == tool@ && o@ == asked && p@ == raw@
                    && items@.len() == 0),
            },
        },
{
    let policy = if same_text(operation, OPERATION_READ) {
        read_policy(ctx, raw, roots, lookup, events)
    } else {
        write_policy(ctx, tool, raw, lookup, scratch_lookup, events)
    };
    match policy {
        Err(e) => Err(e),
        Ok(PathPolicy::Run(path)) => Ok(FileDecision::Run { approved: path }),
        Ok(PathPolicy::Ask { operation: asked }) => match ask_permission(
            ctx,
            tool,
            asked,
            raw,
            events,
        ) {
            Ok((event, reply)) => Ok(FileDecision::Asked { event, reply }),
            Err(e) => Err(e),
        },
    }
}

/// The operation and the path of a call, where the named tool works on one.
pub open spec fn path_call(name: Seq<char>, args: Result<ToolArgs, String>) -> Option<
    (Seq<char>, Seq<char>),
> {
    match args {
        Ok(args) => if tool_for(args) == name {
            file_call(args)
        } else {
            None
        },
        Err(_) => None,
    }
}

/// Sorts out a tool call before anything runs. A call whose arguments do not
/// parse or belong to another tool, or whose tool works on no path, is not held.
pub fn preflight_call(
    ctx: &ToolContext,
    name: &str,
    arguments: &str,
    args: &Result<ToolArgs, String>,
    call_id: &str,
    roots: &Vec<String>,
    lookup: &PathLookup,
    scratch_lookup: &PathLookup,
    events: &Result<Vec<JournalEvent>, String>,
) -> (r: Preflight)
    ensures
        r is Permission <==> (path_call(name@, *args) matches Some((operation, raw)) && held(
            *ctx,
            name@,
            operation,
            raw,
            roots@,
            *lookup,
            *scratch_lookup,
            *events,
        )),
        r matches Preflight::Permission(item) ==> (path_call(name@, *args) matches Some(
            (operation, raw),
        ) && item.call_id@ == call_id@ && item.tool@ == name@ && item.operation@ == operation
            && item.path@ == raw && item.arguments@ == arguments@),
{
    if let Ok(a) = args {
        if !same_text(tool_name(a), name) {
            return Preflight::Run;
        }
    }
    let (operation, path) = match args {
        Ok(ToolArgs::ReadFile { path }) => (OPERATION_READ, path),
        Ok(ToolArgs::EditFile { path, .. }) => (OPERATION_WRITE, path),
        Ok(ToolArgs::CreateFile { path, .. }) => (OPERATION_WRITE, path),
        Ok(ToolArgs::RemoveFile { path }) => (OPERATION_WRITE, path),
        _ => {
            return Preflight::Run;
        },
    };
    proof {
        reveal_strlit("read");
        reveal_strlit("write");
        assert(OPERATION_READ@.len() == 4);
        assert(OPERATION_WRITE@.len() == 5);
    }
    preflight(
        ctx,
        name,
        operation,
        path.as_str(),
        arguments,
        call_id,
        roots,
        lookup,
        scratch_lookup,
        events,
    )
}

} // verus!
