//! What a tool call is dispatched to.
use vstd::prelude::*;
use vstd::string::*;

use crate::session::Mode;
use crate::tools::definitions::{
    all_definitions, enabled_definitions, enabled_tool, known_tool, DefinitionView, KindView,
};
use crate::tools::execute::{dispatched, file_call, TaskView, ToolArgs};
use crate::tools::ToolContext;

verus! {

/// The ten tools.
pub open spec fn is_tool_name(name: Seq<char>) -> bool {
    name == "read_file"@ || name == "edit_file"@ || name == "create_file"@ || name
        == "remove_file"@ || name == "bash"@ || name == "bash_in_background"@ || name
        == "spawn_subagent"@ || name == "load_skill"@ || name == "request_mode_change"@ || name
        == "ask_user"@
}

/// The tools that no session can switch off.
pub open spec fn is_always_on(name: Seq<char>) -> bool {
    name == "read_file"@ || name == "edit_file"@ || name == "create_file"@ || name
        == "remove_file"@ || name == "bash"@
}

/// A session may use a tool that it lists, and those that cannot be switched
/// off; one that lists none may use them all.
pub proof fn law_listed_and_fixed_tools_are_enabled(enabled: Seq<String>, name: Seq<char>)
    ensures
        enabled_tool(enabled, name) <==> enabled.len() == 0 || is_always_on(name) || exists|i: int|
            0 <= i < enabled.len() && (#[trigger] enabled[i])@ == name,
        known_tool(name) <==> is_tool_name(name),
{
}

/// A subagent runs in the mode that the call names; a call that names none gives
/// it the mode of the session, whichever that is.
pub proof fn law_subagents_inherit_the_mode(
    ctx: ToolContext,
    prompt: String,
    mode: Option<String>,
)
    requires
        enabled_tool(ctx.session.tools@, "spawn_subagent"@),
    ensures
        ({
            let task = dispatched(
                ctx,
                "spawn_subagent"@,
                Ok(ToolArgs::SpawnSubagent { prompt, mode }),
            );
            match mode {
                None => task == Ok::<TaskView, Seq<char>>(
                    TaskView::Subagent { prompt: prompt@, mode: ctx.session.mode },
                ),
                Some(named) => {
                    &&& named@ == "build"@ ==> task == Ok::<TaskView, Seq<char>>(
                        TaskView::Subagent { prompt: prompt@, mode: Mode::Build },
                    )
                    &&& named@ == "plan"@ ==> task == Ok::<TaskView, Seq<char>>(
                        TaskView::Subagent { prompt: prompt@, mode: Mode::Plan },
                    )
                    &&& named@ == "explore"@ ==> task == Ok::<TaskView, Seq<char>>(
                        TaskView::Subagent { prompt: prompt@, mode: Mode::Explore },
                    )
                    &&& named@ != "build"@ && named@ != "plan"@ && named@ != "explore"@ ==> task
                        is Err
                },
            }
        }),
{
    lemma_mode_names();
}

/// Outside build mode, no subagent gets build mode unless the call names it.
pub proof fn law_build_mode_is_never_given_unasked(
    ctx: ToolContext,
    name: Seq<char>,
    args: Result<ToolArgs, String>,
)
    requires
        ctx.session.mode != Mode::Build,
        dispatched(ctx, name, args) matches Ok(TaskView::Subagent { mode, .. }) && mode
            == Mode::Build,
    ensures
        args matches Ok(ToolArgs::SpawnSubagent { mode, .. }) && (mode matches Some(named) && named@
            == "build"@),
{
    lemma_mode_names();
}

proof fn lemma_mode_names()
    ensures
        "build"@ != "plan"@,
        "build"@ != "explore"@,
        "plan"@ != "explore"@,
{
    reveal_strlit("build");
    reveal_strlit("plan");
    reveal_strlit("explore");
    assert("build"@.len() == 5 && "plan"@.len() == 4 && "explore"@.len() == 7);
}

/// Every other enabled tool is dispatched with what the model asked for: the
/// same path, command, skill, action or process, and nothing else.
pub proof fn law_tasks_carry_what_was_asked(ctx: ToolContext, args: ToolArgs)
    ensures
        ({
            let on = |name: Seq<char>| enabled_tool(ctx.session.tools@, name);
            match args {
                ToolArgs::ReadFile { path } => dispatched(ctx, "read_file"@, Ok(args)) == Ok::<
                    TaskView,
                    Seq<char>,
                >(TaskView::File { operation: "read"@, path: path@ }),
                ToolArgs::EditFile { path, .. } => dispatched(ctx, "edit_file"@, Ok(args)) == Ok::<
                    TaskView,
                    Seq<char>,
                >(TaskView::File { operation: "write"@, path: path@ }),
                ToolArgs::CreateFile { path, .. } => dispatched(ctx, "create_file"@, Ok(args))
                    == Ok::<TaskView, Seq<char>>(
                    TaskView::File { operation: "write"@, path: path@ },
                ),
                ToolArgs::RemoveFile { path } => dispatched(ctx, "remove_file"@, Ok(args)) == Ok::<
                    TaskView,
                    Seq<char>,
                >(TaskView::File { operation: "write"@, path: path@ }),
                ToolArgs::Bash { command } => dispatched(ctx, "bash"@, Ok(args)) == Ok::<
                    TaskView,
                    Seq<char>,
                >(TaskView::Bash { command: command@ }),
                ToolArgs::LoadSkill { name } => on("load_skill"@) ==> dispatched(
                    ctx,
                    "load_skill"@,
                    Ok(args),
                ) == Ok::<TaskView, Seq<char>>(TaskView::LoadSkill { name: name@ }),
                ToolArgs::RequestModeChange(_) => on("request_mode_change"@) ==> dispatched(
                    ctx,
                    "request_mode_change"@,
                    Ok(args),
                ) == Ok::<TaskView, Seq<char>>(TaskView::RequestModeChange),
                ToolArgs::AskUser(_) => on("ask_user"@) ==> dispatched(ctx, "ask_user"@, Ok(args))
                    == Ok::<TaskView, Seq<char>>(TaskView::AskUser),
                ToolArgs::BashInBackground { action, command, process_id } => on(
                    "bash_in_background"@,
                ) ==> ({
                    let task = dispatched(ctx, "bash_in_background"@, Ok(args));
                    &&& action@ == "run"@ ==> match command {
                        Some(c) => task == Ok::<TaskView, Seq<char>>(
                            TaskView::Background("run"@, c@),
                        ),
                        None => task == Err::<TaskView, Seq<char>>(
                            "action `run` requires `command`"@,
                        ),
                    }
                    &&& action@ == "status"@ ==> match process_id {
                        Some(id) => task == Ok::<TaskView, Seq<char>>(
                            TaskView::Background("status"@, id@),
                        ),
                        None => task == Err::<TaskView, Seq<char>>(
                            "action `status` requires `process_id`"@,
                        ),
                    }
                    &&& action@ == "kill"@ ==> match process_id {
                        Some(id) => task == Ok::<TaskView, Seq<char>>(
                            TaskView::Background("kill"@, id@),
                        ),
                        None => task == Err::<TaskView, Seq<char>>(
                            "action `kill` requires `process_id`"@,
                        ),
                    }
                    &&& action@ != "run"@ && action@ != "status"@ && action@ != "kill"@ ==> task
                        == Err::<TaskView, Seq<char>>(
                        "unknown action: "@ + action@ + " (expected `run`, `kill`, or `status`)"@,
                    )
                }),
                ToolArgs::SpawnSubagent { .. } => true,
            }
        }),
{
    reveal_strlit("run");
    reveal_strlit("status");
    reveal_strlit("kill");
    assert("run"@.len() == 3 && "status"@.len() == 6 && "kill"@.len() == 4);
}

/// A call is refused for the first of these reasons: no such tool, a tool that
/// is switched off, or arguments that do not parse.
pub proof fn law_bad_calls_are_refused_by_name(ctx: ToolContext, name: Seq<char>, e: String)
    ensures
        !is_tool_name(name) ==> dispatched(ctx, name, Err(e)) == Err::<TaskView, Seq<char>>(
            "unknown tool: "@ + name,
        ),
        is_tool_name(name) && !enabled_tool(ctx.session.tools@, name) ==> dispatched(
            ctx,
            name,
            Err(e),
        ) == Err::<TaskView, Seq<char>>("tool "@ + name + " is disabled in this session"@),
        is_tool_name(name) && enabled_tool(ctx.session.tools@, name) ==> dispatched(
            ctx,
            name,
            Err(e),
        ) == Err::<TaskView, Seq<char>>("invalid arguments for "@ + name + ": "@ + e@),
{
}

/// Arguments that belong to another tool are refused, and nothing is run.
pub proof fn law_foreign_arguments_are_refused(ctx: ToolContext, name: Seq<char>, args: ToolArgs)
    requires
        is_tool_name(name),
        enabled_tool(ctx.session.tools@, name),
        args is ReadFile ==> name != "read_file"@,
        args is EditFile ==> name != "edit_file"@,
        args is CreateFile ==> name != "create_file"@,
        args is RemoveFile ==> name != "remove_file"@,
        args is Bash ==> name != "bash"@,
        args is BashInBackground ==> name != "bash_in_background"@,
        args is SpawnSubagent ==> name != "spawn_subagent"@,
        args is LoadSkill ==> name != "load_skill"@,
        args is RequestModeChange ==> name != "request_mode_change"@,
        args is AskUser ==> name != "ask_user"@,
    ensures
        dispatched(ctx, name, Ok(args)) is Err,
{
}

/// The file tools work on the path of the call: one reads, three write.
pub proof fn law_file_tools_read_or_write(args: ToolArgs)
    ensures
        file_call(args) == (match args {
            ToolArgs::ReadFile { path } => Some(("read"@, path@)),
            ToolArgs::EditFile { path, .. } => Some(("write"@, path@)),
            ToolArgs::CreateFile { path, .. } => Some(("write"@, path@)),
            ToolArgs::RemoveFile { path } => Some(("write"@, path@)),
            _ => None,
        }),
{
}

// ---------------------------------------------------------------------------
// What the model is offered
// ---------------------------------------------------------------------------

/// Each tool is offered once, under its name, in this order.
pub proof fn law_all_tools_are_offered_once()
    ensures
        ({
            let all = all_definitions();
            &&& all.len() == 10
            &&& all[0].name == "read_file"@
            &&& all[1].name == "edit_file"@
            &&& all[2].name == "create_file"@
            &&& all[3].name == "remove_file"@
            &&& all[4].name == "bash"@
            &&& all[5].name == "bash_in_background"@
            &&& all[6].name == "spawn_subagent"@
            &&& all[7].name == "load_skill"@
            &&& all[8].name == "request_mode_change"@
            &&& all[9].name == "ask_user"@
        }),
{
}

/// A definition asks for a parameter of this name, and needs it or not.
pub open spec fn has_param(def: DefinitionView, name: Seq<char>, required: bool) -> bool {
    exists|i: int|
        0 <= i < def.params.len() && (#[trigger] def.params[i]).name == name
            && def.params[i].required == required
}

/// Every tool asks for exactly the arguments that it takes.
pub proof fn law_tools_ask_for_what_they_take()
    ensures
        ({
            let all = all_definitions();
            &&& all[0].params.len() == 1 && has_param(all[0], "path"@, true)
            &&& all[1].params.len() == 4 && has_param(all[1], "path"@, true) && has_param(
                all[1],
                "old_string"@,
                true,
            ) && has_param(all[1], "new_string"@, true) && has_param(
                all[1],
                "replace_all"@,
                false,
            )
            &&& all[2].params.len() == 2 && has_param(all[2], "path"@, true) && has_param(
                all[2],
                "content"@,
                true,
            )
            &&& all[3].params.len() == 1 && has_param(all[3], "path"@, true)
            &&& all[4].params.len() == 1 && has_param(all[4], "command"@, true)
            &&& all[5].params.len() == 3 && has_param(all[5], "action"@, true) && has_param(
                all[5],
                "command"@,
                false,
            ) && has_param(all[5], "process_id"@, false)
            &&& all[6].params.len() == 2 && has_param(all[6], "prompt"@, true) && has_param(
                all[6],
                "mode"@,
                false,
            )
            &&& all[7].params.len() == 1 && has_param(all[7], "name"@, true)
            &&& all[8].params.len() == 2 && has_param(all[8], "mode"@, true) && has_param(
                all[8],
                "message"@,
                true,
            )
            &&& all[9].params.len() == 3 && has_param(all[9], "question_title"@, true)
                && has_param(all[9], "question_text"@, true) && has_param(
                all[9],
                "options"@,
                true,
            )
        }),
{
    let all = all_definitions();
    assert(all[0].params[0].name == "path"@);
    assert(all[1].params[0].name == "path"@ && all[1].params[1].name == "old_string"@
        && all[1].params[2].name == "new_string"@ && all[1].params[3].name == "replace_all"@);
    assert(all[2].params[0].name == "path"@ && all[2].params[1].name == "content"@);
    assert(all[3].params[0].name == "path"@);
    assert(all[4].params[0].name == "command"@);
    assert(all[5].params[0].name == "action"@ && all[5].params[1].name == "command"@
        && all[5].params[2].name == "process_id"@);
    assert(all[6].params[0].name == "prompt"@ && all[6].params[1].name == "mode"@);
    assert(all[7].params[0].name == "name"@);
    assert(all[8].params[0].name == "mode"@ && all[8].params[1].name == "message"@);
    assert(all[9].params[0].name == "question_title"@ && all[9].params[1].name == "question_text"@
        && all[9].params[2].name == "options"@);
}

/// The model is offered, of any list of tools, those that the session may use,
/// one by one and in order.
pub proof fn law_the_model_is_offered_what_is_enabled(
    all: Seq<DefinitionView>,
    def: DefinitionView,
    enabled: Seq<String>,
)
    ensures
        enabled_tool(enabled, def.name) ==> enabled_definitions(all.push(def), enabled)
            == enabled_definitions(all, enabled).push(def),
        !enabled_tool(enabled, def.name) ==> enabled_definitions(all.push(def), enabled)
            == enabled_definitions(all, enabled),
        enabled_definitions(Seq::empty(), enabled).len() == 0,
        enabled.len() == 0 ==> enabled_definitions(all, enabled) == all,
    decreases all.len(),
{
    assert(all.push(def).drop_last() =~= all);
    if enabled.len() == 0 {
        if all.len() == 0 {
            assert(enabled_definitions(all, enabled) =~= all);
        } else {
            law_the_model_is_offered_what_is_enabled(all.drop_last(), def, enabled);
            assert(all.drop_last().push(all.last()) =~= all);
        }
    }
}

/// The model may choose between the modes that there are, and between the
/// actions that there are; an option of a question has a title and a text.
pub proof fn law_choices_are_those_that_exist()
    ensures
        ({
            let all = all_definitions();
            let modes = KindView::Choice(seq!["build"@, "plan"@, "explore"@]);
            &&& all[6].params[1].kind == modes
            &&& all[8].params[0].kind == modes
            &&& all[5].params[0].kind == KindView::Choice(seq!["run"@, "kill"@, "status"@])
            &&& all[1].params[3].kind is Flag
            &&& all[9].params[2].kind is Objects
            &&& all[9].params[2].kind->Objects_0.len() == 2
            &&& all[9].params[2].kind->Objects_0[0].0 == "option_title"@
            &&& all[9].params[2].kind->Objects_0[1].0 == "option_text"@
        }),
{
}

} // verus!
