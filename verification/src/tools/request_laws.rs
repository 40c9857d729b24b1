//! What the remaining tools answer: questions, mode changes, skills, subagents
//! and background commands.
use vstd::prelude::*;
use vstd::string::*;

use crate::ids::is_uuid;
use crate::journal::{
    ask_user_pending, mode_change_pending, permission_pending, AskUserQuestion, JournalEvent,
    JournalEventKind,
};
use crate::paths::joined;
use crate::session::{Mode, Session, SessionStatus};
use crate::skills::{named, SkillView};
use crate::text::{blank, decimal, signed_decimal, trimmed};
use crate::tools::ask_user::{
    asks, blank_option, puts_question, question_fault, question_refusal, AskUserArgs,
    AskUserOptionArgs, QUESTION_AFTER_PERMISSION, QUESTION_GUIDANCE, QUESTION_SENT,
    SECOND_QUESTION, SUBAGENT_QUESTION,
};
use crate::tools::bash_in_background::{
    changes, end_after, is_process_id, job_with, kill_outcome, lemma_job_keeps_its_id, polled, run_failure, status_outcome,
    unfinished_groups, BackgroundJob, Exit, Poll, TableChange,
};
use crate::tools::request_mode_change::{
    mode_change_guidance, mode_change_refusal, requests_mode, RequestModeChangeArgs,
    MODE_CHANGE_GUIDANCE, MODE_CHANGE_PENDING, SUBAGENT_MODE_CHANGE,
};
use crate::tools::skill::load_outcome;
use crate::tools::subagent::{
    child_depth_of, common_vars, is_child, last_reply, look_outcome, optional_vars,
    report, spawn_refusal, ChildSession,
};
use crate::tools::ToolContext;

verus! {

// ---------------------------------------------------------------------------
// Questions
// ---------------------------------------------------------------------------

proof fn lemma_no_blank_option(options: Seq<AskUserOptionArgs>)
    requires
        forall|j: int| 0 <= j < options.len() ==> !blank((#[trigger] options[j]).option_title@),
    ensures
        blank_option(options) is None,
    decreases options.len(),
{
    if options.len() > 0 {
        let rest = options.drop_last();
        assert(!blank(options[options.len() - 1].option_title@));
        assert forall|j: int| 0 <= j < rest.len() implies !blank(
            (#[trigger] rest[j]).option_title@,
        ) by {
            assert(rest[j] == options[j]);
        }
        lemma_no_blank_option(rest);
    }
}

proof fn lemma_first_blank_option(options: Seq<AskUserOptionArgs>, i: int)
    requires
        0 <= i < options.len(),
        blank(options[i].option_title@),
        forall|j: int| 0 <= j < i ==> !blank((#[trigger] options[j]).option_title@),
    ensures
        blank_option(options) == Some(i),
    decreases options.len(),
{
    let rest = options.drop_last();
    assert forall|j: int| 0 <= j < rest.len() && j < i implies !blank(
        (#[trigger] rest[j]).option_title@,
    ) by {
        assert(rest[j] == options[j]);
    }
    if i < options.len() - 1 {
        assert(rest[i] == options[i]);
        lemma_first_blank_option(rest, i);
    } else {
        lemma_no_blank_option(rest);
    }
}

/// A question needs a title, a text, and a title for each of its options; the
/// first one that is missing is named.
pub proof fn law_a_question_names_what_it_lacks(args: AskUserArgs, i: int)
    requires
        0 <= i <= args.options@.len(),
        forall|j: int| 0 <= j < i ==> !blank((#[trigger] args.options@[j]).option_title@),
    ensures
        ({
            let title = blank(args.question_title@);
            let text = blank(args.question_text@);
            let fault = question_fault(args);
            &&& title ==> fault == Some(
                "invalid arguments for ask_user: "@ + "question_title must not be empty"@,
            )
            &&& !title && text ==> fault == Some(
                "invalid arguments for ask_user: "@ + "question_text must not be empty"@,
            )
            &&& !title && !text && i < args.options@.len() && blank(
                args.options@[i].option_title@,
            ) ==> fault == Some(
                "invalid arguments for ask_user: "@ + ("options["@ + decimal(i as nat)
                    + "].option_title must not be empty"@),
            )
            &&& !title && !text && i == args.options@.len() ==> fault is None
        }),
{
    if i == args.options@.len() {
        lemma_no_blank_option(args.options@);
    } else if blank(args.options@[i].option_title@) {
        lemma_first_blank_option(args.options@, i);
    }
}

/// The user sees the question as it was asked, and every option of it, with no
/// blanks around the texts.
pub proof fn law_the_question_is_put_as_asked(q: AskUserQuestion, args: AskUserArgs, i: int)
    requires
        asks(q, args),
        0 <= i < args.options@.len(),
    ensures
        q.question_id@ == "q1"@,
        q.question_title@ == trimmed(args.question_title@),
        q.question_text@ == trimmed(args.question_text@),
        q.options@.len() == args.options@.len(),
        q.options@[i].option_title@ == trimmed(args.options@[i].option_title@),
        q.options@[i].option_text@ == trimmed(args.options@[i].option_text@),
{
    let o = q.options@[i];
}

/// A sound question goes out from a root session with nothing else open, and
/// from no other.
pub proof fn law_a_sound_question_goes_out_alone(
    ctx: ToolContext,
    args: AskUserArgs,
    events: Result<Vec<JournalEvent>, String>,
)
    requires
        !blank(args.question_title@),
        !blank(args.question_text@),
        forall|j: int|
            0 <= j < args.options@.len() ==> !blank((#[trigger] args.options@[j]).option_title@),
    ensures
        ({
            let refusal = question_refusal(ctx, args, events);
            &&& ctx.session.parent_id is Some ==> refusal == Some(SUBAGENT_QUESTION@)
            &&& ctx.session.parent_id is None ==> match events {
                Err(e) => refusal == Some("failed to read session journal: "@ + e@),
                Ok(events) => {
                    let asked = ask_user_pending(events@);
                    let open = permission_pending(events@);
                    &&& asked ==> refusal == Some(SECOND_QUESTION@)
                    &&& !asked && open ==> refusal == Some(QUESTION_AFTER_PERMISSION@)
                    &&& !asked && !open ==> refusal is None
                },
            }
        }),
{
    lemma_no_blank_option(args.options@);
}

// ---------------------------------------------------------------------------
// Mode changes
// ---------------------------------------------------------------------------

/// The name of a mode, as the model writes it.
pub open spec fn names_mode(text: Seq<char>, mode: Mode) -> bool {
    match mode {
        Mode::Build => text == "build"@,
        Mode::Plan => text == "plan"@,
        Mode::Explore => text == "explore"@,
    }
}

/// A change to another mode may be requested from any mode to any other, by a
/// root session that says why, one at a time; and every other request is told
/// why not.
pub proof fn law_any_other_mode_may_be_requested(
    ctx: ToolContext,
    args: RequestModeChangeArgs,
    events: Result<Vec<JournalEvent>, String>,
    mode: Mode,
)
    requires
        names_mode(args.mode@, mode),
    ensures
        ({
            let refusal = mode_change_refusal(ctx, args, events);
            let same = mode == ctx.session.mode;
            let child = ctx.session.parent_id is Some;
            &&& same ==> refusal == Some(
                "the session is already in "@ + args.mode@ + " mode — no mode change needed"@,
            )
            &&& !same && child ==> refusal == Some(SUBAGENT_MODE_CHANGE@)
            &&& !same && !child && blank(args.message@) ==> refusal == Some(
                "invalid arguments for request_mode_change: "@ + "message must not be empty"@,
            )
            &&& !same && !child && !blank(args.message@) ==> match events {
                Err(e) => refusal == Some("failed to read session journal: "@ + e@),
                Ok(events) => if mode_change_pending(events@) {
                    refusal == Some(MODE_CHANGE_PENDING@)
                } else {
                    refusal is None
                },
            }
        }),
        mode_change_guidance(mode)
            == "Mode change request sent to the user: the session will switch to "@ + args.mode@
            + MODE_CHANGE_GUIDANCE@,
{
    reveal_strlit("build");
    reveal_strlit("plan");
    reveal_strlit("explore");
    assert("build"@.len() == 5 && "plan"@.len() == 4 && "explore"@.len() == 7);
}

/// A mode that does not exist cannot be requested.
pub proof fn law_unknown_modes_cannot_be_requested(
    ctx: ToolContext,
    args: RequestModeChangeArgs,
    events: Result<Vec<JournalEvent>, String>,
)
    requires
        args.mode@ != "build"@,
        args.mode@ != "plan"@,
        args.mode@ != "explore"@,
    ensures
        mode_change_refusal(ctx, args, events) == Some(
            "invalid arguments for request_mode_change: "@ + ("unknown mode: "@
                + args.mode@),
        ),
{
}

// ---------------------------------------------------------------------------
// Skills
// ---------------------------------------------------------------------------

/// A skill that is there is loaded whole, under its folder; a blank name, a name
/// that no skill has and a file that cannot be read are each told apart.
pub proof fn law_a_skill_is_loaded_whole(
    skills: Seq<SkillView>,
    name: Seq<char>,
    body: Result<Seq<char>, Seq<char>>,
)
    ensures
        blank(name) ==> load_outcome(skills, name, body) == Err::<Seq<char>, Seq<char>>(
            "skill name must not be empty"@,
        ),
        !blank(name) && (forall|i: int|
            0 <= i < skills.len() ==> (#[trigger] skills[i]).name != name) ==> load_outcome(
            skills,
            name,
            body,
        ) == Err::<Seq<char>, Seq<char>>("skill not found: "@ + name),
        forall|i: int|
            #![trigger skills[i]]
            0 <= i < skills.len() && !blank(name) && skills[i].name == name && (forall|j: int|
                0 <= j < i ==> (#[trigger] skills[j]).name != name) ==> load_outcome(
                skills,
                name,
                body,
            ) == (match body {
                Ok(text) => Ok::<Seq<char>, Seq<char>>(
                    "Path: "@ + skills[i].path + "\n\n"@ + text,
                ),
                Err(e) => Err("failed to read skill "@ + name + ": "@ + e),
            }),
{
    if forall|i: int| 0 <= i < skills.len() ==> (#[trigger] skills[i]).name != name {
        lemma_no_skill(skills, name);
    }
    assert forall|i: int|
        #![trigger skills[i]]
        0 <= i < skills.len() && !blank(name) && skills[i].name == name && (forall|j: int|
            0 <= j < i ==> (#[trigger] skills[j]).name != name) implies load_outcome(
        skills,
        name,
        body,
    ) == (match body {
        Ok(text) => Ok::<Seq<char>, Seq<char>>("Path: "@ + skills[i].path + "\n\n"@ + text),
        Err(e) => Err("failed to read skill "@ + name + ": "@ + e),
    }) by {
        lemma_first_skill(skills, name, i);
    }
}

proof fn lemma_no_skill(skills: Seq<SkillView>, name: Seq<char>)
    requires
        forall|i: int| 0 <= i < skills.len() ==> (#[trigger] skills[i]).name != name,
    ensures
        named(skills, name) is None,
    decreases skills.len(),
{
    if skills.len() > 0 {
        assert(skills[0].name != name);
        let rest = skills.drop_first();
        assert forall|i: int| 0 <= i < rest.len() implies (#[trigger] rest[i]).name != name by {
            assert(rest[i] == skills[i + 1]);
        }
        lemma_no_skill(rest, name);
    }
}

proof fn lemma_first_skill(skills: Seq<SkillView>, name: Seq<char>, i: int)
    requires
        0 <= i < skills.len(),
        skills[i].name == name,
        forall|j: int| 0 <= j < i ==> (#[trigger] skills[j]).name != name,
    ensures
        named(skills, name) == Some(skills[i]),
    decreases skills.len(),
{
    if i > 0 {
        assert(skills[0].name != name);
        let rest = skills.drop_first();
        assert(rest[i - 1] == skills[i]);
        assert forall|j: int| 0 <= j < i - 1 implies (#[trigger] rest[j]).name != name by {
            assert(rest[j] == skills[j + 1]);
        }
        lemma_first_skill(rest, name, i - 1);
    }
}

// ---------------------------------------------------------------------------
// Subagents
// ---------------------------------------------------------------------------

/// A root session may spawn a subagent for any task that is not blank.
pub proof fn law_root_sessions_may_spawn(ctx: ToolContext, prompt: Seq<char>)
    requires
        ctx.session.parent_id is None,
    ensures
        blank(prompt) ==> spawn_refusal(ctx, prompt) == Some("prompt must not be empty"@),
        !blank(prompt) ==> spawn_refusal(ctx, prompt) is None,
{
}

/// A child belongs to the session that spawned it, works in the same directory
/// with the same model and in the mode that was asked for, and starts with the
/// task as the first word of the user.
pub proof fn law_a_child_takes_after_its_parent(
    child: ChildSession,
    ctx: ToolContext,
    prompt: Seq<char>,
    mode: Mode,
    call: Seq<char>,
    id: Seq<char>,
    now: Seq<char>,
)
    requires
        is_child(child, ctx, prompt, mode, call, id, now),
    ensures
        child.session.id@ == id,
        child.session.parent_id is Some,
        child.session.parent_id->0@ == ctx.session.id@,
        child.session.workdir@ == ctx.workdir@,
        child.session.model@ == ctx.model_name@,
        child.session.mode == mode,
        child.session.status == SessionStatus::Pending,
        child.session.tools@.len() == 0,
        child.session.skills@.len() == 0,
        child.session.pid is None,
        child.session.error is None,
        child.session.heartbeat_at is None,
        child.session.journal_path@ == joined(
            joined(joined(ctx.data_dir@, "sessions"@), id),
            "journal.jsonl"@,
        ),
        child.session.created_at@ == now,
        child.session.updated_at@ == now,
        blank(ctx.session.prompt@) ==> child.session.prompt@ == "Subagent"@,
        !blank(ctx.session.prompt@) ==> child.session.prompt@ == "Subagent for "@
            + ctx.session.prompt@,
        child.started is SubagentStarted,
        child.started->SubagentStarted_child_id@ == id,
        child.started->SubagentStarted_tool_call_id@ == call,
        child.started->SubagentStarted_mode == mode,
        child.task is Message,
        child.task->Message_0.role@ == "user"@,
        child.task->Message_0.content@ == prompt,
        child.task->Message_0.tool_calls is None,
        child.task->Message_0.tool_call_id is None,
{
}

/// The list holds this variable with this value.
pub open spec fn sets(vars: Seq<(String, String)>, name: Seq<char>, value: Seq<char>) -> bool {
    exists|i: int|
        0 <= i < vars.len() && (#[trigger] vars[i]).0@ == name && vars[i].1@ == value
}

/// A child inherits what its parent resolved: the directories, the model, the
/// limits, and the token and the window where the parent has them. It is one
/// level deeper, and no deeper than one.
pub proof fn law_a_child_inherits_the_settings(
    vars: Seq<(String, String)>,
    ctx: ToolContext,
    threshold: Seq<char>,
)
    requires
        common_vars(vars, ctx, threshold),
        optional_vars(vars.skip(7), ctx),
    ensures
        sets(vars, "MO_SUBAGENT_DEPTH"@, decimal(1)),
        sets(vars, "MO_DATA_DIR"@, ctx.data_dir@),
        sets(vars, "MO_AGENTS_DIR"@, ctx.agents_dir@),
        sets(vars, "MO_MODEL_BASE_URL"@, ctx.model_base_url@),
        sets(vars, "MO_MODEL_NAME"@, ctx.model_name@),
        sets(vars, "MO_MAX_TOOL_CONCURRENCY"@, decimal(ctx.max_tool_concurrency as nat)),
        sets(vars, "MO_CONTEXT_COMPRESSION_THRESHOLD"@, threshold),
        ctx.auth_token matches Some(token) ==> sets(vars, "MO_AUTH_TOKEN"@, token@),
        ctx.context_window matches Some(window) ==> sets(
            vars,
            "MO_CONTEXT_WINDOW"@,
            decimal(window as nat),
        ),
        vars.len() == 7 + (if ctx.auth_token is Some {
            1int
        } else {
            0
        }) + (if ctx.context_window is Some {
            1int
        } else {
            0
        }),
{
    let rest = vars.skip(7);
    assert(vars[0].0@ == "MO_SUBAGENT_DEPTH"@);
    assert(vars[1].0@ == "MO_DATA_DIR"@);
    assert(vars[2].0@ == "MO_AGENTS_DIR"@);
    assert(vars[3].0@ == "MO_MODEL_BASE_URL"@);
    assert(vars[4].0@ == "MO_MODEL_NAME"@);
    assert(vars[5].0@ == "MO_MAX_TOOL_CONCURRENCY"@);
    assert(vars[6].0@ == "MO_CONTEXT_COMPRESSION_THRESHOLD"@);
    assert(child_depth_of(ctx.subagent_depth) == 1);
    if rest.len() > 0 {
        assert(rest[0] == vars[7]);
    }
    if rest.len() > 1 {
        assert(rest[1] == vars[8]);
    }
}

/// An event in which the model says something.
pub open spec fn is_reply(kind: JournalEventKind) -> bool {
    kind is Message && kind->Message_0.role@ == "assistant"@
}

/// The last reply is the last message of the model, whatever follows it.
pub proof fn law_the_last_reply_counts(events: Seq<JournalEvent>, i: int)
    requires
        -1 <= i < events.len(),
        i >= 0 ==> is_reply(events[i].kind),
        forall|j: int| i < j < events.len() ==> !is_reply((#[trigger] events[j]).kind),
    ensures
        i >= 0 ==> last_reply(events) == Some(events[i].kind->Message_0.content@),
        i < 0 ==> last_reply(events) is None,
    decreases events.len(),
{
    if i < events.len() - 1 {
        let rest = events.drop_last();
        assert(!is_reply(events[events.len() - 1].kind));
        assert(i >= 0 ==> rest[i] == events[i]);
        assert forall|j: int| i < j < rest.len() implies !is_reply((#[trigger] rest[j]).kind) by {
            assert(rest[j] == events[j]);
        }
        law_the_last_reply_counts(rest, i);
    }
}

/// Whether a session has ended, and under which name.
pub open spec fn ended_as(status: SessionStatus, name: Seq<char>) -> bool {
    match status {
        SessionStatus::Completed => name == "completed"@,
        SessionStatus::Failed => name == "failed"@,
        SessionStatus::Cancelled => name == "cancelled"@,
        _ => false,
    }
}

/// The parent is told how the child ended, what it said last, and what went
/// wrong, whichever way it ended.
pub proof fn law_the_parent_learns_how_it_ended(
    row: Session,
    events: Vec<JournalEvent>,
    name: Seq<char>,
    error: Option<Seq<char>>,
)
    requires
        ended_as(row.status, name),
        match (row.error, error) {
            (Some(a), Some(b)) => a@ == b,
            (None, None) => true,
            _ => false,
        },
    ensures
        ({
            let told = look_outcome(false, Ok(Some(row)), Some(events));
            let said = last_reply(events@);
            let opening = if said is Some && !blank(said->0) {
                "[subagent "@ + name + "] "@ + said->0
            } else {
                "[subagent "@ + name + " — no final message]"@
            };
            told == Some(
                Ok::<Seq<char>, Seq<char>>(
                    match error {
                        Some(e) => opening + ("\n[subagent error] "@ + e),
                        None => opening,
                    },
                ),
            )
        }),
        ({
            let silent = "[subagent "@ + name + " — no final message]"@;
            look_outcome(false, Ok(Some(row)), None) == Some(
                Ok::<Seq<char>, Seq<char>>(
                    match error {
                        Some(e) => silent + ("\n[subagent error] "@ + e),
                        None => silent,
                    },
                ),
            )
        }),
{
    let said = last_reply(events@);
    let opening = if said is Some && !blank(said->0) {
        "[subagent "@ + name + "] "@ + said->0
    } else {
        "[subagent "@ + name + " — no final message]"@
    };
    let silent = "[subagent "@ + name + " — no final message]"@;
    if error is None {
        assert(report(row.status, said, None) =~= opening);
        assert(report(row.status, None, None) =~= silent);
    }
}

/// Waiting ends with an error when time is up, when the row is gone or cannot be
/// read; and goes on while the child is at work.
pub proof fn law_waiting_ends_in_time(
    row: Result<Option<Session>, String>,
    events: Option<Vec<JournalEvent>>,
)
    ensures
        look_outcome(true, row, events) == Some(
            Err::<Seq<char>, Seq<char>>("subagent did not finish within 20 minutes"@),
        ),
        row matches Err(e) ==> look_outcome(false, row, events) == Some(
            Err::<Seq<char>, Seq<char>>(e@),
        ),
        row == Ok::<Option<Session>, String>(None) ==> look_outcome(false, row, events) == Some(
            Err::<Seq<char>, Seq<char>>("subagent session row disappeared"@),
        ),
        row matches Ok(Some(s)) ==> (s.status == SessionStatus::Pending || s.status
            == SessionStatus::Running ==> look_outcome(false, row, events) is None),
{
}

// ---------------------------------------------------------------------------
// Background commands
// ---------------------------------------------------------------------------

/// How a process ended, in the words that the model reads.
pub open spec fn end_in_words(exit: Exit) -> Seq<char> {
    match exit {
        Exit::Code(code) => "exited with code "@ + signed_decimal(code as int),
        Exit::Signal(status) => "terminated by "@ + status@,
    }
}

/// A job answers by what is known of its end, and else by what polling it gave:
/// a status says whether it runs, and a kill signals the group of one that does.
pub proof fn law_jobs_answer_by_how_they_stand(job: BackgroundJob, id: Seq<char>, poll: Poll)
    ensures
        ({
            let end = if job.finished is Some {
                job.finished
            } else if poll is Exited {
                Some(poll->Exited_0)
            } else {
                None
            };
            let status = status_outcome(Some(job), id, poll);
            let kill = kill_outcome(Some(job), id, poll);
            match end {
                Some(exit) => status == Ok::<Seq<char>, Seq<char>>(
                    "process "@ + id + " is not running ("@ + end_in_words(exit) + ")"@,
                ) && kill == Ok::<(Option<u32>, Seq<char>), Seq<char>>(
                    (
                        None,
                        "process "@ + id + " had already finished ("@ + end_in_words(exit)
                            + "); no kill was needed"@,
                    ),
                ),
                None => if poll is Failed {
                    let text = "failed to check background process "@ + id + ": "@
                        + poll->Failed_0@;
                    status == Err::<Seq<char>, Seq<char>>(text) && kill == Err::<
                        (Option<u32>, Seq<char>),
                        Seq<char>,
                    >(text)
                } else {
                    status == Ok::<Seq<char>, Seq<char>>(
                        "process "@ + id + " is still running"@,
                    ) && kill == Ok::<(Option<u32>, Seq<char>), Seq<char>>(
                        (
                            Some(job.pgid),
                            "sent SIGKILL to background process "@ + id + " (pid "@ + decimal(
                                job.pgid as nat,
                            ) + ") and its process group"@,
                        ),
                    )
                },
            }
        }),
        end_after(job, poll) == (if job.finished is Some {
            job.finished
        } else if poll is Exited {
            Some(poll->Exited_0)
        } else {
            None
        }),
{
}

/// An id that no job has is unknown to a status and to a kill.
pub proof fn law_unknown_jobs_are_refused(id: Seq<char>, poll: Poll)
    ensures
        status_outcome(None, id, poll) == Err::<Seq<char>, Seq<char>>(
            "unknown background process: "@ + id,
        ),
        kill_outcome(None, id, poll) == Err::<(Option<u32>, Seq<char>), Seq<char>>(
            "unknown background process: "@ + id,
        ),
{
}

/// The job that an id finds is the first one in the table that has it.
pub proof fn law_an_id_finds_its_job(jobs: Seq<BackgroundJob>, id: Seq<char>, i: int)
    requires
        0 <= i <= jobs.len(),
        forall|j: int| 0 <= j < i ==> (#[trigger] jobs[j]).id@ != id,
        i < jobs.len() ==> jobs[i].id@ == id,
    ensures
        i < jobs.len() ==> job_with(jobs, id) == Some(jobs[i]),
        i == jobs.len() ==> job_with(jobs, id) is None,
    decreases jobs.len(),
{
    if i > 0 {
        assert(jobs[0].id@ != id);
        let rest = jobs.drop_first();
        assert forall|j: int| 0 <= j < i - 1 implies (#[trigger] rest[j]).id@ != id by {
            assert(rest[j] == jobs[j + 1]);
        }
        if i < jobs.len() {
            assert(rest[i - 1] == jobs[i]);
        }
        law_an_id_finds_its_job(rest, id, i - 1);
    }
}

/// A command runs unless it is blank or its shell could not be started.
pub proof fn law_a_command_runs_once_it_is_spawned(
    command: Seq<char>,
    spawned: Result<Option<u32>, String>,
)
    ensures
        blank(command) ==> run_failure(command, spawned) == Some("command must not be empty"@),
        !blank(command) ==> match spawned {
            Ok(Some(_)) => run_failure(command, spawned) is None,
            Ok(None) => run_failure(command, spawned) == Some("spawned child has no pid"@),
            Err(e) => run_failure(command, spawned) == Some("failed to spawn sh: "@ + e@),
        },
{
}

/// On the way out every job that still runs is signalled, and no other.
pub proof fn law_whatever_still_runs_is_signalled(
    jobs: Seq<BackgroundJob>,
    polls: Seq<Poll>,
    i: int,
)
    requires
        polls.len() == jobs.len(),
        0 <= i < jobs.len(),
    ensures
        jobs[i].finished is None && !(polls[i] is Exited) ==> unfinished_groups(
            polled(jobs, polls),
        ).contains(jobs[i].pgid),
        forall|g: u32| #[trigger]
            unfinished_groups(polled(jobs, polls)).contains(g) ==> exists|k: int|
                0 <= k < jobs.len() && (#[trigger] jobs[k]).pgid == g && jobs[k].finished is None
                    && !(polls[k] is Exited),
{
    let all = polled(jobs, polls);
    lemma_unfinished(all);
    assert(all[i].pgid == jobs[i].pgid);
    if jobs[i].finished is None && !(polls[i] is Exited) {
        assert(all[i].finished is None);
    }
    assert forall|g: u32| #[trigger] unfinished_groups(all).contains(g) implies exists|k: int|
        0 <= k < jobs.len() && (#[trigger] jobs[k]).pgid == g && jobs[k].finished is None && !(
        polls[k] is Exited) by {
        let k = choose|k: int|
            0 <= k < all.len() && (#[trigger] all[k]).pgid == g && all[k].finished is None;
        assert(jobs[k].pgid == g);
    }
}

/// Each running job is signalled once, in the order of the table.
pub proof fn law_each_running_job_is_signalled_once(jobs: Seq<BackgroundJob>, job: BackgroundJob)
    ensures
        job.finished is None ==> unfinished_groups(jobs.push(job)) == unfinished_groups(jobs).push(
            job.pgid,
        ),
        job.finished is Some ==> unfinished_groups(jobs.push(job)) == unfinished_groups(jobs),
        unfinished_groups(Seq::empty()).len() == 0,
{
    assert(jobs.push(job).drop_last() =~= jobs);
}

proof fn lemma_unfinished(jobs: Seq<BackgroundJob>)
    ensures
        forall|i: int|
            0 <= i < jobs.len() && (#[trigger] jobs[i]).finished is None ==> unfinished_groups(
                jobs,
            ).contains(jobs[i].pgid),
        forall|g: u32| #[trigger]
            unfinished_groups(jobs).contains(g) ==> exists|k: int|
                0 <= k < jobs.len() && (#[trigger] jobs[k]).pgid == g && jobs[k].finished is None,
    decreases jobs.len(),
{
    if jobs.len() > 0 {
        let rest = jobs.drop_last();
        let n = jobs.len() - 1;
        lemma_unfinished(rest);
        let before = unfinished_groups(rest);
        let groups = unfinished_groups(jobs);
        assert forall|i: int|
            0 <= i < jobs.len() && (#[trigger] jobs[i]).finished is None implies groups.contains(
            jobs[i].pgid,
        ) by {
            if i < n {
                assert(rest[i] == jobs[i]);
                let p = choose|p: int| 0 <= p < before.len() && before[p] == jobs[i].pgid;
                assert(groups[p] == jobs[i].pgid);
            } else {
                assert(groups[groups.len() - 1] == jobs[i].pgid);
            }
        }
        assert forall|g: u32| #[trigger] groups.contains(g) implies exists|k: int|
            0 <= k < jobs.len() && (#[trigger] jobs[k]).pgid == g && jobs[k].finished is None by {
            let p = choose|p: int| 0 <= p < groups.len() && groups[p] == g;
            if p < before.len() {
                assert(before[p] == g);
                assert(before.contains(g));
                let k = choose|k: int|
                    0 <= k < rest.len() && (#[trigger] rest[k]).pgid == g && rest[k].finished
                        is None;
                assert(jobs[k].pgid == g);
            } else {
                assert(jobs[n].pgid == g);
            }
        }
    }
}

/// Polling every job notes the ends that it found, and changes nothing else.
pub proof fn law_polling_notes_the_ends(jobs: Seq<BackgroundJob>, polls: Seq<Poll>, i: int)
    requires
        polls.len() == jobs.len(),
        0 <= i < jobs.len(),
    ensures
        polled(jobs, polls).len() == jobs.len(),
        polled(jobs, polls)[i].id == jobs[i].id,
        polled(jobs, polls)[i].pgid == jobs[i].pgid,
        jobs[i].finished is Some ==> polled(jobs, polls)[i].finished == jobs[i].finished,
        jobs[i].finished is None && polls[i] is Exited ==> polled(jobs, polls)[i].finished == Some(
            polls[i]->Exited_0,
        ),
        jobs[i].finished is None && !(polls[i] is Exited) ==> polled(jobs, polls)[i].finished
            is None,
{
}

/// A call changes no job but its own: what any other id finds stays as it was.
pub proof fn law_a_call_touches_its_own_job(
    before: Seq<BackgroundJob>,
    change: TableChange,
    after: Seq<BackgroundJob>,
    id: Seq<char>,
)
    requires
        changes(before, change, after),
    ensures
        change is Untouched ==> after == before,
        change matches TableChange::Added { job } ==> job_with(after, job.id@) == Some(job) && (id
            != job.id@ ==> job_with(after, id) == job_with(before, id)),
        change matches TableChange::Noted { id: own, poll } ==> match job_with(before, own) {
            None => after == before,
            Some(job) => {
                &&& job_with(after, own) is Some
                &&& job_with(after, own)->0.pgid == job.pgid
                &&& job_with(after, own)->0.id == job.id
                &&& job.finished is Some ==> job_with(after, own)->0.finished == job.finished
                &&& job.finished is None ==> job_with(after, own)->0.finished == (
                if poll is Exited {
                    Some(poll->Exited_0)
                } else {
                    None
                })
                &&& id != own ==> job_with(after, id) == job_with(before, id)
            },
        },
{
    if let TableChange::Noted { id: own, poll } = change {
        lemma_job_keeps_its_id(before, own);
    }
}

/// An id has the shape of a random UUID: eight, four, four, four and twelve
/// lowercase hexadecimal digits with hyphens between them; that of a background
/// process has `bg-` in front.
pub proof fn law_ids_have_their_shape(id: Seq<char>, i: int)
    requires
        is_uuid(id),
    ensures
        id.len() == 36,
        id[8] == '-' && id[13] == '-' && id[18] == '-' && id[23] == '-',
        0 <= i < 36 && i != 8 && i != 13 && i != 18 && i != 23 ==> '0' <= id[i] <= '9' || 'a'
            <= id[i] <= 'f',
        id[14] == '4',
        is_process_id("bg-"@ + id),
        forall|p: Seq<char>| #[trigger]
            is_process_id(p) ==> p.len() == 39 && p[0] == 'b' && p[1] == 'g' && p[2] == '-',
{
    reveal_strlit("bg-");
    let own = "bg-"@ + id;
    assert forall|p: Seq<char>| #[trigger] is_process_id(p) implies p.len() == 39 && p[0] == 'b'
        && p[1] == 'g' && p[2] == '-' by {
        let uuid = choose|uuid: Seq<char>| is_uuid(uuid) && p == #[trigger] ("bg-"@ + uuid);
        assert("bg-"@.len() == 3);
        assert(p == "bg-"@ + uuid);
        assert(p[0] == "bg-"@[0] && p[1] == "bg-"@[1] && p[2] == "bg-"@[2]);
    }
    assert(id[8] == '-' && id[13] == '-' && id[18] == '-' && id[23] == '-');
}

/// A question and a wish to change the mode go out as they were made, and the
/// model is told that they did.
pub proof fn law_requests_go_out_as_they_were_made(
    asked: JournalEventKind,
    asked_guidance: Seq<char>,
    question: AskUserArgs,
    wished: JournalEventKind,
    wished_guidance: Seq<char>,
    wish: RequestModeChangeArgs,
    mode: Mode,
)
    requires
        puts_question(asked, asked_guidance, question),
        requests_mode(wished, wished_guidance, wish),
        names_mode(wish.mode@, mode),
    ensures
        asked is AskUserRequest,
        asks(asked->AskUserRequest_question, question),
        asked_guidance == QUESTION_SENT@ + trimmed(question.question_title@) + QUESTION_GUIDANCE@,
        wished is ModeChangeRequest,
        wished->ModeChangeRequest_mode == mode,
        wished->ModeChangeRequest_message@ == wish.message@,
        wished_guidance == "Mode change request sent to the user: the session will switch to "@
            + wish.mode@ + MODE_CHANGE_GUIDANCE@,
{
    reveal_strlit("build");
    reveal_strlit("plan");
    reveal_strlit("explore");
    assert("build"@.len() == 5 && "plan"@.len() == 4 && "explore"@.len() == 7);
}

} // verus!
