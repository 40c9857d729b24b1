//! `spawn_subagent`: a nested session for a self-contained subtask.
//!
//! The caller writes the rows and journals and runs the child; this module
//! decides what goes into them and what the parent is told. Subagents are
//! leaves: a session with a parent never spawns one.
use vstd::prelude::*;
use vstd::string::*;

use crate::chat::{ROLE_ASSISTANT, ROLE_USER};
use crate::config::MAX_SUBAGENT_DEPTH;
use crate::ids::{is_uuid, new_uuid, now_text};
use crate::journal::{JournalEvent, JournalEventKind, JournalMessage};
use crate::paths::{join, joined, lemma_join_stays_under, plain_name, under};
use crate::session::{status_text, terminal, Mode, Session, SessionStatus};
use crate::text::{blank, cat2, cat5, decimal, decimal_text, is_blank, opt_text, same_text};
use crate::tools::fs::result_text;
use crate::tools::ToolContext;

verus! {

/// The refusal of a subagent that wants to spawn one.
pub const SUBAGENTS_ARE_LEAVES: &'static str = "subagents cannot spawn further subagents (depth hard limit 1)";

/// The refusal of a blank task.
pub const EMPTY_PROMPT: &'static str = "prompt must not be empty";

/// The child did not finish in time.
pub const SUBAGENT_TIMED_OUT: &'static str = "subagent did not finish within 20 minutes";

/// The child's row is gone.
pub const SUBAGENT_ROW_GONE: &'static str = "subagent session row disappeared";

/// The seconds between two looks at the child's row.
pub const POLL_INTERVAL_SECS: u64 = 2;

/// The seconds a child may take.
pub const MAX_WAIT_SECS: u64 = 1200;

/// Why no child is spawned; `None` where one may be.
pub open spec fn spawn_refusal(ctx: ToolContext, prompt: Seq<char>) -> Option<Seq<char>> {
    if ctx.session.parent_id is Some {
        Some(SUBAGENTS_ARE_LEAVES@)
    } else if blank(prompt) {
        Some(EMPTY_PROMPT@)
    } else {
        None
    }
}

/// Whether a child may be spawned for a task.
pub fn check_spawn(ctx: &ToolContext, prompt: &str) -> (r: Result<(), String>)
    ensures
        match r {
            Ok(()) => spawn_refusal(*ctx, prompt@) is None,
            Err(e) => spawn_refusal(*ctx, prompt@) == Some(e@),
        },
{
    if ctx.session.parent_id.is_some() {
        return Err(SUBAGENTS_ARE_LEAVES.to_owned());
    }
    if is_blank(prompt) {
        return Err(EMPTY_PROMPT.to_owned());
    }
    Ok(())
}

/// A subagent never spawns another one, whatever depth it carries.
pub proof fn law_subagents_are_leaves(ctx: ToolContext, prompt: Seq<char>)
    requires
        ctx.session.parent_id is Some,
    ensures
        spawn_refusal(ctx, prompt) is Some,
{
}

// ---------------------------------------------------------------------------
// The child session
// ---------------------------------------------------------------------------

/// The directory of a session.
pub open spec fn session_path(data_dir: Seq<char>, id: Seq<char>) -> Seq<char> {
    joined(joined(data_dir, "sessions"@), id)
}

/// The journal of a session.
pub open spec fn journal_file(data_dir: Seq<char>, id: Seq<char>) -> Seq<char> {
    joined(session_path(data_dir, id), "journal.jsonl"@)
}

/// The title of a child: that of its parent, marked.
pub open spec fn child_title(parent_title: Seq<char>) -> Seq<char> {
    if blank(parent_title) {
        "Subagent"@
    } else {
        "Subagent for "@ + parent_title
    }
}

/// A child session: its row, the event that links it to the parent's tool
/// call, and the task that opens its journal.
#[derive(Debug, Clone)]
pub struct ChildSession {
    pub session: Session,
    pub started: JournalEventKind,
    pub task: JournalEventKind,
}

/// The row of a child.
pub open spec fn is_child_row(
    row: Session,
    ctx: ToolContext,
    mode: Mode,
    id: Seq<char>,
    now: Seq<char>,
) -> bool {
    &&& row.id@ == id
    &&& opt_text(row.parent_id) == Some(ctx.session.id@)
    &&& row.workdir@ == ctx.workdir@
    &&& row.prompt@ == child_title(ctx.session.prompt@)
    &&& row.model@ == ctx.model_name@
    &&& row.status == SessionStatus::Pending
    &&& row.mode == mode
    &&& row.tools@.len() == 0
    &&& row.skills@.len() == 0
    &&& row.pid is None
    &&& row.journal_path@ == journal_file(ctx.data_dir@, id)
    &&& row.created_at@ == now
    &&& row.updated_at@ == now
    &&& row.heartbeat_at is None
    &&& row.error is None
}

/// The child of a tool call, under this id and from this time.
pub open spec fn is_child(
    child: ChildSession,
    ctx: ToolContext,
    prompt: Seq<char>,
    mode: Mode,
    tool_call_id: Seq<char>,
    id: Seq<char>,
    now: Seq<char>,
) -> bool {
    &&& is_child_row(child.session, ctx, mode, id, now)
    &&& child.started matches JournalEventKind::SubagentStarted {
        child_id,
        tool_call_id: call,
        mode: m,
    } && child_id@ == id && call@ == tool_call_id && m == mode
    &&& child.task matches JournalEventKind::Message(m) && m.role@ == ROLE_USER@ && m.content@
        == prompt && m.reasoning_content is None && m.tool_call_id is None && m.tool_calls is None
}

/// The directory of a session.
pub fn session_dir(data_dir: &str, id: &str) -> (r: String)
    ensures
        r@ == session_path(data_dir@, id@),
{
    let sessions = join(data_dir, "sessions");
    join(sessions.as_str(), id)
}

/// The child of a tool call, under a given id and from a given time.
pub fn child_session(
    ctx: &ToolContext,
    prompt: &str,
    mode: Mode,
    tool_call_id: &str,
    id: String,
    now: String,
) -> (r: ChildSession)
    ensures
        is_child(r, *ctx, prompt@, mode, tool_call_id@, id@, now@),
{
    let dir = session_dir(ctx.data_dir.as_str(), id.as_str());
    let journal_path = join(dir.as_str(), "journal.jsonl");
    let title = if is_blank(ctx.session.prompt.as_str()) {
        "Subagent".to_owned()
    } else {
        cat2("Subagent for ", ctx.session.prompt.as_str())
    };
    let started = JournalEventKind::SubagentStarted {
        child_id: id.clone(),
        tool_call_id: tool_call_id.to_owned(),
        mode,
    };
    let task = JournalEventKind::Message(
        JournalMessage {
            role: ROLE_USER.to_owned(),
            content: prompt.to_owned(),
            reasoning_content: None,
            tool_call_id: None,
            tool_calls: None,
        },
    );
    let session = Session {
        id,
        parent_id: Some(ctx.session.id.clone()),
        workdir: ctx.workdir.clone(),
        prompt: title,
        model: ctx.model_name.clone(),
        status: SessionStatus::Pending,
        mode,
        tools: Vec::new(),
        skills: Vec::new(),
        pid: None,
        journal_path,
        created_at: now.clone(),
        updated_at: now,
        heartbeat_at: None,
        error: None,
    };
    ChildSession { session, started, task }
}

/// The child of a tool call, under a fresh id and from now on. Which id and
/// which time it takes is left open.
pub fn create_child_session(ctx: &ToolContext, prompt: &str, mode: Mode, tool_call_id: &str) -> (r:
    ChildSession)
    ensures
        is_uuid(r.session.id@),
        is_child(
            r,
            *ctx,
            prompt@,
            mode,
            tool_call_id@,
            r.session.id@,
            r.session.created_at@,
        ),
{
    let id = new_uuid();
    let now = now_text();
    child_session(ctx, prompt, mode, tool_call_id, id, now)
}

/// The journal of a child lies under the data directory.
pub proof fn law_child_journal_stays_in_the_data_dir(data_dir: Seq<char>, id: Seq<char>)
    requires
        is_uuid(id),
    ensures
        under(journal_file(data_dir, id), data_dir),
{
    reveal_strlit("sessions");
    reveal_strlit("journal.jsonl");
    assert("sessions"@.len() == 8);
    assert("journal.jsonl"@.len() == 13);
    assert(plain_name("sessions"@));
    assert(plain_name("journal.jsonl"@));
    assert(plain_name(id)) by {
        assert forall|j: int| 0 <= j < id.len() implies id[j] != '/' by {
            assert(if j == 8 || j == 13 || j == 18 || j == 23 {
                id[j] == '-'
            } else {
                crate::ids::is_hex(id[j])
            });
        }
    }
    let c = crate::paths::components(data_dir);
    assert(c.subrange(0, c.len() as int) =~= c);
    assert(under(data_dir, data_dir));
    lemma_join_stays_under(data_dir, data_dir, "sessions"@);
    lemma_join_stays_under(joined(data_dir, "sessions"@), data_dir, id);
    lemma_join_stays_under(session_path(data_dir, id), data_dir, "journal.jsonl"@);
}

// ---------------------------------------------------------------------------
// The child's environment
// ---------------------------------------------------------------------------

/// The depth of a child: one more than its parent's, within the hard cap.
pub open spec fn child_depth_of(depth: u32) -> int {
    if depth + 1 < MAX_SUBAGENT_DEPTH {
        depth + 1
    } else {
        MAX_SUBAGENT_DEPTH as int
    }
}

/// The depth of a child: one more than its parent's, within the hard cap.
pub fn child_depth(depth: u32) -> (r: u32)
    ensures
        r == child_depth_of(depth),
{
    if depth < MAX_SUBAGENT_DEPTH - 1 {
        depth + 1
    } else {
        MAX_SUBAGENT_DEPTH
    }
}

/// A variable of the child's environment.
pub open spec fn is_var(var: (String, String), name: Seq<char>, value: Seq<char>) -> bool {
    var.0@ == name && var.1@ == value
}

/// The variables that every child gets.
pub open spec fn common_vars(
    vars: Seq<(String, String)>,
    ctx: ToolContext,
    threshold: Seq<char>,
) -> bool {
    &&& vars.len() >= 7
    &&& is_var(vars[0], "MO_SUBAGENT_DEPTH"@, decimal(child_depth_of(ctx.subagent_depth) as nat))
    &&& is_var(vars[1], "MO_DATA_DIR"@, ctx.data_dir@)
    &&& is_var(vars[2], "MO_AGENTS_DIR"@, ctx.agents_dir@)
    &&& is_var(vars[3], "MO_MODEL_BASE_URL"@, ctx.model_base_url@)
    &&& is_var(vars[4], "MO_MODEL_NAME"@, ctx.model_name@)
    &&& is_var(vars[5], "MO_MAX_TOOL_CONCURRENCY"@, decimal(ctx.max_tool_concurrency as nat))
    &&& is_var(vars[6], "MO_CONTEXT_COMPRESSION_THRESHOLD"@, threshold)
}

/// The variables behind the common ones: the token and the context window,
/// where the parent has them.
pub open spec fn optional_vars(vars: Seq<(String, String)>, ctx: ToolContext) -> bool {
    match (ctx.auth_token, ctx.context_window) {
        (Some(token), Some(window)) => vars.len() == 2 && is_var(
            vars[0],
            "MO_AUTH_TOKEN"@,
            token@,
        ) && is_var(vars[1], "MO_CONTEXT_WINDOW"@, decimal(window as nat)),
        (Some(token), None) => vars.len() == 1 && is_var(vars[0], "MO_AUTH_TOKEN"@, token@),
        (None, Some(window)) => vars.len() == 1 && is_var(
            vars[0],
            "MO_CONTEXT_WINDOW"@,
            decimal(window as nat),
        ),
        (None, None) => vars.len() == 0,
    }
}

/// The environment of a child: it inherits the parent's resolved settings.
/// `threshold` is the compression threshold in words.
pub fn child_env(ctx: &ToolContext, threshold: &str) -> (r: Vec<(String, String)>)
    ensures
        common_vars(r@, *ctx, threshold@),
        optional_vars(r@.skip(7), *ctx),
{
    let depth = decimal_text(child_depth(ctx.subagent_depth) as u64);
    let concurrency = decimal_text(ctx.max_tool_concurrency as u64);
    let mut vars: Vec<(String, String)> = Vec::new();
    vars.push(("MO_SUBAGENT_DEPTH".to_owned(), depth));
    vars.push(("MO_DATA_DIR".to_owned(), ctx.data_dir.clone()));
    vars.push(("MO_AGENTS_DIR".to_owned(), ctx.agents_dir.clone()));
    vars.push(("MO_MODEL_BASE_URL".to_owned(), ctx.model_base_url.clone()));
    vars.push(("MO_MODEL_NAME".to_owned(), ctx.model_name.clone()));
    vars.push(("MO_MAX_TOOL_CONCURRENCY".to_owned(), concurrency));
    vars.push(("MO_CONTEXT_COMPRESSION_THRESHOLD".to_owned(), threshold.to_owned()));
    if let Some(token) = &ctx.auth_token {
        vars.push(("MO_AUTH_TOKEN".to_owned(), token.clone()));
    }
    if let Some(window) = ctx.context_window {
        vars.push(("MO_CONTEXT_WINDOW".to_owned(), decimal_text(window)));
    }
    vars
}

// ---------------------------------------------------------------------------
// The child's end
// ---------------------------------------------------------------------------

/// The last thing the model said.
pub open spec fn last_reply(events: Seq<JournalEvent>) -> Option<Seq<char>>
    decreases events.len(),
{
    if events.len() == 0 {
        None
    } else {
        match events.last().kind {
            JournalEventKind::Message(m) if m.role@ == ROLE_ASSISTANT@ => Some(m.content@),
            _ => last_reply(events.drop_last()),
        }
    }
}

/// The last thing the model said.
pub fn last_assistant_message(events: &Vec<JournalEvent>) -> (r: Option<String>)
    ensures
        opt_text(r) == last_reply(events@),
{
    let mut i: usize = events.len();
    assert(events@.take(i as int) =~= events@);
    while i > 0
        invariant
            i <= events.len(),
            last_reply(events@) == last_reply(events@.take(i as int)),
        decreases i,
    {
        assert(events@.take(i as int).last() == events@[i - 1]);
        assert(events@.take(i as int).drop_last() =~= events@.take(i - 1));
        if let JournalEventKind::Message(m) = &events[i - 1].kind {
            if same_text(m.role.as_str(), ROLE_ASSISTANT) {
                return Some(m.content.clone());
            }
        }
        i = i - 1;
    }
    None
}

/// What the parent is told once the child has ended.
pub open spec fn report(
    status: SessionStatus,
    message: Option<Seq<char>>,
    error: Option<Seq<char>>,
) -> Seq<char> {
    let note = match error {
        Some(e) => "\n[subagent error] "@ + e,
        None => Seq::empty(),
    };
    match message {
        Some(m) if !blank(m) => "[subagent "@ + status_text(status) + "] "@ + m + note,
        _ => "[subagent "@ + status_text(status) + " — no final message]"@ + note,
    }
}

/// What a look at the child's row comes to.
pub open spec fn look_outcome(
    late: bool,
    row: Result<Option<Session>, String>,
    events: Option<Vec<JournalEvent>>,
) -> Option<Result<Seq<char>, Seq<char>>> {
    if late {
        Some(Err(SUBAGENT_TIMED_OUT@))
    } else {
        match row {
            Err(e) => Some(Err(e@)),
            Ok(None) => Some(Err(SUBAGENT_ROW_GONE@)),
            Ok(Some(s)) => if terminal(s.status) {
                Some(
                    Ok(
                        report(
                            s.status,
                            match events {
                                Some(events) => last_reply(events@),
                                None => None,
                            },
                            opt_text(s.error),
                        ),
                    ),
                )
            } else {
                None
            },
        }
    }
}

/// What the parent is told once the child has ended.
pub fn child_report(status: SessionStatus, message: &Option<String>, error: &Option<String>) -> (r:
    String)
    ensures
        r@ == report(status, opt_text(*message), opt_text(*error)),
{
    let note = match error {
        Some(e) => cat2("\n[subagent error] ", e.as_str()),
        None => {
            let none = String::new();
            assert(none@ =~= Seq::<char>::empty());
            none
        },
    };
    if let Some(m) = message {
        if !is_blank(m.as_str()) {
            return cat5("[subagent ", status.as_str(), "] ", m.as_str(), note.as_str());
        }
    }
    crate::text::cat4("[subagent ", status.as_str(), " — no final message]", note.as_str())
}

/// A look at the child: `late` says that the deadline has passed, `row` is the
/// child's row, and `events` its journal where it can be read. `None` means to
/// look again later; `Some` holds what the tool call returns.
pub fn look_at_child(
    late: bool,
    row: &Result<Option<Session>, String>,
    events: &Option<Vec<JournalEvent>>,
) -> (r: Option<Result<String, String>>)
    ensures
        match r {
            Some(outcome) => look_outcome(late, *row, *events) == Some(result_text(outcome)),
            None => look_outcome(late, *row, *events) is None,
        },
{
    if late {
        return Some(Err(SUBAGENT_TIMED_OUT.to_owned()));
    }
    match row {
        Err(e) => Some(Err(e.clone())),
        Ok(None) => Some(Err(SUBAGENT_ROW_GONE.to_owned())),
        Ok(Some(s)) => {
            if !s.status.is_terminal() {
                return None;
            }
            let message = match events {
                Some(events) => last_assistant_message(events),
                None => None,
            };
            Some(Ok(child_report(s.status, &message, &s.error)))
        },
    }
}

/// While the child runs and the deadline has not passed, the parent waits.
pub proof fn law_parent_waits_for_a_running_child(
    row: Session,
    events: Option<Vec<JournalEvent>>,
)
    requires
        !terminal(row.status),
    ensures
        look_outcome(false, Ok(Some(row)), events) is None,
{
}

} // verus!
