//! The file-access policy: what happens when a file tool targets a path
//! outside the sandbox.
//!
//! Reads, and writes in build mode, ask the user; the decision is remembered
//! for the tool and the path. Writes in the other modes are denied outright.
//! Subagents never ask: their journal has no UI.
use vstd::prelude::*;
use vstd::string::*;

use crate::journal::{
    ask_user_pending, has_pending_permission, has_pending_question, is_ask_user_marker,
    is_permission_marker, law_other_events_leave_a_permission_open,
    law_other_events_leave_a_question_open, permission_pending, JournalEvent, JournalEventKind,
    PermissionDecision, PermissionRequestItem,
};
use crate::paths::under;
use crate::session::{mode_text, Mode};
use crate::text::{cat2, cat5, same_text};
use crate::tools::fs::{
    classify_read, classify_write, read_class, write_class, ClassView, PathClass, PathLookup,
};
use crate::tools::{
    ToolContext, TOOL_CREATE_FILE, TOOL_EDIT_FILE, TOOL_READ_FILE, TOOL_REMOVE_FILE,
};

verus! {

/// The operation of a read.
pub const OPERATION_READ: &'static str = "read";

/// The operation of a write.
pub const OPERATION_WRITE: &'static str = "write";

/// The id of a permission request: one is open at a time.
pub const REQUEST_ID: &'static str = "p1";

/// The refusal of a request from a subagent.
pub const SUBAGENT_CANNOT_ASK: &'static str = "this path is outside the allowed roots and subagents cannot ask the user for \
             permission (the request is shown in the UI, which only root sessions have). \
             Report the need to your parent agent instead.";

/// The refusal of a request while a question is open.
pub const QUESTION_PENDING: &'static str = "a clarification question is already pending — the user has not answered yet. Do \
             not request file access; finish your turn and wait for the user's answer.";

/// The refusal of a request while another one is open.
pub const PERMISSION_PENDING: &'static str = "a file-access permission request is already pending — the user has not answered \
             yet. Do not request more access; finish your turn and wait for the user's decision.";

/// What to do with a file-tool call once its path is classified.
#[derive(Debug, Clone, PartialEq, Eq)]
pub enum PathPolicy {
    /// Run the operation with exactly this resolved path approved.
    Run(String),
    /// Hold the call and ask the user.
    Ask { operation: &'static str },
}

/// The texts of a `PathPolicy`.
#[verifier::ext_equal]
pub enum PolicyView {
    Run(Seq<char>),
    Ask(Seq<char>),
}

impl View for PathPolicy {
    type V = PolicyView;

    open spec fn view(&self) -> PolicyView {
        match self {
            PathPolicy::Run(path) => PolicyView::Run(path@),
            PathPolicy::Ask { operation } => PolicyView::Ask(operation@),
        }
    }
}

/// The texts of a policy decision.
pub open spec fn policy_text(r: Result<PathPolicy, String>) -> Result<PolicyView, Seq<char>> {
    match r {
        Ok(p) => Ok(p@),
        Err(e) => Err(e@),
    }
}

/// What the agent loop does with a call before anything runs.
#[derive(Debug, Clone, PartialEq, Eq)]
pub enum Preflight {
    /// Execute the call; an error of the policy surfaces as its result.
    Run,
    /// Hold the call for the user's decision.
    Permission(PermissionRequestItem),
}

// ---------------------------------------------------------------------------
// Remembered decisions
// ---------------------------------------------------------------------------

/// The last decision of a batch on this tool and path.
pub open spec fn batch_decision(
    decisions: Seq<PermissionDecision>,
    tool: Seq<char>,
    raw: Seq<char>,
) -> Option<bool>
    decreases decisions.len(),
{
    if decisions.len() == 0 {
        None
    } else if decisions.last().tool@ == tool && decisions.last().path@ == raw {
        Some(decisions.last().allowed)
    } else {
        batch_decision(decisions.drop_last(), tool, raw)
    }
}

/// What an event decides on this tool and path: a batched answer by its
/// decisions, a single answer by itself.
pub open spec fn event_decision(
    kind: JournalEventKind,
    tool: Seq<char>,
    raw: Seq<char>,
) -> Option<bool> {
    match kind {
        JournalEventKind::PermissionAnswered { tool: t, path: p, allowed: a, decisions, .. } => {
            if decisions@.len() > 0 {
                batch_decision(decisions@, tool, raw)
            } else {
                match (t, p, a) {
                    (Some(t), Some(p), Some(a)) => if t@ == tool && p@ == raw {
                        Some(a)
                    } else {
                        None
                    },
                    _ => None,
                }
            }
        },
        _ => None,
    }
}

/// The user's most recent decision on this tool and path.
pub open spec fn remembered(
    events: Seq<JournalEvent>,
    tool: Seq<char>,
    raw: Seq<char>,
) -> Option<bool>
    decreases events.len(),
{
    if events.len() == 0 {
        None
    } else {
        match event_decision(events.last().kind, tool, raw) {
            Some(allowed) => Some(allowed),
            None => remembered(events.drop_last(), tool, raw),
        }
    }
}

/// The decision that a journal remembers; an unreadable one remembers none.
pub open spec fn remembered_in(
    events: Result<Vec<JournalEvent>, String>,
    tool: Seq<char>,
    raw: Seq<char>,
) -> Option<bool> {
    match events {
        Ok(events) => remembered(events@, tool, raw),
        Err(_) => None,
    }
}

fn find_batch_decision(decisions: &Vec<PermissionDecision>, tool: &str, raw: &str) -> (r: Option<
    bool,
>)
    ensures
        r == batch_decision(decisions@, tool@, raw@),
{
    let mut i: usize = decisions.len();
    assert(decisions@.take(i as int) =~= decisions@);
    while i > 0
        invariant
            i <= decisions.len(),
            batch_decision(decisions@, tool@, raw@) == batch_decision(
                decisions@.take(i as int),
                tool@,
                raw@,
            ),
        decreases i,
    {
        assert(decisions@.take(i as int).last() == decisions@[i - 1]);
        assert(decisions@.take(i as int).drop_last() =~= decisions@.take(i - 1));
        let d = &decisions[i - 1];
        if same_text(d.tool.as_str(), tool) && same_text(d.path.as_str(), raw) {
            return Some(d.allowed);
        }
        i = i - 1;
    }
    None
}

fn decision_of(kind: &JournalEventKind, tool: &str, raw: &str) -> (r: Option<bool>)
    ensures
        r == event_decision(*kind, tool@, raw@),
{
    match kind {
        JournalEventKind::PermissionAnswered { tool: t, path: p, allowed: a, decisions, .. } => {
            if decisions.len() > 0 {
                return find_batch_decision(decisions, tool, raw);
            }
            match (t, p, a) {
                (Some(t), Some(p), Some(a)) => if same_text(t.as_str(), tool) && same_text(
                    p.as_str(),
                    raw,
                ) {
                    Some(*a)
                } else {
                    None
                },
                _ => None,
            }
        },
        _ => None,
    }
}

fn find_decision(events: &Vec<JournalEvent>, tool: &str, raw: &str) -> (r: Option<bool>)
    ensures
        r == remembered(events@, tool@, raw@),
{
    let mut i: usize = events.len();
    assert(events@.take(i as int) =~= events@);
    while i > 0
        invariant
            i <= events.len(),
            remembered(events@, tool@, raw@) == remembered(events@.take(i as int), tool@, raw@),
        decreases i,
    {
        assert(events@.take(i as int).last() == events@[i - 1]);
        assert(events@.take(i as int).drop_last() =~= events@.take(i - 1));
        let found = decision_of(&events[i - 1].kind, tool, raw);
        if found.is_some() {
            return found;
        }
        i = i - 1;
    }
    None
}

/// The user's most recent decision on this tool and path, from the journal.
pub fn remembered_decision(
    events: &Result<Vec<JournalEvent>, String>,
    tool: &str,
    raw: &str,
) -> (r: Option<bool>)
    ensures
        r == remembered_in(*events, tool@, raw@),
{
    match events {
        Ok(events) => find_decision(events, tool, raw),
        Err(_) => None,
    }
}

// ---------------------------------------------------------------------------
// Policies
// ---------------------------------------------------------------------------

/// The refusal of a path that the user denied before.
pub open spec fn denied_text(tool: Seq<char>, raw: Seq<char>) -> Seq<char> {
    "the user denied permission for "@ + tool + " "@ + raw
        + " — do not retry it; find another way or explain why you cannot proceed"@
}

/// The policy for a path outside every root: by the remembered decision,
/// otherwise ask.
pub open spec fn outside_decision(
    events: Result<Vec<JournalEvent>, String>,
    tool: Seq<char>,
    operation: Seq<char>,
    raw: Seq<char>,
    resolved: Seq<char>,
) -> Result<PolicyView, Seq<char>> {
    match remembered_in(events, tool, raw) {
        Some(true) => Ok(PolicyView::Run(resolved)),
        Some(false) => Err(denied_text(tool, raw)),
        None => Ok(PolicyView::Ask(operation)),
    }
}

/// The policy for a read.
pub open spec fn read_decision(
    ctx: ToolContext,
    raw: Seq<char>,
    roots: Seq<String>,
    lookup: PathLookup,
    events: Result<Vec<JournalEvent>, String>,
) -> Result<PolicyView, Seq<char>> {
    match read_class(ctx.workdir@, raw, roots, lookup) {
        Err(e) => Err(e),
        Ok(ClassView::Allowed(path)) => Ok(PolicyView::Run(path)),
        Ok(ClassView::Outside(path)) => outside_decision(
            events,
            TOOL_READ_FILE@,
            OPERATION_READ@,
            raw,
            path,
        ),
    }
}

/// The refusal of a write to the codebase outside build mode.
pub open spec fn read_only_text(mode: Mode, scratch: Seq<char>) -> Seq<char> {
    mode_text(mode)
        + " mode: the codebase is read-only; create/edit/remove is only allowed under "@ + scratch
        + " (use an absolute path)"@
}

/// The refusal of a write outside the codebase outside build mode.
pub open spec fn scratch_only_text(mode: Mode, scratch: Seq<char>) -> Seq<char> {
    mode_text(mode) + " mode: writes are denied outside the session scratch dir ("@ + scratch
        + ")"@
}

/// The policy for a write: the codebase in build mode, the scratch directory
/// in every mode, and anything else by the user in build mode only.
pub open spec fn write_decision(
    ctx: ToolContext,
    tool: Seq<char>,
    raw: Seq<char>,
    lookup: PathLookup,
    scratch_lookup: PathLookup,
    events: Result<Vec<JournalEvent>, String>,
) -> Result<PolicyView, Seq<char>> {
    match write_class(ctx.workdir@, raw, lookup) {
        Err(e) => Err(e),
        Ok(ClassView::Allowed(path)) => if ctx.session.mode == Mode::Build {
            Ok(PolicyView::Run(path))
        } else {
            Err(read_only_text(ctx.session.mode, ctx.scratch@))
        },
        Ok(ClassView::Outside(path)) => match write_class(ctx.scratch@, raw, scratch_lookup) {
            Err(e) => Err(e),
            Ok(ClassView::Allowed(inside)) => Ok(PolicyView::Run(inside)),
            Ok(ClassView::Outside(_)) => if ctx.session.mode == Mode::Build {
                outside_decision(events, tool, OPERATION_WRITE@, raw, path)
            } else {
                Err(scratch_only_text(ctx.session.mode, ctx.scratch@))
            },
        },
    }
}

fn outside_policy(
    events: &Result<Vec<JournalEvent>, String>,
    tool: &str,
    operation: &'static str,
    raw: &str,
    resolved: String,
) -> (r: Result<PathPolicy, String>)
    ensures
        policy_text(r) == outside_decision(*events, tool@, operation@, raw@, resolved@),
{
    match remembered_decision(events, tool, raw) {
        Some(true) => Ok(PathPolicy::Run(resolved)),
        Some(false) => Err(
            cat5(
                "the user denied permission for ",
                tool,
                " ",
                raw,
                " — do not retry it; find another way or explain why you cannot proceed",
            ),
        ),
        None => Ok(PathPolicy::Ask { operation }),
    }
}

/// Classifies a `read_file` call; `roots` are the extra read roots.
pub fn read_policy(
    ctx: &ToolContext,
    raw: &str,
    roots: &Vec<String>,
    lookup: &PathLookup,
    events: &Result<Vec<JournalEvent>, String>,
) -> (r: Result<PathPolicy, String>)
    ensures
        policy_text(r) == read_decision(*ctx, raw@, roots@, *lookup, *events),
{
    match classify_read(ctx.workdir.as_str(), raw, roots, lookup) {
        Ok(PathClass::Allowed(path)) => Ok(PathPolicy::Run(path)),
        Ok(PathClass::Outside(path)) => outside_policy(
            events,
            TOOL_READ_FILE,
            OPERATION_READ,
            raw,
            path,
        ),
        Err(e) => Err(e),
    }
}

/// Classifies a write call; `lookup` is about the working directory,
/// `scratch_lookup` about the scratch directory.
pub fn write_policy(
    ctx: &ToolContext,
    tool: &str,
    raw: &str,
    lookup: &PathLookup,
    scratch_lookup: &PathLookup,
    events: &Result<Vec<JournalEvent>, String>,
) -> (r: Result<PathPolicy, String>)
    ensures
        policy_text(r) == write_decision(*ctx, tool@, raw@, *lookup, *scratch_lookup, *events),
{
    match classify_write(ctx.workdir.as_str(), raw, lookup) {
        Err(e) => Err(e),
        Ok(PathClass::Allowed(path)) => {
            if ctx.session.mode == Mode::Build {
                Ok(PathPolicy::Run(path))
            } else {
                let mut text = cat2(
                    ctx.session.mode.as_str(),
                    " mode: the codebase is read-only; create/edit/remove is only allowed under ",
                );
                text.append(ctx.scratch.as_str());
                text.append(" (use an absolute path)");
                Err(text)
            }
        },
        Ok(PathClass::Outside(path)) => match classify_write(
            ctx.scratch.as_str(),
            raw,
            scratch_lookup,
        ) {
            Err(e) => Err(e),
            Ok(PathClass::Allowed(inside)) => Ok(PathPolicy::Run(inside)),
            Ok(PathClass::Outside(_)) => {
                if ctx.session.mode == Mode::Build {
                    outside_policy(events, tool, OPERATION_WRITE, raw, path)
                } else {
                    let mut text = cat2(
                        ctx.session.mode.as_str(),
                        " mode: writes are denied outside the session scratch dir (",
                    );
                    text.append(ctx.scratch.as_str());
                    text.append(")");
                    Err(text)
                }
            },
        },
    }
}

// ---------------------------------------------------------------------------
// Holding calls
// ---------------------------------------------------------------------------

/// A tool that works on one path.
pub open spec fn file_tool(tool: Seq<char>) -> bool {
    tool == TOOL_READ_FILE@ || tool == TOOL_EDIT_FILE@ || tool == TOOL_CREATE_FILE@ || tool
        == TOOL_REMOVE_FILE@
}

/// Whether a tool works on one path.
pub fn is_file_tool(tool: &str) -> (r: bool)
    ensures
        r == file_tool(tool@),
{
    same_text(tool, TOOL_READ_FILE) || same_text(tool, TOOL_EDIT_FILE) || same_text(
        tool,
        TOOL_CREATE_FILE,
    ) || same_text(tool, TOOL_REMOVE_FILE)
}

/// The policy for a file-tool call: reads by the read policy, everything else
/// by the write policy.
pub open spec fn call_decision(
    ctx: ToolContext,
    tool: Seq<char>,
    operation: Seq<char>,
    raw: Seq<char>,
    roots: Seq<String>,
    lookup: PathLookup,
    scratch_lookup: PathLookup,
    events: Result<Vec<JournalEvent>, String>,
) -> Result<PolicyView, Seq<char>> {
    if operation == OPERATION_READ@ {
        read_decision(ctx, raw, roots, lookup, events)
    } else {
        write_decision(ctx, tool, raw, lookup, scratch_lookup, events)
    }
}

/// The call is held: a file tool whose policy is to ask.
pub open spec fn held(
    ctx: ToolContext,
    tool: Seq<char>,
    operation: Seq<char>,
    raw: Seq<char>,
    roots: Seq<String>,
    lookup: PathLookup,
    scratch_lookup: PathLookup,
    events: Result<Vec<JournalEvent>, String>,
) -> bool {
    file_tool(tool) && (call_decision(
        ctx,
        tool,
        operation,
        raw,
        roots,
        lookup,
        scratch_lookup,
        events,
    ) matches Ok(PolicyView::Ask(_)))
}

/// The item asks for this call, with what it takes to run it later.
pub open spec fn asks_for(
    item: PermissionRequestItem,
    call_id: Seq<char>,
    tool: Seq<char>,
    operation: Seq<char>,
    raw: Seq<char>,
    arguments: Seq<char>,
) -> bool {
    item.call_id@ == call_id && item.tool@ == tool && item.path@ == raw && item.arguments@
        == arguments && item.operation@ == (if operation == OPERATION_READ@ {
        OPERATION_READ@
    } else {
        OPERATION_WRITE@
    })
}

/// Sorts out one tool call before anything runs: a file-tool call that needs
/// the user's decision is held, with what it takes to run it later.
pub fn preflight(
    ctx: &ToolContext,
    tool: &str,
    operation: &'static str,
    raw: &str,
    arguments: &str,
    call_id: &str,
    read_roots: &Vec<String>,
    lookup: &PathLookup,
    scratch_lookup: &PathLookup,
    events: &Result<Vec<JournalEvent>, String>,
) -> (r: Preflight)
    ensures
        r is Permission <==> held(
            *ctx,
            tool@,
            operation@,
            raw@,
            read_roots@,
            *lookup,
            *scratch_lookup,
            *events,
        ),
        r matches Preflight::Permission(item) ==> asks_for(
            item,
            call_id@,
            tool@,
            operation@,
            raw@,
            arguments@,
        ),
{
    if !is_file_tool(tool) {
        return Preflight::Run;
    }
    let policy = if same_text(operation, OPERATION_READ) {
        read_policy(ctx, raw, read_roots, lookup, events)
    } else {
        write_policy(ctx, tool, raw, lookup, scratch_lookup, events)
    };
    match policy {
        Ok(PathPolicy::Ask { operation: asked }) => Preflight::Permission(
            PermissionRequestItem {
                call_id: call_id.to_owned(),
                tool: tool.to_owned(),
                operation: asked.to_owned(),
                path: raw.to_owned(),
                arguments: arguments.to_owned(),
            },
        ),
        _ => Preflight::Run,
    }
}

// ---------------------------------------------------------------------------
// Asking
// ---------------------------------------------------------------------------

/// Why a permission request is refused; `None` where it may go out.
pub open spec fn ask_refusal(
    ctx: ToolContext,
    events: Result<Vec<JournalEvent>, String>,
) -> Option<Seq<char>> {
    if ctx.session.parent_id is Some {
        Some(SUBAGENT_CANNOT_ASK@)
    } else {
        match events {
            Err(e) => Some("failed to read session journal: "@ + e@),
            Ok(events) => if ask_user_pending(events@) {
                Some(QUESTION_PENDING@)
            } else if permission_pending(events@) {
                Some(PERMISSION_PENDING@)
            } else {
                None
            },
        }
    }
}

fn refuse_ask(ctx: &ToolContext, events: &Result<Vec<JournalEvent>, String>) -> (r: Option<String>)
    ensures
        crate::text::opt_text(r) == ask_refusal(*ctx, *events),
{
    if ctx.session.parent_id.is_some() {
        return Some(SUBAGENT_CANNOT_ASK.to_owned());
    }
    match events {
        Err(e) => Some(cat2("failed to read session journal: ", e.as_str())),
        Ok(events) => if has_pending_question(events) {
            Some(QUESTION_PENDING.to_owned())
        } else if has_pending_permission(events) {
            Some(PERMISSION_PENDING.to_owned())
        } else {
            None
        },
    }
}

/// A copy of a held call.
pub fn copy_item(item: &PermissionRequestItem) -> (r: PermissionRequestItem)
    ensures
        r == *item,
{
    PermissionRequestItem {
        call_id: item.call_id.clone(),
        tool: item.tool.clone(),
        operation: item.operation.clone(),
        path: item.path.clone(),
        arguments: item.arguments.clone(),
    }
}

/// A copy of a list of held calls.
pub fn copy_items(items: &Vec<PermissionRequestItem>) -> (r: Vec<PermissionRequestItem>)
    ensures
        r@ == items@,
{
    let mut out: Vec<PermissionRequestItem> = Vec::new();
    let mut i: usize = 0;
    assert(out@ =~= items@.take(0));
    while i < items.len()
        invariant
            i <= items.len(),
            out@ == items@.take(i as int),
        decreases items.len() - i,
    {
        out.push(copy_item(&items[i]));
        i = i + 1;
        assert(out@ =~= items@.take(i as int));
    }
    assert(items@.take(i as int) =~= items@);
    out
}

/// The request for all the held calls of a message: `Ok` holds the event to
/// journal, `Err` says why the user cannot be asked.
pub fn ask_permission_batch(
    ctx: &ToolContext,
    items: &Vec<PermissionRequestItem>,
    events: &Result<Vec<JournalEvent>, String>,
) -> (r: Result<JournalEventKind, String>)
    ensures
        match r {
            Ok(kind) => ask_refusal(*ctx, *events) is None && (
            kind matches JournalEventKind::PermissionRequest {
                request_id,
                tool,
                operation,
                path,
                items: asked,
            } && request_id@ == REQUEST_ID@ && tool is None && operation is None && path is None
                && asked@ == items@),
            Err(e) => ask_refusal(*ctx, *events) == Some(e@),
        },
{
    match refuse_ask(ctx, events) {
        Some(e) => Err(e),
        None => Ok(
            JournalEventKind::PermissionRequest {
                request_id: REQUEST_ID.to_owned(),
                tool: None,
                operation: None,
                path: None,
                items: copy_items(items),
            },
        ),
    }
}

/// What the model is told once a single request went out.
pub open spec fn ask_guidance(
    tool: Seq<char>,
    operation: Seq<char>,
    raw: Seq<char>,
) -> Seq<char> {
    "A permission request was sent to the user: they will see a request to "@ + operation + " \""@
        + raw + "\" via the "@ + tool + " tool in the UI and can allow or deny it.\n\n\
         Stop working now: do not continue the task or retry the tool call until you receive \
         the answer. Finish your turn with a brief message to the user (in their language) \
         telling them the request was sent. The answer will arrive as a user message: if the \
         user allowed the request, retry the tool call with the same arguments; if they \
         denied it, do not retry — find another way or explain why you cannot proceed."@
}

/// The event requests access for a single call.
pub open spec fn requests_one(
    kind: JournalEventKind,
    tool: Seq<char>,
    operation: Seq<char>,
    raw: Seq<char>,
) -> bool {
    kind matches JournalEventKind::PermissionRequest {
        request_id,
        tool: Some(t),
        operation: Some(o),
        path: Some(p),
        items,
    } && request_id@ == REQUEST_ID@ && t@ == tool && o@ == operation && p@ == raw && items@.len()
        == 0
}

/// The request for a single call that was not held: the event to journal and
/// the guidance for the model, or why the user cannot be asked.
pub fn ask_permission(
    ctx: &ToolContext,
    tool: &str,
    operation: &str,
    raw: &str,
    events: &Result<Vec<JournalEvent>, String>,
) -> (r: Result<(JournalEventKind, String), String>)
    ensures
        match r {
            Ok((kind, guidance)) => ask_refusal(*ctx, *events) is None && requests_one(
                kind,
                tool@,
                operation@,
                raw@,
            ) && guidance@ == ask_guidance(tool@, operation@, raw@),
            Err(e) => ask_refusal(*ctx, *events) == Some(e@),
        },
{
    if let Some(e) = refuse_ask(ctx, events) {
        return Err(e);
    }
    let mut guidance = cat5(
        "A permission request was sent to the user: they will see a request to ",
        operation,
        " \"",
        raw,
        "\" via the ",
    );
    guidance.append(tool);
    guidance.append(
        " tool in the UI and can allow or deny it.\n\n\
         Stop working now: do not continue the task or retry the tool call until you receive \
         the answer. Finish your turn with a brief message to the user (in their language) \
         telling them the request was sent. The answer will arrive as a user message: if the \
         user allowed the request, retry the tool call with the same arguments; if they \
         denied it, do not retry — find another way or explain why you cannot proceed.",
    );
    Ok(
        (
            JournalEventKind::PermissionRequest {
                request_id: REQUEST_ID.to_owned(),
                tool: Some(tool.to_owned()),
                operation: Some(operation.to_owned()),
                path: Some(raw.to_owned()),
                items: Vec::new(),
            },
            guidance,
        ),
    )
}

// ---------------------------------------------------------------------------
// Laws
// ---------------------------------------------------------------------------

/// Events that decide nothing on a tool and path leave what is remembered.
pub proof fn law_other_events_keep_the_memory(
    events: Seq<JournalEvent>,
    event: JournalEvent,
    tool: Seq<char>,
    raw: Seq<char>,
)
    requires
        event_decision(event.kind, tool, raw) is None,
    ensures
        remembered(events.push(event), tool, raw) == remembered(events, tool, raw),
{
    assert(events.push(event).drop_last() =~= events);
}

/// A decision is remembered: whatever is journaled behind it, as long as it
/// decides nothing on the same tool and path.
pub proof fn law_decisions_are_remembered(
    before: Seq<JournalEvent>,
    answer: JournalEvent,
    later: Seq<JournalEvent>,
    tool: Seq<char>,
    raw: Seq<char>,
    allowed: bool,
)
    requires
        event_decision(answer.kind, tool, raw) == Some(allowed),
        forall|i: int|
            0 <= i < later.len() ==> event_decision((#[trigger] later[i]).kind, tool, raw) is None,
    ensures
        remembered(before.push(answer) + later, tool, raw) == Some(allowed),
    decreases later.len(),
{
    let all = before.push(answer) + later;
    if later.len() == 0 {
        assert(all =~= before.push(answer));
    } else {
        let rest = before.push(answer) + later.drop_last();
        law_decisions_are_remembered(before, answer, later.drop_last(), tool, raw, allowed);
        law_other_events_keep_the_memory(rest, later[later.len() - 1], tool, raw);
        assert(all =~= rest.push(later[later.len() - 1]));
    }
}

/// A path that was decided on is not asked about again, for a read or a write.
pub proof fn law_decided_path_is_not_asked_again(
    ctx: ToolContext,
    tool: Seq<char>,
    operation: Seq<char>,
    raw: Seq<char>,
    roots: Seq<String>,
    lookup: PathLookup,
    scratch_lookup: PathLookup,
    events: Result<Vec<JournalEvent>, String>,
)
    requires
        operation == OPERATION_READ@ ==> tool == TOOL_READ_FILE@,
        remembered_in(events, tool, raw) is Some,
    ensures
        !held(ctx, tool, operation, raw, roots, lookup, scratch_lookup, events),
{
}

/// The decision rules an outside read: an allowed path runs, with exactly that
/// path approved, and a denied one is refused.
pub proof fn law_decision_rules_outside_reads(
    ctx: ToolContext,
    raw: Seq<char>,
    roots: Seq<String>,
    lookup: PathLookup,
    events: Result<Vec<JournalEvent>, String>,
    path: Seq<char>,
    allowed: bool,
)
    requires
        remembered_in(events, TOOL_READ_FILE@, raw) == Some(allowed),
        read_class(ctx.workdir@, raw, roots, lookup) == Ok::<ClassView, Seq<char>>(
            ClassView::Outside(path),
        ),
    ensures
        read_decision(ctx, raw, roots, lookup, events) == (if allowed {
            Ok::<PolicyView, Seq<char>>(PolicyView::Run(path))
        } else {
            Err(denied_text(TOOL_READ_FILE@, raw))
        }),
{
}

/// The decision rules a write in build mode outside the codebase and the
/// scratch directory in the same way.
pub proof fn law_decision_rules_outside_writes(
    ctx: ToolContext,
    tool: Seq<char>,
    raw: Seq<char>,
    lookup: PathLookup,
    scratch_lookup: PathLookup,
    events: Result<Vec<JournalEvent>, String>,
    path: Seq<char>,
    allowed: bool,
)
    requires
        ctx.session.mode == Mode::Build,
        remembered_in(events, tool, raw) == Some(allowed),
        write_class(ctx.workdir@, raw, lookup) == Ok::<ClassView, Seq<char>>(
            ClassView::Outside(path),
        ),
        write_class(ctx.scratch@, raw, scratch_lookup) matches Ok(ClassView::Outside(_)),
    ensures
        write_decision(ctx, tool, raw, lookup, scratch_lookup, events) == (if allowed {
            Ok::<PolicyView, Seq<char>>(PolicyView::Run(path))
        } else {
            Err(denied_text(tool, raw))
        }),
{
}

/// Outside build mode a write never asks the user.
pub proof fn law_only_build_mode_asks_for_writes(
    ctx: ToolContext,
    tool: Seq<char>,
    raw: Seq<char>,
    lookup: PathLookup,
    scratch_lookup: PathLookup,
    events: Result<Vec<JournalEvent>, String>,
)
    requires
        ctx.session.mode != Mode::Build,
    ensures
        !(write_decision(ctx, tool, raw, lookup, scratch_lookup, events) matches Ok(
            PolicyView::Ask(_),
        )),
{
}

/// Outside build mode a write runs only inside the scratch directory.
pub proof fn law_other_modes_write_to_scratch_only(
    ctx: ToolContext,
    tool: Seq<char>,
    raw: Seq<char>,
    lookup: PathLookup,
    scratch_lookup: PathLookup,
    events: Result<Vec<JournalEvent>, String>,
)
    requires
        ctx.session.mode != Mode::Build,
    ensures
        write_decision(ctx, tool, raw, lookup, scratch_lookup, events) matches Ok(
            PolicyView::Run(path),
        ) ==> (scratch_lookup.workdir matches Ok(root) && under(path, root@)),
{
    crate::tools::fs::law_writes_stay_in_the_workdir(ctx.scratch@, raw, scratch_lookup);
    crate::tools::fs::law_write_class_decides(ctx.scratch@, raw, Seq::empty(), scratch_lookup);
}

/// One request at a time: once a permission request or a question is journaled,
/// the next permission request is refused, whatever comes in between, until the
/// user has answered.
pub proof fn law_one_request_at_a_time(
    ctx: ToolContext,
    before: Seq<JournalEvent>,
    request: JournalEvent,
    later: Seq<JournalEvent>,
    events: Vec<JournalEvent>,
)
    requires
        request.kind is PermissionRequest || request.kind is AskUserRequest,
        request.kind is PermissionRequest ==> forall|i: int|
            0 <= i < later.len() ==> !is_permission_marker((#[trigger] later[i]).kind),
        request.kind is AskUserRequest ==> forall|i: int|
            0 <= i < later.len() ==> !is_ask_user_marker((#[trigger] later[i]).kind),
        events@ == before.push(request) + later,
    ensures
        ask_refusal(ctx, Ok(events)) is Some,
{
    if request.kind is PermissionRequest {
        law_other_events_leave_a_permission_open(before.push(request), later);
    } else {
        law_other_events_leave_a_question_open(before.push(request), later);
    }
}

} // verus!
