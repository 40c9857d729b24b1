//! The session journal: its events, and what the last request of each kind
//! says about the user's answer.
use std::collections::BTreeMap;

use vstd::prelude::*;

use crate::session::{Mode, SessionStatus};

verus! {

/// A tool call as the journal keeps it.
#[derive(Debug, Clone, PartialEq, Eq)]
pub struct ToolCallInfo {
    pub id: String,
    pub name: String,
    pub arguments: String,
}

/// A chat message as the journal keeps it.
#[derive(Debug, Clone, PartialEq, Eq)]
pub struct JournalMessage {
    pub role: String,
    pub content: String,
    pub reasoning_content: Option<String>,
    pub tool_call_id: Option<String>,
    pub tool_calls: Option<Vec<ToolCallInfo>>,
}

/// One option of a clarification question.
#[derive(Debug, Clone, PartialEq, Eq)]
pub struct AskUserOption {
    pub option_title: String,
    pub option_text: String,
}

/// A clarification question for the user.
#[derive(Debug, Clone, PartialEq, Eq)]
pub struct AskUserQuestion {
    pub question_id: String,
    pub question_title: String,
    pub question_text: String,
    pub options: Vec<AskUserOption>,
}

/// One held file-tool call of a permission request.
#[derive(Debug, Clone, PartialEq, Eq)]
pub struct PermissionRequestItem {
    pub call_id: String,
    pub tool: String,
    pub operation: String,
    pub path: String,
    pub arguments: String,
}

/// The user's decision on one held call.
#[derive(Debug, Clone, PartialEq, Eq)]
pub struct PermissionDecision {
    pub call_id: String,
    pub tool: String,
    pub operation: String,
    pub path: String,
    pub allowed: bool,
}

/// What happened.
#[derive(Debug, Clone, PartialEq, Eq)]
pub enum JournalEventKind {
    Message(JournalMessage),
    MessageDelta { content: String, reasoning_content: Option<String> },
    ToolCallStart { id: String, name: String, arguments: String },
    ToolResult { id: String, name: String, ok: bool, output: String },
    ToolOutputDelta { id: String, name: String, output: String },
    StatusChange { status: SessionStatus, error: Option<String> },
    SystemPrompt { content: String, mode: Mode, model: String },
    ModeChange { mode: Mode, content: String },
    ModeChangeRequest { mode: Mode, message: String },
    ModeChangeRequestDeclined { mode: Mode },
    ContextUsage { tokens: u64, context_window: Option<u64> },
    Handoff { content: String, mode: Mode },
    AskUserRequest { question: AskUserQuestion },
    AskUserAnswered { answers: BTreeMap<String, String> },
    PermissionRequest {
        request_id: String,
        tool: Option<String>,
        operation: Option<String>,
        path: Option<String>,
        items: Vec<PermissionRequestItem>,
    },
    PermissionAnswered {
        request_id: String,
        tool: Option<String>,
        operation: Option<String>,
        path: Option<String>,
        allowed: Option<bool>,
        decisions: Vec<PermissionDecision>,
    },
    SubagentStarted { child_id: String, tool_call_id: String, mode: Mode },
}

/// One line of the journal.
#[derive(Debug, Clone, PartialEq, Eq)]
pub struct JournalEvent {
    pub seq: u64,
    pub ts: String,
    pub kind: JournalEventKind,
}

// ---------------------------------------------------------------------------
// Pending requests
// ---------------------------------------------------------------------------

/// A mode-change request or its resolution.
pub open spec fn is_mode_marker(kind: JournalEventKind) -> bool {
    kind is ModeChange || kind is ModeChangeRequest || kind is ModeChangeRequestDeclined
}

/// A clarification question or its answer.
pub open spec fn is_ask_user_marker(kind: JournalEventKind) -> bool {
    kind is AskUserRequest || kind is AskUserAnswered
}

/// A permission request or its answer.
pub open spec fn is_permission_marker(kind: JournalEventKind) -> bool {
    kind is PermissionRequest || kind is PermissionAnswered
}

/// The last mode marker is a request: the user has not decided yet.
pub open spec fn mode_change_pending(events: Seq<JournalEvent>) -> bool
    decreases events.len(),
{
    if events.len() == 0 {
        false
    } else if is_mode_marker(events.last().kind) {
        events.last().kind is ModeChangeRequest
    } else {
        mode_change_pending(events.drop_last())
    }
}

/// The last clarification marker is a question: the user has not answered.
pub open spec fn ask_user_pending(events: Seq<JournalEvent>) -> bool
    decreases events.len(),
{
    if events.len() == 0 {
        false
    } else if is_ask_user_marker(events.last().kind) {
        events.last().kind is AskUserRequest
    } else {
        ask_user_pending(events.drop_last())
    }
}

/// The last permission marker is a request: the user has not decided yet.
pub open spec fn permission_pending(events: Seq<JournalEvent>) -> bool
    decreases events.len(),
{
    if events.len() == 0 {
        false
    } else if is_permission_marker(events.last().kind) {
        events.last().kind is PermissionRequest
    } else {
        permission_pending(events.drop_last())
    }
}

/// Only a decision, or another request, changes whether a mode change is open.
pub proof fn law_other_events_leave_a_mode_change_open(events: Seq<JournalEvent>, more: Seq<JournalEvent>)
    requires
        forall|i: int| 0 <= i < more.len() ==> !is_mode_marker((#[trigger] more[i]).kind),
    ensures
        mode_change_pending(events + more) == mode_change_pending(events),
    decreases more.len(),
{
    if more.len() == 0 {
        assert(events + more =~= events);
    } else {
        assert((events + more).drop_last() =~= events + more.drop_last());
        assert((events + more).last() == more[more.len() - 1]);
        law_other_events_leave_a_mode_change_open(events, more.drop_last());
    }
}

/// Only an answer, or another question, changes whether a question is open.
pub proof fn law_other_events_leave_a_question_open(events: Seq<JournalEvent>, more: Seq<JournalEvent>)
    requires
        forall|i: int| 0 <= i < more.len() ==> !is_ask_user_marker((#[trigger] more[i]).kind),
    ensures
        ask_user_pending(events + more) == ask_user_pending(events),
    decreases more.len(),
{
    if more.len() == 0 {
        assert(events + more =~= events);
    } else {
        assert((events + more).drop_last() =~= events + more.drop_last());
        assert((events + more).last() == more[more.len() - 1]);
        law_other_events_leave_a_question_open(events, more.drop_last());
    }
}

/// Only a decision, or another request, changes whether a permission request is
/// open.
pub proof fn law_other_events_leave_a_permission_open(events: Seq<JournalEvent>, more: Seq<JournalEvent>)
    requires
        forall|i: int| 0 <= i < more.len() ==> !is_permission_marker((#[trigger] more[i]).kind),
    ensures
        permission_pending(events + more) == permission_pending(events),
    decreases more.len(),
{
    if more.len() == 0 {
        assert(events + more =~= events);
    } else {
        assert((events + more).drop_last() =~= events + more.drop_last());
        assert((events + more).last() == more[more.len() - 1]);
        law_other_events_leave_a_permission_open(events, more.drop_last());
    }
}

/// Whether a mode-change request waits for the user.
pub fn has_pending_mode_change(events: &Vec<JournalEvent>) -> (r: bool)
    ensures
        r == mode_change_pending(events@),
{
    let mut i: usize = events.len();
    assert(events@.take(i as int) =~= events@);
    while i > 0
        invariant
            i <= events.len(),
            mode_change_pending(events@) == mode_change_pending(events@.take(i as int)),
        decreases i,
    {
        assert(events@.take(i as int).last() == events@[i - 1]);
        assert(events@.take(i as int).drop_last() =~= events@.take(i - 1));
        match &events[i - 1].kind {
            JournalEventKind::ModeChangeRequest { .. } => {
                return true;
            },
            JournalEventKind::ModeChange { .. }
            | JournalEventKind::ModeChangeRequestDeclined { .. } => {
                return false;
            },
            _ => {},
        }
        i = i - 1;
    }
    false
}

/// Whether a clarification question waits for the user.
pub fn has_pending_question(events: &Vec<JournalEvent>) -> (r: bool)
    ensures
        r == ask_user_pending(events@),
{
    let mut i: usize = events.len();
    assert(events@.take(i as int) =~= events@);
    while i > 0
        invariant
            i <= events.len(),
            ask_user_pending(events@) == ask_user_pending(events@.take(i as int)),
        decreases i,
    {
        assert(events@.take(i as int).last() == events@[i - 1]);
        assert(events@.take(i as int).drop_last() =~= events@.take(i - 1));
        match &events[i - 1].kind {
            JournalEventKind::AskUserRequest { .. } => {
                return true;
            },
            JournalEventKind::AskUserAnswered { .. } => {
                return false;
            },
            _ => {},
        }
        i = i - 1;
    }
    false
}

/// Whether a permission request waits for the user.
pub fn has_pending_permission(events: &Vec<JournalEvent>) -> (r: bool)
    ensures
        r == permission_pending(events@),
{
    let mut i: usize = events.len();
    assert(events@.take(i as int) =~= events@);
    while i > 0
        invariant
            i <= events.len(),
            permission_pending(events@) == permission_pending(events@.take(i as int)),
        decreases i,
    {
        assert(events@.take(i as int).last() == events@[i - 1]);
        assert(events@.take(i as int).drop_last() =~= events@.take(i - 1));
        match &events[i - 1].kind {
            JournalEventKind::PermissionRequest { .. } => {
                return true;
            },
            JournalEventKind::PermissionAnswered { .. } => {
                return false;
            },
            _ => {},
        }
        i = i - 1;
    }
    false
}

} // verus!
