//! Chat messages, and how the journal keeps them.
use vstd::prelude::*;
use vstd::string::*;

use crate::journal::{JournalMessage, ToolCallInfo};
use crate::text::opt_text;

verus! {

/// The role of a model reply.
pub const ROLE_ASSISTANT: &'static str = "assistant";

/// The role of a tool result.
pub const ROLE_TOOL: &'static str = "tool";

/// The role of what the user says.
pub const ROLE_USER: &'static str = "user";

/// The role of the system prompt.
pub const ROLE_SYSTEM: &'static str = "system";

/// The kind of every tool call.
pub const CALL_FUNCTION: &'static str = "function";

/// A tool call that the model asks for.
#[derive(Debug, Clone, PartialEq, Eq)]
pub struct ToolCall {
    pub id: String,
    pub kind: String,
    pub name: String,
    pub arguments: String,
}

/// A message of the model context.
#[derive(Debug, Clone, PartialEq, Eq)]
pub struct ChatMessage {
    pub role: String,
    pub content: String,
    pub reasoning_content: Option<String>,
    pub tool_call_id: Option<String>,
    pub tool_calls: Option<Vec<ToolCall>>,
}

/// The texts of a tool call.
#[verifier::ext_equal]
pub struct CallView {
    pub id: Seq<char>,
    pub kind: Seq<char>,
    pub name: Seq<char>,
    pub arguments: Seq<char>,
}

/// The texts of a message.
#[verifier::ext_equal]
pub struct MessageView {
    pub role: Seq<char>,
    pub content: Seq<char>,
    pub reasoning: Option<Seq<char>>,
    pub call_id: Option<Seq<char>>,
    pub calls: Option<Seq<CallView>>,
}

impl View for ToolCall {
    type V = CallView;

    open spec fn view(&self) -> CallView {
        CallView {
            id: self.id@,
            kind: self.kind@,
            name: self.name@,
            arguments: self.arguments@,
        }
    }
}

/// The texts of a list of calls.
pub open spec fn calls_view(calls: Seq<ToolCall>) -> Seq<CallView> {
    calls.map_values(|c: ToolCall| c@)
}

impl View for ChatMessage {
    type V = MessageView;

    open spec fn view(&self) -> MessageView {
        MessageView {
            role: self.role@,
            content: self.content@,
            reasoning: opt_text(self.reasoning_content),
            call_id: opt_text(self.tool_call_id),
            calls: match self.tool_calls {
                Some(calls) => Some(calls_view(calls@)),
                None => None,
            },
        }
    }
}

/// The texts of a list of messages.
pub open spec fn messages_view(messages: Seq<ChatMessage>) -> Seq<MessageView> {
    messages.map_values(|m: ChatMessage| m@)
}

/// The texts of a list with one more message.
pub proof fn lemma_messages_push(messages: Seq<ChatMessage>, m: ChatMessage)
    ensures
        messages_view(messages.push(m)) == messages_view(messages).push(m@),
{
    assert(messages_view(messages.push(m)) =~= messages_view(messages).push(m@));
}

/// A message that is only a text under a role.
pub open spec fn plain_message(role: Seq<char>, content: Seq<char>) -> MessageView {
    MessageView { role, content, reasoning: None, call_id: None, calls: None }
}

/// The message that answers a tool call.
pub open spec fn tool_message_view(id: Seq<char>, output: Seq<char>) -> MessageView {
    MessageView {
        role: ROLE_TOOL@,
        content: output,
        reasoning: None,
        call_id: Some(id),
        calls: None,
    }
}

/// A message that is only a text under a role.
pub fn text_message(role: &str, content: String) -> (r: ChatMessage)
    ensures
        r@ == plain_message(role@, content@),
{
    ChatMessage {
        role: role.to_owned(),
        content,
        reasoning_content: None,
        tool_call_id: None,
        tool_calls: None,
    }
}

/// The system-role message that opens every model context.
pub fn system_message(content: String) -> (r: ChatMessage)
    ensures
        r@ == plain_message(ROLE_SYSTEM@, content@),
{
    text_message(ROLE_SYSTEM, content)
}

/// The message that answers the tool call `id`.
pub fn tool_message(id: String, output: String) -> (r: ChatMessage)
    ensures
        r@ == tool_message_view(id@, output@),
{
    ChatMessage {
        role: ROLE_TOOL.to_owned(),
        content: output,
        reasoning_content: None,
        tool_call_id: Some(id),
        tool_calls: None,
    }
}

/// A copy of an optional text.
pub fn copy_opt(text: &Option<String>) -> (r: Option<String>)
    ensures
        r == *text,
{
    match text {
        Some(t) => Some(t.clone()),
        None => None,
    }
}

/// A copy of a tool call.
pub fn copy_call(call: &ToolCall) -> (r: ToolCall)
    ensures
        r == *call,
{
    ToolCall {
        id: call.id.clone(),
        kind: call.kind.clone(),
        name: call.name.clone(),
        arguments: call.arguments.clone(),
    }
}

/// A copy of a list of calls.
pub fn copy_calls(calls: &Vec<ToolCall>) -> (r: Vec<ToolCall>)
    ensures
        r@ == calls@,
{
    let mut out: Vec<ToolCall> = Vec::new();
    let mut i: usize = 0;
    assert(out@ =~= calls@.take(0));
    while i < calls.len()
        invariant
            i <= calls.len(),
            out@ == calls@.take(i as int),
        decreases calls.len() - i,
    {
        out.push(copy_call(&calls[i]));
        i = i + 1;
        assert(out@ =~= calls@.take(i as int));
    }
    assert(calls@.take(i as int) =~= calls@);
    out
}

/// A copy of a message.
pub fn copy_message(message: &ChatMessage) -> (r: ChatMessage)
    ensures
        r@ == message@,
{
    ChatMessage {
        role: message.role.clone(),
        content: message.content.clone(),
        reasoning_content: copy_opt(&message.reasoning_content),
        tool_call_id: copy_opt(&message.tool_call_id),
        tool_calls: match &message.tool_calls {
            Some(calls) => Some(copy_calls(calls)),
            None => None,
        },
    }
}

/// A copy of a list of messages.
pub fn copy_messages(messages: &Vec<ChatMessage>) -> (r: Vec<ChatMessage>)
    ensures
        messages_view(r@) == messages_view(messages@),
{
    let mut out: Vec<ChatMessage> = Vec::new();
    let mut i: usize = 0;
    assert(messages_view(out@) =~= messages_view(messages@).take(0));
    while i < messages.len()
        invariant
            i <= messages.len(),
            messages_view(out@) == messages_view(messages@).take(i as int),
        decreases messages.len() - i,
    {
        let message = copy_message(&messages[i]);
        proof {
            lemma_messages_push(out@, message);
        }
        out.push(message);
        i = i + 1;
        assert(messages_view(out@) =~= messages_view(messages@).take(i as int));
    }
    assert(messages_view(messages@).take(i as int) =~= messages_view(messages@));
    out
}

// ---------------------------------------------------------------------------
// Messages in the journal
// ---------------------------------------------------------------------------

/// What the journal keeps of a call.
pub open spec fn same_call(info: ToolCallInfo, call: CallView) -> bool {
    info.id@ == call.id && info.name@ == call.name && info.arguments@ == call.arguments
}

/// `j` is what the journal keeps of the message `m`: everything but the kind
/// of its calls.
pub open spec fn journals(j: JournalMessage, m: MessageView) -> bool {
    &&& j.role@ == m.role
    &&& j.content@ == m.content
    &&& opt_text(j.reasoning_content) == m.reasoning
    &&& opt_text(j.tool_call_id) == m.call_id
    &&& match (j.tool_calls, m.calls) {
        (Some(infos), Some(calls)) => infos@.len() == calls.len() && forall|i: int|
            0 <= i < calls.len() ==> same_call(#[trigger] infos@[i], calls[i]),
        (None, None) => true,
        _ => false,
    }
}

/// The calls that a journaled list of calls stands for.
pub open spec fn restored_calls(infos: Seq<ToolCallInfo>) -> Seq<CallView> {
    infos.map_values(
        |info: ToolCallInfo|
            CallView {
                id: info.id@,
                kind: CALL_FUNCTION@,
                name: info.name@,
                arguments: info.arguments@,
            },
    )
}

/// The message that a journaled one stands for; a missing role is the
/// assistant's.
pub open spec fn restored(j: JournalMessage) -> MessageView {
    MessageView {
        role: if j.role@.len() == 0 {
            ROLE_ASSISTANT@
        } else {
            j.role@
        },
        content: j.content@,
        reasoning: opt_text(j.reasoning_content),
        call_id: opt_text(j.tool_call_id),
        calls: match j.tool_calls {
            Some(infos) => Some(restored_calls(infos@)),
            None => None,
        },
    }
}

/// A journaled message stands for one with the same texts and every one of its
/// calls, as function calls; without a role it is the assistant's.
pub proof fn law_restoring_keeps_every_call(j: JournalMessage)
    ensures
        ({
            let m = restored(j);
            &&& j.role@.len() > 0 ==> m.role == j.role@
            &&& j.role@.len() == 0 ==> m.role == "assistant"@
            &&& m.content == j.content@
            &&& j.reasoning_content is None ==> m.reasoning is None
            &&& j.reasoning_content matches Some(text) ==> m.reasoning == Some(text@)
            &&& j.tool_call_id is None ==> m.call_id is None
            &&& j.tool_call_id matches Some(id) ==> m.call_id == Some(id@)
            &&& j.tool_calls is None ==> m.calls is None
            &&& j.tool_calls matches Some(infos) ==> m.calls is Some && m.calls->0.len()
                == infos@.len() && forall|i: int|
                0 <= i < infos@.len() ==> (#[trigger] m.calls->0[i]).id == infos@[i].id@
                    && m.calls->0[i].kind == "function"@ && m.calls->0[i].name == infos@[i].name@
                    && m.calls->0[i].arguments == infos@[i].arguments@
        }),
{
}

/// The view of a message shows all of it.
pub proof fn law_a_view_shows_the_whole_message(m: ChatMessage)
    ensures
        m@.role == m.role@,
        m@.content == m.content@,
        m.reasoning_content is None ==> m@.reasoning is None,
        m.reasoning_content matches Some(text) ==> m@.reasoning == Some(text@),
        m.tool_call_id is None ==> m@.call_id is None,
        m.tool_call_id matches Some(id) ==> m@.call_id == Some(id@),
        m.tool_calls is None ==> m@.calls is None,
        m.tool_calls matches Some(calls) ==> m@.calls is Some && m@.calls->0.len() == calls@.len()
            && forall|i: int|
            0 <= i < calls@.len() ==> (#[trigger] m@.calls->0[i]).id == calls@[i].id@
                && m@.calls->0[i].kind == calls@[i].kind@ && m@.calls->0[i].name == calls@[i].name@
                && m@.calls->0[i].arguments == calls@[i].arguments@,
{
}

/// A message with a role whose calls are function calls comes back from the
/// journal as it was.
pub proof fn law_journaled_message_round_trip(j: JournalMessage, m: MessageView)
    requires
        journals(j, m),
        m.role.len() > 0,
        m.calls matches Some(calls) ==> forall|i: int|
            0 <= i < calls.len() ==> (#[trigger] calls[i]).kind == CALL_FUNCTION@,
    ensures
        restored(j) == m,
{
    if let Some(calls) = m.calls {
        assert(restored_calls(j.tool_calls->0@) =~= calls) by {
            assert forall|i: int| 0 <= i < calls.len() implies restored_calls(
                j.tool_calls->0@,
            )[i] == calls[i] by {
                assert(same_call(j.tool_calls->0@[i], calls[i]));
                assert(restored_calls(j.tool_calls->0@)[i] =~= calls[i]);
            }
        }
    }
    assert(restored(j) =~= m);
}

/// What the journal keeps of a message.
pub fn journal_message_from(msg: &ChatMessage) -> (r: JournalMessage)
    ensures
        journals(r, msg@),
{
    let tool_calls = match &msg.tool_calls {
        Some(calls) => {
            let mut infos: Vec<ToolCallInfo> = Vec::new();
            let mut i: usize = 0;
            while i < calls.len()
                invariant
                    i <= calls.len(),
                    infos@.len() == i,
                    forall|k: int| 0 <= k < i ==> same_call(#[trigger] infos@[k], calls@[k]@),
                decreases calls.len() - i,
            {
                let call = &calls[i];
                infos.push(
                    ToolCallInfo {
                        id: call.id.clone(),
                        name: call.name.clone(),
                        arguments: call.arguments.clone(),
                    },
                );
                i = i + 1;
            }
            Some(infos)
        },
        None => None,
    };
    JournalMessage {
        role: msg.role.clone(),
        content: msg.content.clone(),
        reasoning_content: copy_opt(&msg.reasoning_content),
        tool_call_id: copy_opt(&msg.tool_call_id),
        tool_calls,
    }
}

/// The message that a journaled one stands for.
pub fn restore_message(j: &JournalMessage) -> (r: ChatMessage)
    ensures
        r@ == restored(*j),
{
    let tool_calls = match &j.tool_calls {
        Some(infos) => {
            let mut calls: Vec<ToolCall> = Vec::new();
            let mut i: usize = 0;
            while i < infos.len()
                invariant
                    i <= infos.len(),
                    calls@.len() == i,
                    forall|k: int|
                        0 <= k < i ==> (#[trigger] calls@[k])@ == restored_calls(infos@)[k],
                decreases infos.len() - i,
            {
                let info = &infos[i];
                calls.push(
                    ToolCall {
                        id: info.id.clone(),
                        kind: CALL_FUNCTION.to_owned(),
                        name: info.name.clone(),
                        arguments: info.arguments.clone(),
                    },
                );
                i = i + 1;
            }
            assert(calls_view(calls@) =~= restored_calls(infos@));
            Some(calls)
        },
        None => None,
    };
    ChatMessage {
        role: if j.role.as_str().is_empty() {
            ROLE_ASSISTANT.to_owned()
        } else {
            j.role.clone()
        },
        content: j.content.clone(),
        reasoning_content: copy_opt(&j.reasoning_content),
        tool_call_id: copy_opt(&j.tool_call_id),
        tool_calls,
    }
}

} // verus!
