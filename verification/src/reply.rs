//! The assembly of a streamed model reply.
use nah_chat::{
    ChatResponseChunkDelta, FunctionCallRequest, FunctionCallRequestChunkDelta, ToolCallRequest,
    ToolCallRequestChunkDelta,
};
use vstd::prelude::*;
use vstd::string::*;

use crate::chat::{calls_view, CallView, ChatMessage, MessageView, ToolCall, ROLE_ASSISTANT};
use crate::journal::JournalEventKind;
use crate::text::opt_text;

verus! {

/// The error for a reply without text and without tool calls.
pub const EMPTY_RESPONSE: &'static str = "model returned an empty response";

/// The largest place of a tool call in a reply: the list of calls up to it
/// still fits in memory addresses.
pub const MAX_CALL_INDEX: usize = usize::MAX / 512;

/// A fragment of one tool call.
#[derive(Debug, Clone, PartialEq, Eq)]
pub struct CallDelta {
    pub index: usize,
    pub id: Option<String>,
    pub kind: Option<String>,
    pub name: Option<String>,
    pub arguments: Option<String>,
}

/// A fragment of a reply.
#[derive(Debug, Clone, PartialEq, Eq)]
pub struct ReplyDelta {
    pub role: Option<String>,
    pub content: Option<String>,
    pub reasoning_content: Option<String>,
    pub tool_calls: Option<Vec<CallDelta>>,
}

// ---------------------------------------------------------------------------
// What a fragment does to a message
// ---------------------------------------------------------------------------

/// A text with what is streamed behind it.
pub open spec fn extended(text: Seq<char>, more: Option<Seq<char>>) -> Seq<char> {
    match more {
        Some(m) => text + m,
        None => text,
    }
}

/// A server-assigned value: the latest one that is not empty.
pub open spec fn newest(value: Seq<char>, next: Option<Seq<char>>) -> Seq<char> {
    match next {
        Some(n) => if n.len() > 0 {
            n
        } else {
            value
        },
        None => value,
    }
}

/// A call of which nothing is known yet.
pub open spec fn blank_call() -> CallView {
    CallView {
        id: Seq::empty(),
        kind: Seq::empty(),
        name: Seq::empty(),
        arguments: Seq::empty(),
    }
}

/// The calls, with blank ones behind them up to the length `n`.
pub open spec fn padded(calls: Seq<CallView>, n: int) -> Seq<CallView> {
    if calls.len() >= n {
        calls
    } else {
        Seq::new(
            n as nat,
            |i: int|
                if i < calls.len() {
                    calls[i]
                } else {
                    blank_call()
                },
        )
    }
}

/// The calls after one fragment: the call at its place takes a new id and
/// kind, and its name and arguments grow.
pub open spec fn call_applied(
    calls: Seq<CallView>,
    index: int,
    id: Option<Seq<char>>,
    kind: Option<Seq<char>>,
    name: Option<Seq<char>>,
    arguments: Option<Seq<char>>,
) -> Seq<CallView> {
    let all = padded(calls, index + 1);
    let call = all[index];
    all.update(
        index,
        CallView {
            id: newest(call.id, id),
            kind: newest(call.kind, kind),
            name: extended(call.name, name),
            arguments: extended(call.arguments, arguments),
        },
    )
}

/// The calls after a list of fragments.
pub open spec fn calls_applied(calls: Seq<CallView>, deltas: Seq<CallDelta>) -> Seq<CallView>
    decreases deltas.len(),
{
    if deltas.len() == 0 {
        calls
    } else {
        let d = deltas.last();
        call_applied(
            calls_applied(calls, deltas.drop_last()),
            d.index as int,
            opt_text(d.id),
            opt_text(d.kind),
            opt_text(d.name),
            opt_text(d.arguments),
        )
    }
}

/// The message with the texts of a fragment: its role is replaced, its
/// content and reasoning grow.
pub open spec fn text_applied(
    m: MessageView,
    role: Option<Seq<char>>,
    content: Option<Seq<char>>,
    reasoning: Option<Seq<char>>,
) -> MessageView {
    MessageView {
        role: match role {
            Some(r) => r,
            None => m.role,
        },
        content: extended(m.content, content),
        reasoning: match reasoning {
            Some(r) => match m.reasoning {
                Some(before) => Some(before + r),
                None => Some(r),
            },
            None => m.reasoning,
        },
        call_id: m.call_id,
        calls: m.calls,
    }
}

/// The message after a fragment.
pub open spec fn delta_applied(m: MessageView, d: ReplyDelta) -> MessageView {
    let t = text_applied(m, opt_text(d.role), opt_text(d.content), opt_text(d.reasoning_content));
    MessageView {
        calls: match d.tool_calls {
            Some(deltas) => Some(
                calls_applied(
                    match t.calls {
                        Some(calls) => calls,
                        None => Seq::empty(),
                    },
                    deltas@,
                ),
            ),
            None => t.calls,
        },
        ..t
    }
}

/// The message after a list of fragments.
pub open spec fn deltas_applied(m: MessageView, ds: Seq<ReplyDelta>) -> MessageView
    decreases ds.len(),
{
    if ds.len() == 0 {
        m
    } else {
        delta_applied(deltas_applied(m, ds.drop_last()), ds.last())
    }
}

/// The places of a fragment's calls are within the limit.
pub open spec fn indices_fit(d: ReplyDelta) -> bool {
    d.tool_calls matches Some(deltas) ==> forall|i: int|
        0 <= i < deltas@.len() ==> (#[trigger] deltas@[i]).index <= MAX_CALL_INDEX
}

/// The text of a fragment, or none.
pub open spec fn text_or_empty(text: Option<Seq<char>>) -> Seq<char> {
    match text {
        Some(t) => t,
        None => Seq::empty(),
    }
}

/// The visible text and the reasoning that a fragment adds to the journal;
/// `None` where it carries neither.
pub open spec fn delta_texts(d: ReplyDelta) -> Option<(Seq<char>, Option<Seq<char>>)> {
    let content = text_or_empty(opt_text(d.content));
    let reasoning = match opt_text(d.reasoning_content) {
        Some(r) => if r.len() > 0 {
            Some(r)
        } else {
            None
        },
        None => None,
    };
    if content.len() > 0 || reasoning is Some {
        Some((content, reasoning))
    } else {
        None
    }
}

/// The visible texts that a list of fragments adds to the journal, in order.
pub open spec fn journaled_content(ds: Seq<ReplyDelta>) -> Seq<char>
    decreases ds.len(),
{
    if ds.len() == 0 {
        Seq::empty()
    } else {
        journaled_content(ds.drop_last()) + (match delta_texts(ds.last()) {
            Some((content, _)) => content,
            None => Seq::empty(),
        })
    }
}

/// The reasoning that a list of fragments adds to the journal, in order.
pub open spec fn journaled_reasoning(ds: Seq<ReplyDelta>) -> Seq<char>
    decreases ds.len(),
{
    if ds.len() == 0 {
        Seq::empty()
    } else {
        journaled_reasoning(ds.drop_last()) + (match delta_texts(ds.last()) {
            Some((_, reasoning)) => text_or_empty(reasoning),
            None => Seq::empty(),
        })
    }
}

/// The journaled fragments, put together, are the content and the reasoning
/// of the assembled message.
pub proof fn law_journaled_deltas_make_the_message(m: MessageView, ds: Seq<ReplyDelta>)
    ensures
        deltas_applied(m, ds).content == m.content + journaled_content(ds),
        text_or_empty(deltas_applied(m, ds).reasoning) == text_or_empty(m.reasoning)
            + journaled_reasoning(ds),
    decreases ds.len(),
{
    if ds.len() == 0 {
        assert(m.content + journaled_content(ds) =~= m.content);
        assert(text_or_empty(m.reasoning) + journaled_reasoning(ds) =~= text_or_empty(m.reasoning));
    } else {
        let d = ds.last();
        law_journaled_deltas_make_the_message(m, ds.drop_last());
        assert(deltas_applied(m, ds).content =~= m.content + journaled_content(ds));
        assert(text_or_empty(deltas_applied(m, ds).reasoning) =~= text_or_empty(m.reasoning)
            + journaled_reasoning(ds));
    }
}

// ---------------------------------------------------------------------------
// The outside calls
// ---------------------------------------------------------------------------

/// Calls `nah_chat::ChatMessage::apply_model_response_chunk` with the texts
/// of a fragment. Taken on trust: a role replaces the role, a content text is
/// appended to the content, a reasoning text is appended to the reasoning or
/// begins it, and what is absent changes nothing.
#[verifier::external_body]
fn apply_text_delta(
    message: &mut ChatMessage,
    role: Option<String>,
    content: Option<String>,
    reasoning_content: Option<String>,
)
    ensures
        final(message)@ == text_applied(
            old(message)@,
            opt_text(role),
            opt_text(content),
            opt_text(reasoning_content),
        ),
{
    let mut m = nah_chat::ChatMessage::new();
    m.role = message.role.clone();
    m.content = nah_chat::ChatMessageContentValue::Text(message.content.clone());
    m.reasoning_content = message.reasoning_content.clone();
    m.apply_model_response_chunk(
        ChatResponseChunkDelta { role, content, reasoning_content, tool_calls: None },
    );
    message.role = m.role;
    message.content = m.content.to_string();
    message.reasoning_content = m.reasoning_content;
}

/// Calls `nah_chat::ChatMessage::apply_model_response_chunk` with one
/// fragment of a tool call. Taken on trust: the list is padded with blank
/// calls up to the fragment's place, a non-empty id or kind replaces the one
/// there, a name or arguments text is appended, and every other call stays.
#[verifier::external_body]
fn apply_call_delta(
    calls: Vec<ToolCall>,
    index: usize,
    id: Option<String>,
    kind: Option<String>,
    name: Option<String>,
    arguments: Option<String>,
) -> (r: Vec<ToolCall>)
    requires
        index <= MAX_CALL_INDEX,
    ensures
        calls_view(r@) == call_applied(
            calls_view(calls@),
            index as int,
            opt_text(id),
            opt_text(kind),
            opt_text(name),
            opt_text(arguments),
        ),
{
    let mut m = nah_chat::ChatMessage::new();
    m.tool_calls = Some(calls.into_iter().map(|c| ToolCallRequest { id: c.id, _type: c.kind,
        function: FunctionCallRequest { name: c.name, arguments: c.arguments } }).collect());
    let function = Some(FunctionCallRequestChunkDelta { name, arguments });
    let call = ToolCallRequestChunkDelta { index, id, _type: kind, function };
    m.apply_model_response_chunk(ChatResponseChunkDelta { role: None, content: None,
        reasoning_content: None, tool_calls: Some(vec![call]) });
    m.tool_calls.unwrap_or_default().into_iter().map(|c| ToolCall { id: c.id, kind: c._type,
        name: c.function.name, arguments: c.function.arguments }).collect()
}

// ---------------------------------------------------------------------------
// The assembly
// ---------------------------------------------------------------------------

/// A reply while it streams in.
#[derive(Debug, Clone, PartialEq, Eq)]
pub struct Reply {
    pub message: ChatMessage,
    /// The context length that the server reported for the call.
    pub prompt_tokens: Option<u64>,
}

/// The message before anything arrived.
pub open spec fn empty_message() -> MessageView {
    MessageView {
        role: Seq::empty(),
        content: Seq::empty(),
        reasoning: None,
        call_id: None,
        calls: None,
    }
}

/// A reply without text and without tool calls.
pub open spec fn says_nothing(m: MessageView) -> bool {
    m.content.len() == 0 && m.calls is None
}

/// The message with the assistant's role where none was sent.
pub open spec fn with_role(m: MessageView) -> MessageView {
    MessageView {
        role: if m.role.len() == 0 {
            ROLE_ASSISTANT@
        } else {
            m.role
        },
        ..m
    }
}

/// The calls after a list of fragments, applied in order.
fn apply_call_deltas(calls: Vec<ToolCall>, deltas: &Vec<CallDelta>) -> (r: Vec<ToolCall>)
    requires
        forall|i: int| 0 <= i < deltas@.len() ==> (#[trigger] deltas@[i]).index <= MAX_CALL_INDEX,
    ensures
        calls_view(r@) == calls_applied(calls_view(calls@), deltas@),
{
    let ghost before = calls_view(calls@);
    let mut out = calls;
    let mut i: usize = 0;
    assert(deltas@.take(0).len() == 0);
    while i < deltas.len()
        invariant
            i <= deltas.len(),
            forall|k: int|
                0 <= k < deltas@.len() ==> (#[trigger] deltas@[k]).index <= MAX_CALL_INDEX,
            calls_view(out@) == calls_applied(before, deltas@.take(i as int)),
        decreases deltas.len() - i,
    {
        let d = &deltas[i];
        out = apply_call_delta(
            out,
            d.index,
            crate::chat::copy_opt(&d.id),
            crate::chat::copy_opt(&d.kind),
            crate::chat::copy_opt(&d.name),
            crate::chat::copy_opt(&d.arguments),
        );
        assert(deltas@.take(i + 1).drop_last() =~= deltas@.take(i as int));
        assert(deltas@.take(i + 1).last() == deltas@[i as int]);
        i = i + 1;
    }
    assert(deltas@.take(i as int) =~= deltas@);
    out
}

impl Reply {
    /// A reply of which nothing has arrived.
    pub fn new() -> (r: Reply)
        ensures
            r.message@ == empty_message(),
            r.prompt_tokens is None,
    {
        let message = ChatMessage {
            role: String::new(),
            content: String::new(),
            reasoning_content: None,
            tool_call_id: None,
            tool_calls: None,
        };
        assert(message@ =~= empty_message());
        Reply { message, prompt_tokens: None }
    }

    /// Takes in one fragment. Returns the `MessageDelta` to journal, where
    /// fragments are journaled and this one carries text or reasoning.
    pub fn on_delta(&mut self, delta: ReplyDelta, journal_deltas: bool) -> (r: Option<
        JournalEventKind,
    >)
        requires
            indices_fit(delta),
        ensures
            final(self).message@ == delta_applied(old(self).message@, delta),
            final(self).prompt_tokens == old(self).prompt_tokens,
            match r {
                Some(JournalEventKind::MessageDelta { content, reasoning_content }) => journal_deltas
                    && delta_texts(delta) == Some((content@, opt_text(reasoning_content))),
                Some(_) => false,
                None => !journal_deltas || delta_texts(delta) is None,
            },
    {
        let content = match &delta.content {
            Some(c) => c.clone(),
            None => String::new(),
        };
        let reasoning_content = match &delta.reasoning_content {
            Some(t) => if t.as_str().is_empty() {
                None
            } else {
                Some(t.clone())
            },
            None => None,
        };
        let event = if journal_deltas && (!content.as_str().is_empty()
            || reasoning_content.is_some()) {
            Some(JournalEventKind::MessageDelta { content, reasoning_content })
        } else {
            None
        };
        let ReplyDelta { role, content, reasoning_content, tool_calls } = delta;
        apply_text_delta(&mut self.message, role, content, reasoning_content);
        if let Some(deltas) = tool_calls {
            let calls = match self.message.tool_calls.take() {
                Some(calls) => calls,
                None => {
                    let none: Vec<ToolCall> = Vec::new();
                    assert(calls_view(none@) =~= Seq::<CallView>::empty());
                    none
                },
            };
            self.message.tool_calls = Some(apply_call_deltas(calls, &deltas));
        }
        event
    }

    /// Takes in the reported usage; the last report counts.
    pub fn on_usage(&mut self, prompt_tokens: Option<u64>)
        ensures
            final(self).message == old(self).message,
            final(self).prompt_tokens == prompt_tokens,
    {
        self.prompt_tokens = prompt_tokens;
    }

    /// The assembled message and its reported context length; an error where
    /// the model sent neither text nor tool calls.
    pub fn finish(self) -> (r: Result<(ChatMessage, Option<u64>), String>)
        ensures
            match r {
                Ok((message, tokens)) => !says_nothing(self.message@) && message@ == with_role(
                    self.message@,
                ) && tokens == self.prompt_tokens,
                Err(e) => says_nothing(self.message@) && e@ == EMPTY_RESPONSE@,
            },
    {
        let Reply { message, prompt_tokens } = self;
        let mut message = message;
        if message.role.as_str().is_empty() {
            message.role = ROLE_ASSISTANT.to_owned();
        }
        if message.content.as_str().is_empty() && message.tool_calls.is_none() {
            return Err(EMPTY_RESPONSE.to_owned());
        }
        Ok((message, prompt_tokens))
    }
}

// ---------------------------------------------------------------------------
// Retries
// ---------------------------------------------------------------------------

/// The pause before the next try after the try number `attempt` (from 0)
/// failed; `None` after the third one.
pub open spec fn retry_pause(attempt: int) -> Option<u64> {
    if attempt == 0 {
        Some(5)
    } else if attempt == 1 {
        Some(15)
    } else {
        None
    }
}

/// The seconds to wait before the next try after the try number `attempt`
/// (from 0) failed; `None` when the failure is final.
pub fn retry_delay(attempt: usize) -> (r: Option<u64>)
    ensures
        r == retry_pause(attempt as int),
{
    if attempt == 0 {
        Some(5)
    } else if attempt == 1 {
        Some(15)
    } else {
        None
    }
}

} // verus!
