//! The agent loop: what to ask the model next, and what to do with its reply.
//!
//! The caller talks to the model, the tools and the journal; this module
//! decides what it says to them.
use vstd::prelude::*;
use vstd::string::*;

use crate::chat::{
    copy_call, copy_messages, journal_message_from, journals, lemma_messages_push, messages_view,
    plain_message, system_message, text_message, tool_message, tool_message_view, CallView,
    ChatMessage, MessageView, ToolCall, ROLE_SYSTEM, ROLE_USER,
};
use crate::history::History;
use crate::journal::{JournalEvent, JournalEventKind, PermissionRequestItem};
use crate::paths::{join, joined};
use crate::prompt::{handoff_instruction, HANDOFF_INSTRUCTION};
use crate::session::{Mode, Session};
use crate::text::{opt_text, same_text, trim, trimmed};
use crate::tools::permission::{
    ask_permission_batch, ask_refusal, copy_item, Preflight, REQUEST_ID,
};
use crate::tools::ToolContext;

verus! {

/// What the model is told of a call that left no result.
pub const NO_RESULT: &'static str = "[tool call failed to produce a result]";

/// What a session needs to run.
#[derive(Debug, Clone)]
pub struct AgentConfig {
    pub session: Session,
    pub workdir: String,
    pub data_dir: String,
    pub agents_dir: String,
    pub model_base_url: String,
    pub model_name: String,
    pub auth_token: Option<String>,
    /// The context window of the model in tokens; `None` is unlimited.
    pub context_window: Option<u64>,
    pub subagent_depth: u32,
    /// How many tool calls of one message run at once; at least one does.
    pub max_tool_concurrency: usize,
    /// The bits of the fraction of the context window at which the context is
    /// compressed.
    pub context_compression_threshold: u64,
}

/// The scratch directory of a session.
pub open spec fn scratch_path(data_dir: Seq<char>, id: Seq<char>) -> Seq<char> {
    joined(joined(joined(data_dir, "sessions"@), id), "tmp"@)
}

/// The scratch directory of a session.
pub fn scratch_dir(data_dir: &str, id: &str) -> (r: String)
    ensures
        r@ == scratch_path(data_dir@, id@),
{
    let sessions = join(data_dir, "sessions");
    let session = join(sessions.as_str(), id);
    join(session.as_str(), "tmp")
}

/// What the tools of a session need, with its scratch directory in place.
pub fn tool_context(config: AgentConfig, scratch: String) -> (r: ToolContext)
    ensures
        r.workdir == config.workdir,
        r.data_dir == config.data_dir,
        r.agents_dir == config.agents_dir,
        r.session == config.session,
        r.scratch == scratch,
        r.subagent_depth == config.subagent_depth,
        r.max_tool_concurrency == config.max_tool_concurrency,
        r.model_base_url == config.model_base_url,
        r.model_name == config.model_name,
        r.auth_token == config.auth_token,
        r.context_window == config.context_window,
        r.context_compression_threshold == config.context_compression_threshold,
{
    ToolContext {
        workdir: config.workdir,
        data_dir: config.data_dir,
        agents_dir: config.agents_dir,
        session: config.session,
        scratch,
        subagent_depth: config.subagent_depth,
        max_tool_concurrency: config.max_tool_concurrency,
        model_base_url: config.model_base_url,
        model_name: config.model_name,
        auth_token: config.auth_token,
        context_window: config.context_window,
        context_compression_threshold: config.context_compression_threshold,
    }
}

/// How many calls run at once: the setting, but at least one.
pub open spec fn at_once(max_tool_concurrency: usize) -> usize {
    if max_tool_concurrency > 1 {
        max_tool_concurrency
    } else {
        1
    }
}

/// How many calls run at once: the setting, but at least one.
pub fn concurrency(max_tool_concurrency: usize) -> (r: usize)
    ensures
        r == at_once(max_tool_concurrency),
{
    if max_tool_concurrency > 1 {
        max_tool_concurrency
    } else {
        1
    }
}

// ---------------------------------------------------------------------------
// Between two model calls
// ---------------------------------------------------------------------------

/// The loop between two model calls.
#[derive(Debug, Clone, PartialEq, Eq)]
pub struct AgentLoop {
    /// The model context, the system prompt first.
    pub messages: Vec<ChatMessage>,
    /// The context length of the last model call.
    pub last_usage: Option<u64>,
    /// A compression failed and is not tried again.
    pub compression_attempted: bool,
}

/// The next model call.
#[derive(Debug, Clone, Copy, PartialEq, Eq, Structural)]
pub enum Step {
    /// Ask for a handoff prompt.
    Compress,
    /// Ask for the next reply.
    Generate,
}

/// The context must be compressed first: there is a window, the last call
/// reached the threshold, and no attempt failed.
pub open spec fn compression_due(
    context_window: Option<u64>,
    last_usage: Option<u64>,
    over_threshold: bool,
    attempted: bool,
) -> bool {
    (context_window matches Some(w) && w > 0) && last_usage is Some && over_threshold && !attempted
}

/// The model context of a conversation: its system prompt, then its messages.
pub open spec fn opened(prompt: Seq<char>, messages: Seq<MessageView>) -> Seq<MessageView> {
    seq![plain_message(ROLE_SYSTEM@, prompt)] + messages
}

/// The event that journals a system prompt.
pub open spec fn is_prompt_event(
    kind: JournalEventKind,
    content: Seq<char>,
    mode: Mode,
    model: Seq<char>,
) -> bool {
    kind matches JournalEventKind::SystemPrompt { content: c, mode: m, model: n } && c@ == content
        && m == mode && n@ == model
}

/// How a conversation opens: with the journaled system prompt as it is, or with
/// `built`, which is then journaled, where there is none.
pub open spec fn opens(
    at: AgentLoop,
    event: Option<JournalEventKind>,
    history: History,
    built: Seq<char>,
    mode: Mode,
    model: Seq<char>,
) -> bool {
    &&& messages_view(at.messages@) == opened(
        match opt_text(history.system_prompt) {
            Some(prompt) => prompt,
            None => built,
        },
        messages_view(history.messages@),
    )
    &&& at.last_usage == history.last_prompt_tokens
    &&& !at.compression_attempted
    &&& match event {
        Some(kind) => history.system_prompt is None && is_prompt_event(kind, built, mode, model),
        None => history.system_prompt is Some,
    }
}

fn open_context(prompt: String, messages: Vec<ChatMessage>) -> (r: Vec<ChatMessage>)
    ensures
        messages_view(r@) == opened(prompt@, messages_view(messages@)),
{
    let mut messages = messages;
    let mut out: Vec<ChatMessage> = Vec::new();
    let ghost p = prompt@;
    out.push(system_message(prompt));
    let ghost rest = messages@;
    out.append(&mut messages);
    assert(messages_view(out@) =~= opened(p, messages_view(rest)));
    out
}

impl AgentLoop {
    /// Opens the conversation. The journaled system prompt is used as it is;
    /// only a session without one takes `built`, which is then journaled.
    pub fn start(history: History, built: String, mode: Mode, model: &str) -> (r: (
        AgentLoop,
        Option<JournalEventKind>,
    ))
        ensures
            opens(r.0, r.1, history, built@, mode, model@),
    {
        let History { system_prompt, messages, last_prompt_tokens } = history;
        let (prompt, event) = match system_prompt {
            Some(prompt) => (prompt, None),
            None => {
                let content = built.clone();
                (
                    built,
                    Some(
                        JournalEventKind::SystemPrompt { content, mode, model: model.to_owned() },
                    ),
                )
            },
        };
        (
            AgentLoop {
                messages: open_context(prompt, messages),
                last_usage: last_prompt_tokens,
                compression_attempted: false,
            },
            event,
        )
    }

    /// The next model call. `over_threshold` says whether the last context
    /// length reached the threshold of the window.
    pub fn next_step(&self, context_window: Option<u64>, over_threshold: bool) -> (r: Step)
        ensures
            r == (if compression_due(
                context_window,
                self.last_usage,
                over_threshold,
                self.compression_attempted,
            ) {
                Step::Compress
            } else {
                Step::Generate
            }),
    {
        match (context_window, self.last_usage) {
            (Some(w), Some(_)) => if w > 0 && over_threshold && !self.compression_attempted {
                Step::Compress
            } else {
                Step::Generate
            },
            _ => Step::Generate,
        }
    }

    /// The context of the call that asks for a handoff prompt.
    pub fn handoff_request(&self) -> (r: Vec<ChatMessage>)
        ensures
            messages_view(r@) == messages_view(self.messages@).push(
                plain_message(ROLE_USER@, HANDOFF_INSTRUCTION@),
            ),
    {
        let mut request = copy_messages(&self.messages);
        let m = text_message(ROLE_USER, handoff_instruction());
        proof {
            lemma_messages_push(request@, m);
        }
        request.push(m);
        request
    }

    /// The events of a compression: the handoff prompt, without the blanks
    /// around it, then the fresh system prompt.
    pub fn handoff_events(reply: &ChatMessage, new_system: String, mode: Mode, model: &str) -> (r: (
        JournalEventKind,
        JournalEventKind,
    ))
        ensures
            r.0 matches JournalEventKind::Handoff { content, mode: m } && content@ == trimmed(
                reply.content@,
            ) && m == mode,
            is_prompt_event(r.1, new_system@, mode, model@),
    {
        (
            JournalEventKind::Handoff { content: trim(reply.content.as_str()).to_owned(), mode },
            JournalEventKind::SystemPrompt { content: new_system, mode, model: model.to_owned() },
        )
    }

    /// Goes on with the compressed context, as the journal now gives it.
    pub fn resume_compressed(&mut self, history: History)
        requires
            history.system_prompt is Some,
        ensures
            messages_view(final(self).messages@) == opened(
                history.system_prompt->0@,
                messages_view(history.messages@),
            ),
            final(self).last_usage is None,
            !final(self).compression_attempted,
    {
        let History { system_prompt, messages, .. } = history;
        if let Some(prompt) = system_prompt {
            self.messages = open_context(prompt, messages);
        }
        self.last_usage = None;
        self.compression_attempted = false;
    }

    /// Goes on with the full context: the compression failed.
    pub fn handoff_failed(&mut self)
        ensures
            final(self).messages == old(self).messages,
            final(self).last_usage == old(self).last_usage,
            final(self).compression_attempted,
    {
        self.compression_attempted = true;
    }

    /// Takes in a reply. Returns the events to journal: the reported context
    /// length, where there is one, and the message.
    pub fn note_reply(
        &mut self,
        assistant: &ChatMessage,
        prompt_tokens: Option<u64>,
        context_window: Option<u64>,
    ) -> (r: Vec<JournalEventKind>)
        ensures
            final(self).messages == old(self).messages,
            final(self).compression_attempted == old(self).compression_attempted,
            final(self).last_usage == (if prompt_tokens is Some {
                prompt_tokens
            } else {
                old(self).last_usage
            }),
            match prompt_tokens {
                Some(n) => r@.len() == 2 && r@[0] == (JournalEventKind::ContextUsage {
                    tokens: n,
                    context_window,
                }) && (r@[1] matches JournalEventKind::Message(m) && journals(m, assistant@)),
                None => r@.len() == 1 && (r@[0] matches JournalEventKind::Message(m) && journals(
                    m,
                    assistant@,
                )),
            },
    {
        let mut events: Vec<JournalEventKind> = Vec::new();
        if let Some(tokens) = prompt_tokens {
            self.last_usage = Some(tokens);
            events.push(JournalEventKind::ContextUsage { tokens, context_window });
        }
        events.push(JournalEventKind::Message(journal_message_from(assistant)));
        events
    }
}

// ---------------------------------------------------------------------------
// A round of tool calls
// ---------------------------------------------------------------------------

/// The event that announces a call.
pub open spec fn is_start_event(kind: JournalEventKind, call: ToolCall) -> bool {
    kind matches JournalEventKind::ToolCallStart { id, name, arguments } && id@ == call.id@ && name@
        == call.name@ && arguments@ == call.arguments@
}

/// The events that announce the calls of a message, before any of them runs.
pub fn start_events(calls: &Vec<ToolCall>) -> (r: Vec<JournalEventKind>)
    ensures
        r@.len() == calls@.len(),
        forall|i: int| 0 <= i < calls@.len() ==> is_start_event(#[trigger] r@[i], calls@[i]),
{
    let mut events: Vec<JournalEventKind> = Vec::new();
    let mut i: usize = 0;
    while i < calls.len()
        invariant
            i <= calls.len(),
            events@.len() == i,
            forall|k: int| 0 <= k < i ==> is_start_event(#[trigger] events@[k], calls@[k]),
        decreases calls.len() - i,
    {
        let call = &calls[i];
        events.push(
            JournalEventKind::ToolCallStart {
                id: call.id.clone(),
                name: call.name.clone(),
                arguments: call.arguments.clone(),
            },
        );
        i = i + 1;
    }
    events
}

/// The held calls among the sorted-out ones, in order.
pub open spec fn held_items(preflights: Seq<Preflight>) -> Seq<PermissionRequestItem>
    decreases preflights.len(),
{
    if preflights.len() == 0 {
        Seq::empty()
    } else {
        let before = held_items(preflights.drop_last());
        match preflights.last() {
            Preflight::Permission(item) => before.push(item),
            Preflight::Run => before,
        }
    }
}

/// A call with this id is among the held ones.
pub open spec fn holds(items: Seq<PermissionRequestItem>, id: Seq<char>) -> bool {
    exists|i: int| 0 <= i < items.len() && (#[trigger] items[i]).call_id@ == id
}

/// The calls that run now: all of them, or all but the held ones.
pub open spec fn running(
    calls: Seq<ToolCall>,
    items: Seq<PermissionRequestItem>,
    hold: bool,
) -> Seq<ToolCall>
    decreases calls.len(),
{
    if calls.len() == 0 {
        Seq::empty()
    } else {
        let before = running(calls.drop_last(), items, hold);
        if hold && holds(items, calls.last().id@) {
            before
        } else {
            before.push(calls.last())
        }
    }
}

/// What happens to the calls of a message.
#[derive(Debug, Clone, PartialEq, Eq)]
pub struct CallPlan {
    /// The permission request to journal before the calls run.
    pub request: Option<JournalEventKind>,
    /// The calls that run now.
    pub to_run: Vec<ToolCall>,
    /// The run ends after them: the user must decide first.
    pub hold: bool,
}

fn collect_held(preflights: &Vec<Preflight>) -> (r: Vec<PermissionRequestItem>)
    ensures
        r@ == held_items(preflights@),
{
    let mut items: Vec<PermissionRequestItem> = Vec::new();
    let mut i: usize = 0;
    assert(preflights@.take(0).len() == 0);
    while i < preflights.len()
        invariant
            i <= preflights.len(),
            items@ == held_items(preflights@.take(i as int)),
        decreases preflights.len() - i,
    {
        assert(preflights@.take(i + 1).drop_last() =~= preflights@.take(i as int));
        assert(preflights@.take(i + 1).last() == preflights@[i as int]);
        if let Preflight::Permission(item) = &preflights[i] {
            items.push(copy_item(item));
        }
        i = i + 1;
    }
    assert(preflights@.take(i as int) =~= preflights@);
    items
}

fn is_held(items: &Vec<PermissionRequestItem>, id: &str) -> (r: bool)
    ensures
        r == holds(items@, id@),
{
    let mut i: usize = 0;
    while i < items.len()
        invariant
            i <= items.len(),
            forall|k: int| 0 <= k < i ==> (#[trigger] items@[k]).call_id@ != id@,
        decreases items.len() - i,
    {
        if same_text(items[i].call_id.as_str(), id) {
            return true;
        }
        i = i + 1;
    }
    false
}

/// Plans the calls of a message. The calls that need the user's decision go
/// out as one permission request, and the others still run; where the user
/// cannot be asked, all of them run and the refusals surface as results.
pub fn plan_calls(
    ctx: &ToolContext,
    calls: &Vec<ToolCall>,
    preflights: &Vec<Preflight>,
    events: &Result<Vec<JournalEvent>, String>,
) -> (r: CallPlan)
    ensures
        r.hold == (held_items(preflights@).len() > 0 && ask_refusal(*ctx, *events) is None),
        r.to_run@ == running(calls@, held_items(preflights@), r.hold),
        match r.request {
            Some(kind) => r.hold && (kind matches JournalEventKind::PermissionRequest {
                request_id,
                tool,
                operation,
                path,
                items,
            } && request_id@ == REQUEST_ID@ && tool is None && operation is None && path is None
                && items@ == held_items(preflights@)),
            None => !r.hold,
        },
{
    let items = collect_held(preflights);
    let request = if items.len() == 0 {
        None
    } else {
        match ask_permission_batch(ctx, &items, events) {
            Ok(kind) => Some(kind),
            Err(_) => None,
        }
    };
    let hold = request.is_some();
    let mut to_run: Vec<ToolCall> = Vec::new();
    let mut i: usize = 0;
    assert(calls@.take(0).len() == 0);
    while i < calls.len()
        invariant
            i <= calls.len(),
            items@ == held_items(preflights@),
            to_run@ == running(calls@.take(i as int), items@, hold),
        decreases calls.len() - i,
    {
        assert(calls@.take(i + 1).drop_last() =~= calls@.take(i as int));
        assert(calls@.take(i + 1).last() == calls@[i as int]);
        if !(hold && is_held(&items, calls[i].id.as_str())) {
            to_run.push(copy_call(&calls[i]));
        }
        i = i + 1;
    }
    assert(calls@.take(i as int) =~= calls@);
    CallPlan { request, to_run, hold }
}

/// The event that journals the outcome of a call.
pub open spec fn is_result_event(
    kind: JournalEventKind,
    id: Seq<char>,
    name: Seq<char>,
    outcome: Result<String, String>,
) -> bool {
    kind matches JournalEventKind::ToolResult { id: i, name: n, ok, output } && i@ == id && n@
        == name && match outcome {
        Ok(text) => ok && output@ == text@,
        Err(text) => !ok && output@ == text@,
    }
}

/// The event that journals the outcome of a call.
pub fn result_event(id: &str, name: &str, outcome: &Result<String, String>) -> (r: JournalEventKind)
    ensures
        is_result_event(r, id@, name@, *outcome),
{
    let (ok, output) = match outcome {
        Ok(text) => (true, text.clone()),
        Err(text) => (false, text.clone()),
    };
    JournalEventKind::ToolResult { id: id.to_owned(), name: name.to_owned(), ok, output }
}

/// The output of the call `id`: the last one that came in.
pub open spec fn output_for(results: Seq<(String, String)>, id: Seq<char>) -> Seq<char>
    decreases results.len(),
{
    if results.len() == 0 {
        NO_RESULT@
    } else if results.last().0@ == id {
        results.last().1@
    } else {
        output_for(results.drop_last(), id)
    }
}

/// The messages that answer the calls, in call order.
pub open spec fn answers(calls: Seq<CallView>, results: Seq<(String, String)>) -> Seq<MessageView> {
    calls.map_values(|c: CallView| tool_message_view(c.id, output_for(results, c.id)))
}

fn find_output(results: &Vec<(String, String)>, id: &str) -> (r: String)
    ensures
        r@ == output_for(results@, id@),
{
    let mut i: usize = results.len();
    assert(results@.take(i as int) =~= results@);
    while i > 0
        invariant
            i <= results.len(),
            output_for(results@, id@) == output_for(results@.take(i as int), id@),
        decreases i,
    {
        assert(results@.take(i as int).last() == results@[i - 1]);
        assert(results@.take(i as int).drop_last() =~= results@.take(i - 1));
        if same_text(results[i - 1].0.as_str(), id) {
            return results[i - 1].1.clone();
        }
        i = i - 1;
    }
    NO_RESULT.to_owned()
}

/// The messages that answer the calls: in call order, whatever the order in
/// which the results came in.
pub fn tool_messages(calls: &Vec<ToolCall>, results: &Vec<(String, String)>) -> (r: Vec<ChatMessage>)
    ensures
        messages_view(r@) == answers(crate::chat::calls_view(calls@), results@),
{
    let mut out: Vec<ChatMessage> = Vec::new();
    let mut i: usize = 0;
    while i < calls.len()
        invariant
            i <= calls.len(),
            out@.len() == i,
            forall|k: int|
                0 <= k < i ==> (#[trigger] out@[k])@ == tool_message_view(
                    calls@[k].id@,
                    output_for(results@, calls@[k].id@),
                ),
        decreases calls.len() - i,
    {
        let output = find_output(results, calls[i].id.as_str());
        out.push(tool_message(calls[i].id.clone(), output));
        i = i + 1;
    }
    assert(messages_view(out@) =~= answers(crate::chat::calls_view(calls@), results@));
    out
}

/// The context after a round: the reply, then the answers to its calls.
pub open spec fn after_round(
    messages: Seq<MessageView>,
    assistant: MessageView,
    results: Seq<(String, String)>,
) -> Seq<MessageView> {
    messages.push(assistant) + (match assistant.calls {
        Some(calls) => answers(calls, results),
        None => Seq::empty(),
    })
}

impl AgentLoop {
    /// Takes a reply and the results of its calls into the context.
    pub fn finish_round(&mut self, assistant: ChatMessage, results: &Vec<(String, String)>)
        ensures
            messages_view(final(self).messages@) == after_round(
                messages_view(old(self).messages@),
                assistant@,
                results@,
            ),
            final(self).last_usage == old(self).last_usage,
            final(self).compression_attempted == old(self).compression_attempted,
    {
        let mut answered = match &assistant.tool_calls {
            Some(calls) => tool_messages(calls, results),
            None => {
                let none: Vec<ChatMessage> = Vec::new();
                assert(messages_view(none@) =~= Seq::<MessageView>::empty());
                none
            },
        };
        proof {
            lemma_messages_push(self.messages@, assistant);
        }
        self.messages.push(assistant);
        let ghost with_reply = self.messages@;
        let ghost tail = answered@;
        self.messages.append(&mut answered);
        assert(messages_view(self.messages@) =~= messages_view(with_reply) + messages_view(tail));
    }
}

// ---------------------------------------------------------------------------
// Held calls of an earlier run
// ---------------------------------------------------------------------------

/// The last batched answer: its place, and the request it resolves.
pub open spec fn last_batch_answer(events: Seq<JournalEvent>) -> Option<(u64, Seq<char>)>
    decreases events.len(),
{
    if events.len() == 0 {
        None
    } else {
        match events.last().kind {
            JournalEventKind::PermissionAnswered { request_id, decisions, .. } if decisions@.len()
                > 0 => Some((events.last().seq, request_id@)),
            _ => last_batch_answer(events.drop_last()),
        }
    }
}

/// The items of the last batched request `id` before the place `before`.
pub open spec fn requested_items(
    events: Seq<JournalEvent>,
    id: Seq<char>,
    before: u64,
) -> Option<Seq<PermissionRequestItem>>
    decreases events.len(),
{
    if events.len() == 0 {
        None
    } else {
        match events.last().kind {
            JournalEventKind::PermissionRequest { request_id, items, .. } if request_id@ == id
                && items@.len() > 0 && events.last().seq < before => Some(items@),
            _ => requested_items(events.drop_last(), id, before),
        }
    }
}

/// The event is a result of the call `id` behind the place `after`.
pub open spec fn is_later_result(event: JournalEvent, id: Seq<char>, after: u64) -> bool {
    (event.kind matches JournalEventKind::ToolResult { id: i, .. } && i@ == id) && event.seq > after
}

/// The call `id` has a result behind the place `after`.
pub open spec fn completed(events: Seq<JournalEvent>, id: Seq<char>, after: u64) -> bool {
    exists|i: int| 0 <= i < events.len() && is_later_result(#[trigger] events[i], id, after)
}

/// The items without a result behind the place `after`, in order.
pub open spec fn unfinished(
    items: Seq<PermissionRequestItem>,
    events: Seq<JournalEvent>,
    after: u64,
) -> Seq<PermissionRequestItem>
    decreases items.len(),
{
    if items.len() == 0 {
        Seq::empty()
    } else {
        let before = unfinished(items.drop_last(), events, after);
        if completed(events, items.last().call_id@, after) {
            before
        } else {
            before.push(items.last())
        }
    }
}

/// The held calls that the last batched answer left to run.
pub open spec fn resumable(events: Seq<JournalEvent>) -> Seq<PermissionRequestItem> {
    match last_batch_answer(events) {
        None => Seq::empty(),
        Some((seq, id)) => match requested_items(events, id, seq) {
            None => Seq::empty(),
            Some(items) => unfinished(items, events, seq),
        },
    }
}

fn find_batch_answer(events: &Vec<JournalEvent>) -> (r: Option<(u64, String)>)
    ensures
        match r {
            Some((seq, id)) => last_batch_answer(events@) == Some((seq, id@)),
            None => last_batch_answer(events@) is None,
        },
{
    let mut i: usize = events.len();
    assert(events@.take(i as int) =~= events@);
    while i > 0
        invariant
            i <= events.len(),
            last_batch_answer(events@) == last_batch_answer(events@.take(i as int)),
        decreases i,
    {
        assert(events@.take(i as int).last() == events@[i - 1]);
        assert(events@.take(i as int).drop_last() =~= events@.take(i - 1));
        if let JournalEventKind::PermissionAnswered { request_id, decisions, .. } = &events[i
            - 1].kind {
            if decisions.len() > 0 {
                return Some((events[i - 1].seq, request_id.clone()));
            }
        }
        i = i - 1;
    }
    None
}

fn find_requested_items(events: &Vec<JournalEvent>, id: &str, before: u64) -> (r: Option<
    Vec<PermissionRequestItem>,
>)
    ensures
        match r {
            Some(items) => requested_items(events@, id@, before) == Some(items@),
            None => requested_items(events@, id@, before) is None,
        },
{
    let mut i: usize = events.len();
    assert(events@.take(i as int) =~= events@);
    while i > 0
        invariant
            i <= events.len(),
            requested_items(events@, id@, before) == requested_items(
                events@.take(i as int),
                id@,
                before,
            ),
        decreases i,
    {
        assert(events@.take(i as int).last() == events@[i - 1]);
        assert(events@.take(i as int).drop_last() =~= events@.take(i - 1));
        if let JournalEventKind::PermissionRequest { request_id, items, .. } = &events[i - 1].kind {
            if same_text(request_id.as_str(), id) && items.len() > 0 && events[i - 1].seq
                < before {
                return Some(crate::tools::permission::copy_items(items));
            }
        }
        i = i - 1;
    }
    None
}

fn has_result(events: &Vec<JournalEvent>, id: &str, after: u64) -> (r: bool)
    ensures
        r == completed(events@, id@, after),
{
    let mut i: usize = 0;
    while i < events.len()
        invariant
            i <= events.len(),
            forall|k: int| 0 <= k < i ==> !is_later_result(#[trigger] events@[k], id@, after),
        decreases events.len() - i,
    {
        if let JournalEventKind::ToolResult { id: other, .. } = &events[i].kind {
            if same_text(other.as_str(), id) && events[i].seq > after {
                assert(is_later_result(events@[i as int], id@, after));
                return true;
            }
        }
        i = i + 1;
    }
    false
}

/// The held calls of an answered permission request that still have to run:
/// their results are journaled before the conversation is rebuilt. A session
/// without a batched answer has none.
pub fn held_calls_to_resume(events: &Vec<JournalEvent>) -> (r: Vec<PermissionRequestItem>)
    ensures
        r@ == resumable(events@),
{
    let mut out: Vec<PermissionRequestItem> = Vec::new();
    let (seq, id) = match find_batch_answer(events) {
        Some(found) => found,
        None => {
            return out;
        },
    };
    let items = match find_requested_items(events, id.as_str(), seq) {
        Some(items) => items,
        None => {
            return out;
        },
    };
    let mut i: usize = 0;
    assert(items@.take(0).len() == 0);
    while i < items.len()
        invariant
            i <= items.len(),
            out@ == unfinished(items@.take(i as int), events@, seq),
        decreases items.len() - i,
    {
        assert(items@.take(i + 1).drop_last() =~= items@.take(i as int));
        assert(items@.take(i + 1).last() == items@[i as int]);
        if !has_result(events, items[i].call_id.as_str(), seq) {
            out.push(copy_item(&items[i]));
        }
        i = i + 1;
    }
    assert(items@.take(i as int) =~= items@);
    out
}

} // verus!
