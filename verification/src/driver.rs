//! The run of a session, as a machine that takes events and gives orders.
//!
//! The caller appends what a turn journals, carries out its order, and hands
//! back the event that came of it, until the machine says to stop.
use vstd::prelude::*;
use vstd::string::*;

use crate::agent::{
    after_round, compression_due, held_items, is_prompt_event, is_start_event, opened, opens,
    plan_calls, running, start_events, AgentLoop, Step,
};
use crate::agent_laws::{
    all_answered, law_opened_context_is_answered, law_round_leaves_calls_answered,
};
use crate::chat::{
    copy_calls, copy_messages, journals, messages_view, plain_message, ChatMessage, ToolCall,
    ROLE_SYSTEM, ROLE_USER,
};
use crate::history::{boundary, context_messages, context_prompt, rebuilt, History};
use crate::history_laws::law_handoff_starts_afresh;
use crate::journal::{JournalEvent, JournalEventKind};
use crate::prompt::{HANDOFF_INSTRUCTION, HANDOFF_USER_PREFIX};
use crate::session::Mode;
use crate::text::{cat2, opt_text, trimmed};
use crate::tools::permission::{ask_refusal, Preflight, REQUEST_ID};
use crate::tools::ToolContext;

verus! {

/// The failure of a model call.
pub const GENERATION_FAILED: &'static str = "LLM generation failed after retries: ";

/// What the machine waits for.
#[derive(Debug, Clone, PartialEq, Eq)]
pub enum Phase {
    /// The handoff prompt of the model.
    Handoff,
    /// The context rebuilt behind the handoff.
    Rebuild,
    /// The next reply of the model.
    Reply,
    /// What the policy says of the calls of this reply.
    Calls(ChatMessage),
    /// The results of the calls that run. With `hold` the run ends behind
    /// them: the user must decide on the others first.
    Results { assistant: ChatMessage, hold: bool },
    /// Nothing: the run is over.
    Done,
}

/// What came of an order.
#[derive(Debug)]
pub enum RunEvent {
    /// The model wrote a handoff prompt; `new_system` is the system prompt of
    /// the compressed context.
    HandoffWritten { reply: ChatMessage, new_system: String },
    /// The model wrote none.
    HandoffFailed,
    /// The context, rebuilt from the journal.
    Rebuilt { history: History },
    /// A reply and the context length reported for it.
    Replied { message: ChatMessage, prompt_tokens: Option<u64> },
    /// No reply, and why.
    ReplyFailed { error: String },
    /// What the policy says of each call, and the journal.
    Preflighted { preflights: Vec<Preflight>, events: Result<Vec<JournalEvent>, String> },
    /// The outputs by call id, as they came in. `over_threshold` says whether
    /// the last context length reached the threshold of the window.
    Ran { results: Vec<(String, String)>, over_threshold: bool },
}

/// What to do next.
#[derive(Debug, Clone, PartialEq, Eq)]
pub enum Order {
    /// Ask the model for a handoff prompt: these messages, no tools, and
    /// nothing of the stream in the journal.
    WriteHandoff(Vec<ChatMessage>),
    /// Rebuild the context from the journal.
    Rebuild,
    /// Ask the model for the next reply: these messages, with the tools, and
    /// the stream in the journal.
    Generate(Vec<ChatMessage>),
    /// Sort these calls out by the policy.
    Preflight(Vec<ToolCall>),
    /// Run these calls, and journal each result as it comes in.
    Run(Vec<ToolCall>),
    /// Stop: the run is complete.
    Stop,
    /// Stop: the run failed.
    Fail(String),
}

/// A turn of the machine: what to journal, and then what to do.
#[derive(Debug, Clone, PartialEq, Eq)]
pub struct Turn {
    pub journal: Vec<JournalEventKind>,
    pub order: Order,
}

/// A session while it runs.
#[derive(Debug, Clone, PartialEq, Eq)]
pub struct AgentRun {
    pub at: AgentLoop,
    pub phase: Phase,
}

/// The machine waits for this event. Behind a handoff the journal holds a system
/// prompt: the machine had it written.
pub open spec fn expects(phase: Phase, event: RunEvent) -> bool {
    match phase {
        Phase::Handoff => event is HandoffWritten || event is HandoffFailed,
        Phase::Rebuild => event matches RunEvent::Rebuilt { history } && history.system_prompt is Some,
        Phase::Reply => event is Replied || event is ReplyFailed,
        Phase::Calls(_) => event is Preflighted,
        Phase::Results { .. } => event is Ran,
        Phase::Done => false,
    }
}

/// The order to ask for a handoff prompt in this context.
pub open spec fn orders_handoff(order: Order, at: AgentLoop) -> bool {
    order matches Order::WriteHandoff(messages) && messages_view(messages@) == messages_view(
        at.messages@,
    ).push(plain_message(ROLE_USER@, HANDOFF_INSTRUCTION@))
}

/// The order to ask for a reply in this context.
pub open spec fn orders_reply(order: Order, at: AgentLoop) -> bool {
    order matches Order::Generate(messages) && messages_view(messages@) == messages_view(
        at.messages@,
    )
}

/// The machine goes on with the next model call: the handoff where the context
/// must be compressed first, the reply otherwise.
pub open spec fn goes_on(
    run: AgentRun,
    order: Order,
    context_window: Option<u64>,
    over_threshold: bool,
) -> bool {
    if compression_due(
        context_window,
        run.at.last_usage,
        over_threshold,
        run.at.compression_attempted,
    ) {
        run.phase is Handoff && orders_handoff(order, run.at)
    } else {
        run.phase is Reply && orders_reply(order, run.at)
    }
}

/// How a session starts: it opens the conversation, journals the system prompt
/// where it is new, and goes on with the first model call.
pub open spec fn starts_with(
    run: AgentRun,
    turn: Turn,
    ctx: ToolContext,
    history: History,
    built: Seq<char>,
    over_threshold: bool,
) -> bool {
    &&& turn.journal@.len() <= 1
    &&& opens(
        run.at,
        if turn.journal@.len() == 1 {
            Some(turn.journal@[0])
        } else {
            None
        },
        history,
        built,
        ctx.session.mode,
        ctx.model_name@,
    )
    &&& goes_on(run, turn.order, ctx.context_window, over_threshold)
}

/// The context is untouched.
pub open spec fn same_loop(a: AgentLoop, b: AgentLoop) -> bool {
    a.messages == b.messages && a.last_usage == b.last_usage && a.compression_attempted
        == b.compression_attempted
}

/// What a written handoff comes to.
pub open spec fn after_handoff(
    before: AgentRun,
    reply: ChatMessage,
    new_system: String,
    mode: Mode,
    model: Seq<char>,
    after: AgentRun,
    turn: Turn,
) -> bool {
    &&& same_loop(after.at, before.at)
    &&& after.phase is Rebuild
    &&& turn.order is Rebuild
    &&& turn.journal@.len() == 2
    &&& turn.journal@[0] matches JournalEventKind::Handoff { content, mode: m } && content@
        == trimmed(reply.content@) && m == mode
    &&& is_prompt_event(turn.journal@[1], new_system@, mode, model)
}

/// What a failed handoff comes to: the full context goes on, and compressing is
/// not tried again.
pub open spec fn after_failed_handoff(before: AgentRun, after: AgentRun, turn: Turn) -> bool {
    &&& after.at.messages == before.at.messages
    &&& after.at.last_usage == before.at.last_usage
    &&& after.at.compression_attempted
    &&& after.phase is Reply
    &&& turn.journal@.len() == 0
    &&& orders_reply(turn.order, after.at)
}

/// What the rebuilt context comes to.
pub open spec fn after_rebuild(history: History, after: AgentRun, turn: Turn) -> bool {
    &&& history.system_prompt matches Some(prompt) && messages_view(after.at.messages@) == opened(
        prompt@,
        messages_view(history.messages@),
    )
    &&& after.at.last_usage is None
    &&& !after.at.compression_attempted
    &&& after.phase is Reply
    &&& turn.journal@.len() == 0
    &&& orders_reply(turn.order, after.at)
}

/// The events of a reply: the reported context length, where there is one, and
/// the message.
pub open spec fn journals_reply(
    journal: Seq<JournalEventKind>,
    message: ChatMessage,
    prompt_tokens: Option<u64>,
    context_window: Option<u64>,
) -> bool {
    match prompt_tokens {
        Some(n) => journal.len() == 2 && journal[0] == (JournalEventKind::ContextUsage {
            tokens: n,
            context_window,
        }) && (journal[1] matches JournalEventKind::Message(m) && journals(m, message@)),
        None => journal.len() == 1 && (journal[0] matches JournalEventKind::Message(m) && journals(
            m,
            message@,
        )),
    }
}

/// The events that announce some calls.
pub open spec fn announces(journal: Seq<JournalEventKind>, calls: Seq<ToolCall>) -> bool {
    journal.len() == calls.len() && forall|i: int|
        0 <= i < calls.len() ==> is_start_event(#[trigger] journal[i], calls[i])
}

/// How many events a reply itself takes.
pub open spec fn reply_events(prompt_tokens: Option<u64>) -> int {
    if prompt_tokens is Some {
        2
    } else {
        1
    }
}

/// What a reply comes to: one without calls ends the run, one with calls has
/// them announced and sorted out.
pub open spec fn after_reply(
    before: AgentRun,
    message: ChatMessage,
    prompt_tokens: Option<u64>,
    context_window: Option<u64>,
    after: AgentRun,
    turn: Turn,
) -> bool {
    let n = reply_events(prompt_tokens);
    &&& after.at.messages == before.at.messages
    &&& after.at.compression_attempted == before.at.compression_attempted
    &&& after.at.last_usage == (if prompt_tokens is Some {
        prompt_tokens
    } else {
        before.at.last_usage
    })
    &&& n <= turn.journal@.len()
    &&& journals_reply(turn.journal@.take(n), message, prompt_tokens, context_window)
    &&& match message.tool_calls {
        None => {
            &&& turn.journal@.len() == n
            &&& after.phase is Done
            &&& turn.order is Stop
        },
        Some(calls) => {
            &&& announces(turn.journal@.skip(n), calls@)
            &&& after.phase == Phase::Calls(message)
            &&& turn.order matches Order::Preflight(asked) && asked@ == calls@
        },
    }
}

/// What a failed model call comes to.
pub open spec fn after_failed_reply(
    before: AgentRun,
    error: String,
    after: AgentRun,
    turn: Turn,
) -> bool {
    &&& same_loop(after.at, before.at)
    &&& after.phase is Done
    &&& turn.journal@.len() == 0
    &&& turn.order matches Order::Fail(e) && e@ == GENERATION_FAILED@ + error@
}

/// The calls of a message.
pub open spec fn calls_of(message: ChatMessage) -> Seq<ToolCall> {
    match message.tool_calls {
        Some(calls) => calls@,
        None => Seq::empty(),
    }
}

/// What the policy comes to: where calls are held and the user can be asked,
/// one request goes out and the other calls run; otherwise all of them run.
pub open spec fn after_preflight(
    before: AgentRun,
    ctx: ToolContext,
    assistant: ChatMessage,
    preflights: Seq<Preflight>,
    events: Result<Vec<JournalEvent>, String>,
    after: AgentRun,
    turn: Turn,
) -> bool {
    let items = held_items(preflights);
    let hold = items.len() > 0 && ask_refusal(ctx, events) is None;
    &&& same_loop(after.at, before.at)
    &&& after.phase == (Phase::Results { assistant, hold })
    &&& turn.order matches Order::Run(calls) && calls@ == running(calls_of(assistant), items, hold)
    &&& if hold {
        turn.journal@.len() == 1 && (
        turn.journal@[0] matches JournalEventKind::PermissionRequest {
            request_id,
            tool,
            operation,
            path,
            items: asked,
        } && request_id@ == REQUEST_ID@ && tool is None && operation is None && path is None
            && asked@ == items)
    } else {
        turn.journal@.len() == 0
    }
}

/// What the results come to: a held run ends, any other goes on with the
/// results in its context.
pub open spec fn after_results(
    before: AgentRun,
    assistant: ChatMessage,
    hold: bool,
    results: Seq<(String, String)>,
    context_window: Option<u64>,
    over_threshold: bool,
    after: AgentRun,
    turn: Turn,
) -> bool {
    &&& turn.journal@.len() == 0
    &&& after.at.last_usage == before.at.last_usage
    &&& after.at.compression_attempted == before.at.compression_attempted
    &&& if hold {
        &&& after.at.messages == before.at.messages
        &&& after.phase is Done
        &&& turn.order is Stop
    } else {
        &&& messages_view(after.at.messages@) == after_round(
            messages_view(before.at.messages@),
            assistant@,
            results,
        )
        &&& goes_on(after, turn.order, context_window, over_threshold)
    }
}

/// What an event comes to.
pub open spec fn steps(
    before: AgentRun,
    ctx: ToolContext,
    event: RunEvent,
    after: AgentRun,
    turn: Turn,
) -> bool {
    match (before.phase, event) {
        (Phase::Handoff, RunEvent::HandoffWritten { reply, new_system }) => after_handoff(
            before,
            reply,
            new_system,
            ctx.session.mode,
            ctx.model_name@,
            after,
            turn,
        ),
        (Phase::Handoff, RunEvent::HandoffFailed) => after_failed_handoff(before, after, turn),
        (Phase::Rebuild, RunEvent::Rebuilt { history }) => after_rebuild(history, after, turn),
        (Phase::Reply, RunEvent::Replied { message, prompt_tokens }) => after_reply(
            before,
            message,
            prompt_tokens,
            ctx.context_window,
            after,
            turn,
        ),
        (Phase::Reply, RunEvent::ReplyFailed { error }) => after_failed_reply(
            before,
            error,
            after,
            turn,
        ),
        (Phase::Calls(assistant), RunEvent::Preflighted { preflights, events }) => after_preflight(
            before,
            ctx,
            assistant,
            preflights@,
            events,
            after,
            turn,
        ),
        (
            Phase::Results { assistant, hold },
            RunEvent::Ran { results, over_threshold },
        ) => after_results(
            before,
            assistant,
            hold,
            results@,
            ctx.context_window,
            over_threshold,
            after,
            turn,
        ),
        _ => false,
    }
}

// ---------------------------------------------------------------------------
// Laws
// ---------------------------------------------------------------------------

/// Whatever the model, the tools and the user do, every request to the model
/// carries the results of all the calls in it. `events` is the journal behind
/// a rebuilt context.
pub proof fn law_every_request_is_answered(
    before: AgentRun,
    ctx: ToolContext,
    event: RunEvent,
    after: AgentRun,
    turn: Turn,
    events: Seq<JournalEvent>,
)
    requires
        steps(before, ctx, event, after, turn),
        all_answered(messages_view(before.at.messages@)),
        event matches RunEvent::Rebuilt { history } ==> messages_view(history.messages@) == rebuilt(
            events,
        ),
    ensures
        all_answered(messages_view(after.at.messages@)),
        turn.order matches Order::Generate(messages) ==> all_answered(messages_view(messages@)),
        turn.order matches Order::WriteHandoff(messages) ==> all_answered(
            messages_view(messages@),
        ),
{
    match event {
        RunEvent::Rebuilt { history } => {
            if let Some(prompt) = history.system_prompt {
                law_opened_context_is_answered(
                    prompt@,
                    context_messages(events, boundary(events)),
                );
            }
        },
        RunEvent::Ran { results, .. } => {
            if let Phase::Results { assistant, hold } = before.phase {
                if !hold {
                    law_round_leaves_calls_answered(
                        messages_view(before.at.messages@),
                        assistant@,
                        results@,
                    );
                }
            }
        },
        _ => {},
    }
    let ms = messages_view(after.at.messages@);
    let asked = plain_message(ROLE_USER@, HANDOFF_INSTRUCTION@);
    law_round_leaves_calls_answered(ms, asked, Seq::empty());
    assert(after_round(ms, asked, Seq::empty()) =~= ms.push(asked));
}

/// A failed compression is not repeated until the context has been rebuilt.
pub proof fn law_failed_compression_is_not_repeated(
    before: AgentRun,
    ctx: ToolContext,
    event: RunEvent,
    after: AgentRun,
    turn: Turn,
)
    requires
        steps(before, ctx, event, after, turn),
        before.at.compression_attempted,
        !(event is Rebuilt),
    ensures
        after.at.compression_attempted,
        !(turn.order is WriteHandoff),
{
}

/// A compression starts afresh: once its events are journaled, the next request
/// is the fresh system prompt and the handoff as a user message, and nothing of
/// the past.
pub proof fn law_compression_starts_afresh(
    before: AgentRun,
    ctx: ToolContext,
    reply: ChatMessage,
    new_system: String,
    between: AgentRun,
    written: Turn,
    past: Seq<JournalEvent>,
    handoff: JournalEvent,
    prompt: JournalEvent,
    history: History,
    after: AgentRun,
    turn: Turn,
)
    requires
        steps(before, ctx, RunEvent::HandoffWritten { reply, new_system }, between, written),
        written.journal@ == seq![handoff.kind, prompt.kind],
        forall|i: int| 0 <= i < past.len() ==> (#[trigger] past[i]).seq < handoff.seq,
        handoff.seq < prompt.seq,
        opt_text(history.system_prompt) == context_prompt(
            past + seq![handoff, prompt],
            boundary(past + seq![handoff, prompt]),
        ),
        messages_view(history.messages@) == rebuilt(past + seq![handoff, prompt]),
        steps(between, ctx, RunEvent::Rebuilt { history }, after, turn),
    ensures
        turn.order matches Order::Generate(messages) && messages_view(messages@) == seq![
            plain_message(ROLE_SYSTEM@, new_system@),
            plain_message(ROLE_USER@, HANDOFF_USER_PREFIX@ + trimmed(reply.content@)),
        ],
        after.at.last_usage is None,
{
    law_handoff_starts_afresh(past, handoff, prompt);
    assert(written.journal@[0] == handoff.kind && written.journal@[1] == prompt.kind);
    assert(messages_view(after.at.messages@) =~= seq![
        plain_message(ROLE_SYSTEM@, new_system@),
        plain_message(ROLE_USER@, HANDOFF_USER_PREFIX@ + trimmed(reply.content@)),
    ]);
}

/// Nothing goes to the model while a decision of the user is open: a run with
/// held calls ends with the results of the others.
pub proof fn law_held_run_ends(
    before: AgentRun,
    ctx: ToolContext,
    event: RunEvent,
    after: AgentRun,
    turn: Turn,
)
    requires
        steps(before, ctx, event, after, turn),
        before.phase matches Phase::Results { hold, .. } && hold,
    ensures
        turn.order is Stop,
        after.phase is Done,
        after.at.messages == before.at.messages,
{
}

/// The system prompt stays in front: every request opens with the same text
/// until a compression brings a fresh one.
pub proof fn law_system_prompt_stays_in_front(
    before: AgentRun,
    ctx: ToolContext,
    event: RunEvent,
    after: AgentRun,
    turn: Turn,
    prompt: Seq<char>,
)
    requires
        steps(before, ctx, event, after, turn),
        before.at.messages@.len() > 0,
        messages_view(before.at.messages@)[0] == plain_message(ROLE_SYSTEM@, prompt),
    ensures
        ({
            let now = match event {
                RunEvent::Rebuilt { history } => history.system_prompt->0@,
                _ => prompt,
            };
            &&& after.at.messages@.len() > 0
            &&& messages_view(after.at.messages@)[0] == plain_message(ROLE_SYSTEM@, now)
            &&& turn.order matches Order::Generate(messages) ==> messages_view(messages@)[0]
                == plain_message(ROLE_SYSTEM@, now)
            &&& turn.order matches Order::WriteHandoff(messages) ==> messages_view(messages@)[0]
                == plain_message(ROLE_SYSTEM@, now)
        }),
{
    assert(messages_view(before.at.messages@).len() == before.at.messages@.len());
    assert(messages_view(after.at.messages@).len() == after.at.messages@.len());
}

// ---------------------------------------------------------------------------
// The machine
// ---------------------------------------------------------------------------

fn silent(order: Order) -> (r: Turn)
    ensures
        r.journal@.len() == 0,
        r.order == order,
{
    Turn { journal: Vec::new(), order }
}

impl AgentRun {
    /// Opens the run of a session. The journaled system prompt is used as it
    /// is; only a session without one takes `built`, which is then journaled.
    pub fn open(
        ctx: &ToolContext,
        history: History,
        built: String,
        over_threshold: bool,
    ) -> (r: (AgentRun, Turn))
        ensures
            starts_with(r.0, r.1, *ctx, history, built@, over_threshold),
    {
        let (at, event) = AgentLoop::start(
            history,
            built,
            ctx.session.mode,
            ctx.model_name.as_str(),
        );
        let mut run = AgentRun { at, phase: Phase::Done };
        let order = run.go_on(ctx.context_window, over_threshold);
        let mut journal: Vec<JournalEventKind> = Vec::new();
        if let Some(kind) = event {
            journal.push(kind);
        }
        (run, Turn { journal, order })
    }

    fn go_on(&mut self, context_window: Option<u64>, over_threshold: bool) -> (r: Order)
        ensures
            same_loop(final(self).at, old(self).at),
            goes_on(*final(self), r, context_window, over_threshold),
    {
        match self.at.next_step(context_window, over_threshold) {
            Step::Compress => {
                self.phase = Phase::Handoff;
                Order::WriteHandoff(self.at.handoff_request())
            },
            Step::Generate => self.ask(),
        }
    }

    fn ask(&mut self) -> (r: Order)
        ensures
            final(self).at == old(self).at,
            final(self).phase is Reply,
            orders_reply(r, final(self).at),
    {
        self.phase = Phase::Reply;
        Order::Generate(copy_messages(&self.at.messages))
    }

    fn rebuilt(&mut self, history: History) -> (r: Turn)
        requires
            history.system_prompt is Some,
        ensures
            after_rebuild(history, *final(self), r),
    {
        self.at.resume_compressed(history);
        let order = self.ask();
        silent(order)
    }

    fn replied(
        &mut self,
        message: ChatMessage,
        prompt_tokens: Option<u64>,
        context_window: Option<u64>,
    ) -> (r: Turn)
        ensures
            after_reply(*old(self), message, prompt_tokens, context_window, *final(self), r),
    {
        let mut journal = self.at.note_reply(&message, prompt_tokens, context_window);
        let ghost noted = journal@;
        let ghost n = reply_events(prompt_tokens);
        match &message.tool_calls {
            None => {
                assert(journal@.take(n) =~= noted);
                self.phase = Phase::Done;
                Turn { journal, order: Order::Stop }
            },
            Some(calls) => {
                let mut starts = start_events(calls);
                let asked = copy_calls(calls);
                let ghost announced = starts@;
                journal.append(&mut starts);
                assert(journal@.take(n) =~= noted);
                assert(journal@.skip(n) =~= announced);
                self.phase = Phase::Calls(message);
                Turn { journal, order: Order::Preflight(asked) }
            },
        }
    }

    fn preflighted(
        &mut self,
        ctx: &ToolContext,
        assistant: ChatMessage,
        preflights: &Vec<Preflight>,
        events: &Result<Vec<JournalEvent>, String>,
    ) -> (r: Turn)
        ensures
            after_preflight(
                *old(self),
                *ctx,
                assistant,
                preflights@,
                *events,
                *final(self),
                r,
            ),
    {
        let none: Vec<ToolCall> = Vec::new();
        assert(none@ =~= Seq::<ToolCall>::empty());
        let plan = match &assistant.tool_calls {
            Some(calls) => plan_calls(ctx, calls, preflights, events),
            None => plan_calls(ctx, &none, preflights, events),
        };
        let mut journal: Vec<JournalEventKind> = Vec::new();
        if let Some(kind) = plan.request {
            journal.push(kind);
        }
        self.phase = Phase::Results { assistant, hold: plan.hold };
        Turn { journal, order: Order::Run(plan.to_run) }
    }

    fn ran(
        &mut self,
        assistant: ChatMessage,
        hold: bool,
        results: &Vec<(String, String)>,
        context_window: Option<u64>,
        over_threshold: bool,
    ) -> (r: Turn)
        ensures
            after_results(
                *old(self),
                assistant,
                hold,
                results@,
                context_window,
                over_threshold,
                *final(self),
                r,
            ),
    {
        if hold {
            self.phase = Phase::Done;
            return silent(Order::Stop);
        }
        self.at.finish_round(assistant, results);
        let order = self.go_on(context_window, over_threshold);
        silent(order)
    }

    /// Takes in what came of the last order, and gives the next one.
    pub fn step(&mut self, ctx: &ToolContext, event: RunEvent) -> (r: Turn)
        requires
            expects(old(self).phase, event),
        ensures
            steps(*old(self), *ctx, event, *final(self), r),
    {
        let mut phase = Phase::Done;
        std::mem::swap(&mut phase, &mut self.phase);
        match (phase, event) {
            (Phase::Handoff, RunEvent::HandoffWritten { reply, new_system }) => {
                let (handoff, prompt) = AgentLoop::handoff_events(
                    &reply,
                    new_system,
                    ctx.session.mode,
                    ctx.model_name.as_str(),
                );
                let mut journal: Vec<JournalEventKind> = Vec::new();
                journal.push(handoff);
                journal.push(prompt);
                self.phase = Phase::Rebuild;
                Turn { journal, order: Order::Rebuild }
            },
            (Phase::Handoff, RunEvent::HandoffFailed) => {
                self.at.handoff_failed();
                let order = self.ask();
                silent(order)
            },
            (Phase::Rebuild, RunEvent::Rebuilt { history }) => self.rebuilt(history),
            (Phase::Reply, RunEvent::Replied { message, prompt_tokens }) => self.replied(
                message,
                prompt_tokens,
                ctx.context_window,
            ),
            (Phase::Reply, RunEvent::ReplyFailed { error }) => silent(
                Order::Fail(cat2(GENERATION_FAILED, error.as_str())),
            ),
            (Phase::Calls(assistant), RunEvent::Preflighted { preflights, events }) => {
                self.preflighted(ctx, assistant, &preflights, &events)
            },
            (
                Phase::Results { assistant, hold },
                RunEvent::Ran { results, over_threshold },
            ) => self.ran(assistant, hold, &results, ctx.context_window, over_threshold),
            _ => silent(Order::Stop),
        }
    }
}

} // verus!
