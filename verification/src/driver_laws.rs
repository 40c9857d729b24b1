//! What a running session does with each thing that comes in.
use vstd::prelude::*;
use vstd::string::*;

use crate::agent::{
    at_once, completed, compression_due, held_items, is_later_result, is_result_event, last_batch_answer,
    requested_items, resumable, running, unfinished,
};
use crate::agent_laws::lemma_request_is_found;
use crate::chat::{messages_view, ChatMessage, MessageView, ToolCall};
use crate::driver::{expects, starts_with, steps, AgentRun, Order, Phase, RunEvent, Turn};
use crate::history::History;
use crate::journal::{JournalEvent, JournalEventKind, PermissionRequestItem};
use crate::prompt::HANDOFF_INSTRUCTION;
use crate::text::trimmed;
use crate::tools::permission::{ask_refusal, Preflight};
use crate::tools::ToolContext;

verus! {

// ---------------------------------------------------------------------------
// Replies
// ---------------------------------------------------------------------------

/// The event is this message, with its text, its reasoning and every call of it.
pub open spec fn records(kind: JournalEventKind, message: ChatMessage) -> bool {
    &&& kind is Message
    &&& kind->Message_0.role@ == message.role@
    &&& kind->Message_0.content@ == message.content@
    &&& kind->Message_0.reasoning_content is Some <==> message.reasoning_content is Some
    &&& message.reasoning_content matches Some(text) ==> kind->Message_0.reasoning_content->0@
        == text@
    &&& kind->Message_0.tool_calls is Some <==> message.tool_calls is Some
    &&& message.tool_calls matches Some(calls) ==> {
        let infos = kind->Message_0.tool_calls->0@;
        infos.len() == calls@.len() && forall|i: int|
            0 <= i < calls@.len() ==> (#[trigger] infos[i]).id@ == calls@[i].id@ && infos[i].name@
                == calls@[i].name@ && infos[i].arguments@ == calls@[i].arguments@
    }
}

/// The event announces this call, with its name and arguments.
pub open spec fn starts(kind: JournalEventKind, call: ToolCall) -> bool {
    &&& kind is ToolCallStart
    &&& kind->ToolCallStart_id@ == call.id@
    &&& kind->ToolCallStart_name@ == call.name@
    &&& kind->ToolCallStart_arguments@ == call.arguments@
}

proof fn lemma_records(j: JournalEventKind, message: ChatMessage)
    requires
        j is Message,
        crate::chat::journals(j->Message_0, message@),
    ensures
        records(j, message),
{
    if let Some(calls) = message.tool_calls {
        let infos = j->Message_0.tool_calls->0@;
        let views = message@.calls->0;
        assert(infos.len() == calls@.len());
        assert forall|i: int| 0 <= i < calls@.len() implies (#[trigger] infos[i]).id@
            == calls@[i].id@ && infos[i].name@ == calls@[i].name@ && infos[i].arguments@
            == calls@[i].arguments@ by {
            assert(views[i] == calls@[i]@);
            assert(crate::chat::same_call(infos[i], views[i]));
        }
    }
}

/// A reply is journaled as it came, behind its context length where one was
/// reported; then every one of its calls is announced, in order. Without calls
/// the run is complete; with calls they are all sorted out next. The reply joins
/// the context only with its results.
pub proof fn law_a_reply_is_journaled_with_all_its_calls(
    before: AgentRun,
    ctx: ToolContext,
    message: ChatMessage,
    tokens: Option<u64>,
    after: AgentRun,
    turn: Turn,
)
    requires
        before.phase is Reply,
        steps(before, ctx, (RunEvent::Replied { message, prompt_tokens: tokens }), after, turn),
    ensures
        ({
            let n = if tokens is Some {
                1int
            } else {
                0
            };
            let log = turn.journal@;
            &&& tokens matches Some(t) ==> log[0] == (JournalEventKind::ContextUsage {
                tokens: t,
                context_window: ctx.context_window,
            })
            &&& records(log[n], message)
            &&& message.tool_calls is None ==> log.len() == n + 1 && turn.order is Stop
                && after.phase is Done
            &&& message.tool_calls matches Some(calls) ==> log.len() == n + 1 + calls@.len()
                && (forall|i: int|
                #![trigger calls@[i]]
                0 <= i < calls@.len() ==> starts(log[n + 1 + i], calls@[i])) && turn.order
                is Preflight && turn.order->Preflight_0@ == calls@ && after.phase == Phase::Calls(
                message,
            )
            &&& tokens is Some ==> after.at.last_usage == tokens
            &&& tokens is None ==> after.at.last_usage == before.at.last_usage
            &&& after.at.messages@ == before.at.messages@
        }),
{
    let n = if tokens is Some {
        1int
    } else {
        0
    };
    let log = turn.journal@;
    let head = log.take(n + 1);
    assert(head[n] == log[n]);
    assert(head[0] == log[0]);
    lemma_records(log[n], message);
    if let Some(calls) = message.tool_calls {
        let rest = log.skip(n + 1);
        assert forall|i: int| #![trigger calls@[i]] 0 <= i < calls@.len() implies starts(
            log[n + 1 + i],
            calls@[i],
        ) by {
            assert(rest[i] == log[n + 1 + i]);
            assert(crate::agent::is_start_event(rest[i], calls@[i]));
        }
    }
}

/// A reply that could not be had fails the run, and says why.
pub proof fn law_a_failed_reply_fails_the_run(
    before: AgentRun,
    ctx: ToolContext,
    error: String,
    after: AgentRun,
    turn: Turn,
)
    requires
        before.phase is Reply,
        steps(before, ctx, (RunEvent::ReplyFailed { error }), after, turn),
    ensures
        turn.order is Fail,
        turn.order->Fail_0@ == "LLM generation failed after retries: "@ + error@,
        turn.journal@.len() == 0,
        after.phase is Done,
        after.at.messages@ == before.at.messages@,
{
}

// ---------------------------------------------------------------------------
// Calls
// ---------------------------------------------------------------------------

/// Every call that needs the user is held, one by one and in order, wherever in
/// the message it stands; and no other is.
pub proof fn law_every_call_that_needs_the_user_is_held(
    a: Seq<Preflight>,
    b: Seq<Preflight>,
    item: PermissionRequestItem,
)
    ensures
        held_items(a + b) == held_items(a) + held_items(b),
        held_items(a.push(Preflight::Permission(item))) == held_items(a).push(item),
        held_items(a.push(Preflight::Run)) == held_items(a),
        held_items(Seq::empty()) == Seq::<PermissionRequestItem>::empty(),
    decreases b.len(),
{
    assert(a.push(Preflight::Permission(item)).drop_last() =~= a);
    assert(a.push(Preflight::Run).drop_last() =~= a);
    if b.len() == 0 {
        assert(a + b =~= a);
        assert(held_items(a) + held_items(b) =~= held_items(a));
    } else {
        let all = a + b;
        law_every_call_that_needs_the_user_is_held(a, b.drop_last(), item);
        assert(all.drop_last() =~= a + b.drop_last());
        assert(all.last() == b.last());
        assert(held_items(all) =~= held_items(a) + held_items(b));
    }
}

/// The calls that are not held run one by one and in order, wherever in the
/// message they stand; a call is held where one of the held ones has its id.
pub proof fn law_the_other_calls_run_in_order(
    a: Seq<ToolCall>,
    b: Seq<ToolCall>,
    call: ToolCall,
    items: Seq<PermissionRequestItem>,
)
    ensures
        running(a + b, items, true) == running(a, items, true) + running(b, items, true),
        (forall|k: int| 0 <= k < items.len() ==> (#[trigger] items[k]).call_id@ != call.id@)
            ==> running(a.push(call), items, true) == running(a, items, true).push(call),
        (exists|k: int| 0 <= k < items.len() && (#[trigger] items[k]).call_id@ == call.id@)
            ==> running(a.push(call), items, true) == running(a, items, true),
    decreases b.len(),
{
    assert(a.push(call).drop_last() =~= a);
    if b.len() == 0 {
        assert(a + b =~= a);
        assert(running(a, items, true) + running(b, items, true) =~= running(a, items, true));
    } else {
        let all = a + b;
        law_the_other_calls_run_in_order(a, b.drop_last(), call, items);
        assert(all.drop_last() =~= a + b.drop_last());
        assert(all.last() == b.last());
        assert(running(all, items, true) =~= running(a, items, true) + running(b, items, true));
    }
}

/// Where calls are held and the user can be asked, one request goes out for all
/// of them, the others run, and the run will end behind them. Otherwise every
/// call runs, and nothing is asked.
pub proof fn law_held_calls_are_asked_about_together(
    before: AgentRun,
    ctx: ToolContext,
    assistant: ChatMessage,
    preflights: Vec<Preflight>,
    events: Result<Vec<JournalEvent>, String>,
    after: AgentRun,
    turn: Turn,
)
    requires
        before.phase == Phase::Calls(assistant),
        assistant.tool_calls is Some,
        steps(before, ctx, (RunEvent::Preflighted { preflights, events }), after, turn),
    ensures
        ({
            let items = held_items(preflights@);
            let calls = assistant.tool_calls->0@;
            let asked = items.len() > 0 && ask_refusal(ctx, events) is None;
            &&& turn.order is Run
            &&& asked ==> {
                let request = turn.journal@[0];
                &&& turn.journal@.len() == 1
                &&& request is PermissionRequest
                &&& request->PermissionRequest_request_id@ == "p1"@
                &&& request->PermissionRequest_items@ == items
                &&& turn.order->Run_0@ == running(calls, items, true)
                &&& after.phase == (Phase::Results { assistant, hold: true })
            }
            &&& !asked ==> {
                &&& turn.journal@.len() == 0
                &&& turn.order->Run_0@ == calls
                &&& after.phase == (Phase::Results { assistant, hold: false })
            }
            &&& after.at.messages@ == before.at.messages@
            &&& after.at.last_usage == before.at.last_usage
        }),
{
    crate::agent_laws::law_without_a_hold_all_calls_run(
        assistant.tool_calls->0@,
        held_items(preflights@),
    );
}

/// The outcome of a call is journaled under its id and name, with its text, and
/// as a success exactly when it was one.
pub proof fn law_outcomes_are_journaled_as_they_are(
    kind: JournalEventKind,
    id: Seq<char>,
    name: Seq<char>,
    outcome: Result<String, String>,
)
    requires
        is_result_event(kind, id, name, outcome),
    ensures
        kind is ToolResult,
        kind->ToolResult_id@ == id,
        kind->ToolResult_name@ == name,
        kind->ToolResult_ok <==> outcome is Ok,
        outcome matches Ok(text) ==> kind->ToolResult_output@ == text@,
        outcome matches Err(text) ==> kind->ToolResult_output@ == text@,
{
}

// ---------------------------------------------------------------------------
// Results and compression
// ---------------------------------------------------------------------------

/// The context is compressed when there is a window to fill, the last call
/// reached the threshold, and compressing did not fail before; and only then.
pub proof fn law_compression_is_due_at_the_threshold(
    window: Option<u64>,
    usage: Option<u64>,
    over: bool,
    attempted: bool,
)
    ensures
        window is Some && window->0 > 0 && usage is Some && over && !attempted ==> compression_due(
            window,
            usage,
            over,
            attempted,
        ),
        window is None || window->0 == 0 ==> !compression_due(window, usage, over, attempted),
        usage is None ==> !compression_due(window, usage, over, attempted),
        !over ==> !compression_due(window, usage, over, attempted),
        attempted ==> !compression_due(window, usage, over, attempted),
{
}

/// The order asks the model for a reply to this context, with nothing added.
pub open spec fn asks_for_reply(order: Order, context: Seq<MessageView>) -> bool {
    order is Generate && messages_view(order->Generate_0@) == context
}

/// The order asks the model to hand this context over.
pub open spec fn asks_for_handoff(order: Order, context: Seq<MessageView>) -> bool {
    order is WriteHandoff && messages_view(order->WriteHandoff_0@) == context.push(
        MessageView {
            role: "user"@,
            content: HANDOFF_INSTRUCTION@,
            reasoning: None,
            call_id: None,
            calls: None,
        },
    )
}

/// Behind the results a held run ends and waits for the user, with its context
/// untouched. Any other goes on: with a handoff where the context is full, and
/// else with the next reply. Nothing more is journaled.
pub proof fn law_results_lead_to_the_next_request(
    before: AgentRun,
    ctx: ToolContext,
    assistant: ChatMessage,
    hold: bool,
    results: Vec<(String, String)>,
    over: bool,
    after: AgentRun,
    turn: Turn,
)
    requires
        before.phase == (Phase::Results { assistant, hold }),
        steps(before, ctx, (RunEvent::Ran { results, over_threshold: over }), after, turn),
    ensures
        turn.journal@.len() == 0,
        hold ==> turn.order is Stop && after.phase is Done && after.at.messages@
            == before.at.messages@,
        ({
            let context = messages_view(after.at.messages@);
            let full = ctx.context_window is Some && ctx.context_window->0 > 0
                && before.at.last_usage is Some && over && !before.at.compression_attempted;
            &&& !hold && full ==> after.phase is Handoff && asks_for_handoff(turn.order, context)
            &&& !hold && !full ==> after.phase is Reply && asks_for_reply(turn.order, context)
        }),
{
}

/// A handoff is journaled without the blanks around it, in the mode of the
/// session, and behind it the new system prompt; then the context is rebuilt.
pub proof fn law_a_handoff_is_journaled_before_the_rebuild(
    before: AgentRun,
    ctx: ToolContext,
    reply: ChatMessage,
    new_system: String,
    after: AgentRun,
    turn: Turn,
)
    requires
        before.phase is Handoff,
        steps(before, ctx, (RunEvent::HandoffWritten { reply, new_system }), after, turn),
    ensures
        ({
            let log = turn.journal@;
            &&& log.len() == 2
            &&& log[0] is Handoff
            &&& log[0]->Handoff_content@ == trimmed(reply.content@)
            &&& log[0]->Handoff_mode == ctx.session.mode
            &&& log[1] is SystemPrompt
            &&& log[1]->SystemPrompt_content@ == new_system@
            &&& log[1]->SystemPrompt_mode == ctx.session.mode
            &&& log[1]->SystemPrompt_model@ == ctx.model_name@
            &&& turn.order is Rebuild
            &&& after.phase is Rebuild
        }),
{
}

/// The rebuilt context is the system prompt of the journal and the messages of
/// the journal behind it; the next reply is asked for in exactly that context,
/// and compressing may be tried again later.
pub proof fn law_the_rebuilt_context_goes_to_the_model(
    before: AgentRun,
    ctx: ToolContext,
    history: History,
    after: AgentRun,
    turn: Turn,
)
    requires
        before.phase is Rebuild,
        history.system_prompt is Some,
        steps(before, ctx, (RunEvent::Rebuilt { history }), after, turn),
    ensures
        asks_for_reply(
            turn.order,
            seq![
                MessageView {
                    role: "system"@,
                    content: history.system_prompt->0@,
                    reasoning: None,
                    call_id: None,
                    calls: None,
                },
            ] + messages_view(history.messages@),
        ),
        messages_view(after.at.messages@) == messages_view(turn.order->Generate_0@),
        after.phase is Reply,
        after.at.last_usage is None,
        !after.at.compression_attempted,
        turn.journal@.len() == 0,
{
}

/// Where the model wrote no handoff the session goes on in full, and compressing
/// is not tried again.
pub proof fn law_without_a_handoff_the_context_stays(
    before: AgentRun,
    ctx: ToolContext,
    after: AgentRun,
    turn: Turn,
)
    requires
        before.phase is Handoff,
        steps(before, ctx, RunEvent::HandoffFailed, after, turn),
    ensures
        asks_for_reply(turn.order, messages_view(before.at.messages@)),
        after.at.messages@ == before.at.messages@,
        after.at.last_usage == before.at.last_usage,
        after.at.compression_attempted,
        after.phase is Reply,
        turn.journal@.len() == 0,
{
}

// ---------------------------------------------------------------------------
// Held calls of an earlier run
// ---------------------------------------------------------------------------

proof fn lemma_unfinished_holds(
    items: Seq<PermissionRequestItem>,
    events: Seq<JournalEvent>,
    after: u64,
    item: PermissionRequestItem,
)
    ensures
        unfinished(items, events, after).contains(item) <==> items.contains(item) && !completed(
            events,
            item.call_id@,
            after,
        ),
    decreases items.len(),
{
    if items.len() > 0 {
        let rest = items.drop_last();
        let last = items.last();
        lemma_unfinished_holds(rest, events, after, item);
        let before = unfinished(rest, events, after);
        let all = unfinished(items, events, after);
        assert(items =~= rest.push(last));
        if rest.contains(item) {
            let i = choose|i: int| 0 <= i < rest.len() && rest[i] == item;
            assert(items[i] == item);
        }
        if items.contains(item) && item != last {
            let i = choose|i: int| 0 <= i < items.len() && items[i] == item;
            assert(rest[i] == item);
        }
        if item == last {
            assert(items[items.len() - 1] == item);
        }
        if !completed(events, last.call_id@, after) {
            assert(all[before.len() as int] == last);
            if before.contains(item) {
                let i = choose|i: int| 0 <= i < before.len() && before[i] == item;
                assert(all[i] == item);
            }
            if all.contains(item) && item != last {
                let i = choose|i: int| 0 <= i < all.len() && all[i] == item;
                assert(before[i] == item);
            }
        }
    }
}

proof fn lemma_answer_is_found(events: Seq<JournalEvent>, later: Seq<JournalEvent>)
    requires
        forall|i: int|
            0 <= i < later.len() ==> !((#[trigger] later[i]).kind is PermissionAnswered),
    ensures
        last_batch_answer(events + later) == last_batch_answer(events),
    decreases later.len(),
{
    if later.len() == 0 {
        assert(events + later =~= events);
    } else {
        let rest = later.drop_last();
        assert((events + later).drop_last() =~= events + rest);
        assert((events + later).last() == later[later.len() - 1]);
        assert forall|i: int| 0 <= i < rest.len() implies !((
        #[trigger] rest[i]).kind is PermissionAnswered) by {
            assert(rest[i] == later[i]);
        }
        lemma_answer_is_found(events, rest);
    }
}

/// The event is the outcome of this call.
pub open spec fn is_outcome_of(event: JournalEvent, id: Seq<char>) -> bool {
    event.kind is ToolResult && event.kind->ToolResult_id@ == id
}

/// A session that stopped while it resumed held calls goes on with the rest: of
/// the calls that the user decided on, exactly those are left whose outcome was
/// not journaled behind the answer.
pub proof fn law_resuming_goes_on_where_it_stopped(
    before: Seq<JournalEvent>,
    request: JournalEvent,
    between: Seq<JournalEvent>,
    answer: JournalEvent,
    later: Seq<JournalEvent>,
    item: PermissionRequestItem,
)
    requires
        request.kind matches JournalEventKind::PermissionRequest { items, .. } && items@.len() > 0,
        answer.kind matches JournalEventKind::PermissionAnswered { request_id, decisions, .. }
            && request_id@ == request.kind->PermissionRequest_request_id@ && decisions@.len() > 0,
        forall|i: int|
            0 <= i < between.len() ==> !((#[trigger] between[i]).kind is PermissionRequest),
        forall|i: int|
            0 <= i < later.len() ==> !((#[trigger] later[i]).kind is PermissionRequest)
                && !(later[i].kind is PermissionAnswered),
        forall|i: int| 0 <= i < before.len() ==> (#[trigger] before[i]).seq < answer.seq,
        forall|i: int| 0 <= i < between.len() ==> (#[trigger] between[i]).seq < answer.seq,
        request.seq < answer.seq,
        forall|i: int| 0 <= i < later.len() ==> (#[trigger] later[i]).seq > answer.seq,
    ensures
        resumable((before.push(request) + between).push(answer) + later).contains(item)
            <==> request.kind->PermissionRequest_items@.contains(item) && forall|i: int|
            0 <= i < later.len() ==> !is_outcome_of(#[trigger] later[i], item.call_id@),
{
    let past = before.push(request) + between;
    let head = past.push(answer);
    let events = head + later;
    let id = request.kind->PermissionRequest_request_id@;
    let items = request.kind->PermissionRequest_items@;
    let at = answer.seq;
    assert(head.drop_last() =~= past);
    lemma_answer_is_found(head, later);
    assert(last_batch_answer(events) == Some((at, id)));
    lemma_request_is_found(head, later, id, at);
    lemma_request_is_found(before.push(request), between, id, at);
    assert(before.push(request).drop_last() =~= before);
    assert(requested_items(events, id, at) == Some(items));
    lemma_unfinished_holds(items, events, at, item);
    if completed(events, item.call_id@, at) {
        let i = choose|i: int|
            0 <= i < events.len() && is_later_result(#[trigger] events[i], item.call_id@, at);
        if i < head.len() {
            assert(events[i] == head[i]);
            if i < before.len() {
                assert(head[i] == before[i]);
            } else if i == before.len() {
                assert(head[i] == request);
            } else if i < past.len() {
                assert(head[i] == between[i - before.len() - 1]);
            }
        } else {
            assert(events[i] == later[i - head.len()]);
            assert(is_outcome_of(later[i - head.len()], item.call_id@));
        }
    }
    assert forall|i: int|
        0 <= i < later.len() && is_outcome_of(#[trigger] later[i], item.call_id@) implies completed(
        events,
        item.call_id@,
        at,
    ) by {
        assert(events[head.len() + i] == later[i]);
        assert(is_later_result(events[head.len() + i], item.call_id@, at));
    }
}

// ---------------------------------------------------------------------------
// The start
// ---------------------------------------------------------------------------

/// A session that has a system prompt starts with it as it was, and journals
/// nothing; a new one starts with the prompt that was built, and journals it with
/// the mode and the model. Either way the conversation follows, and the model is
/// asked to go on, or to hand over where the context is full.
pub proof fn law_a_session_starts_where_it_left_off(
    run: AgentRun,
    turn: Turn,
    ctx: ToolContext,
    history: History,
    built: Seq<char>,
    over: bool,
)
    requires
        starts_with(run, turn, ctx, history, built, over),
    ensures
        ({
            let context = messages_view(run.at.messages@);
            let prompt = if history.system_prompt is Some {
                history.system_prompt->0@
            } else {
                built
            };
            let full = ctx.context_window is Some && ctx.context_window->0 > 0
                && history.last_prompt_tokens is Some && over;
            &&& context == seq![
                MessageView {
                    role: "system"@,
                    content: prompt,
                    reasoning: None,
                    call_id: None,
                    calls: None,
                },
            ] + messages_view(history.messages@)
            &&& history.system_prompt is Some ==> turn.journal@.len() == 0
            &&& history.system_prompt is None ==> {
                &&& turn.journal@.len() == 1
                &&& turn.journal@[0] is SystemPrompt
                &&& turn.journal@[0]->SystemPrompt_content@ == built
                &&& turn.journal@[0]->SystemPrompt_mode == ctx.session.mode
                &&& turn.journal@[0]->SystemPrompt_model@ == ctx.model_name@
            }
            &&& run.at.last_usage == history.last_prompt_tokens
            &&& !run.at.compression_attempted
            &&& full ==> run.phase is Handoff && asks_for_handoff(turn.order, context)
            &&& !full ==> run.phase is Reply && asks_for_reply(turn.order, context)
        }),
{
}

/// As many calls run at once as the setting says, but never none.
pub proof fn law_at_least_one_call_runs(n: usize)
    ensures
        n >= 1 ==> at_once(n) == n,
        at_once(0) == 1,
{
}

proof fn lemma_nothing_more_finished(
    items: Seq<PermissionRequestItem>,
    events: Seq<JournalEvent>,
    event: JournalEvent,
    after: u64,
)
    requires
        !(event.kind is ToolResult),
    ensures
        unfinished(items, events.push(event), after) == unfinished(items, events, after),
    decreases items.len(),
{
    if items.len() > 0 {
        let all = events.push(event);
        let id = items.last().call_id@;
        lemma_nothing_more_finished(items.drop_last(), events, event, after);
        if completed(events, id, after) {
            let i = choose|i: int|
                0 <= i < events.len() && is_later_result(#[trigger] events[i], id, after);
            assert(all[i] == events[i]);
            assert(is_later_result(all[i], id, after));
        }
        if completed(all, id, after) {
            let i = choose|i: int|
                0 <= i < all.len() && is_later_result(#[trigger] all[i], id, after);
            assert(i < events.len());
            assert(events[i] == all[i]);
            assert(is_later_result(events[i], id, after));
        }
    }
}

/// What is left to resume goes by batches alone: an answer to a single request,
/// a single request, and everything else that is no outcome of a call, leave it
/// as it is.
pub proof fn law_only_batches_are_resumed(events: Seq<JournalEvent>, event: JournalEvent)
    requires
        !(event.kind is ToolResult),
        event.kind is PermissionAnswered ==> event.kind->PermissionAnswered_decisions@.len() == 0,
        event.kind is PermissionRequest ==> event.kind->PermissionRequest_items@.len() == 0,
    ensures
        resumable(events.push(event)) == resumable(events),
{
    let all = events.push(event);
    assert(all.drop_last() =~= events);
    assert(last_batch_answer(all) == last_batch_answer(events));
    if let Some((at, id)) = last_batch_answer(events) {
        assert(requested_items(all, id, at) == requested_items(events, id, at));
        if let Some(items) = requested_items(events, id, at) {
            lemma_nothing_more_finished(items, events, event, at);
        }
    }
}

/// The machine takes what it waits for, however that came out: a handoff or
/// none, a reply or none, what the policy says of the calls, and their results.
pub proof fn law_what_the_machine_takes(phase: Phase, event: RunEvent)
    ensures
        phase is Handoff ==> (expects(phase, event) <==> event is HandoffWritten || event
            is HandoffFailed),
        phase is Rebuild ==> (expects(phase, event) <==> event is Rebuilt
            && event->Rebuilt_history.system_prompt is Some),
        phase is Reply ==> (expects(phase, event) <==> event is Replied || event is ReplyFailed),
        phase is Calls ==> (expects(phase, event) <==> event is Preflighted),
        phase is Results ==> (expects(phase, event) <==> event is Ran),
        phase is Done ==> !expects(phase, event),
{
}

} // verus!
