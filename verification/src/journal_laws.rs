//! What each journaled event comes to in the context that a resumed session
//! sees.
use vstd::prelude::*;
use vstd::string::*;

use crate::agent_laws::{
    law_cleaning_goes_piece_by_piece, law_resumed_session_sees_what_the_running_one_saw,
    lemma_messages_go_on, lemma_output_found, one_output_each, one_result_each, result_ids,
    result_messages,
};
use crate::chat::{
    plain_message, tool_message_view, CallView, MessageView, ROLE_ASSISTANT, ROLE_TOOL, ROLE_USER,
};
use crate::history::{
    answered, answers_json, boundary, call_ids, cleaned, context_messages, context_prompt,
    context_tokens, event_message, has_calls, in_context, is_assistant, is_tool, rebuilt,
    run_after, run_length, times, times_answered,
};
use crate::journal::{JournalEvent, JournalEventKind, ToolCallInfo};
use crate::prompt::{ASK_USER_ANSWER_PREFIX, HANDOFF_USER_PREFIX, PERMISSION_ANSWER_PREFIX};
use crate::text::opt_text;

verus! {

/// The event was journaled behind the others.
pub open spec fn journaled_behind(events: Seq<JournalEvent>, event: JournalEvent) -> bool {
    forall|i: int| 0 <= i < events.len() ==> (#[trigger] events[i]).seq < event.seq
}

/// A journal in which places only grow.
pub open spec fn in_order(events: Seq<JournalEvent>) -> bool {
    forall|i: int, j: int|
        0 <= i < j < events.len() ==> (#[trigger] events[i]).seq < (#[trigger] events[j]).seq
}

/// A text from the user.
pub open spec fn from_user(content: Seq<char>) -> MessageView {
    MessageView { role: "user"@, content, reasoning: None, call_id: None, calls: None }
}

/// The result of the call `id`.
pub open spec fn from_tool(id: Seq<char>, output: Seq<char>) -> MessageView {
    MessageView { role: "tool"@, content: output, reasoning: None, call_id: Some(id), calls: None }
}

/// Events that the user and the worker exchange, and that are no part of the
/// conversation.
pub open spec fn no_conversation(kind: JournalEventKind) -> bool {
    ||| kind is MessageDelta
    ||| kind is ToolCallStart
    ||| kind is ToolOutputDelta
    ||| kind is StatusChange
    ||| kind is SystemPrompt
    ||| kind is ModeChangeRequest
    ||| kind is ModeChangeRequestDeclined
    ||| kind is ContextUsage
    ||| kind is AskUserRequest
    ||| kind is PermissionRequest
    ||| kind is SubagentStarted
}

proof fn lemma_role_words()
    ensures
        ROLE_USER@ == "user"@,
        ROLE_ASSISTANT@ == "assistant"@,
        ROLE_TOOL@ == "tool"@,
        "user"@ != "assistant"@,
        "user"@ != "tool"@,
        "assistant"@ != "tool"@,
        "user"@.len() > 0,
        "tool"@.len() > 0,
        "assistant"@.len() > 0,
{
    reveal_strlit("user");
    reveal_strlit("assistant");
    reveal_strlit("tool");
    assert("user"@.len() == 4 && "assistant"@.len() == 9 && "tool"@.len() == 4);
    assert("user"@[0] == 'u' && "tool"@[0] == 't');
}

proof fn lemma_boundary_is_a_place(events: Seq<JournalEvent>)
    ensures
        boundary(events) matches Some(at) ==> exists|i: int|
            0 <= i < events.len() && (#[trigger] events[i]).seq == at,
    decreases events.len(),
{
    if events.len() > 0 {
        assert(events.last() == events[events.len() - 1]);
        if !(events.last().kind is Handoff) {
            lemma_boundary_is_a_place(events.drop_last());
            if boundary(events) is Some {
                let i = choose|i: int|
                    0 <= i < events.len() - 1 && (#[trigger] events.drop_last()[i]).seq
                        == boundary(events)->0;
                assert(events[i] == events.drop_last()[i]);
            }
        }
    }
}

proof fn lemma_reaches_the_context(events: Seq<JournalEvent>, event: JournalEvent)
    requires
        journaled_behind(events, event),
    ensures
        in_context(event, boundary(events)),
{
    lemma_boundary_is_a_place(events);
}

proof fn lemma_one_more(events: Seq<JournalEvent>, event: JournalEvent)
    requires
        journaled_behind(events, event),
        !(event.kind is Handoff),
    ensures
        boundary(events.push(event)) == boundary(events),
        context_messages(events.push(event), boundary(events)) == (match event_message(event.kind) {
            Some(m) => context_messages(events, boundary(events)).push(m),
            None => context_messages(events, boundary(events)),
        }),
{
    lemma_reaches_the_context(events, event);
    assert(events.push(event).drop_last() =~= events);
}

proof fn lemma_message_goes_behind(ms: Seq<MessageView>, m: MessageView)
    requires
        !is_tool(m),
        !(is_assistant(m) && has_calls(m)),
    ensures
        cleaned(ms.push(m)) == cleaned(ms).push(m),
{
    let one = seq![m];
    assert(ms.push(m) =~= ms + one);
    law_cleaning_goes_piece_by_piece(ms, one);
    assert(one.skip(1) =~= Seq::<MessageView>::empty());
    assert(run_length(one.skip(1)) == 0);
    assert(call_ids(m).len() == 0 || !is_assistant(m));
    if is_assistant(m) {
        assert(answered(one, 0)) by {
            assert forall|id: Seq<char>|
                #![trigger times(call_ids(one[0]), id)]
                times(call_ids(one[0]), id) <= times_answered(run_after(one, 0), id) by {}
        }
    }
    assert(cleaned(Seq::<MessageView>::empty()) =~= Seq::<MessageView>::empty());
    assert(cleaned(one) =~= one);
    assert(cleaned(ms) + one =~= cleaned(ms).push(m));
}

proof fn lemma_open_calls_wait(ms: Seq<MessageView>, m: MessageView)
    requires
        is_assistant(m),
        has_calls(m),
    ensures
        cleaned(ms.push(m)) == cleaned(ms),
{
    lemma_role_words();
    let one = seq![m];
    assert(ms.push(m) =~= ms + one);
    law_cleaning_goes_piece_by_piece(ms, one);
    assert(one.skip(1) =~= Seq::<MessageView>::empty());
    assert(run_length(one.skip(1)) == 0);
    assert(run_after(one, 0) =~= Seq::<MessageView>::empty());
    let ids = call_ids(m);
    let id = ids.last();
    assert(ids.len() > 0);
    assert(times(ids, id) > 0);
    assert(times_answered(run_after(one, 0), id) == 0);
    assert(!answered(one, 0)) by {
        assert(times(call_ids(one[0]), id) > times_answered(run_after(one, 0), id));
    }
    assert(one.skip(1 + run_length(one.skip(1)) as int) =~= Seq::<MessageView>::empty());
    assert(cleaned(Seq::<MessageView>::empty()) =~= Seq::<MessageView>::empty());
    assert(cleaned(one) =~= Seq::<MessageView>::empty());
    assert(cleaned(ms) + cleaned(one) =~= cleaned(ms));
}

// ---------------------------------------------------------------------------
// One event
// ---------------------------------------------------------------------------

/// The model is told of every change of the mode, whichever mode it is: the
/// notice stands in the context as a text from the user, at its place.
pub proof fn law_every_mode_change_is_told(events: Seq<JournalEvent>, event: JournalEvent)
    requires
        journaled_behind(events, event),
        event.kind is ModeChange,
    ensures
        rebuilt(events.push(event)) == rebuilt(events).push(
            from_user(event.kind->ModeChange_content@),
        ),
{
    lemma_role_words();
    lemma_one_more(events, event);
    let m = from_user(event.kind->ModeChange_content@);
    assert(plain_message(ROLE_USER@, event.kind->ModeChange_content@) =~= m);
    lemma_message_goes_behind(context_messages(events, boundary(events)), m);
}

/// The user's answers stand in the context as a text from the user, all of them.
pub proof fn law_every_answer_is_told(events: Seq<JournalEvent>, event: JournalEvent)
    requires
        journaled_behind(events, event),
        event.kind is AskUserAnswered,
    ensures
        rebuilt(events.push(event)) == rebuilt(events).push(
            from_user(
                match answers_json(event.kind->AskUserAnswered_answers@) {
                    Some(json) => ASK_USER_ANSWER_PREFIX@ + json,
                    None => ASK_USER_ANSWER_PREFIX@,
                },
            ),
        ),
{
    lemma_role_words();
    lemma_one_more(events, event);
    let json = answers_json(event.kind->AskUserAnswered_answers@);
    let text = match json {
        Some(json) => ASK_USER_ANSWER_PREFIX@ + json,
        None => ASK_USER_ANSWER_PREFIX@,
    };
    assert(ASK_USER_ANSWER_PREFIX@ + Seq::<char>::empty() =~= ASK_USER_ANSWER_PREFIX@);
    let m = from_user(text);
    assert(event_message(event.kind) == Some(m));
    lemma_message_goes_behind(context_messages(events, boundary(events)), m);
}

/// A decision on a single request stands in the context as a text from the
/// user: it names the tool, the operation and the path, and says what follows
/// from the verdict. A batched answer is no message: its calls are run again.
pub proof fn law_single_decisions_are_told(events: Seq<JournalEvent>, event: JournalEvent)
    requires
        journaled_behind(events, event),
        event.kind is PermissionAnswered,
    ensures
        match event.kind {
            JournalEventKind::PermissionAnswered {
                tool: Some(tool),
                operation: Some(operation),
                path: Some(path),
                allowed: Some(allowed),
                ..
            } => rebuilt(events.push(event)) == rebuilt(events).push(
                from_user(
                    if allowed {
                        PERMISSION_ANSWER_PREFIX@ + "allowed"@ + " the request "@ + tool@ + " ("@
                            + operation@ + ") on \""@ + path@ + "\"."@
                            + " Retry the tool call with the same arguments."@
                    } else {
                        PERMISSION_ANSWER_PREFIX@ + "denied"@ + " the request "@ + tool@ + " ("@
                            + operation@ + ") on \""@ + path@ + "\"."@
                            + " Do not retry this exact request; find another way or explain why you cannot proceed."@
                    },
                ),
            ),
            _ => rebuilt(events.push(event)) == rebuilt(events),
        },
{
    lemma_role_words();
    lemma_one_more(events, event);
    if let Some(m) = event_message(event.kind) {
        lemma_message_goes_behind(context_messages(events, boundary(events)), m);
    }
}

/// The calls of a journaled message.
pub open spec fn asks_for_calls(infos: Option<Vec<ToolCallInfo>>) -> bool {
    infos matches Some(infos) && infos@.len() > 0
}

/// The view of a journaled list of calls: every call, in order, as a function
/// call.
pub open spec fn views_calls(views: Option<Seq<CallView>>, infos: Option<Vec<ToolCallInfo>>) -> bool {
    match (views, infos) {
        (Some(views), Some(infos)) => views.len() == infos@.len() && forall|i: int|
            0 <= i < views.len() ==> #[trigger] views[i] == (CallView {
                id: infos@[i].id@,
                kind: "function"@,
                name: infos@[i].name@,
                arguments: infos@[i].arguments@,
            }),
        (None, None) => true,
        _ => false,
    }
}

/// A journaled message comes back as it was said, at its place; a missing role
/// is the model's. One that asks for tool calls waits for their results: alone
/// it is left out.
pub proof fn law_every_message_comes_back(events: Seq<JournalEvent>, event: JournalEvent)
    requires
        journaled_behind(events, event),
        event.kind is Message,
        event.kind->Message_0.role@ != "tool"@,
    ensures
        ({
            let said = event.kind->Message_0;
            let from_model = said.role@.len() == 0 || said.role@ == "assistant"@;
            let next = rebuilt(events.push(event));
            if from_model && asks_for_calls(said.tool_calls) {
                next == rebuilt(events)
            } else {
                &&& next.len() == rebuilt(events).len() + 1
                &&& next.drop_last() == rebuilt(events)
                &&& next.last().role == (if said.role@.len() == 0 {
                    "assistant"@
                } else {
                    said.role@
                })
                &&& next.last().content == said.content@
                &&& next.last().reasoning == opt_text(said.reasoning_content)
                &&& next.last().call_id == opt_text(said.tool_call_id)
                &&& views_calls(next.last().calls, said.tool_calls)
            }
        }),
{
    lemma_role_words();
    lemma_one_more(events, event);
    let said = event.kind->Message_0;
    let m = crate::chat::restored(said);
    assert(event_message(event.kind) == Some(m));
    let ms = context_messages(events, boundary(events));
    if is_assistant(m) && has_calls(m) {
        lemma_open_calls_wait(ms, m);
    } else {
        lemma_message_goes_behind(ms, m);
        assert(cleaned(ms).push(m).drop_last() =~= cleaned(ms));
    }
}

/// What is no part of the conversation never shows in the context, wherever it
/// stands in the journal.
pub proof fn law_metadata_never_shows(
    before: Seq<JournalEvent>,
    event: JournalEvent,
    later: Seq<JournalEvent>,
)
    requires
        no_conversation(event.kind),
    ensures
        rebuilt(before.push(event) + later) == rebuilt(before + later),
{
    lemma_left_out(before, event, later, boundary(before.push(event) + later));
}

proof fn lemma_left_out(
    before: Seq<JournalEvent>,
    event: JournalEvent,
    later: Seq<JournalEvent>,
    from: Option<u64>,
)
    requires
        no_conversation(event.kind),
    ensures
        boundary(before.push(event) + later) == boundary(before + later),
        context_messages(before.push(event) + later, from) == context_messages(
            before + later,
            from,
        ),
    decreases later.len(),
{
    let all = before.push(event) + later;
    if later.len() == 0 {
        assert(all =~= before.push(event));
        assert(before + later =~= before);
        assert(all.drop_last() =~= before);
        assert(event_message(event.kind) is None);
    } else {
        assert(all.drop_last() =~= before.push(event) + later.drop_last());
        assert((before + later).drop_last() =~= before + later.drop_last());
        assert(all.last() == later.last() && (before + later).last() == later.last());
        lemma_left_out(before, event, later.drop_last(), from);
    }
}

/// The last system prompt and the last reported context length count, and
/// nothing else changes either.
pub proof fn law_prompt_and_length_are_the_last_ones(
    events: Seq<JournalEvent>,
    event: JournalEvent,
)
    requires
        journaled_behind(events, event),
        !(event.kind is Handoff),
    ensures
        context_prompt(events.push(event), boundary(events.push(event))) == (match event.kind {
            JournalEventKind::SystemPrompt { content, .. } => Some(content@),
            _ => context_prompt(events, boundary(events)),
        }),
        context_tokens(events.push(event), boundary(events.push(event))) == (match event.kind {
            JournalEventKind::ContextUsage { tokens, .. } => Some(tokens),
            _ => context_tokens(events, boundary(events)),
        }),
{
    lemma_one_more(events, event);
    lemma_reaches_the_context(events, event);
    assert(events.push(event).drop_last() =~= events);
}

/// A handoff starts the context afresh: it is its only message, and neither a
/// system prompt nor a context length is known.
pub proof fn law_handoff_is_the_only_message(events: Seq<JournalEvent>, event: JournalEvent)
    requires
        journaled_behind(events, event),
        event.kind is Handoff,
    ensures
        rebuilt(events.push(event)) == seq![
            from_user(HANDOFF_USER_PREFIX@ + event.kind->Handoff_content@),
        ],
        context_prompt(events.push(event), boundary(events.push(event))) is None,
        context_tokens(events.push(event), boundary(events.push(event))) is None,
{
    lemma_role_words();
    let all = events.push(event);
    assert(all.drop_last() =~= events);
    assert(boundary(all) == Some(event.seq));
    lemma_nothing_before(events, event.seq);
    let m = from_user(HANDOFF_USER_PREFIX@ + event.kind->Handoff_content@);
    assert(context_messages(all, Some(event.seq)) == context_messages(
        events,
        Some(event.seq),
    ).push(m));
    lemma_message_goes_behind(Seq::empty(), m);
    assert(cleaned(Seq::<MessageView>::empty()) =~= Seq::<MessageView>::empty());
    assert(rebuilt(all) =~= seq![m]);
}

proof fn lemma_nothing_before(events: Seq<JournalEvent>, at: u64)
    requires
        forall|i: int| 0 <= i < events.len() ==> (#[trigger] events[i]).seq < at,
    ensures
        context_messages(events, Some(at)) == Seq::<MessageView>::empty(),
        context_prompt(events, Some(at)) is None,
        context_tokens(events, Some(at)) is None,
    decreases events.len(),
{
    if events.len() > 0 {
        assert(events.last() == events[events.len() - 1]);
        lemma_nothing_before(events.drop_last(), at);
    }
}

// ---------------------------------------------------------------------------
// A round of tool calls
// ---------------------------------------------------------------------------

proof fn lemma_results_in_context(
    past: Seq<JournalEvent>,
    events: Seq<JournalEvent>,
    results: Seq<(String, String)>,
    from: Option<u64>,
)
    requires
        events.len() == results.len(),
        from == boundary(past),
        forall|j: int|
            0 <= j < events.len() ==> journaled_behind(past, #[trigger] events[j]) && (
            events[j].kind matches JournalEventKind::ToolResult { id, output, .. } && id@
                == results[j].0@ && output@ == results[j].1@),
    ensures
        context_messages(events, from) == result_messages(results),
    decreases events.len(),
{
    if events.len() == 0 {
        assert(context_messages(events, from) =~= result_messages(results));
    } else {
        let n = events.len() - 1;
        let e = events[n];
        assert forall|j: int| 0 <= j < n implies journaled_behind(
            past,
            #[trigger] events.drop_last()[j],
        ) && (events.drop_last()[j].kind matches JournalEventKind::ToolResult { id, output, .. }
            && id@ == results.drop_last()[j].0@ && output@ == results.drop_last()[j].1@) by {
            assert(events.drop_last()[j] == events[j]);
        }
        lemma_results_in_context(past, events.drop_last(), results.drop_last(), from);
        lemma_reaches_the_context(past, e);
        assert(result_messages(results) =~= result_messages(results.drop_last()).push(
            tool_message_view(results[n].0@, results[n].1@),
        ));
    }
}

/// Once every call of a reply has its result in the journal, in whichever order
/// they came in, the resumed context holds the reply and then one result per
/// call, in the order of the calls: each result is the journaled output of its
/// call.
pub proof fn law_results_come_back_in_call_order(
    past: Seq<JournalEvent>,
    reply: JournalEvent,
    events: Seq<JournalEvent>,
    results: Seq<(String, String)>,
)
    requires
        in_order(past.push(reply) + events),
        reply.kind is Message,
        reply.kind->Message_0.role@.len() == 0 || reply.kind->Message_0.role@ == "assistant"@,
        asks_for_calls(reply.kind->Message_0.tool_calls),
        events.len() == results.len(),
        forall|j: int|
            0 <= j < events.len() ==> ((#[trigger] events[j]).kind matches
                JournalEventKind::ToolResult { id, output, .. } && id@ == results[j].0@ && output@
                == results[j].1@),
        one_result_each(
            reply.kind->Message_0.tool_calls->0@.map_values(|c: ToolCallInfo| c.id@),
            results,
        ),
    ensures
        ({
            let calls = reply.kind->Message_0.tool_calls->0@;
            let before = rebuilt(past);
            let after = rebuilt(past.push(reply) + events);
            &&& after.len() == before.len() + 1 + calls.len()
            &&& after.take(before.len() as int) == before
            &&& after[before.len() as int].role == "assistant"@
            &&& after[before.len() as int].content == reply.kind->Message_0.content@
            &&& views_calls(after[before.len() as int].calls, reply.kind->Message_0.tool_calls)
            &&& forall|k: int, j: int|
                #![trigger calls[k], results[j]]
                0 <= k < calls.len() && 0 <= j < results.len() && results[j].0@ == calls[k].id@
                    ==> after[before.len() + 1 + k] == from_tool(calls[k].id@, results[j].1@)
        }),
{
    lemma_role_words();
    let all = past.push(reply) + events;
    let more = seq![reply] + events;
    let from = boundary(past);
    let m = crate::chat::restored(reply.kind->Message_0);
    let calls = reply.kind->Message_0.tool_calls->0@;
    assert(journaled_behind(past, reply)) by {
        assert forall|i: int| 0 <= i < past.len() implies (#[trigger] past[i]).seq < reply.seq by {
            assert(all[i] == past[i] && all[past.len() as int] == reply);
        }
    }
    assert forall|j: int| 0 <= j < events.len() implies journaled_behind(
        past,
        #[trigger] events[j],
    ) by {
        assert forall|i: int| 0 <= i < past.len() implies (#[trigger] past[i]).seq
            < events[j].seq by {
            assert(all[i] == past[i] && all[past.len() + 1 + j] == events[j]);
        }
    }
    lemma_reaches_the_context(past, reply);
    lemma_results_in_context(past, events, results, from);
    lemma_messages_go_on(seq![reply], events, from);
    assert(seq![reply].drop_last() =~= Seq::<JournalEvent>::empty());
    assert(context_messages(Seq::<JournalEvent>::empty(), from) =~= Seq::<MessageView>::empty());
    assert(event_message(reply.kind) == Some(m));
    assert(context_messages(seq![reply], from) =~= seq![m]);
    assert(past + more =~= all);
    assert(call_ids(m) =~= calls.map_values(|c: ToolCallInfo| c.id@));
    assert forall|i: int| 0 <= i < more.len() implies !((#[trigger] more[i]).kind is Handoff) by {
        if i > 0 {
            assert(more[i] == events[i - 1]);
        }
    }
    law_resumed_session_sees_what_the_running_one_saw(past, more, m, results);
    assert(one_output_each(results)) by {
        assert forall|i: int, j: int| 0 <= i < j < results.len() implies (#[trigger] results[i]).0@
            != (#[trigger] results[j]).0@ by {
            assert(result_ids(results)[i] != result_ids(results)[j]);
        }
    }
    let before = rebuilt(past);
    let after = rebuilt(all);
    assert(after.take(before.len() as int) =~= before);
    assert forall|k: int, j: int|
        #![trigger calls[k], results[j]]
        0 <= k < calls.len() && 0 <= j < results.len() && results[j].0@ == calls[k].id@ implies after[
    before.len() + 1 + k] == from_tool(calls[k].id@, results[j].1@) by {
        lemma_output_found(results, j);
        assert(after[before.len() + 1 + k] == tool_message_view(
            m.calls->0[k].id,
            crate::agent::output_for(results, m.calls->0[k].id),
        ));
    }
}

/// Every result of a tool is one message at its place, whatever the tool and
/// however the call ended; and so are the answers of the user and every message.
pub proof fn law_every_result_is_one_message(events: Seq<JournalEvent>, event: JournalEvent)
    requires
        journaled_behind(events, event),
    ensures
        ({
            let before = context_messages(events, boundary(events));
            let after = context_messages(events.push(event), boundary(events.push(event)));
            &&& event.kind is ToolResult ==> after == before.push(
                from_tool(event.kind->ToolResult_id@, event.kind->ToolResult_output@),
            )
            &&& event.kind is ModeChange ==> after == before.push(
                from_user(event.kind->ModeChange_content@),
            )
            &&& event.kind is Message ==> after.len() == before.len() + 1 && after.drop_last()
                == before && after.last().content == event.kind->Message_0.content@
            &&& event.kind is AskUserAnswered ==> after.len() == before.len() + 1
                && after.drop_last() == before && after.last().role == "user"@
        }),
{
    lemma_role_words();
    if !(event.kind is Handoff) {
        lemma_one_more(events, event);
        let before = context_messages(events, boundary(events));
        if let Some(m) = event_message(event.kind) {
            assert(before.push(m).drop_last() =~= before);
        }
    }
}

proof fn lemma_unanswered(run: Seq<MessageView>, id: Seq<char>)
    requires
        forall|j: int| 0 <= j < run.len() ==> (#[trigger] run[j]).call_id != Some(id),
    ensures
        times_answered(run, id) == 0,
    decreases run.len(),
{
    if run.len() > 0 {
        let rest = run.drop_last();
        assert(run[run.len() - 1].call_id != Some(id));
        assert forall|j: int| 0 <= j < rest.len() implies (#[trigger] rest[j]).call_id != Some(
            id,
        ) by {
            assert(rest[j] == run[j]);
        }
        lemma_unanswered(rest, id);
    }
}

proof fn lemma_occurs(ids: Seq<Seq<char>>, k: int)
    requires
        0 <= k < ids.len(),
    ensures
        times(ids, ids[k]) > 0,
    decreases ids.len(),
{
    if k < ids.len() - 1 {
        assert(ids.drop_last()[k] == ids[k]);
        lemma_occurs(ids.drop_last(), k);
    }
}

/// A reply with a call that no result answers is left out, and the results that
/// it did get with it; what follows them stays.
pub proof fn law_a_broken_round_is_left_out(
    m: MessageView,
    run: Seq<MessageView>,
    rest: Seq<MessageView>,
    k: int,
)
    requires
        m.role == "assistant"@,
        m.calls is Some,
        0 <= k < m.calls->0.len(),
        forall|i: int| 0 <= i < run.len() ==> (#[trigger] run[i]).role == "tool"@,
        rest.len() == 0 || rest[0].role != "tool"@,
        forall|j: int| 0 <= j < run.len() ==> (#[trigger] run[j]).call_id != Some(m.calls->0[k].id),
    ensures
        cleaned(seq![m] + run + rest) == cleaned(rest),
{
    lemma_role_words();
    let ms = seq![m] + run + rest;
    crate::history_laws::lemma_head_run(m, run, rest);
    let ids = call_ids(m);
    assert(ids[k] == m.calls->0[k].id);
    lemma_occurs(ids, k);
    lemma_unanswered(run, ids[k]);
    assert(ms[0] == m);
    assert(!answered(ms, 0)) by {
        assert(times(call_ids(ms[0]), ids[k]) > times_answered(run_after(ms, 0), ids[k]));
    }
}

/// Every other message stays where it is: what the user says, and what the model
/// says without asking for calls.
pub proof fn law_plain_messages_stay(m: MessageView, rest: Seq<MessageView>)
    requires
        m.role != "assistant"@ || m.calls is None || m.calls->0.len() == 0,
    ensures
        cleaned(seq![m] + rest) == seq![m] + cleaned(rest),
{
    lemma_role_words();
    let ms = seq![m] + rest;
    assert(ms[0] == m);
    assert(ms.skip(1) =~= rest);
    if is_assistant(m) {
        assert(call_ids(m).len() == 0);
        assert(answered(ms, 0)) by {
            assert forall|id: Seq<char>|
                #![trigger times(call_ids(ms[0]), id)]
                times(call_ids(ms[0]), id) <= times_answered(run_after(ms, 0), id) by {}
        }
    }
}

/// A result answers one call: where two calls have the same id, it takes two
/// results under it. A reply is answered when no id is called more often than
/// it has results.
pub proof fn law_each_result_answers_one_call(
    ms: Seq<MessageView>,
    i: int,
    ids: Seq<Seq<char>>,
    run: Seq<MessageView>,
    m: MessageView,
    id: Seq<char>,
    other: Seq<char>,
)
    requires
        0 <= i < ms.len(),
        other != id,
    ensures
        times(ids.push(id), id) == times(ids, id) + 1,
        times(ids.push(other), id) == times(ids, id),
        times(Seq::empty(), id) == 0,
        m.call_id == Some(id) ==> times_answered(run.push(m), id) == times_answered(run, id) + 1,
        m.call_id != Some(id) ==> times_answered(run.push(m), id) == times_answered(run, id),
        times_answered(Seq::empty(), id) == 0,
        times(call_ids(ms[i]), id) > times_answered(run_after(ms, i), id) ==> !answered(ms, i),
{
    assert(ids.push(id).drop_last() =~= ids);
    assert(ids.push(other).drop_last() =~= ids);
    assert(run.push(m).drop_last() =~= run);
}

} // verus!
