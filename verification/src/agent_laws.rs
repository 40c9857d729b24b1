//! What holds of the agent loop whatever the model, the tools and the user do.
use vstd::prelude::*;
use vstd::string::*;

use crate::agent::{
    after_round, answers, completed, holds, is_later_result, last_batch_answer, opened, output_for,
    requested_items, resumable, running, unfinished, NO_RESULT,
};
use crate::chat::{
    plain_message, tool_message_view, CallView, MessageView, ToolCall, ROLE_ASSISTANT, ROLE_SYSTEM,
    ROLE_TOOL,
};
use crate::history::{
    answered, boundary, call_ids, cleaned, context_messages, from_rank, has_calls, ids_of_calls,
    is_assistant, is_tool, lemma_run_bound, ordered, place, rank, rebuilt, run_after, run_length,
    times, times_answered, with_rank,
};
use crate::history_laws::{law_no_dangling_calls, lemma_head_run, lemma_run_shift};
use crate::journal::{JournalEvent, JournalEventKind, PermissionRequestItem};

verus! {

proof fn lemma_role_lengths()
    ensures
        ROLE_ASSISTANT@ != ROLE_TOOL@,
        ROLE_ASSISTANT@ != ROLE_SYSTEM@,
{
    reveal_strlit("assistant");
    reveal_strlit("tool");
    reveal_strlit("system");
    assert(ROLE_ASSISTANT@.len() == 9);
    assert(ROLE_TOOL@.len() == 4);
    assert(ROLE_SYSTEM@.len() == 6);
}

/// Every call of every reply in the context is answered right behind it: what
/// a model API asks of a request.
pub open spec fn all_answered(ms: Seq<MessageView>) -> bool {
    forall|i: int| 0 <= i < ms.len() && is_assistant(#[trigger] ms[i]) ==> answered(ms, i)
}

/// A conversation opens with every call answered.
pub proof fn law_opened_context_is_answered(prompt: Seq<char>, ms: Seq<MessageView>)
    ensures
        all_answered(opened(prompt, cleaned(ms))),
{
    lemma_role_lengths();
    let c = cleaned(ms);
    let p = seq![plain_message(ROLE_SYSTEM@, prompt)];
    let all = opened(prompt, c);
    assert(all == p + c);
    assert forall|i: int| 0 <= i < all.len() && is_assistant(#[trigger] all[i]) implies answered(
        all,
        i,
    ) by {
        if i > 0 {
            lemma_run_shift(p, c, i - 1);
            law_no_dangling_calls(ms, i - 1);
        }
    }
}

proof fn lemma_more_answers(run: Seq<MessageView>, more: Seq<MessageView>, id: Seq<char>)
    ensures
        times_answered(run, id) <= times_answered(run + more, id),
    decreases more.len(),
{
    if more.len() == 0 {
        assert(run + more =~= run);
    } else {
        assert((run + more).drop_last() =~= run + more.drop_last());
        lemma_more_answers(run, more.drop_last(), id);
    }
}

proof fn lemma_answered_extends(ms: Seq<MessageView>, more: Seq<MessageView>, i: int)
    requires
        0 <= i < ms.len(),
        answered(ms, i),
    ensures
        answered(ms + more, i),
{
    let all = ms + more;
    let tail = ms.skip(i + 1);
    let longer = all.skip(i + 1);
    lemma_run_bound(tail);
    lemma_run_bound(longer);
    let n = run_length(tail) as int;
    let k = run_length(longer) as int;
    if k < n {
        assert(longer[k] == tail[k]);
        assert(is_tool(tail[k]));
    }
    let run = run_after(ms, i);
    let next = run_after(all, i);
    assert(next =~= run + next.skip(n)) by {
        assert forall|j: int| 0 <= j < n implies next[j] == run[j] by {
            assert(next[j] == all[i + 1 + j]);
        }
    }
    assert(all[i] == ms[i]);
    assert forall|id: Seq<char>|
        #![trigger times(call_ids(all[i]), id)]
        times(call_ids(all[i]), id) <= times_answered(next, id) by {
        assert(times(call_ids(ms[i]), id) <= times_answered(run, id));
        lemma_more_answers(run, next.skip(n), id);
    }
}

proof fn lemma_answers_answer(calls: Seq<CallView>, results: Seq<(String, String)>, id: Seq<char>)
    ensures
        times_answered(answers(calls, results), id) == times(ids_of_calls(calls), id),
    decreases calls.len(),
{
    let ids = ids_of_calls(calls);
    let ms = answers(calls, results);
    if calls.len() > 0 {
        lemma_answers_answer(calls.drop_last(), results, id);
        assert(ms.drop_last() =~= answers(calls.drop_last(), results));
        assert(ids.drop_last() =~= ids_of_calls(calls.drop_last()));
        assert(ids.last() == calls.last().id);
    }
}

/// A round of tool calls leaves every call answered, whichever of the calls
/// produced a result.
pub proof fn law_round_leaves_calls_answered(
    ms: Seq<MessageView>,
    assistant: MessageView,
    results: Seq<(String, String)>,
)
    requires
        all_answered(ms),
    ensures
        all_answered(after_round(ms, assistant, results)),
{
    lemma_role_lengths();
    let tools = match assistant.calls {
        Some(calls) => answers(calls, results),
        None => Seq::empty(),
    };
    let all = after_round(ms, assistant, results);
    let more = seq![assistant] + tools;
    assert(all =~= ms + more);
    assert forall|i: int| 0 <= i < all.len() && is_assistant(#[trigger] all[i]) implies answered(
        all,
        i,
    ) by {
        if i < ms.len() {
            assert(all[i] == ms[i]);
            lemma_answered_extends(ms, more, i);
        } else if i == ms.len() {
            assert(all[i] == assistant);
            assert forall|j: int| 0 <= j < tools.len() implies is_tool(#[trigger] tools[j]) by {}
            lemma_head_run(assistant, tools, Seq::empty());
            assert(more + Seq::<MessageView>::empty() =~= more);
            assert(run_after(more, 0) == tools);
            assert(answered(more, 0)) by {
                assert(more[0] == assistant);
                assert forall|id: Seq<char>|
                    #![trigger times(call_ids(more[0]), id)]
                    times(call_ids(more[0]), id) <= times_answered(run_after(more, 0), id) by {
                    if let Some(calls) = assistant.calls {
                        lemma_answers_answer(calls, results, id);
                    }
                }
            }
            lemma_run_shift(ms, more, 0);
        } else {
            assert(all[i] == tools[i - ms.len() - 1]);
            assert(is_tool(all[i]));
        }
    }
}

/// The system prompt stays in front.
pub proof fn law_round_keeps_the_front(
    ms: Seq<MessageView>,
    assistant: MessageView,
    results: Seq<(String, String)>,
)
    requires
        ms.len() > 0,
    ensures
        after_round(ms, assistant, results)[0] == ms[0],
{
}

/// Every call has at most one output.
pub open spec fn one_output_each(results: Seq<(String, String)>) -> bool {
    forall|i: int, j: int|
        0 <= i < j < results.len() ==> (#[trigger] results[i]).0@ != (#[trigger] results[j]).0@
}

proof fn lemma_output_missing(results: Seq<(String, String)>, id: Seq<char>)
    requires
        forall|i: int| 0 <= i < results.len() ==> (#[trigger] results[i]).0@ != id,
    ensures
        output_for(results, id) == NO_RESULT@,
    decreases results.len(),
{
    if results.len() > 0 {
        assert(results.last() == results[results.len() - 1]);
        lemma_output_missing(results.drop_last(), id);
    }
}

/// A call gets the output that came in under its id.
pub proof fn lemma_output_found(results: Seq<(String, String)>, i: int)
    requires
        one_output_each(results),
        0 <= i < results.len(),
    ensures
        output_for(results, results[i].0@) == results[i].1@,
    decreases results.len(),
{
    if i < results.len() - 1 {
        assert(results.last() == results[results.len() - 1]);
        assert(results.drop_last()[i] == results[i]);
        lemma_output_found(results.drop_last(), i);
    }
}

/// After a round the context is the one before, the reply, and one result per
/// call in the order of the calls: the output that came in under the id of the
/// call, or a note where none did.
pub proof fn law_each_call_is_answered_by_its_output(
    ms: Seq<MessageView>,
    assistant: MessageView,
    results: Seq<(String, String)>,
)
    requires
        one_output_each(results),
        assistant.calls is Some,
    ensures
        ({
            let calls = assistant.calls->0;
            let after = after_round(ms, assistant, results);
            &&& after.len() == ms.len() + 1 + calls.len()
            &&& after.take(ms.len() as int) == ms
            &&& after[ms.len() as int] == assistant
            &&& forall|k: int|
                #![trigger calls[k]]
                0 <= k < calls.len() ==> ({
                    let m = after[ms.len() + 1 + k];
                    &&& m.role == "tool"@
                    &&& m.call_id == Some(calls[k].id)
                    &&& m.reasoning is None
                    &&& m.calls is None
                    &&& forall|j: int|
                        0 <= j < results.len() && (#[trigger] results[j]).0@ == calls[k].id
                            ==> m.content == results[j].1@
                    &&& (forall|j: int|
                        0 <= j < results.len() ==> (#[trigger] results[j]).0@ != calls[k].id)
                        ==> m.content == "[tool call failed to produce a result]"@
                })
        }),
{
    let calls = assistant.calls->0;
    let after = after_round(ms, assistant, results);
    assert(after.take(ms.len() as int) =~= ms);
    assert forall|k: int| #![trigger calls[k]] 0 <= k < calls.len() implies ({
        let m = after[ms.len() + 1 + k];
        &&& m.role == "tool"@
        &&& m.call_id == Some(calls[k].id)
        &&& m.reasoning is None
        &&& m.calls is None
        &&& forall|j: int|
            0 <= j < results.len() && (#[trigger] results[j]).0@ == calls[k].id ==> m.content
                == results[j].1@
        &&& (forall|j: int| 0 <= j < results.len() ==> (#[trigger] results[j]).0@ != calls[k].id)
            ==> m.content == "[tool call failed to produce a result]"@
    }) by {
        let m = after[ms.len() + 1 + k];
        assert(m == tool_message_view(calls[k].id, output_for(results, calls[k].id)));
        assert forall|j: int|
            0 <= j < results.len() && (#[trigger] results[j]).0@ == calls[k].id implies m.content
            == results[j].1@ by {
            lemma_output_found(results, j);
        }
        if forall|j: int| 0 <= j < results.len() ==> (#[trigger] results[j]).0@ != calls[k].id {
            lemma_output_missing(results, calls[k].id);
        }
    }
}

/// The context is the same in whichever order the calls finish.
pub proof fn law_round_ignores_completion_order(
    ms: Seq<MessageView>,
    assistant: MessageView,
    a: Seq<(String, String)>,
    b: Seq<(String, String)>,
)
    requires
        one_output_each(a),
        one_output_each(b),
        forall|r: (String, String)| a.contains(r) <==> b.contains(r),
    ensures
        after_round(ms, assistant, a) == after_round(ms, assistant, b),
{
    assert forall|id: Seq<char>| output_for(a, id) == output_for(b, id) by {
        if exists|i: int| 0 <= i < a.len() && (#[trigger] a[i]).0@ == id {
            let i = choose|i: int| 0 <= i < a.len() && (#[trigger] a[i]).0@ == id;
            assert(a.contains(a[i]));
            let j = choose|j: int| 0 <= j < b.len() && b[j] == a[i];
            lemma_output_found(a, i);
            lemma_output_found(b, j);
        } else {
            assert forall|j: int| 0 <= j < b.len() implies (#[trigger] b[j]).0@ != id by {
                assert(b.contains(b[j]));
                let i = choose|i: int| 0 <= i < a.len() && a[i] == b[j];
                assert(a[i].0@ != id);
            }
            lemma_output_missing(a, id);
            lemma_output_missing(b, id);
        }
    }
    if let Some(calls) = assistant.calls {
        assert(answers(calls, a) =~= answers(calls, b));
    }
}

// ---------------------------------------------------------------------------
// The journal gives the round back
// ---------------------------------------------------------------------------

/// The results of a round as the journal gives them back: in completion order.
pub open spec fn result_messages(results: Seq<(String, String)>) -> Seq<MessageView> {
    results.map_values(|r: (String, String)| tool_message_view(r.0@, r.1@))
}

/// The call `id` has a result.
pub open spec fn result_given(results: Seq<(String, String)>, id: Seq<char>) -> bool {
    exists|j: int| 0 <= j < results.len() && (#[trigger] results[j]).0@ == id
}

/// One of the ids is `id`.
pub open spec fn id_made(ids: Seq<Seq<char>>, id: Seq<char>) -> bool {
    exists|k: int| 0 <= k < ids.len() && #[trigger] ids[k] == id
}

/// No two ids are the same.
pub open spec fn distinct(ids: Seq<Seq<char>>) -> bool {
    forall|i: int, j: int| 0 <= i < j < ids.len() ==> #[trigger] ids[i] != #[trigger] ids[j]
}

/// The ids of the results.
pub open spec fn result_ids(results: Seq<(String, String)>) -> Seq<Seq<char>> {
    results.map_values(|r: (String, String)| r.0@)
}

/// Each call has exactly one result, and each result is one of a call.
pub open spec fn one_result_each(ids: Seq<Seq<char>>, results: Seq<(String, String)>) -> bool {
    &&& distinct(ids)
    &&& distinct(result_ids(results))
    &&& forall|k: int| 0 <= k < ids.len() ==> #[trigger] result_given(results, ids[k])
    &&& all_made(ids, results)
}

/// Each result is one of a call.
pub open spec fn all_made(ids: Seq<Seq<char>>, results: Seq<(String, String)>) -> bool {
    forall|j: int| 0 <= j < results.len() ==> #[trigger] id_made(ids, results[j].0@)
}

proof fn lemma_place_of(ids: Seq<Seq<char>>, k: int)
    requires
        0 <= k < ids.len(),
        distinct(ids),
    ensures
        place(ids, ids[k]) == k,
    decreases ids.len(),
{
    if k > 0 {
        let rest = ids.drop_first();
        assert(rest[k - 1] == ids[k]);
        assert(distinct(rest));
        lemma_place_of(rest, k - 1);
        assert(ids[0] != ids[k]);
    }
}

proof fn lemma_shorter(ids: Seq<Seq<char>>, results: Seq<(String, String)>)
    requires
        results.len() > 0,
        distinct(result_ids(results)),
        all_made(ids, results),
    ensures
        distinct(result_ids(results.drop_last())),
        all_made(ids, results.drop_last()),
        result_messages(results).drop_last() == result_messages(results.drop_last()),
        result_messages(results).last() == tool_message_view(
            results.last().0@,
            results.last().1@,
        ),
        id_made(ids, results.last().0@),
{
    let d = results.drop_last();
    assert(result_messages(results).drop_last() =~= result_messages(d));
    assert(result_ids(d) =~= result_ids(results).drop_last());
    assert forall|j: int| 0 <= j < d.len() implies #[trigger] id_made(ids, d[j].0@) by {
        assert(id_made(ids, results[j].0@));
    }
    assert(id_made(ids, results[results.len() - 1].0@));
}

proof fn lemma_results_with_rank(ids: Seq<Seq<char>>, results: Seq<(String, String)>, k: int)
    requires
        0 <= k < ids.len(),
        distinct(ids),
        distinct(result_ids(results)),
        all_made(ids, results),
    ensures
        with_rank(result_messages(results), ids, k as nat) == (if result_given(results, ids[k]) {
            seq![tool_message_view(ids[k], output_for(results, ids[k]))]
        } else {
            Seq::empty()
        }),
    decreases results.len(),
{
    let ms = result_messages(results);
    if results.len() > 0 {
        let d = results.drop_last();
        let last = results.last();
        lemma_shorter(ids, results);
        lemma_results_with_rank(ids, d, k);
        let q = choose|q: int| 0 <= q < ids.len() && #[trigger] ids[q] == last.0@;
        lemma_place_of(ids, q);
        assert(rank(ms.last(), ids) == q);
        if q == k {
            assert(results[results.len() - 1].0@ == ids[k]);
            assert(result_given(results, ids[k]));
            assert(!result_given(d, ids[k])) by {
                if result_given(d, ids[k]) {
                    let j = choose|j: int| 0 <= j < d.len() && (#[trigger] d[j]).0@ == ids[k];
                    assert(result_ids(results)[j] == results[j].0@);
                    assert(result_ids(results)[results.len() - 1] == last.0@);
                }
            }
            assert(with_rank(ms, ids, k as nat) =~= seq![
                tool_message_view(ids[k], output_for(results, ids[k])),
            ]);
        } else {
            assert(last.0@ != ids[k]);
            assert(result_given(results, ids[k]) == result_given(d, ids[k])) by {
                if result_given(results, ids[k]) {
                    let j = choose|j: int|
                        0 <= j < results.len() && (#[trigger] results[j]).0@ == ids[k];
                    assert(d[j] == results[j]);
                }
                if result_given(d, ids[k]) {
                    let j = choose|j: int| 0 <= j < d.len() && (#[trigger] d[j]).0@ == ids[k];
                    assert(results[j].0@ == ids[k]);
                }
            }
        }
    }
}

proof fn lemma_no_strays(ids: Seq<Seq<char>>, results: Seq<(String, String)>)
    requires
        distinct(ids),
        distinct(result_ids(results)),
        all_made(ids, results),
    ensures
        with_rank(result_messages(results), ids, ids.len()) == Seq::<MessageView>::empty(),
    decreases results.len(),
{
    if results.len() > 0 {
        lemma_shorter(ids, results);
        lemma_no_strays(ids, results.drop_last());
        let q = choose|q: int| 0 <= q < ids.len() && #[trigger] ids[q] == results.last().0@;
        lemma_place_of(ids, q);
    }
}

proof fn lemma_results_in_order(calls: Seq<CallView>, results: Seq<(String, String)>, k: nat)
    requires
        one_result_each(ids_of_calls(calls), results),
        k <= calls.len(),
    ensures
        from_rank(result_messages(results), ids_of_calls(calls), k) == answers(
            calls,
            results,
        ).skip(k as int),
    decreases calls.len() - k,
{
    let ids = ids_of_calls(calls);
    let ms = result_messages(results);
    let all = answers(calls, results);
    if k == calls.len() {
        lemma_no_strays(ids, results);
        assert(from_rank(ms, ids, k + 1) =~= Seq::<MessageView>::empty());
        assert(from_rank(ms, ids, k) =~= all.skip(k as int));
    } else {
        lemma_results_in_order(calls, results, k + 1);
        lemma_results_with_rank(ids, results, k as int);
        assert(result_given(results, ids[k as int]));
        assert(with_rank(ms, ids, k) == seq![all[k as int]]);
        assert(from_rank(ms, ids, k) =~= all.skip(k as int));
    }
}

proof fn lemma_times_distinct(ids: Seq<Seq<char>>, id: Seq<char>)
    requires
        distinct(ids),
    ensures
        times(ids, id) <= 1,
        times(ids, id) == 1 ==> id_made(ids, id),
    decreases ids.len(),
{
    if ids.len() > 0 {
        let d = ids.drop_last();
        assert(distinct(d));
        lemma_times_distinct(d, id);
        if times(d, id) == 1 {
            let i = choose|i: int| 0 <= i < d.len() && #[trigger] d[i] == id;
            assert(ids[i] == id);
            assert(ids[i] != ids[ids.len() - 1]);
        }
        if ids.last() == id {
            assert(ids[ids.len() - 1] == id);
        }
    }
}

proof fn lemma_result_counts(results: Seq<(String, String)>, j: int)
    requires
        0 <= j < results.len(),
    ensures
        times_answered(result_messages(results), results[j].0@) >= 1,
    decreases results.len(),
{
    let ms = result_messages(results);
    let d = results.drop_last();
    assert(ms.drop_last() =~= result_messages(d));
    assert(ms.last() == tool_message_view(results.last().0@, results.last().1@));
    if j < results.len() - 1 {
        assert(d[j] == results[j]);
        lemma_result_counts(d, j);
    }
}

proof fn lemma_run_before(a: Seq<MessageView>, b: Seq<MessageView>)
    requires
        b.len() == 0 || !is_tool(b[0]),
    ensures
        run_length(a + b) == run_length(a),
    decreases a.len(),
{
    if a.len() == 0 {
        assert(a + b =~= b);
    } else {
        assert((a + b)[0] == a[0]);
        assert((a + b).drop_first() =~= a.drop_first() + b);
        lemma_run_before(a.drop_first(), b);
    }
}

/// What follows a run of results does not change how the context before it is
/// cleaned.
pub proof fn law_cleaning_goes_piece_by_piece(a: Seq<MessageView>, b: Seq<MessageView>)
    requires
        b.len() == 0 || !is_tool(b[0]),
    ensures
        cleaned(a + b) == cleaned(a) + cleaned(b),
    decreases a.len(),
{
    if a.len() == 0 {
        assert(a + b =~= b);
        assert(cleaned(a) + cleaned(b) =~= cleaned(b));
    } else {
        let all = a + b;
        let m = a[0];
        lemma_run_bound(a.skip(1));
        assert(all.skip(1) =~= a.skip(1) + b);
        lemma_run_before(a.skip(1), b);
        let n = run_length(a.skip(1)) as int;
        assert(run_after(all, 0) =~= run_after(a, 0));
        assert(all[0] == m);
        assert(answered(all, 0) == answered(a, 0));
        assert(all.skip(1 + n) =~= a.skip(1 + n) + b);
        law_cleaning_goes_piece_by_piece(a.skip(1 + n), b);
        law_cleaning_goes_piece_by_piece(a.skip(1), b);
        assert(cleaned(all) =~= cleaned(a) + cleaned(b));
    }
}

/// A session resumes exactly where it left off: the journal of a round, with
/// the results in completion order, gives back the context that the round
/// left, with the results in call order.
pub proof fn law_journal_gives_the_round_back(
    ms: Seq<MessageView>,
    assistant: MessageView,
    results: Seq<(String, String)>,
)
    requires
        is_assistant(assistant),
        has_calls(assistant),
        one_result_each(call_ids(assistant), results),
    ensures
        cleaned(ms + (seq![assistant] + result_messages(results))) == after_round(
            cleaned(ms),
            assistant,
            results,
        ),
{
    lemma_role_lengths();
    let calls = assistant.calls->0;
    let ids = call_ids(assistant);
    let run = result_messages(results);
    let block = seq![assistant] + run;
    assert(block[0] == assistant);
    law_cleaning_goes_piece_by_piece(ms, block);
    assert forall|i: int| 0 <= i < run.len() implies is_tool(#[trigger] run[i]) by {}
    assert(block + Seq::<MessageView>::empty() =~= block);
    lemma_head_run(assistant, run, Seq::empty());
    assert(answered(block, 0)) by {
        assert forall|id: Seq<char>|
            #![trigger times(call_ids(block[0]), id)]
            times(call_ids(block[0]), id) <= times_answered(run_after(block, 0), id) by {
            lemma_times_distinct(ids, id);
            if times(ids, id) == 1 {
                let i = choose|i: int| 0 <= i < ids.len() && #[trigger] ids[i] == id;
                assert(result_given(results, ids[i]));
                let j = choose|j: int| 0 <= j < results.len() && (#[trigger] results[j]).0@ == id;
                lemma_result_counts(results, j);
            }
        }
    }
    lemma_results_in_order(calls, results, 0);
    assert(answers(calls, results).skip(0) =~= answers(calls, results));
    assert(block.skip(1 + run.len() as int) =~= Seq::<MessageView>::empty());
    assert(cleaned(Seq::<MessageView>::empty()) =~= Seq::<MessageView>::empty());
    assert(ordered(run_after(block, 0), ids) == answers(calls, results));
    assert(cleaned(block) == seq![assistant] + ordered(run_after(block, 0), ids) + cleaned(
        block.skip(1 + run_length(block.skip(1)) as int),
    ));
    assert(cleaned(block) =~= seq![assistant] + answers(calls, results));
    assert(cleaned(ms) + (seq![assistant] + answers(calls, results)) =~= after_round(
        cleaned(ms),
        assistant,
        results,
    ));
}

proof fn lemma_boundary_kept(events: Seq<JournalEvent>, more: Seq<JournalEvent>)
    requires
        forall|i: int| 0 <= i < more.len() ==> !((#[trigger] more[i]).kind is Handoff),
    ensures
        boundary(events + more) == boundary(events),
    decreases more.len(),
{
    if more.len() == 0 {
        assert(events + more =~= events);
    } else {
        assert((events + more).drop_last() =~= events + more.drop_last());
        assert((events + more).last() == more.last());
        assert(!(more[more.len() - 1].kind is Handoff));
        lemma_boundary_kept(events, more.drop_last());
    }
}

/// The messages of a longer journal go on behind those of the shorter one.
pub proof fn lemma_messages_go_on(events: Seq<JournalEvent>, more: Seq<JournalEvent>, from: Option<u64>)
    ensures
        context_messages(events + more, from) == context_messages(events, from) + context_messages(
            more,
            from,
        ),
    decreases more.len(),
{
    if more.len() == 0 {
        assert(events + more =~= events);
        assert(context_messages(events, from) + context_messages(more, from) =~= context_messages(
            events,
            from,
        ));
    } else {
        assert((events + more).drop_last() =~= events + more.drop_last());
        assert((events + more).last() == more.last());
        lemma_messages_go_on(events, more.drop_last(), from);
        assert(context_messages(events + more, from) =~= context_messages(events, from)
            + context_messages(more, from));
    }
}

/// The journal as it grows: where the later events stand for a reply with
/// calls and for their results, in completion order, the context rebuilt from
/// the whole journal is the one that the running session held after the round.
pub proof fn law_resumed_session_sees_what_the_running_one_saw(
    events: Seq<JournalEvent>,
    more: Seq<JournalEvent>,
    assistant: MessageView,
    results: Seq<(String, String)>,
)
    requires
        forall|i: int| 0 <= i < more.len() ==> !((#[trigger] more[i]).kind is Handoff),
        context_messages(more, boundary(events)) == seq![assistant] + result_messages(results),
        is_assistant(assistant),
        has_calls(assistant),
        one_result_each(call_ids(assistant), results),
    ensures
        rebuilt(events + more) == after_round(rebuilt(events), assistant, results),
{
    lemma_boundary_kept(events, more);
    lemma_messages_go_on(events, more, boundary(events));
    law_journal_gives_the_round_back(
        context_messages(events, boundary(events)),
        assistant,
        results,
    );
}

// ---------------------------------------------------------------------------
// Held calls
// ---------------------------------------------------------------------------

/// A held call does not run, and every other call does.
pub proof fn law_held_calls_wait(
    calls: Seq<ToolCall>,
    items: Seq<PermissionRequestItem>,
    call: ToolCall,
)
    ensures
        running(calls, items, true).contains(call) <==> calls.contains(call) && !holds(
            items,
            call.id@,
        ),
    decreases calls.len(),
{
    if calls.len() > 0 {
        let d = calls.drop_last();
        law_held_calls_wait(d, items, call);
        let before = running(d, items, true);
        assert(calls =~= d.push(calls.last()));
        if d.contains(call) {
            let i = choose|i: int| 0 <= i < d.len() && d[i] == call;
            assert(calls[i] == call);
        }
        if calls.last() == call {
            assert(calls[calls.len() - 1] == call);
        }
        if calls.contains(call) && calls.last() != call {
            let i = choose|i: int| 0 <= i < calls.len() && calls[i] == call;
            assert(d[i] == call);
        }
        if !holds(items, calls.last().id@) {
            let all = before.push(calls.last());
            if before.contains(call) {
                let i = choose|i: int| 0 <= i < before.len() && before[i] == call;
                assert(all[i] == call);
            }
            assert(all[before.len() as int] == calls.last());
            if all.contains(call) && calls.last() != call {
                let i = choose|i: int| 0 <= i < all.len() && all[i] == call;
                assert(before[i] == call);
            }
        }
    }
}

/// Without a hold every call runs, in order.
pub proof fn law_without_a_hold_all_calls_run(
    calls: Seq<ToolCall>,
    items: Seq<PermissionRequestItem>,
)
    ensures
        running(calls, items, false) == calls,
    decreases calls.len(),
{
    if calls.len() > 0 {
        law_without_a_hold_all_calls_run(calls.drop_last(), items);
        assert(calls.drop_last().push(calls.last()) =~= calls);
    }
}

proof fn lemma_answer_stays(events: Seq<JournalEvent>, more: Seq<JournalEvent>)
    requires
        forall|i: int| 0 <= i < more.len() ==> (#[trigger] more[i]).kind is ToolResult,
    ensures
        last_batch_answer(events + more) == last_batch_answer(events),
    decreases more.len(),
{
    if more.len() == 0 {
        assert(events + more =~= events);
    } else {
        assert((events + more).drop_last() =~= events + more.drop_last());
        assert((events + more).last() == more[more.len() - 1]);
        assert forall|i: int| 0 <= i < more.drop_last().len() implies (
        #[trigger] more.drop_last()[i]).kind is ToolResult by {
            assert(more.drop_last()[i] == more[i]);
        }
        lemma_answer_stays(events, more.drop_last());
    }
}

proof fn lemma_request_stays(
    events: Seq<JournalEvent>,
    more: Seq<JournalEvent>,
    id: Seq<char>,
    before: u64,
)
    requires
        forall|i: int| 0 <= i < more.len() ==> (#[trigger] more[i]).kind is ToolResult,
    ensures
        requested_items(events + more, id, before) == requested_items(events, id, before),
    decreases more.len(),
{
    if more.len() == 0 {
        assert(events + more =~= events);
    } else {
        assert((events + more).drop_last() =~= events + more.drop_last());
        assert((events + more).last() == more[more.len() - 1]);
        assert forall|i: int| 0 <= i < more.drop_last().len() implies (
        #[trigger] more.drop_last()[i]).kind is ToolResult by {
            assert(more.drop_last()[i] == more[i]);
        }
        lemma_request_stays(events, more.drop_last(), id, before);
    }
}

proof fn lemma_all_finished(
    items: Seq<PermissionRequestItem>,
    events: Seq<JournalEvent>,
    more: Seq<JournalEvent>,
    after: u64,
)
    requires
        forall|k: int|
            #![trigger unfinished(items, events, after)[k]]
            0 <= k < unfinished(items, events, after).len() ==> completed(
                more,
                unfinished(items, events, after)[k].call_id@,
                after,
            ),
    ensures
        unfinished(items, events + more, after) == Seq::<PermissionRequestItem>::empty(),
    decreases items.len(),
{
    if items.len() > 0 {
        let d = items.drop_last();
        let last = items.last();
        let before = unfinished(d, events, after);
        let left = unfinished(items, events, after);
        assert forall|k: int| #![trigger before[k]] 0 <= k < before.len() implies completed(
            more,
            before[k].call_id@,
            after,
        ) by {
            assert(left[k] == before[k]);
        }
        lemma_all_finished(d, events, more, after);
        let all = events + more;
        if completed(events, last.call_id@, after) {
            let i = choose|i: int|
                0 <= i < events.len() && is_later_result(
                    #[trigger] events[i],
                    last.call_id@,
                    after,
                );
            assert(all[i] == events[i]);
            assert(is_later_result(all[i], last.call_id@, after));
        } else {
            assert(left[before.len() as int] == last);
            let i = choose|i: int|
                0 <= i < more.len() && is_later_result(#[trigger] more[i], last.call_id@, after);
            assert(all[events.len() + i] == more[i]);
            assert(is_later_result(all[events.len() + i], last.call_id@, after));
        }
    }
}

/// Events that request nothing leave the last request as it is.
pub proof fn lemma_request_is_found(
    events: Seq<JournalEvent>,
    between: Seq<JournalEvent>,
    id: Seq<char>,
    before: u64,
)
    requires
        forall|i: int| 0 <= i < between.len() ==> !((#[trigger] between[i]).kind is PermissionRequest),
    ensures
        requested_items(events + between, id, before) == requested_items(events, id, before),
    decreases between.len(),
{
    if between.len() == 0 {
        assert(events + between =~= events);
    } else {
        lemma_request_is_found(events, between.drop_last(), id, before);
        assert((events + between).drop_last() =~= events + between.drop_last());
        assert((events + between).last() == between[between.len() - 1]);
    }
}

proof fn lemma_nothing_finished(
    items: Seq<PermissionRequestItem>,
    events: Seq<JournalEvent>,
    after: u64,
)
    requires
        forall|i: int| 0 <= i < events.len() ==> (#[trigger] events[i]).seq <= after,
    ensures
        unfinished(items, events, after) == items,
    decreases items.len(),
{
    if items.len() == 0 {
        assert(items =~= Seq::<PermissionRequestItem>::empty());
    } else {
        lemma_nothing_finished(items.drop_last(), events, after);
        assert(!completed(events, items.last().call_id@, after));
        assert(items.drop_last().push(items.last()) =~= items);
    }
}

/// An answered request is resumed: once the user has decided on the held calls
/// of a message, all of them are left to run, with what the model asked.
pub proof fn law_answered_request_is_resumed(
    before: Seq<JournalEvent>,
    request: JournalEvent,
    between: Seq<JournalEvent>,
    answer: JournalEvent,
)
    requires
        request.kind matches JournalEventKind::PermissionRequest { items, .. } && items@.len() > 0,
        answer.kind matches JournalEventKind::PermissionAnswered { request_id, decisions, .. }
            && request_id@ == request.kind->PermissionRequest_request_id@ && decisions@.len() > 0,
        forall|i: int| 0 <= i < between.len() ==> !((#[trigger] between[i]).kind is PermissionRequest),
        forall|i: int| 0 <= i < before.len() ==> (#[trigger] before[i]).seq < answer.seq,
        forall|i: int| 0 <= i < between.len() ==> (#[trigger] between[i]).seq < answer.seq,
        request.seq < answer.seq,
    ensures
        resumable((before.push(request) + between).push(answer))
            == request.kind->PermissionRequest_items@,
{
    let past = before.push(request) + between;
    let events = past.push(answer);
    let id = request.kind->PermissionRequest_request_id@;
    assert(events.drop_last() =~= past);
    assert(last_batch_answer(events) == Some((answer.seq, id)));
    lemma_request_is_found(before.push(request), between, id, answer.seq);
    assert(before.push(request).drop_last() =~= before);
    lemma_nothing_finished(request.kind->PermissionRequest_items@, events, answer.seq);
}

/// Resuming is done once: with the results of the resumed calls journaled
/// behind the answer, nothing is left to resume.
pub proof fn law_resuming_is_done_once(events: Seq<JournalEvent>, more: Seq<JournalEvent>)
    requires
        forall|i: int| 0 <= i < more.len() ==> (#[trigger] more[i]).kind is ToolResult,
        last_batch_answer(events) matches Some((after, _)) && forall|k: int|
            #![trigger resumable(events)[k]]
            0 <= k < resumable(events).len() ==> completed(
                more,
                resumable(events)[k].call_id@,
                after,
            ),
    ensures
        resumable(events + more) == Seq::<PermissionRequestItem>::empty(),
{
    let (seq, id) = last_batch_answer(events)->0;
    lemma_answer_stays(events, more);
    lemma_request_stays(events, more, id, seq);
    if let Some(items) = requested_items(events, id, seq) {
        assert forall|k: int|
            #![trigger unfinished(items, events, seq)[k]]
            0 <= k < unfinished(items, events, seq).len() implies completed(
            more,
            unfinished(items, events, seq)[k].call_id@,
            seq,
        ) by {
            assert(resumable(events)[k] == unfinished(items, events, seq)[k]);
        }
        lemma_all_finished(items, events, more, seq);
    }
}

} // verus!
