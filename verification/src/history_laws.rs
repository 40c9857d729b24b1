//! What holds of every rebuilt context.
use vstd::prelude::*;
use vstd::string::*;

use crate::chat::{plain_message, MessageView, ROLE_ASSISTANT, ROLE_TOOL, ROLE_USER};
use crate::history::{
    answered, boundary, call_ids, cleaned, context_messages, context_prompt, context_tokens,
    event_message, from_rank, has_calls, in_context, is_assistant, is_tool, lemma_run_bound,
    ordered, place, rank, rebuilt, run_after, run_length, times, times_answered, with_rank,
};
use crate::journal::JournalEvent;
use crate::prompt::HANDOFF_USER_PREFIX;
use crate::reply::text_or_empty;

verus! {

proof fn lemma_roles_differ()
    ensures
        ROLE_ASSISTANT@ != ROLE_TOOL@,
{
    reveal_strlit("assistant");
    reveal_strlit("tool");
    assert(ROLE_ASSISTANT@.len() == 9);
    assert(ROLE_TOOL@.len() == 4);
}

// ---------------------------------------------------------------------------
// Counting answers
// ---------------------------------------------------------------------------

proof fn lemma_answered_concat(a: Seq<MessageView>, b: Seq<MessageView>, id: Seq<char>)
    ensures
        times_answered(a + b, id) == times_answered(a, id) + times_answered(b, id),
    decreases b.len(),
{
    if b.len() == 0 {
        assert(a + b =~= a);
    } else {
        assert((a + b).drop_last() =~= a + b.drop_last());
        assert((a + b).last() == b.last());
        lemma_answered_concat(a, b.drop_last(), id);
    }
}

/// How many results of `run` answer `id` from the call at place `k` on.
spec fn counted_from(run: Seq<MessageView>, ids: Seq<Seq<char>>, k: nat, id: Seq<char>) -> nat
    decreases run.len(),
{
    if run.len() == 0 {
        0
    } else {
        counted_from(run.drop_last(), ids, k, id) + (if run.last().call_id == Some(id) && rank(
            run.last(),
            ids,
        ) >= k {
            1nat
        } else {
            0nat
        })
    }
}

proof fn lemma_counted_split(run: Seq<MessageView>, ids: Seq<Seq<char>>, k: nat, id: Seq<char>)
    ensures
        counted_from(run, ids, k, id) == times_answered(with_rank(run, ids, k), id) + counted_from(
            run,
            ids,
            k + 1,
            id,
        ),
    decreases run.len(),
{
    if run.len() > 0 {
        lemma_counted_split(run.drop_last(), ids, k, id);
        let w = with_rank(run.drop_last(), ids, k);
        if rank(run.last(), ids) == k {
            assert(w.push(run.last()).drop_last() =~= w);
        }
    }
}

proof fn lemma_place_within(ids: Seq<Seq<char>>, id: Seq<char>)
    ensures
        place(ids, id) <= ids.len(),
    decreases ids.len(),
{
    if ids.len() > 0 && ids[0] != id {
        lemma_place_within(ids.drop_first(), id);
    }
}

proof fn lemma_counted_none(run: Seq<MessageView>, ids: Seq<Seq<char>>, k: nat, id: Seq<char>)
    requires
        k > ids.len(),
    ensures
        counted_from(run, ids, k, id) == 0,
    decreases run.len(),
{
    if run.len() > 0 {
        lemma_place_within(ids, crate::reply::text_or_empty(run.last().call_id));
        lemma_counted_none(run.drop_last(), ids, k, id);
    }
}

proof fn lemma_counted_all(run: Seq<MessageView>, ids: Seq<Seq<char>>, id: Seq<char>)
    ensures
        counted_from(run, ids, 0, id) == times_answered(run, id),
    decreases run.len(),
{
    if run.len() > 0 {
        lemma_counted_all(run.drop_last(), ids, id);
    }
}

proof fn lemma_answered_from_rank(run: Seq<MessageView>, ids: Seq<Seq<char>>, k: nat, id: Seq<char>)
    ensures
        times_answered(from_rank(run, ids, k), id) == counted_from(run, ids, k, id),
    decreases ids.len() + 1 - k,
{
    if k > ids.len() {
        lemma_counted_none(run, ids, k, id);
    } else {
        lemma_answered_from_rank(run, ids, k + 1, id);
        lemma_counted_split(run, ids, k, id);
        lemma_answered_concat(with_rank(run, ids, k), from_rank(run, ids, k + 1), id);
    }
}

/// Ordering a run loses no answer.
proof fn lemma_ordered_answers(run: Seq<MessageView>, ids: Seq<Seq<char>>, id: Seq<char>)
    ensures
        times_answered(ordered(run, ids), id) == times_answered(run, id),
{
    lemma_answered_from_rank(run, ids, 0, id);
    lemma_counted_all(run, ids, id);
}

// ---------------------------------------------------------------------------
// Ordering
// ---------------------------------------------------------------------------

proof fn lemma_with_rank_tools(run: Seq<MessageView>, ids: Seq<Seq<char>>, k: nat)
    requires
        forall|i: int| 0 <= i < run.len() ==> is_tool(#[trigger] run[i]),
    ensures
        forall|i: int|
            0 <= i < with_rank(run, ids, k).len() ==> is_tool(#[trigger] with_rank(run, ids, k)[i]),
    decreases run.len(),
{
    if run.len() > 0 {
        assert forall|i: int| 0 <= i < run.drop_last().len() implies is_tool(
            #[trigger] run.drop_last()[i],
        ) by {
            assert(run.drop_last()[i] == run[i]);
        }
        lemma_with_rank_tools(run.drop_last(), ids, k);
        let w = with_rank(run.drop_last(), ids, k);
        assert(is_tool(run[run.len() - 1]));
        assert forall|i: int| 0 <= i < with_rank(run, ids, k).len() implies is_tool(
            #[trigger] with_rank(run, ids, k)[i],
        ) by {
            if i < w.len() {
                assert(with_rank(run, ids, k)[i] == w[i]);
            }
        }
    }
}

proof fn lemma_from_rank_tools(run: Seq<MessageView>, ids: Seq<Seq<char>>, k: nat)
    requires
        forall|i: int| 0 <= i < run.len() ==> is_tool(#[trigger] run[i]),
    ensures
        forall|i: int|
            0 <= i < from_rank(run, ids, k).len() ==> is_tool(#[trigger] from_rank(run, ids, k)[i]),
    decreases ids.len() + 1 - k,
{
    if k <= ids.len() {
        lemma_with_rank_tools(run, ids, k);
        lemma_from_rank_tools(run, ids, k + 1);
        let w = with_rank(run, ids, k);
        let f = from_rank(run, ids, k + 1);
        assert forall|i: int| 0 <= i < (w + f).len() implies is_tool(#[trigger] (w + f)[i]) by {
            if i < w.len() {
                assert((w + f)[i] == w[i]);
            } else {
                assert((w + f)[i] == f[i - w.len()]);
            }
        }
    }
}

proof fn lemma_with_rank_concat(a: Seq<MessageView>, b: Seq<MessageView>, ids: Seq<Seq<char>>, k: nat)
    ensures
        with_rank(a + b, ids, k) == with_rank(a, ids, k) + with_rank(b, ids, k),
    decreases b.len(),
{
    if b.len() == 0 {
        assert(a + b =~= a);
        assert(with_rank(a, ids, k) + with_rank(b, ids, k) =~= with_rank(a, ids, k));
    } else {
        assert((a + b).drop_last() =~= a + b.drop_last());
        assert((a + b).last() == b.last());
        lemma_with_rank_concat(a, b.drop_last(), ids, k);
        assert(with_rank(a + b, ids, k) =~= with_rank(a, ids, k) + with_rank(b, ids, k));
    }
}

proof fn lemma_with_rank_twice(run: Seq<MessageView>, ids: Seq<Seq<char>>, k: nat, j: nat)
    ensures
        with_rank(with_rank(run, ids, k), ids, j) == (if j == k {
            with_rank(run, ids, k)
        } else {
            Seq::empty()
        }),
    decreases run.len(),
{
    if run.len() > 0 {
        lemma_with_rank_twice(run.drop_last(), ids, k, j);
        let w = with_rank(run.drop_last(), ids, k);
        if rank(run.last(), ids) == k {
            assert(w.push(run.last()).drop_last() =~= w);
        }
    }
}

proof fn lemma_with_rank_of_from(run: Seq<MessageView>, ids: Seq<Seq<char>>, k: nat, j: nat)
    ensures
        with_rank(from_rank(run, ids, k), ids, j) == (if k <= j <= ids.len() {
            with_rank(run, ids, j)
        } else {
            Seq::empty()
        }),
    decreases ids.len() + 1 - k,
{
    if k <= ids.len() {
        lemma_with_rank_of_from(run, ids, k + 1, j);
        lemma_with_rank_concat(with_rank(run, ids, k), from_rank(run, ids, k + 1), ids, j);
        lemma_with_rank_twice(run, ids, k, j);
        assert(with_rank(from_rank(run, ids, k), ids, j) =~= (if k <= j <= ids.len() {
            with_rank(run, ids, j)
        } else {
            Seq::empty()
        }));
    }
}

proof fn lemma_same_ranks(a: Seq<MessageView>, b: Seq<MessageView>, ids: Seq<Seq<char>>, k: nat)
    requires
        forall|j: nat| k <= j <= ids.len() ==> #[trigger] with_rank(a, ids, j) == with_rank(b, ids, j),
    ensures
        from_rank(a, ids, k) == from_rank(b, ids, k),
    decreases ids.len() + 1 - k,
{
    if k <= ids.len() {
        assert(with_rank(a, ids, k) == with_rank(b, ids, k));
        lemma_same_ranks(a, b, ids, k + 1);
    }
}

/// A run in call order stays as it is.
pub proof fn law_ordering_is_idempotent(run: Seq<MessageView>, ids: Seq<Seq<char>>)
    ensures
        ordered(ordered(run, ids), ids) == ordered(run, ids),
{
    assert forall|j: nat| 0 <= j <= ids.len() implies #[trigger] with_rank(
        ordered(run, ids),
        ids,
        j,
    ) == with_rank(run, ids, j) by {
        lemma_with_rank_of_from(run, ids, 0, j);
    }
    lemma_same_ranks(ordered(run, ids), run, ids, 0);
}

/// Two runs hold the same results: for each call the same ones, in the same
/// order. The calls may have finished in any order.
pub open spec fn same_results(
    a: Seq<MessageView>,
    b: Seq<MessageView>,
    ids: Seq<Seq<char>>,
) -> bool {
    forall|k: nat| #[trigger] with_rank(a, ids, k) == with_rank(b, ids, k)
}

/// Every call has at most one result.
pub open spec fn one_per_call(run: Seq<MessageView>, ids: Seq<Seq<char>>) -> bool {
    forall|i: int, j: int|
        0 <= i < j < run.len() ==> rank(#[trigger] run[i], ids) != rank(#[trigger] run[j], ids)
}

proof fn lemma_rank_missing(run: Seq<MessageView>, ids: Seq<Seq<char>>, k: nat)
    requires
        forall|i: int| 0 <= i < run.len() ==> rank(#[trigger] run[i], ids) != k,
    ensures
        with_rank(run, ids, k) == Seq::<MessageView>::empty(),
    decreases run.len(),
{
    if run.len() > 0 {
        assert(run.last() == run[run.len() - 1]);
        lemma_rank_missing(run.drop_last(), ids, k);
    }
}

proof fn lemma_rank_once(run: Seq<MessageView>, ids: Seq<Seq<char>>, i: int)
    requires
        one_per_call(run, ids),
        0 <= i < run.len(),
    ensures
        with_rank(run, ids, rank(run[i], ids)) == seq![run[i]],
    decreases run.len(),
{
    let k = rank(run[i], ids);
    let before = run.drop_last();
    if i == run.len() - 1 {
        assert forall|j: int| 0 <= j < before.len() implies rank(#[trigger] before[j], ids) != k by {
            assert(before[j] == run[j]);
        }
        lemma_rank_missing(before, ids, k);
        assert(with_rank(run, ids, k) =~= seq![run[i]]);
    } else {
        assert(run.last() == run[run.len() - 1]);
        assert(before[i] == run[i]);
        lemma_rank_once(before, ids, i);
    }
}

/// Where every call has at most one result, the same results in any two orders
/// are the same run.
pub proof fn law_any_order_holds_the_same_results(
    a: Seq<MessageView>,
    b: Seq<MessageView>,
    ids: Seq<Seq<char>>,
)
    requires
        one_per_call(a, ids),
        one_per_call(b, ids),
        forall|m: MessageView| a.contains(m) <==> b.contains(m),
    ensures
        same_results(a, b, ids),
{
    assert forall|k: nat| #[trigger] with_rank(a, ids, k) == with_rank(b, ids, k) by {
        if exists|i: int| 0 <= i < a.len() && rank(#[trigger] a[i], ids) == k {
            let i = choose|i: int| 0 <= i < a.len() && rank(#[trigger] a[i], ids) == k;
            assert(a.contains(a[i]));
            let j = choose|j: int| 0 <= j < b.len() && b[j] == a[i];
            lemma_rank_once(a, ids, i);
            lemma_rank_once(b, ids, j);
        } else {
            assert forall|j: int| 0 <= j < b.len() implies rank(#[trigger] b[j], ids) != k by {
                assert(b.contains(b[j]));
                let i = choose|i: int| 0 <= i < a.len() && a[i] == b[j];
                assert(rank(a[i], ids) != k);
            }
            lemma_rank_missing(a, ids, k);
            lemma_rank_missing(b, ids, k);
        }
    }
}

/// The order in which the calls of one message finish does not show.
pub proof fn law_completion_order_is_immaterial(
    a: Seq<MessageView>,
    b: Seq<MessageView>,
    ids: Seq<Seq<char>>,
)
    requires
        same_results(a, b, ids),
    ensures
        ordered(a, ids) == ordered(b, ids),
{
    lemma_same_ranks(a, b, ids, 0);
}

// ---------------------------------------------------------------------------
// Dangling calls
// ---------------------------------------------------------------------------

/// What follows in a longer list does not depend on what stands before it.
pub proof fn lemma_run_shift(p: Seq<MessageView>, c: Seq<MessageView>, j: int)
    requires
        0 <= j < c.len(),
    ensures
        run_after(p + c, p.len() + j) == run_after(c, j),
        (p + c)[p.len() + j] == c[j],
        answered(p + c, p.len() + j) == answered(c, j),
{
    let i = p.len() + j;
    assert((p + c).skip(i + 1) =~= c.skip(j + 1));
    lemma_run_bound(c.skip(j + 1));
    assert(run_after(p + c, i) =~= run_after(c, j));
}

/// A message whose run is in call order, with every call answered.
pub open spec fn settled(ms: Seq<MessageView>, i: int) -> bool {
    is_assistant(ms[i]) ==> answered(ms, i) && (has_calls(ms[i]) ==> run_after(ms, i) == ordered(
        run_after(ms, i),
        call_ids(ms[i]),
    ))
}

proof fn lemma_no_calls_answered(ms: Seq<MessageView>, i: int)
    requires
        !has_calls(ms[i]),
    ensures
        answered(ms, i),
{
    assert(call_ids(ms[i]).len() == 0);
}

/// The results behind a message, and what follows them.
pub proof fn lemma_head_run(m: MessageView, run: Seq<MessageView>, rest: Seq<MessageView>)
    requires
        forall|i: int| 0 <= i < run.len() ==> is_tool(#[trigger] run[i]),
        rest.len() == 0 || !is_tool(rest[0]),
    ensures
        run_length((seq![m] + run + rest).skip(1)) == run.len(),
        run_after(seq![m] + run + rest, 0) == run,
        (seq![m] + run + rest).skip(1 + run.len() as int) == rest,
{
    let ms = seq![m] + run + rest;
    let tail = ms.skip(1);
    assert(tail =~= run + rest);
    lemma_run_bound(tail);
    let n = run_length(tail) as int;
    if n < run.len() {
        assert(tail[n] == run[n]);
        assert(is_tool(run[n]));
    }
    if n > run.len() {
        assert(tail[run.len() as int] == rest[0]);
        assert(is_tool(tail[run.len() as int]));
    }
    assert(run_after(ms, 0) =~= run);
    assert(ms.skip(1 + run.len() as int) =~= rest);
}

proof fn lemma_cleaned_settled(ms: Seq<MessageView>)
    ensures
        forall|i: int| 0 <= i < cleaned(ms).len() ==> #[trigger] settled(cleaned(ms), i),
        (ms.len() == 0 || !is_tool(ms[0])) ==> (cleaned(ms).len() == 0 || !is_tool(cleaned(ms)[0])),
    decreases ms.len(),
{
    if ms.len() > 0 {
        lemma_roles_differ();
        let m = ms[0];
        let run = run_after(ms, 0);
        let n = run_length(ms.skip(1)) as int;
        let rest = ms.skip(1 + n);
        lemma_run_bound(ms.skip(1));
        if n < ms.skip(1).len() {
            assert(rest[0] == ms.skip(1)[n]);
        }
        let c = cleaned(ms);
        if is_assistant(m) && !answered(ms, 0) {
            lemma_cleaned_settled(rest);
        } else if is_assistant(m) && has_calls(m) {
            lemma_cleaned_settled(rest);
            assert forall|i: int| 0 <= i < run.len() implies is_tool(#[trigger] run[i]) by {
                assert(run[i] == ms.skip(1)[i]);
            }
            let o = ordered(run, call_ids(m));
            lemma_from_rank_tools(run, call_ids(m), 0);
            let p = seq![m] + o;
            let c2 = cleaned(rest);
            assert(c == p + c2);
            lemma_head_run(m, o, c2);
            assert forall|i: int| 0 <= i < c.len() implies #[trigger] settled(c, i) by {
                if i == 0 {
                    law_ordering_is_idempotent(run, call_ids(m));
                    assert(answered(c, 0)) by {
                        assert forall|id: Seq<char>|
                            #![trigger times(call_ids(c[0]), id)]
                            times(call_ids(c[0]), id) <= times_answered(run_after(c, 0), id) by {
                            lemma_ordered_answers(run, call_ids(m), id);
                            assert(times(call_ids(ms[0]), id) <= times_answered(
                                run_after(ms, 0),
                                id,
                            ));
                        }
                    }
                } else if i < p.len() {
                    assert(c[i] == o[i - 1]);
                    assert(is_tool(o[i - 1]));
                } else {
                    let j = i - p.len();
                    lemma_run_shift(p, c2, j);
                    assert(settled(c2, j));
                }
            }
        } else {
            lemma_cleaned_settled(ms.skip(1));
            let p = seq![m];
            let c2 = cleaned(ms.skip(1));
            assert(c == p + c2);
            assert forall|i: int| 0 <= i < c.len() implies #[trigger] settled(c, i) by {
                if i == 0 {
                    if is_assistant(m) {
                        lemma_no_calls_answered(c, 0);
                    }
                } else {
                    lemma_run_shift(p, c2, i - 1);
                    assert(settled(c2, i - 1));
                }
            }
        }
    }
}

/// Ranks that never go down.
pub open spec fn in_call_order(run: Seq<MessageView>, ids: Seq<Seq<char>>) -> bool {
    forall|j: int, k: int|
        0 <= j < k < run.len() ==> rank(#[trigger] run[j], ids) <= rank(#[trigger] run[k], ids)
}

proof fn lemma_all_of_rank(run: Seq<MessageView>, ids: Seq<Seq<char>>, k: nat)
    ensures
        forall|i: int|
            0 <= i < with_rank(run, ids, k).len() ==> rank(
                #[trigger] with_rank(run, ids, k)[i],
                ids,
            ) == k,
    decreases run.len(),
{
    if run.len() > 0 {
        lemma_all_of_rank(run.drop_last(), ids, k);
        let before = with_rank(run.drop_last(), ids, k);
        let all = with_rank(run, ids, k);
        assert forall|i: int| 0 <= i < all.len() implies rank(#[trigger] all[i], ids) == k by {
            if i < before.len() {
                assert(all[i] == before[i]);
            }
        }
    }
}

proof fn lemma_from_rank_ascends(run: Seq<MessageView>, ids: Seq<Seq<char>>, k: nat)
    ensures
        in_call_order(from_rank(run, ids, k), ids),
        forall|i: int|
            0 <= i < from_rank(run, ids, k).len() ==> rank(
                #[trigger] from_rank(run, ids, k)[i],
                ids,
            ) >= k,
    decreases ids.len() + 1 - k,
{
    if k <= ids.len() {
        lemma_all_of_rank(run, ids, k);
        lemma_from_rank_ascends(run, ids, k + 1);
        let a = with_rank(run, ids, k);
        let b = from_rank(run, ids, k + 1);
        let all = from_rank(run, ids, k);
        assert(all == a + b);
        assert forall|i: int| 0 <= i < all.len() implies rank(#[trigger] all[i], ids) >= k by {
            if i < a.len() {
                assert(all[i] == a[i]);
            } else {
                assert(all[i] == b[i - a.len()]);
            }
        }
        assert forall|i: int, j: int| 0 <= i < j < all.len() implies rank(#[trigger] all[i], ids)
            <= rank(#[trigger] all[j], ids) by {
            if j < a.len() {
                assert(all[i] == a[i] && all[j] == a[j]);
            } else if i < a.len() {
                assert(all[i] == a[i]);
            } else {
                assert(all[i] == b[i - a.len()] && all[j] == b[j - a.len()]);
            }
        }
    }
}

/// In a rebuilt context the results behind a model reply stand in the order of
/// its calls.
pub proof fn law_results_stand_in_call_order(ms: Seq<MessageView>, i: int)
    requires
        0 <= i < cleaned(ms).len(),
        is_assistant(cleaned(ms)[i]),
        has_calls(cleaned(ms)[i]),
    ensures
        in_call_order(run_after(cleaned(ms), i), call_ids(cleaned(ms)[i])),
{
    lemma_cleaned_settled(ms);
    assert(settled(cleaned(ms), i));
    lemma_from_rank_ascends(run_after(cleaned(ms), i), call_ids(cleaned(ms)[i]), 0);
}

/// Every message has a role.
pub open spec fn roles_given(ms: Seq<MessageView>) -> bool {
    forall|i: int| 0 <= i < ms.len() ==> (#[trigger] ms[i]).role.len() > 0
}

proof fn lemma_ranked_roles(run: Seq<MessageView>, ids: Seq<Seq<char>>, k: nat)
    requires
        roles_given(run),
    ensures
        roles_given(with_rank(run, ids, k)),
    decreases run.len(),
{
    if run.len() > 0 {
        assert(run.last() == run[run.len() - 1]);
        lemma_ranked_roles(run.drop_last(), ids, k);
    }
}

proof fn lemma_ordered_roles(run: Seq<MessageView>, ids: Seq<Seq<char>>, k: nat)
    requires
        roles_given(run),
    ensures
        roles_given(from_rank(run, ids, k)),
    decreases ids.len() + 1 - k,
{
    if k <= ids.len() {
        lemma_ranked_roles(run, ids, k);
        lemma_ordered_roles(run, ids, k + 1);
    }
}

proof fn lemma_cleaned_roles(ms: Seq<MessageView>)
    requires
        roles_given(ms),
    ensures
        roles_given(cleaned(ms)),
    decreases ms.len(),
{
    if ms.len() > 0 {
        lemma_run_bound(ms.skip(1));
        let rest = ms.skip(1 + run_length(ms.skip(1)) as int);
        assert(roles_given(ms.skip(1)));
        assert(roles_given(rest));
        assert(roles_given(run_after(ms, 0)));
        lemma_cleaned_roles(rest);
        lemma_cleaned_roles(ms.skip(1));
        lemma_ordered_roles(run_after(ms, 0), call_ids(ms[0]), 0);
    }
}

proof fn lemma_context_roles(events: Seq<JournalEvent>, from: Option<u64>)
    ensures
        roles_given(context_messages(events, from)),
    decreases events.len(),
{
    if events.len() > 0 {
        reveal_strlit("user");
        reveal_strlit("assistant");
        reveal_strlit("tool");
        assert(ROLE_USER@.len() == 4);
        assert(ROLE_ASSISTANT@.len() == 9);
        assert(ROLE_TOOL@.len() == 4);
        lemma_context_roles(events.drop_last(), from);
    }
}

/// No message of a rebuilt context lacks a role, whatever the journal holds.
pub proof fn law_every_message_has_a_role(events: Seq<JournalEvent>)
    ensures
        roles_given(rebuilt(events)),
{
    lemma_context_roles(events, boundary(events));
    lemma_cleaned_roles(context_messages(events, boundary(events)));
}

/// The rebuilt context is the same in whichever order the calls of a message
/// finished.
pub proof fn law_context_ignores_completion_order(
    m: MessageView,
    a: Seq<MessageView>,
    b: Seq<MessageView>,
    rest: Seq<MessageView>,
)
    requires
        is_assistant(m),
        has_calls(m),
        forall|i: int| 0 <= i < a.len() ==> is_tool(#[trigger] a[i]),
        forall|i: int| 0 <= i < b.len() ==> is_tool(#[trigger] b[i]),
        rest.len() == 0 || !is_tool(rest[0]),
        same_results(a, b, call_ids(m)),
    ensures
        cleaned(seq![m] + a + rest) == cleaned(seq![m] + b + rest),
{
    lemma_head_run(m, a, rest);
    lemma_head_run(m, b, rest);
    law_completion_order_is_immaterial(a, b, call_ids(m));
    let p = seq![m] + a + rest;
    let q = seq![m] + b + rest;
    assert forall|id: Seq<char>| times_answered(a, id) == times_answered(b, id) by {
        lemma_ordered_answers(a, call_ids(m), id);
        lemma_ordered_answers(b, call_ids(m), id);
    }
    assert(p[0] == m && q[0] == m);
    assert(answered(p, 0) == answered(q, 0)) by {
        assert(forall|id: Seq<char>|
            #![trigger times(call_ids(m), id)]
            times_answered(run_after(p, 0), id) == times_answered(run_after(q, 0), id));
    }
}

/// A rebuilt context never carries a tool call without its result: every
/// call of every model reply in it is answered by the results right behind.
pub proof fn law_no_dangling_calls(ms: Seq<MessageView>, i: int)
    requires
        0 <= i < cleaned(ms).len(),
        is_assistant(cleaned(ms)[i]),
    ensures
        answered(cleaned(ms), i),
{
    lemma_cleaned_settled(ms);
    assert(settled(cleaned(ms), i));
}

proof fn lemma_settled_kept(ms: Seq<MessageView>)
    requires
        forall|i: int| 0 <= i < ms.len() ==> #[trigger] settled(ms, i),
    ensures
        cleaned(ms) == ms,
    decreases ms.len(),
{
    if ms.len() > 0 {
        let m = ms[0];
        assert(settled(ms, 0));
        lemma_run_bound(ms.skip(1));
        let n = run_length(ms.skip(1)) as int;
        if is_assistant(m) && has_calls(m) {
            let p = ms.take(1 + n);
            let rest = ms.skip(1 + n);
            assert(ms =~= p + rest);
            assert forall|j: int| 0 <= j < rest.len() implies #[trigger] settled(rest, j) by {
                lemma_run_shift(p, rest, j);
                assert(settled(ms, p.len() + j));
            }
            lemma_settled_kept(rest);
            assert(seq![m] + run_after(ms, 0) + rest =~= ms);
        } else {
            let p = ms.take(1);
            let rest = ms.skip(1);
            assert(ms =~= p + rest);
            assert forall|j: int| 0 <= j < rest.len() implies #[trigger] settled(rest, j) by {
                lemma_run_shift(p, rest, j);
                assert(settled(ms, p.len() + j));
            }
            lemma_settled_kept(rest);
            assert(seq![m] + rest =~= ms);
        }
    }
}

/// A context whose calls are all answered, with the results in call order, is
/// kept as it is.
pub proof fn law_settled_context_is_kept(ms: Seq<MessageView>)
    requires
        forall|i: int| 0 <= i < ms.len() ==> #[trigger] settled(ms, i),
    ensures
        cleaned(ms) == ms,
{
    lemma_settled_kept(ms);
}

/// Cleaning a clean context changes nothing.
pub proof fn law_cleaning_is_idempotent(ms: Seq<MessageView>)
    ensures
        cleaned(cleaned(ms)) == cleaned(ms),
{
    lemma_cleaned_settled(ms);
    lemma_settled_kept(cleaned(ms));
}

// ---------------------------------------------------------------------------
// The handoff
// ---------------------------------------------------------------------------

proof fn lemma_past_is_hidden(past: Seq<JournalEvent>, events: Seq<JournalEvent>, from: u64)
    requires
        forall|i: int| 0 <= i < past.len() ==> (#[trigger] past[i]).seq < from,
    ensures
        context_messages(past + events, Some(from)) == context_messages(events, Some(from)),
        context_prompt(past + events, Some(from)) == context_prompt(events, Some(from)),
        context_tokens(past + events, Some(from)) == context_tokens(events, Some(from)),
    decreases past.len() + events.len(),
{
    if events.len() > 0 {
        assert((past + events).drop_last() =~= past + events.drop_last());
        assert((past + events).last() == events.last());
        lemma_past_is_hidden(past, events.drop_last(), from);
    } else if past.len() > 0 {
        assert(past + events =~= past);
        assert forall|i: int| 0 <= i < past.drop_last().len() implies (
        #[trigger] past.drop_last()[i]).seq < from by {
            assert(past.drop_last()[i] == past[i]);
        }
        lemma_past_is_hidden(past.drop_last(), events, from);
        assert(past.drop_last() + events =~= past.drop_last());
        assert(past[past.len() - 1].seq < from);
    } else {
        assert(past + events =~= events);
    }
}

proof fn lemma_boundary_of_later(past: Seq<JournalEvent>, events: Seq<JournalEvent>)
    requires
        boundary(events) is Some,
    ensures
        boundary(past + events) == boundary(events),
    decreases events.len(),
{
    if events.len() > 0 {
        assert((past + events).drop_last() =~= past + events.drop_last());
        assert((past + events).last() == events.last());
        if !(events.last().kind is Handoff) {
            lemma_boundary_of_later(past, events.drop_last());
        }
    }
}

/// What was journaled before the last handoff never reaches the model again:
/// neither its messages, nor its system prompt, nor its context length.
pub proof fn law_handoff_hides_the_past(past: Seq<JournalEvent>, events: Seq<JournalEvent>)
    requires
        boundary(events) matches Some(from) && forall|i: int|
            0 <= i < past.len() ==> (#[trigger] past[i]).seq < from,
    ensures
        rebuilt(past + events) == rebuilt(events),
        context_prompt(past + events, boundary(past + events)) == context_prompt(
            events,
            boundary(events),
        ),
        context_tokens(past + events, boundary(past + events)) == context_tokens(
            events,
            boundary(events),
        ),
{
    lemma_boundary_of_later(past, events);
    lemma_past_is_hidden(past, events, boundary(events)->0);
}

/// Right after a compression the context is exactly the fresh system prompt
/// and the handoff as a user message, with no context length yet.
pub proof fn law_handoff_starts_afresh(
    past: Seq<JournalEvent>,
    handoff: JournalEvent,
    prompt: JournalEvent,
)
    requires
        handoff.kind is Handoff,
        prompt.kind is SystemPrompt,
        forall|i: int| 0 <= i < past.len() ==> (#[trigger] past[i]).seq < handoff.seq,
        handoff.seq <= prompt.seq,
    ensures
        rebuilt(past + seq![handoff, prompt]) == seq![
            plain_message(
                ROLE_USER@,
                HANDOFF_USER_PREFIX@ + handoff.kind->Handoff_content@,
            ),
        ],
        context_prompt(past + seq![handoff, prompt], boundary(past + seq![handoff, prompt]))
            == Some(prompt.kind->SystemPrompt_content@),
        context_tokens(past + seq![handoff, prompt], boundary(past + seq![handoff, prompt])) is None,
{
    let events = seq![handoff, prompt];
    assert(events.drop_last() =~= seq![handoff]);
    assert(seq![handoff].drop_last() =~= Seq::<JournalEvent>::empty());
    assert(boundary(seq![handoff]) == Some(handoff.seq));
    assert(boundary(events) == Some(handoff.seq));
    law_handoff_hides_the_past(past, events);
    let from = boundary(events);
    let m = plain_message(ROLE_USER@, HANDOFF_USER_PREFIX@ + handoff.kind->Handoff_content@);
    assert(context_messages(Seq::<JournalEvent>::empty(), from) =~= Seq::<MessageView>::empty());
    assert(context_messages(seq![handoff], from) =~= seq![m]);
    assert(context_messages(events, from) =~= seq![m]);
    assert(context_tokens(seq![handoff], from) is None) by {
        assert(context_tokens(Seq::<JournalEvent>::empty(), from) is None);
    }
    lemma_user_message_kept(m);
}

proof fn lemma_user_message_kept(m: MessageView)
    requires
        m.role == ROLE_USER@,
    ensures
        cleaned(seq![m]) == seq![m],
{
    reveal_strlit("user");
    reveal_strlit("assistant");
    assert(ROLE_USER@.len() == 4);
    assert(ROLE_ASSISTANT@.len() == 9);
    assert(seq![m].skip(1) =~= Seq::<MessageView>::empty());
    assert(cleaned(Seq::<MessageView>::empty()) =~= Seq::<MessageView>::empty());
    assert(cleaned(seq![m]) =~= seq![m]);
}

/// Flow metadata, the system prompt included, never shows as a message.
pub proof fn law_metadata_is_no_message(events: Seq<JournalEvent>, event: JournalEvent)
    requires
        event_message(event.kind) is None,
    ensures
        rebuilt(events.push(event)) == rebuilt(events),
{
    assert(events.push(event).drop_last() =~= events);
    assert(!(event.kind is Handoff));
    assert(context_messages(events.push(event), boundary(events)) == context_messages(
        events,
        boundary(events),
    ));
}

/// A system prompt stays that of the session: until a compression or another
/// prompt is journaled, every later run opens with the same text.
pub proof fn law_journaled_prompt_is_reused(
    before: Seq<JournalEvent>,
    prompt: JournalEvent,
    later: Seq<JournalEvent>,
)
    requires
        prompt.kind is SystemPrompt,
        in_context(prompt, boundary(before)),
        forall|i: int|
            0 <= i < later.len() ==> !((#[trigger] later[i]).kind is SystemPrompt)
                && !(later[i].kind is Handoff),
    ensures
        boundary(before.push(prompt) + later) == boundary(before),
        context_prompt(
            before.push(prompt) + later,
            boundary(before.push(prompt) + later),
        ) == Some(prompt.kind->SystemPrompt_content@),
    decreases later.len(),
{
    let all = before.push(prompt) + later;
    if later.len() == 0 {
        assert(all =~= before.push(prompt));
        assert(all.drop_last() =~= before);
    } else {
        law_journaled_prompt_is_reused(before, prompt, later.drop_last());
        assert(all.drop_last() =~= before.push(prompt) + later.drop_last());
        assert(all.last() == later[later.len() - 1]);
    }
}

// ---------------------------------------------------------------------------
// Nothing is lost
// ---------------------------------------------------------------------------

proof fn lemma_place_bound(ids: Seq<Seq<char>>, id: Seq<char>)
    ensures
        place(ids, id) <= ids.len(),
    decreases ids.len(),
{
    if ids.len() > 0 {
        lemma_place_bound(ids.drop_first(), id);
    }
}

proof fn lemma_one_more_result(
    run: Seq<MessageView>,
    m: MessageView,
    ids: Seq<Seq<char>>,
    k: nat,
)
    ensures
        from_rank(run.push(m), ids, k).to_multiset() == (if rank(m, ids) >= k {
            from_rank(run, ids, k).to_multiset().insert(m)
        } else {
            from_rank(run, ids, k).to_multiset()
        }),
    decreases ids.len() + 1 - k,
{
    broadcast use vstd::seq_lib::group_to_multiset_ensures;

    let more = run.push(m);
    assert(more.drop_last() =~= run);
    lemma_place_bound(ids, text_or_empty(m.call_id));
    if k <= ids.len() {
        lemma_one_more_result(run, m, ids, k + 1);
        vstd::seq_lib::lemma_multiset_commutative(
            with_rank(more, ids, k),
            from_rank(more, ids, k + 1),
        );
        vstd::seq_lib::lemma_multiset_commutative(
            with_rank(run, ids, k),
            from_rank(run, ids, k + 1),
        );
        let now = from_rank(more, ids, k).to_multiset();
        let had = from_rank(run, ids, k).to_multiset();
        if rank(m, ids) >= k {
            assert(now =~= had.insert(m));
        } else {
            assert(now =~= had);
        }
    }
}

/// Putting results in the order of their calls loses none of them and adds none,
/// those of no known call among them; and those of one call keep their order.
pub proof fn law_ordering_loses_nothing(run: Seq<MessageView>, ids: Seq<Seq<char>>, k: nat)
    requires
        k <= ids.len(),
    ensures
        ordered(run, ids).to_multiset() == run.to_multiset(),
        with_rank(ordered(run, ids), ids, k) == with_rank(run, ids, k),
    decreases run.len(),
{
    broadcast use vstd::seq_lib::group_to_multiset_ensures;

    lemma_with_rank_of_from(run, ids, 0, k);
    if run.len() == 0 {
        lemma_nothing_to_order(ids, 0);
        assert(run =~= Seq::<MessageView>::empty());
    } else {
        let rest = run.drop_last();
        law_ordering_loses_nothing(rest, ids, k);
        lemma_one_more_result(rest, run.last(), ids, 0);
        assert(rest.push(run.last()) =~= run);
    }
}

proof fn lemma_nothing_to_order(ids: Seq<Seq<char>>, k: nat)
    ensures
        from_rank(Seq::<MessageView>::empty(), ids, k) == Seq::<MessageView>::empty(),
    decreases ids.len() + 1 - k,
{
    if k <= ids.len() {
        lemma_nothing_to_order(ids, k + 1);
        assert(from_rank(Seq::<MessageView>::empty(), ids, k) =~= Seq::<MessageView>::empty());
    }
}

/// A result stands by the place of its call: the first call that has its id, or
/// behind all of them where none has.
pub proof fn law_results_rank_by_their_call(m: MessageView, ids: Seq<Seq<char>>, k: int)
    requires
        0 <= k <= ids.len(),
        forall|j: int| 0 <= j < k ==> Some(#[trigger] ids[j]) != m.call_id,
        k < ids.len() ==> m.call_id == Some(ids[k]),
        m.call_id is Some,
    ensures
        rank(m, ids) == k,
    decreases ids.len(),
{
    if k > 0 {
        assert(Some(ids[0]) != m.call_id);
        let rest = ids.drop_first();
        assert forall|j: int| 0 <= j < k - 1 implies Some(#[trigger] rest[j]) != m.call_id by {
            assert(rest[j] == ids[j + 1]);
        }
        if k < ids.len() {
            assert(rest[k - 1] == ids[k]);
        }
        law_results_rank_by_their_call(m, rest, k - 1);
    }
}

} // verus!
