//! How a reply grows out of its fragments, and what is kept of it.
use vstd::prelude::*;
use vstd::string::*;

use crate::chat::{CallView, MessageView};
use crate::reply::{
    calls_applied, delta_applied, delta_texts, empty_message, retry_pause, says_nothing, with_role,
    CallDelta, ReplyDelta,
};

verus! {

/// A fragment adds its texts behind those that are there, and leaves everything
/// alone that it does not carry.
pub proof fn law_fragments_add_up(m: MessageView, d: ReplyDelta)
    ensures
        ({
            let n = delta_applied(m, d);
            &&& d.content is None ==> n.content == m.content
            &&& d.content matches Some(c) ==> n.content == m.content + c@
            &&& d.role is None ==> n.role == m.role
            &&& d.role matches Some(r) ==> n.role == r@
            &&& d.reasoning_content is None ==> n.reasoning == m.reasoning
            &&& d.reasoning_content matches Some(r) ==> (m.reasoning is None ==> n.reasoning
                == Some(r@)) && (m.reasoning matches Some(before) ==> n.reasoning == Some(
                before + r@,
            ))
            &&& n.call_id == m.call_id
            &&& d.tool_calls is None ==> n.calls == m.calls
            &&& d.tool_calls matches Some(ds) ==> n.calls == Some(
                calls_applied(
                    if m.calls is Some {
                        m.calls->0
                    } else {
                        Seq::empty()
                    },
                    ds@,
                ),
            )
        }),
{
}

/// A text that is empty or missing.
pub open spec fn is_missing(text: Option<String>) -> bool {
    text is None || text->0@.len() == 0
}

/// A fragment of a call touches the call at its place alone: its id and its kind
/// are the newest that were sent, its name and its arguments grow, and places
/// that it skips are left blank.
pub proof fn law_a_call_grows_at_its_place(calls: Seq<CallView>, d: CallDelta)
    ensures
        ({
            let n = calls_applied(calls, seq![d]);
            let at = d.index as int;
            let had = at < calls.len();
            &&& n.len() == (if had {
                calls.len() as int
            } else {
                at + 1
            })
            &&& forall|i: int| 0 <= i < calls.len() && i != at ==> n[i] == #[trigger] calls[i]
            &&& forall|i: int|
                calls.len() <= i < at ==> (#[trigger] n[i]).id.len() == 0 && n[i].kind.len() == 0
                    && n[i].name.len() == 0 && n[i].arguments.len() == 0
            &&& is_missing(d.id) ==> (had ==> n[at].id == calls[at].id) && (!had
                ==> n[at].id.len() == 0)
            &&& !is_missing(d.id) ==> n[at].id == d.id->0@
            &&& is_missing(d.kind) ==> (had ==> n[at].kind == calls[at].kind) && (!had
                ==> n[at].kind.len() == 0)
            &&& !is_missing(d.kind) ==> n[at].kind == d.kind->0@
            &&& d.name is None ==> (had ==> n[at].name == calls[at].name) && (!had
                ==> n[at].name.len() == 0)
            &&& d.name is Some ==> (had ==> n[at].name == calls[at].name + d.name->0@) && (!had
                ==> n[at].name == d.name->0@)
            &&& d.arguments is None ==> (had ==> n[at].arguments == calls[at].arguments) && (!had
                ==> n[at].arguments.len() == 0)
            &&& d.arguments is Some ==> (had ==> n[at].arguments == calls[at].arguments
                + d.arguments->0@) && (!had ==> n[at].arguments == d.arguments->0@)
        }),
{
    let ds = seq![d];
    assert(ds.drop_last() =~= Seq::<CallDelta>::empty());
    assert(calls_applied(calls, Seq::<CallDelta>::empty()) == calls);
    assert(ds.last() == d);
    let n = calls_applied(calls, ds);
    let at = d.index as int;
    if at >= calls.len() {
        if d.name is Some {
            assert(n[at].name =~= d.name->0@);
        }
        if d.arguments is Some {
            assert(n[at].arguments =~= d.arguments->0@);
        }
    }
}

/// Fragments are taken in one after the other: a list of them does what its two
/// halves do in turn.
pub proof fn law_fragments_apply_in_order(
    calls: Seq<CallView>,
    first: Seq<CallDelta>,
    second: Seq<CallDelta>,
)
    ensures
        calls_applied(calls, first + second) == calls_applied(
            calls_applied(calls, first),
            second,
        ),
        calls_applied(calls, Seq::empty()) == calls,
    decreases second.len(),
{
    if second.len() == 0 {
        assert(first + second =~= first);
    } else {
        let all = first + second;
        law_fragments_apply_in_order(calls, first, second.drop_last());
        assert(all.drop_last() =~= first + second.drop_last());
        assert(all.last() == second.last());
    }
}

/// Every fragment with something to read goes to the journal as it came, and no
/// other does.
pub proof fn law_every_readable_fragment_is_journaled(d: ReplyDelta)
    ensures
        is_missing(d.content) && is_missing(d.reasoning_content) ==> delta_texts(d) is None,
        !is_missing(d.content) && is_missing(d.reasoning_content) ==> delta_texts(d) == Some(
            (d.content->0@, None::<Seq<char>>),
        ),
        !is_missing(d.content) && !is_missing(d.reasoning_content) ==> delta_texts(d) == Some(
            (d.content->0@, Some(d.reasoning_content->0@)),
        ),
        is_missing(d.content) && !is_missing(d.reasoning_content) ==> (delta_texts(d) matches Some(
            (content, reasoning),
        ) && content.len() == 0 && reasoning == Some(d.reasoning_content->0@)),
{
}

/// A reply counts once it has any text, or calls any tool; reasoning alone does
/// not. It is the assistant's unless it says otherwise, and is kept as it is.
pub proof fn law_a_reply_is_kept_as_it_came(m: MessageView)
    ensures
        says_nothing(m) <==> m.content.len() == 0 && m.calls is None,
        with_role(m).content == m.content,
        with_role(m).reasoning == m.reasoning,
        with_role(m).calls == m.calls,
        with_role(m).call_id == m.call_id,
        m.role.len() > 0 ==> with_role(m).role == m.role,
        m.role.len() == 0 ==> with_role(m).role == "assistant"@,
{
}

/// A reply that fails is tried again after five seconds and after fifteen more,
/// and then no more.
pub proof fn law_a_reply_is_tried_three_times(attempt: int)
    ensures
        retry_pause(0) == Some(5u64),
        retry_pause(1) == Some(15u64),
        attempt >= 2 ==> retry_pause(attempt) is None,
{
}

/// A reply starts out empty.
pub proof fn law_a_reply_starts_empty()
    ensures
        empty_message().role.len() == 0,
        empty_message().content.len() == 0,
        empty_message().reasoning is None,
        empty_message().call_id is None,
        empty_message().calls is None,
{
}

} // verus!
