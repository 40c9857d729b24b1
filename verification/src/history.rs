//! The model context rebuilt from a session journal.
use std::collections::BTreeMap;

use vstd::prelude::*;
use vstd::string::*;

use crate::chat::{
    copy_message, lemma_messages_push, messages_view, plain_message, restore_message,
    restored, text_message, tool_message, tool_message_view, CallView, ChatMessage, MessageView,
    ROLE_ASSISTANT, ROLE_TOOL, ROLE_USER,
};
use crate::journal::{JournalEvent, JournalEventKind};
use crate::prompt::{ASK_USER_ANSWER_PREFIX, HANDOFF_USER_PREFIX, PERMISSION_ANSWER_PREFIX};
use crate::reply::text_or_empty;
use crate::text::{cat2, opt_text, same_text};

verus! {

// ---------------------------------------------------------------------------
// From events to messages
// ---------------------------------------------------------------------------

/// The pretty-printed JSON object of the answers, as `serde_json` writes it.
pub uninterp spec fn answers_json(answers: Map<String, String>) -> Option<Seq<char>>;

/// Calls `serde_json::to_string_pretty` on the answers. Taken on trust: what
/// it writes depends on the answers alone.
#[verifier::external_body]
fn answers_to_json(answers: &BTreeMap<String, String>) -> (r: Option<String>)
    ensures
        opt_text(r) == answers_json(answers@),
{
    serde_json::to_string_pretty(answers).ok()
}

/// The place of the last handoff: what comes before it is folded into it.
pub open spec fn boundary(events: Seq<JournalEvent>) -> Option<u64>
    decreases events.len(),
{
    if events.len() == 0 {
        None
    } else if events.last().kind is Handoff {
        Some(events.last().seq)
    } else {
        boundary(events.drop_last())
    }
}

/// An event that the model context still carries.
pub open spec fn in_context(event: JournalEvent, from: Option<u64>) -> bool {
    match from {
        Some(seq) => event.seq >= seq,
        None => true,
    }
}

/// The verdict and the advice on a decided file-access request.
pub open spec fn decision_text(
    tool: Seq<char>,
    operation: Seq<char>,
    path: Seq<char>,
    allowed: bool,
) -> Seq<char> {
    PERMISSION_ANSWER_PREFIX@ + (if allowed {
        "allowed"@
    } else {
        "denied"@
    }) + " the request "@ + tool + " ("@ + operation + ") on \""@ + path + "\"."@ + (if allowed {
        " Retry the tool call with the same arguments."@
    } else {
        " Do not retry this exact request; find another way or explain why you cannot proceed."@
    })
}

/// The message of the model context that an event stands for.
pub open spec fn event_message(kind: JournalEventKind) -> Option<MessageView> {
    match kind {
        JournalEventKind::Handoff { content, .. } => Some(
            plain_message(ROLE_USER@, HANDOFF_USER_PREFIX@ + content@),
        ),
        JournalEventKind::ModeChange { content, .. } => Some(
            plain_message(ROLE_USER@, content@),
        ),
        JournalEventKind::AskUserAnswered { answers } => Some(
            plain_message(
                ROLE_USER@,
                ASK_USER_ANSWER_PREFIX@ + text_or_empty(answers_json(answers@)),
            ),
        ),
        JournalEventKind::PermissionAnswered {
            tool: Some(tool),
            operation: Some(operation),
            path: Some(path),
            allowed: Some(allowed),
            ..
        } => Some(
            plain_message(ROLE_USER@, decision_text(tool@, operation@, path@, allowed)),
        ),
        JournalEventKind::Message(m) => Some(restored(m)),
        JournalEventKind::ToolResult { id, output, .. } => Some(
            tool_message_view(id@, output@),
        ),
        _ => None,
    }
}

/// The messages that the events of the context stand for, in journal order.
pub open spec fn context_messages(events: Seq<JournalEvent>, from: Option<u64>) -> Seq<MessageView>
    decreases events.len(),
{
    if events.len() == 0 {
        Seq::empty()
    } else {
        let before = context_messages(events.drop_last(), from);
        if in_context(events.last(), from) {
            match event_message(events.last().kind) {
                Some(m) => before.push(m),
                None => before,
            }
        } else {
            before
        }
    }
}

/// The last system prompt of the context.
pub open spec fn context_prompt(events: Seq<JournalEvent>, from: Option<u64>) -> Option<Seq<char>>
    decreases events.len(),
{
    if events.len() == 0 {
        None
    } else {
        match events.last().kind {
            JournalEventKind::SystemPrompt { content, .. } if in_context(events.last(), from) => Some(
                content@,
            ),
            _ => context_prompt(events.drop_last(), from),
        }
    }
}

/// The last reported context length of the context.
pub open spec fn context_tokens(events: Seq<JournalEvent>, from: Option<u64>) -> Option<u64>
    decreases events.len(),
{
    if events.len() == 0 {
        None
    } else {
        match events.last().kind {
            JournalEventKind::ContextUsage { tokens, .. } if in_context(events.last(), from) => Some(
                tokens,
            ),
            _ => context_tokens(events.drop_last(), from),
        }
    }
}

// ---------------------------------------------------------------------------
// Tool calls and their answers
// ---------------------------------------------------------------------------

/// A tool result.
pub open spec fn is_tool(m: MessageView) -> bool {
    m.role == ROLE_TOOL@
}

/// A model reply.
pub open spec fn is_assistant(m: MessageView) -> bool {
    m.role == ROLE_ASSISTANT@
}

/// A message that asks for tool calls.
pub open spec fn has_calls(m: MessageView) -> bool {
    m.calls matches Some(calls) && calls.len() > 0
}

/// The ids of a list of calls.
pub open spec fn ids_of_calls(calls: Seq<CallView>) -> Seq<Seq<char>> {
    calls.map_values(|c: CallView| c.id)
}

/// The ids of a message's calls.
pub open spec fn call_ids(m: MessageView) -> Seq<Seq<char>> {
    match m.calls {
        Some(calls) => ids_of_calls(calls),
        None => Seq::empty(),
    }
}

/// How many tool results stand at the front.
pub open spec fn run_length(ms: Seq<MessageView>) -> nat
    decreases ms.len(),
{
    if ms.len() == 0 || !is_tool(ms[0]) {
        0
    } else {
        1 + run_length(ms.drop_first())
    }
}

/// The tool results right behind the message at `i`.
pub open spec fn run_after(ms: Seq<MessageView>, i: int) -> Seq<MessageView> {
    ms.subrange(i + 1, i + 1 + run_length(ms.skip(i + 1)))
}

/// How often `id` occurs.
pub open spec fn times(ids: Seq<Seq<char>>, id: Seq<char>) -> nat
    decreases ids.len(),
{
    if ids.len() == 0 {
        0
    } else if ids.last() == id {
        times(ids.drop_last(), id) + 1
    } else {
        times(ids.drop_last(), id)
    }
}

/// How many of the results answer the call `id`.
pub open spec fn times_answered(run: Seq<MessageView>, id: Seq<char>) -> nat
    decreases run.len(),
{
    if run.len() == 0 {
        0
    } else if run.last().call_id == Some(id) {
        times_answered(run.drop_last(), id) + 1
    } else {
        times_answered(run.drop_last(), id)
    }
}

/// Every call of the message at `i` has a result of its own among those
/// right behind it.
pub open spec fn answered(ms: Seq<MessageView>, i: int) -> bool {
    forall|id: Seq<char>|
        #![trigger times(call_ids(ms[i]), id)]
        times(call_ids(ms[i]), id) <= times_answered(run_after(ms, i), id)
}

/// The place of `id` among `ids`; behind all of them where it is missing.
pub open spec fn place(ids: Seq<Seq<char>>, id: Seq<char>) -> nat
    decreases ids.len(),
{
    if ids.len() == 0 || ids[0] == id {
        0
    } else {
        1 + place(ids.drop_first(), id)
    }
}

/// The place of the call that a result answers.
pub open spec fn rank(m: MessageView, ids: Seq<Seq<char>>) -> nat {
    place(ids, text_or_empty(m.call_id))
}

/// The results of the call at place `k`, in their order.
pub open spec fn with_rank(run: Seq<MessageView>, ids: Seq<Seq<char>>, k: nat) -> Seq<MessageView>
    decreases run.len(),
{
    if run.len() == 0 {
        Seq::empty()
    } else if rank(run.last(), ids) == k {
        with_rank(run.drop_last(), ids, k).push(run.last())
    } else {
        with_rank(run.drop_last(), ids, k)
    }
}

/// The results from the call at place `k` on, call by call.
pub open spec fn from_rank(run: Seq<MessageView>, ids: Seq<Seq<char>>, k: nat) -> Seq<MessageView>
    decreases ids.len() + 1 - k,
{
    if k > ids.len() {
        Seq::empty()
    } else {
        with_rank(run, ids, k) + from_rank(run, ids, k + 1)
    }
}

/// The results in the order of the calls.
pub open spec fn ordered(run: Seq<MessageView>, ids: Seq<Seq<char>>) -> Seq<MessageView> {
    from_rank(run, ids, 0)
}

/// The context without calls that were never answered, and with every run of
/// results in the order of its calls.
pub open spec fn cleaned(ms: Seq<MessageView>) -> Seq<MessageView>
    decreases ms.len(),
{
    if ms.len() == 0 {
        Seq::empty()
    } else {
        let m = ms[0];
        let run = run_after(ms, 0);
        let rest = ms.skip(1 + run_length(ms.skip(1)) as int);
        proof {
            lemma_run_bound(ms.skip(1));
        }
        if is_assistant(m) && !answered(ms, 0) {
            cleaned(rest)
        } else if is_assistant(m) && has_calls(m) {
            seq![m] + ordered(run, call_ids(m)) + cleaned(rest)
        } else {
            seq![m] + cleaned(ms.skip(1))
        }
    }
}

/// The rebuilt context of a journal.
pub open spec fn rebuilt(events: Seq<JournalEvent>) -> Seq<MessageView> {
    cleaned(context_messages(events, boundary(events)))
}

// ---------------------------------------------------------------------------
// Facts about runs of tool results
// ---------------------------------------------------------------------------

/// The run ends where the tool results end.
pub proof fn lemma_run_bound(ms: Seq<MessageView>)
    ensures
        run_length(ms) <= ms.len(),
        forall|j: int| 0 <= j < run_length(ms) ==> is_tool(#[trigger] ms[j]),
        run_length(ms) < ms.len() ==> !is_tool(ms[run_length(ms) as int]),
    decreases ms.len(),
{
    if ms.len() > 0 && is_tool(ms[0]) {
        let rest = ms.drop_first();
        lemma_run_bound(rest);
        assert forall|j: int| 0 <= j < run_length(ms) implies is_tool(#[trigger] ms[j]) by {
            if j > 0 {
                assert(ms[j] == rest[j - 1]);
            }
        }
        if run_length(ms) < ms.len() {
            assert(ms[run_length(ms) as int] == rest[run_length(ms) - 1]);
        }
    }
}

proof fn lemma_run_length(ms: Seq<MessageView>, n: int)
    requires
        0 <= n <= ms.len(),
        forall|j: int| 0 <= j < n ==> is_tool(#[trigger] ms[j]),
        n < ms.len() ==> !is_tool(ms[n]),
    ensures
        run_length(ms) == n,
    decreases n,
{
    if n > 0 {
        let rest = ms.drop_first();
        assert forall|j: int| 0 <= j < n - 1 implies is_tool(#[trigger] rest[j]) by {
            assert(rest[j] == ms[j + 1]);
        }
        assert(is_tool(ms[0]));
        lemma_run_length(rest, n - 1);
    }
}

proof fn lemma_times_remove(ids: Seq<Seq<char>>, pos: int, id: Seq<char>)
    requires
        0 <= pos < ids.len(),
    ensures
        times(ids.remove(pos), id) + (if ids[pos] == id {
            1nat
        } else {
            0nat
        }) == times(ids, id),
    decreases ids.len(),
{
    if pos == ids.len() - 1 {
        assert(ids.remove(pos) =~= ids.drop_last());
    } else {
        lemma_times_remove(ids.drop_last(), pos, id);
        assert(ids.remove(pos).drop_last() =~= ids.drop_last().remove(pos));
        assert(ids.remove(pos).last() == ids.last());
    }
}

proof fn lemma_times_present(ids: Seq<Seq<char>>, i: int)
    requires
        0 <= i < ids.len(),
    ensures
        times(ids, ids[i]) > 0,
    decreases ids.len(),
{
    if i < ids.len() - 1 {
        assert(ids.drop_last()[i] == ids[i]);
        lemma_times_present(ids.drop_last(), i);
    }
}

proof fn lemma_times_absent(ids: Seq<Seq<char>>, id: Seq<char>)
    requires
        forall|i: int| 0 <= i < ids.len() ==> #[trigger] ids[i] != id,
    ensures
        times(ids, id) == 0,
    decreases ids.len(),
{
    if ids.len() > 0 {
        assert forall|i: int| 0 <= i < ids.drop_last().len() implies #[trigger] ids.drop_last()[i]
            != id by {
            assert(ids.drop_last()[i] == ids[i]);
        }
        lemma_times_absent(ids.drop_last(), id);
    }
}

// ---------------------------------------------------------------------------
// The functions
// ---------------------------------------------------------------------------

/// The user message that carries a decision on a file-access request.
pub fn decision_message(tool: &str, operation: &str, path: &str, allowed: bool) -> (r: ChatMessage)
    ensures
        r@ == plain_message(ROLE_USER@, decision_text(tool@, operation@, path@, allowed)),
{
    let mut text = String::new();
    text.append(PERMISSION_ANSWER_PREFIX);
    text.append(
        if allowed {
            "allowed"
        } else {
            "denied"
        },
    );
    text.append(" the request ");
    text.append(tool);
    text.append(" (");
    text.append(operation);
    text.append(") on \"");
    text.append(path);
    text.append("\".");
    text.append(
        if allowed {
            " Retry the tool call with the same arguments."
        } else {
            " Do not retry this exact request; find another way or explain why you cannot proceed."
        },
    );
    assert(text@ =~= decision_text(tool@, operation@, path@, allowed));
    text_message(ROLE_USER, text)
}

/// The user message that carries the answers, given as JSON; `None` stands
/// for answers that could not be written down.
pub fn answers_message(json: Option<String>) -> (r: ChatMessage)
    ensures
        r@ == plain_message(ROLE_USER@, ASK_USER_ANSWER_PREFIX@ + text_or_empty(opt_text(json))),
{
    let json = match json {
        Some(text) => text,
        None => String::new(),
    };
    text_message(ROLE_USER, cat2(ASK_USER_ANSWER_PREFIX, json.as_str()))
}

/// The message that an event stands for.
pub fn message_of(kind: &JournalEventKind) -> (r: Option<ChatMessage>)
    ensures
        match r {
            Some(m) => event_message(*kind) == Some(m@),
            None => event_message(*kind) is None,
        },
{
    match kind {
        JournalEventKind::Handoff { content, .. } => Some(
            text_message(ROLE_USER, cat2(HANDOFF_USER_PREFIX, content.as_str())),
        ),
        JournalEventKind::ModeChange { content, .. } => Some(
            text_message(ROLE_USER, content.clone()),
        ),
        JournalEventKind::AskUserAnswered { answers } => Some(
            answers_message(answers_to_json(answers)),
        ),
        JournalEventKind::PermissionAnswered {
            tool: Some(tool),
            operation: Some(operation),
            path: Some(path),
            allowed: Some(allowed),
            ..
        } => Some(decision_message(tool.as_str(), operation.as_str(), path.as_str(), *allowed)),
        JournalEventKind::Message(m) => Some(restore_message(m)),
        JournalEventKind::ToolResult { id, output, .. } => Some(
            tool_message(id.clone(), output.clone()),
        ),
        _ => None,
    }
}

/// Whether every call of the message at `idx` is answered by the results
/// right behind it: one result per call, in any order.
pub fn tool_calls_answered(messages: &Vec<ChatMessage>, idx: usize) -> (r: bool)
    requires
        idx < messages.len(),
    ensures
        r == answered(messages_view(messages@), idx as int),
{
    let ghost ms = messages_view(messages@);
    let ghost ids = call_ids(ms[idx as int]);
    let mut remaining: Vec<String> = Vec::new();
    if let Some(calls) = &messages[idx].tool_calls {
        let mut k: usize = 0;
        while k < calls.len()
            invariant
                k <= calls.len(),
                remaining@.len() == k,
                forall|j: int| 0 <= j < k ==> (#[trigger] remaining@[j])@ == calls@[j].id@,
            decreases calls.len() - k,
        {
            remaining.push(calls[k].id.clone());
            k = k + 1;
        }
        assert(ids.len() == calls@.len());
        assert(forall|j: int| 0 <= j < ids.len() ==> #[trigger] ids[j] == calls@[j].id@);
    }
    assert(crate::text::texts(remaining@) =~= ids);
    let mut j: usize = idx + 1;
    assert(ms.subrange(idx + 1, j as int).len() == 0);
    while j < messages.len() && same_text(messages[j].role.as_str(), ROLE_TOOL)
        invariant
            idx < j <= messages.len(),
            ms == messages_view(messages@),
            ids == call_ids(ms[idx as int]),
            forall|k: int| idx < k < j ==> is_tool(#[trigger] ms[k]),
            forall|id: Seq<char>|
                #![trigger times(ids, id)]
                times(crate::text::texts(remaining@), id) == {
                    let called = times(ids, id);
                    let done = times_answered(ms.subrange(idx + 1, j as int), id);
                    if called >= done {
                        (called - done) as nat
                    } else {
                        0nat
                    }
                },
        decreases messages.len() - j,
    {
        let ghost left = crate::text::texts(remaining@);
        let ghost run = ms.subrange(idx + 1, j as int);
        let ghost next = ms.subrange(idx + 1, j + 1);
        assert(next.drop_last() =~= run);
        assert(next.last() == ms[j as int]);
        if let Some(id) = &messages[j].tool_call_id {
            assert(ms[j as int].call_id == Some(id@));
            let mut pos: usize = 0;
            while pos < remaining.len() && !same_text(remaining[pos].as_str(), id.as_str())
                invariant
                    pos <= remaining.len(),
                    left == crate::text::texts(remaining@),
                    forall|k: int| 0 <= k < pos ==> #[trigger] left[k] != id@,
                decreases remaining.len() - pos,
            {
                assert(left[pos as int] == remaining@[pos as int]@);
                pos = pos + 1;
            }
            if pos < remaining.len() {
                assert(left[pos as int] == id@);
                let _ = remaining.remove(pos);
                assert(crate::text::texts(remaining@) =~= left.remove(pos as int));
                proof {
                    lemma_times_present(left, pos as int);
                    assert forall|other: Seq<char>|
                        #![trigger times(ids, other)]
                        times(crate::text::texts(remaining@), other) == {
                            let called = times(ids, other);
                            let done = times_answered(next, other);
                            if called >= done {
                                (called - done) as nat
                            } else {
                                0nat
                            }
                        } by {
                        lemma_times_remove(left, pos as int, other);
                    }
                }
            } else {
                proof {
                    lemma_times_absent(left, id@);
                    assert forall|other: Seq<char>|
                        #![trigger times(ids, other)]
                        times(crate::text::texts(remaining@), other) == {
                            let called = times(ids, other);
                            let done = times_answered(next, other);
                            if called >= done {
                                (called - done) as nat
                            } else {
                                0nat
                            }
                        } by {
                        assert(times(left, other) == times(left, other));
                        if other == id@ {
                            assert(times(left, id@) == 0);
                        }
                    }
                }
            }
        } else {
            assert(ms[j as int].call_id is None);
        }
        j = j + 1;
    }
    proof {
        let tail = ms.skip(idx + 1);
        let n = j - idx - 1;
        assert forall|k: int| 0 <= k < n implies is_tool(#[trigger] tail[k]) by {
            assert(tail[k] == ms[idx + 1 + k]);
        }
        if n < tail.len() {
            assert(tail[n] == ms[j as int]);
        }
        lemma_run_length(tail, n);
        assert(run_after(ms, idx as int) =~= ms.subrange(idx + 1, j as int));
        let left = crate::text::texts(remaining@);
        if left.len() > 0 {
            lemma_times_present(left, 0);
            let id = left[0];
            assert(times(ids, id) > times_answered(run_after(ms, idx as int), id));
        } else {
            assert forall|id: Seq<char>|
                #![trigger times(ids, id)]
                times(ids, id) <= times_answered(run_after(ms, idx as int), id) by {
                assert(times(left, id) == 0);
            }
        }
    }
    remaining.len() == 0
}

/// The place of the call that a result answers; the number of calls where
/// none is answered.
fn rank_of(m: &ChatMessage, ids: &Vec<String>) -> (r: usize)
    ensures
        r as nat == rank(m@, crate::text::texts(ids@)),
        r <= ids.len(),
{
    let id: &str = match &m.tool_call_id {
        Some(id) => id.as_str(),
        None => "",
    };
    proof {
        reveal_strlit("");
        assert(""@ =~= Seq::<char>::empty());
    }
    let ghost all = crate::text::texts(ids@);
    assert(id@ == text_or_empty(m@.call_id));
    assert(all.skip(0) =~= all);
    let mut i: usize = 0;
    while i < ids.len()
        invariant
            i <= ids.len(),
            all == crate::text::texts(ids@),
            id@ == text_or_empty(m@.call_id),
            place(all, id@) == i + place(all.skip(i as int), id@),
        decreases ids.len() - i,
    {
        assert(all.skip(i as int)[0] == ids@[i as int]@);
        if same_text(ids[i].as_str(), id) {
            return i;
        }
        assert(all.skip(i as int).drop_first() =~= all.skip(i + 1));
        i = i + 1;
    }
    i
}

/// Appends the results `from..to` of the call at place `k`.
fn push_rank(
    out: &mut Vec<ChatMessage>,
    messages: &Vec<ChatMessage>,
    from: usize,
    to: usize,
    ids: &Vec<String>,
    k: usize,
)
    requires
        from <= to <= messages.len(),
    ensures
        messages_view(final(out)@) == messages_view(old(out)@) + with_rank(
            messages_view(messages@).subrange(from as int, to as int),
            crate::text::texts(ids@),
            k as nat,
        ),
{
    let ghost ms = messages_view(messages@);
    let ghost all = crate::text::texts(ids@);
    let ghost before = messages_view(out@);
    let mut j: usize = from;
    assert(ms.subrange(from as int, from as int).len() == 0);
    assert(messages_view(out@) =~= before + with_rank(
        ms.subrange(from as int, from as int),
        all,
        k as nat,
    ));
    while j < to
        invariant
            from <= j <= to <= messages.len(),
            ms == messages_view(messages@),
            all == crate::text::texts(ids@),
            messages_view(out@) == before + with_rank(
                ms.subrange(from as int, j as int),
                all,
                k as nat,
            ),
        decreases to - j,
    {
        let ghost next = ms.subrange(from as int, j + 1);
        assert(next.drop_last() =~= ms.subrange(from as int, j as int));
        assert(next.last() == messages@[j as int]@);
        if rank_of(&messages[j], ids) == k {
            let m = copy_message(&messages[j]);
            proof {
                lemma_messages_push(out@, m);
            }
            out.push(m);
            assert(messages_view(out@) =~= before + with_rank(next, all, k as nat));
        }
        j = j + 1;
    }
}

/// The results `from..to` in the order of the calls `ids`.
fn order_run(messages: &Vec<ChatMessage>, from: usize, to: usize, ids: &Vec<String>) -> (r: Vec<
    ChatMessage,
>)
    requires
        from <= to <= messages.len(),
    ensures
        messages_view(r@) == ordered(
            messages_view(messages@).subrange(from as int, to as int),
            crate::text::texts(ids@),
        ),
{
    let ghost run = messages_view(messages@).subrange(from as int, to as int);
    let ghost all = crate::text::texts(ids@);
    let mut out: Vec<ChatMessage> = Vec::new();
    let mut k: usize = 0;
    assert(messages_view(out@) + from_rank(run, all, 0) =~= from_rank(run, all, 0));
    while k < ids.len()
        invariant
            from <= to <= messages.len(),
            k <= ids.len(),
            run == messages_view(messages@).subrange(from as int, to as int),
            all == crate::text::texts(ids@),
            ordered(run, all) == messages_view(out@) + from_rank(run, all, k as nat),
        decreases ids.len() - k,
    {
        let ghost before = messages_view(out@);
        push_rank(&mut out, messages, from, to, ids, k);
        assert(before + from_rank(run, all, k as nat) =~= messages_view(out@) + from_rank(
            run,
            all,
            (k + 1) as nat,
        ));
        k = k + 1;
    }
    let ghost before = messages_view(out@);
    push_rank(&mut out, messages, from, to, ids, k);
    assert(from_rank(run, all, (k + 1) as nat) =~= Seq::<MessageView>::empty());
    assert(before + from_rank(run, all, k as nat) =~= messages_view(out@));
    out
}

/// The ids of a list of calls.
fn ids_of(m: &ChatMessage) -> (r: Vec<String>)
    ensures
        crate::text::texts(r@) == call_ids(m@),
{
    let mut ids: Vec<String> = Vec::new();
    if let Some(calls) = &m.tool_calls {
        let mut k: usize = 0;
        while k < calls.len()
            invariant
                k <= calls.len(),
                ids@.len() == k,
                forall|j: int| 0 <= j < k ==> (#[trigger] ids@[j])@ == calls@[j].id@,
            decreases calls.len() - k,
        {
            ids.push(calls[k].id.clone());
            k = k + 1;
        }
    }
    assert(crate::text::texts(ids@) =~= call_ids(m@));
    ids
}

/// The context without dangling tool calls, every run of results in call
/// order.
pub fn clean_context(messages: &Vec<ChatMessage>) -> (r: Vec<ChatMessage>)
    ensures
        messages_view(r@) == cleaned(messages_view(messages@)),
{
    let ghost ms = messages_view(messages@);
    let mut out: Vec<ChatMessage> = Vec::new();
    let mut i: usize = 0;
    assert(ms.skip(0) =~= ms);
    assert(messages_view(out@) + cleaned(ms) =~= cleaned(ms));
    while i < messages.len()
        invariant
            i <= messages.len(),
            ms == messages_view(messages@),
            cleaned(ms) == messages_view(out@) + cleaned(ms.skip(i as int)),
        decreases messages.len() - i,
    {
        let ghost cur = ms.skip(i as int);
        let ghost before = messages_view(out@);
        let mut j: usize = i + 1;
        while j < messages.len() && same_text(messages[j].role.as_str(), ROLE_TOOL)
            invariant
                i < j <= messages.len(),
                ms == messages_view(messages@),
                forall|k: int| i < k < j ==> is_tool(#[trigger] ms[k]),
            decreases messages.len() - j,
        {
            j = j + 1;
        }
        proof {
            let tail = cur.skip(1);
            let n = j - i - 1;
            assert(tail =~= ms.skip(i + 1));
            assert forall|k: int| 0 <= k < n implies is_tool(#[trigger] tail[k]) by {
                assert(tail[k] == ms[i + 1 + k]);
            }
            if n < tail.len() {
                assert(tail[n] == ms[j as int]);
            }
            lemma_run_length(tail, n);
            assert(run_after(cur, 0) =~= ms.subrange(i + 1, j as int));
            assert(run_after(ms, i as int) =~= ms.subrange(i + 1, j as int));
            assert(cur[0] == ms[i as int]);
            assert(answered(cur, 0) == answered(ms, i as int));
            assert(cur.skip(j - i) =~= ms.skip(j as int));
            assert(cur.skip(1) =~= ms.skip(i + 1));
        }
        let assistant = same_text(messages[i].role.as_str(), ROLE_ASSISTANT);
        if assistant && !tool_calls_answered(messages, i) {
            i = j;
            continue;
        }
        let ids = ids_of(&messages[i]);
        let m = copy_message(&messages[i]);
        proof {
            lemma_messages_push(out@, m);
        }
        out.push(m);
        if assistant && ids.len() > 0 {
            assert(has_calls(cur[0]));
            let ghost first = out@;
            let mut run = order_run(messages, i + 1, j, &ids);
            let ghost added = run@;
            out.append(&mut run);
            assert(messages_view(out@) =~= messages_view(first) + messages_view(added));
            assert(before + (seq![cur[0]] + ordered(run_after(cur, 0), call_ids(cur[0])) + cleaned(
                ms.skip(j as int),
            )) =~= messages_view(out@) + cleaned(ms.skip(j as int)));
            i = j;
        } else {
            assert(!(is_assistant(cur[0]) && has_calls(cur[0]))) by {
                if has_calls(cur[0]) {
                    assert(call_ids(cur[0]).len() > 0);
                }
            }
            assert(before + (seq![cur[0]] + cleaned(ms.skip(i + 1))) =~= messages_view(out@)
                + cleaned(ms.skip(i + 1)));
            i = i + 1;
        }
    }
    assert(ms.skip(i as int).len() == 0);
    assert(messages_view(out@) + cleaned(ms.skip(i as int)) =~= messages_view(out@));
    out
}

/// What a journal says about the conversation so far.
#[derive(Debug, Clone, PartialEq, Eq)]
pub struct History {
    /// The journaled system prompt.
    pub system_prompt: Option<String>,
    /// The messages, without the system prompt.
    pub messages: Vec<ChatMessage>,
    /// The last reported context length.
    pub last_prompt_tokens: Option<u64>,
}

/// The place of the last handoff.
fn last_handoff(events: &Vec<JournalEvent>) -> (r: Option<u64>)
    ensures
        r == boundary(events@),
{
    let mut n: usize = events.len();
    assert(events@.take(n as int) =~= events@);
    while n > 0
        invariant
            n <= events.len(),
            boundary(events@) == boundary(events@.take(n as int)),
        decreases n,
    {
        assert(events@.take(n as int).drop_last() =~= events@.take(n - 1));
        assert(events@.take(n as int).last() == events@[n - 1]);
        if let JournalEventKind::Handoff { .. } = &events[n - 1].kind {
            return Some(events[n - 1].seq);
        }
        n = n - 1;
    }
    None
}

/// Rebuilds the conversation from the events of a session journal. Only the
/// events from the last handoff on count; the handoff becomes the first user
/// message. Tool calls that were never answered are dropped, and the results
/// of the others stand in call order.
pub fn history_from_journal(events: &Vec<JournalEvent>) -> (r: History)
    ensures
        opt_text(r.system_prompt) == context_prompt(events@, boundary(events@)),
        messages_view(r.messages@) == rebuilt(events@),
        r.last_prompt_tokens == context_tokens(events@, boundary(events@)),
{
    let from: Option<u64> = last_handoff(events);
    let mut system_prompt: Option<String> = None;
    let mut messages: Vec<ChatMessage> = Vec::new();
    let mut last_prompt_tokens: Option<u64> = None;
    let mut i: usize = 0;
    assert(events@.take(0).len() == 0);
    assert(messages_view(messages@) =~= Seq::<MessageView>::empty());
    while i < events.len()
        invariant
            i <= events.len(),
            opt_text(system_prompt) == context_prompt(events@.take(i as int), from),
            messages_view(messages@) == context_messages(events@.take(i as int), from),
            last_prompt_tokens == context_tokens(events@.take(i as int), from),
        decreases events.len() - i,
    {
        let event = &events[i];
        assert(events@.take(i + 1).drop_last() =~= events@.take(i as int));
        assert(events@.take(i + 1).last() == event);
        let visible = match from {
            Some(seq) => event.seq >= seq,
            None => true,
        };
        assert(visible == in_context(*event, from));
        if visible {
            match &event.kind {
                JournalEventKind::SystemPrompt { content, .. } => {
                    system_prompt = Some(content.clone());
                },
                JournalEventKind::ContextUsage { tokens, .. } => {
                    last_prompt_tokens = Some(*tokens);
                },
                _ => {},
            }
            if let Some(m) = message_of(&event.kind) {
                proof {
                    lemma_messages_push(messages@, m);
                }
                messages.push(m);
            }
        }
        i = i + 1;
    }
    assert(events@.take(i as int) =~= events@);
    History { system_prompt, messages: clean_context(&messages), last_prompt_tokens }
}

} // verus!
