//! What the answers of the user decide, and what the file-access policy makes
//! of a path in each mode.
use vstd::prelude::*;
use vstd::string::*;

use crate::journal::{
    ask_user_pending, mode_change_pending, permission_pending, JournalEvent, JournalEventKind,
    PermissionDecision, PermissionRequestItem,
};
use crate::paths::{file_name_of, joined, parent_of, under};
use crate::session::Mode;
use crate::text::blank;
use crate::tools::fs::PathLookup;
use crate::tools::permission::{
    ask_guidance, ask_refusal, asks_for, batch_decision, event_decision, held, read_decision,
    remembered, requests_one, write_decision, PolicyView, PERMISSION_PENDING, QUESTION_PENDING, SUBAGENT_CANNOT_ASK,
};
use crate::tools::ToolContext;

verus! {

// ---------------------------------------------------------------------------
// Answers
// ---------------------------------------------------------------------------

/// A decision on this tool and this path.
pub open spec fn is_on(d: PermissionDecision, tool: Seq<char>, raw: Seq<char>) -> bool {
    d.tool@ == tool && d.path@ == raw
}

proof fn lemma_batch_undecided(ds: Seq<PermissionDecision>, tool: Seq<char>, raw: Seq<char>)
    requires
        forall|j: int| 0 <= j < ds.len() ==> !is_on(#[trigger] ds[j], tool, raw),
    ensures
        batch_decision(ds, tool, raw) is None,
    decreases ds.len(),
{
    if ds.len() > 0 {
        let rest = ds.drop_last();
        assert(!is_on(ds[ds.len() - 1], tool, raw));
        assert forall|j: int| 0 <= j < rest.len() implies !is_on(#[trigger] rest[j], tool, raw) by {
            assert(rest[j] == ds[j]);
        }
        lemma_batch_undecided(rest, tool, raw);
    }
}

proof fn lemma_batch_decided(ds: Seq<PermissionDecision>, tool: Seq<char>, raw: Seq<char>, i: int)
    requires
        0 <= i < ds.len(),
        is_on(ds[i], tool, raw),
        forall|j: int| i < j < ds.len() ==> !is_on(#[trigger] ds[j], tool, raw),
    ensures
        batch_decision(ds, tool, raw) == Some(ds[i].allowed),
    decreases ds.len(),
{
    let rest = ds.drop_last();
    if i < ds.len() - 1 {
        assert(!is_on(ds[ds.len() - 1], tool, raw));
        assert(rest[i] == ds[i]);
        assert forall|j: int| i < j < rest.len() implies !is_on(#[trigger] rest[j], tool, raw) by {
            assert(rest[j] == ds[j]);
        }
        lemma_batch_decided(rest, tool, raw, i);
    }
}

/// Every decision of a batch counts, wherever in the batch it stands: one on
/// this tool and path, with no later one on them, is what the answer decides.
pub proof fn law_every_decision_of_a_batch_counts(
    kind: JournalEventKind,
    tool: Seq<char>,
    raw: Seq<char>,
    i: int,
)
    requires
        kind matches JournalEventKind::PermissionAnswered { decisions, .. } && 0 <= i
            < decisions@.len() && is_on(decisions@[i], tool, raw) && forall|j: int|
            i < j < decisions@.len() ==> !is_on(#[trigger] decisions@[j], tool, raw),
    ensures
        event_decision(kind, tool, raw) == Some(kind->PermissionAnswered_decisions@[i].allowed),
{
    lemma_batch_decided(kind->PermissionAnswered_decisions@, tool, raw, i);
}

/// A batch without a decision on this tool and path decides nothing on them.
pub proof fn law_a_batch_decides_on_its_own_paths_alone(
    kind: JournalEventKind,
    tool: Seq<char>,
    raw: Seq<char>,
)
    requires
        kind matches JournalEventKind::PermissionAnswered { decisions, .. } && decisions@.len() > 0
            && forall|j: int|
            0 <= j < decisions@.len() ==> !is_on(#[trigger] decisions@[j], tool, raw),
    ensures
        event_decision(kind, tool, raw) is None,
{
    lemma_batch_undecided(kind->PermissionAnswered_decisions@, tool, raw);
}

/// A batch whose paths differ decides on each of them as the user chose.
pub proof fn law_a_batch_decides_each_of_its_paths(kind: JournalEventKind, i: int)
    requires
        kind matches JournalEventKind::PermissionAnswered { decisions, .. } && 0 <= i
            < decisions@.len() && forall|j: int|
            0 <= j < decisions@.len() && j != i ==> (#[trigger] decisions@[j]).path@
                != decisions@[i].path@,
    ensures
        ({
            let d = kind->PermissionAnswered_decisions@[i];
            event_decision(kind, d.tool@, d.path@) == Some(d.allowed)
        }),
{
    let ds = kind->PermissionAnswered_decisions@;
    assert forall|j: int| i < j < ds.len() implies !is_on(
        #[trigger] ds[j],
        ds[i].tool@,
        ds[i].path@,
    ) by {}
    law_every_decision_of_a_batch_counts(kind, ds[i].tool@, ds[i].path@, i);
}

/// A single answer decides on the tool and path that it names, and on no other;
/// one that leaves any of the three out decides nothing.
pub proof fn law_a_single_answer_decides_on_what_it_names(
    kind: JournalEventKind,
    tool: Seq<char>,
    raw: Seq<char>,
)
    requires
        kind matches JournalEventKind::PermissionAnswered { decisions, .. } && decisions@.len()
            == 0,
    ensures
        ({
            let t = kind->PermissionAnswered_tool;
            let p = kind->PermissionAnswered_path;
            let a = kind->PermissionAnswered_allowed;
            let named = t is Some && p is Some && a is Some && t->0@ == tool && p->0@ == raw;
            &&& named ==> event_decision(kind, tool, raw) == a
            &&& !named ==> event_decision(kind, tool, raw) is None
        }),
{
}

/// Nothing but an answer of the user decides: not the request, nor a message.
pub proof fn law_only_answers_decide(kind: JournalEventKind, tool: Seq<char>, raw: Seq<char>)
    requires
        !(kind is PermissionAnswered),
    ensures
        event_decision(kind, tool, raw) is None,
{
}

/// The most recent answer on a tool and path is the one that is remembered.
pub proof fn law_the_latest_answer_is_remembered(
    events: Seq<JournalEvent>,
    tool: Seq<char>,
    raw: Seq<char>,
    i: int,
)
    requires
        0 <= i < events.len(),
        event_decision(events[i].kind, tool, raw) is Some,
        forall|j: int|
            i < j < events.len() ==> event_decision((#[trigger] events[j]).kind, tool, raw) is None,
    ensures
        remembered(events, tool, raw) == event_decision(events[i].kind, tool, raw),
    decreases events.len(),
{
    if i < events.len() - 1 {
        let rest = events.drop_last();
        assert(event_decision(events[events.len() - 1].kind, tool, raw) is None);
        assert(rest[i] == events[i]);
        assert forall|j: int| i < j < rest.len() implies event_decision(
            (#[trigger] rest[j]).kind,
            tool,
            raw,
        ) is None by {
            assert(rest[j] == events[j]);
        }
        law_the_latest_answer_is_remembered(rest, tool, raw, i);
    }
}

/// Where the user answered nothing on a tool and path, nothing is remembered.
pub proof fn law_nothing_is_remembered_unanswered(
    events: Seq<JournalEvent>,
    tool: Seq<char>,
    raw: Seq<char>,
)
    requires
        forall|j: int|
            0 <= j < events.len() ==> event_decision((#[trigger] events[j]).kind, tool, raw)
                is None,
    ensures
        remembered(events, tool, raw) is None,
    decreases events.len(),
{
    if events.len() > 0 {
        let rest = events.drop_last();
        assert(event_decision(events[events.len() - 1].kind, tool, raw) is None);
        assert forall|j: int| 0 <= j < rest.len() implies event_decision(
            (#[trigger] rest[j]).kind,
            tool,
            raw,
        ) is None by {
            assert(rest[j] == events[j]);
        }
        law_nothing_is_remembered_unanswered(rest, tool, raw);
    }
}

// ---------------------------------------------------------------------------
// Policies
// ---------------------------------------------------------------------------

/// The path can be found: the working directory and the parent exist, and the
/// path has a name.
pub open spec fn found(raw: Seq<char>, lookup: PathLookup) -> bool {
    &&& lookup.workdir is Ok
    &&& lookup.parent is Ok
    &&& !blank(raw)
    &&& parent_of(joined(lookup.workdir->Ok_0@, raw)) is Some
    &&& file_name_of(joined(lookup.workdir->Ok_0@, raw)) is Some
}

/// What becomes of a path that lies outside every root: asked about until the
/// user has answered, and then by the answer, for good.
pub open spec fn by_the_answer(
    policy: Result<PolicyView, Seq<char>>,
    answer: Option<bool>,
    tool: Seq<char>,
    raw: Seq<char>,
    path: Seq<char>,
    operation: Seq<char>,
) -> bool {
    &&& answer is None ==> policy == Ok::<PolicyView, Seq<char>>(PolicyView::Ask(operation))
    &&& answer == Some(true) ==> policy == Ok::<PolicyView, Seq<char>>(PolicyView::Run(path))
    &&& answer == Some(false) ==> policy == Err::<PolicyView, Seq<char>>(
        "the user denied permission for "@ + tool + " "@ + raw
            + " — do not retry it; find another way or explain why you cannot proceed"@,
    )
}

/// A file inside the working directory or an extra root is read in every mode
/// without asking; any other one by the answer of the user.
pub proof fn law_reads_run_inside_and_ask_outside(
    ctx: ToolContext,
    raw: Seq<char>,
    roots: Seq<String>,
    lookup: PathLookup,
    events: Vec<JournalEvent>,
)
    requires
        found(raw, lookup),
        lookup.file is Ok,
    ensures
        ({
            let file = lookup.file->Ok_0@;
            let policy = read_decision(ctx, raw, roots, lookup, Ok(events));
            let inside = under(file, lookup.workdir->Ok_0@) || exists|i: int|
                0 <= i < roots.len() && under(file, #[trigger] roots[i]@);
            &&& inside ==> policy == Ok::<PolicyView, Seq<char>>(PolicyView::Run(file))
            &&& !inside ==> by_the_answer(
                policy,
                remembered(events@, "read_file"@, raw),
                "read_file"@,
                raw,
                file,
                "read"@,
            )
        }),
{
}

/// In build mode a write inside the codebase runs without asking, so does one
/// inside the scratch directory, and any other goes by the answer of the user.
/// In the other modes the codebase is read-only, the scratch directory is open,
/// and everything else is denied without asking.
pub proof fn law_writes_go_by_mode_and_place(
    ctx: ToolContext,
    tool: Seq<char>,
    raw: Seq<char>,
    lookup: PathLookup,
    scratch: PathLookup,
    events: Vec<JournalEvent>,
)
    requires
        found(raw, lookup),
        found(raw, scratch),
    ensures
        ({
            let name = file_name_of(joined(lookup.workdir->Ok_0@, raw))->0;
            let path = joined(lookup.parent->Ok_0@, name);
            let scratch_name = file_name_of(joined(scratch.workdir->Ok_0@, raw))->0;
            let scratch_path = joined(scratch.parent->Ok_0@, scratch_name);
            let in_codebase = under(lookup.parent->Ok_0@, lookup.workdir->Ok_0@);
            let in_scratch = under(scratch.parent->Ok_0@, scratch.workdir->Ok_0@);
            let policy = write_decision(ctx, tool, raw, lookup, scratch, Ok(events));
            let mode = ctx.session.mode;
            let mode_name = if mode == Mode::Plan {
                "plan"@
            } else {
                "explore"@
            };
            &&& mode == Mode::Build && in_codebase ==> policy == Ok::<PolicyView, Seq<char>>(
                PolicyView::Run(path),
            )
            &&& mode == Mode::Build && !in_codebase && in_scratch ==> policy == Ok::<
                PolicyView,
                Seq<char>,
            >(PolicyView::Run(scratch_path))
            &&& mode == Mode::Build && !in_codebase && !in_scratch ==> by_the_answer(
                policy,
                remembered(events@, tool, raw),
                tool,
                raw,
                path,
                "write"@,
            )
            &&& mode != Mode::Build && in_codebase ==> policy == Err::<PolicyView, Seq<char>>(
                mode_name
                    + " mode: the codebase is read-only; create/edit/remove is only allowed under "@
                    + ctx.scratch@ + " (use an absolute path)"@,
            )
            &&& mode != Mode::Build && !in_codebase && in_scratch ==> policy == Ok::<
                PolicyView,
                Seq<char>,
            >(PolicyView::Run(scratch_path))
            &&& mode != Mode::Build && !in_codebase && !in_scratch ==> policy == Err::<
                PolicyView,
                Seq<char>,
            >(
                mode_name + " mode: writes are denied outside the session scratch dir ("@
                    + ctx.scratch@ + ")"@,
            )
        }),
{
}

/// A journal that cannot be read holds no answer: an outside read asks.
pub proof fn law_an_unreadable_journal_asks(
    ctx: ToolContext,
    raw: Seq<char>,
    lookup: PathLookup,
    e: String,
)
    requires
        found(raw, lookup),
        lookup.file is Ok,
        !under(lookup.file->Ok_0@, lookup.workdir->Ok_0@),
    ensures
        read_decision(ctx, raw, Seq::empty(), lookup, Err(e)) == Ok::<PolicyView, Seq<char>>(
            PolicyView::Ask("read"@),
        ),
{
}

/// What cannot be found is refused with what is missing, in the order in which
/// it is looked for.
pub proof fn law_unresolved_paths_say_what_is_missing(
    ctx: ToolContext,
    tool: Seq<char>,
    raw: Seq<char>,
    roots: Seq<String>,
    lookup: PathLookup,
    scratch: PathLookup,
    events: Result<Vec<JournalEvent>, String>,
)
    ensures
        ({
            let read = read_decision(ctx, raw, roots, lookup, events);
            let write = write_decision(ctx, tool, raw, lookup, scratch, events);
            let both = |text: Seq<char>|
                read == Err::<PolicyView, Seq<char>>(text) && write == Err::<PolicyView, Seq<char>>(
                    text,
                );
            match lookup.workdir {
                Err(e) => both(
                    "working directory does not exist: "@ + ctx.workdir@ + " ("@ + e@ + ")"@,
                ),
                Ok(w) => {
                    let parent = parent_of(joined(w@, raw));
                    &&& blank(raw) ==> both("path must not be empty"@)
                    &&& !blank(raw) && parent is None ==> both("path has no parent: "@ + raw)
                    &&& !blank(raw) && parent is Some ==> match lookup.parent {
                        Err(e) => both(
                            "parent directory does not exist: "@ + parent->0 + " ("@ + e@ + ")"@,
                        ),
                        Ok(_) => file_name_of(joined(w@, raw)) is None ==> both(
                            "path has no file name: "@ + raw,
                        ),
                    }
                },
            }
        }),
        found(raw, lookup) ==> (lookup.file matches Err(e) ==> read_decision(
            ctx,
            raw,
            roots,
            lookup,
            events,
        ) == Err::<PolicyView, Seq<char>>("file does not exist: "@ + raw + " ("@ + e@ + ")"@)),
{
}

/// The policy is to ask the user.
pub open spec fn asks(policy: Result<PolicyView, Seq<char>>) -> bool {
    policy is Ok && policy->Ok_0 is Ask
}

/// The four file tools, and no other, are held for the user.
pub proof fn law_only_file_tools_are_held(
    ctx: ToolContext,
    tool: Seq<char>,
    operation: Seq<char>,
    raw: Seq<char>,
    roots: Seq<String>,
    lookup: PathLookup,
    scratch: PathLookup,
    events: Result<Vec<JournalEvent>, String>,
)
    ensures
        ({
            let on = held(ctx, tool, operation, raw, roots, lookup, scratch, events);
            &&& on ==> tool == "read_file"@ || tool == "edit_file"@ || tool == "create_file"@
                || tool == "remove_file"@
            &&& tool == "read_file"@ && operation == "read"@ ==> (on <==> asks(
                read_decision(ctx, raw, roots, lookup, events),
            ))
            &&& (tool == "edit_file"@ || tool == "create_file"@ || tool == "remove_file"@)
                && operation == "write"@ ==> (on <==> asks(
                write_decision(ctx, tool, raw, lookup, scratch, events),
            ))
        }),
{
    reveal_strlit("read");
    reveal_strlit("write");
    assert("read"@.len() == 4 && "write"@.len() == 5);
}

// ---------------------------------------------------------------------------
// Open requests
// ---------------------------------------------------------------------------

/// A question that nothing behind it answers.
pub open spec fn question_open_at(events: Seq<JournalEvent>, i: int) -> bool {
    &&& 0 <= i < events.len()
    &&& events[i].kind is AskUserRequest
    &&& forall|j: int| i < j < events.len() ==> !((#[trigger] events[j]).kind is AskUserAnswered)
}

/// A question is open until it is answered, whatever else is journaled.
pub proof fn law_a_question_is_open_until_it_is_answered(events: Seq<JournalEvent>)
    ensures
        ask_user_pending(events) <==> exists|i: int| #[trigger] question_open_at(events, i),
    decreases events.len(),
{
    if events.len() > 0 {
        let n = events.len() - 1;
        let rest = events.drop_last();
        law_a_question_is_open_until_it_is_answered(rest);
        assert(forall|j: int| 0 <= j < n ==> #[trigger] rest[j] == events[j]);
        if events[n].kind is AskUserRequest {
            assert(question_open_at(events, n));
        }
        if ask_user_pending(events) && !(events[n].kind is AskUserRequest) {
            let i = choose|i: int| #[trigger] question_open_at(rest, i);
            assert(rest[i] == events[i]);
            assert forall|j: int| i < j < events.len() implies !((#[trigger] events[j]).kind is AskUserAnswered) by {
                if j < n {
                    assert(rest[j] == events[j]);
                }
            }
            assert(question_open_at(events, i));
        }
        assert forall|i: int| #[trigger] question_open_at(events, i) implies ask_user_pending(events) by {
            if i < n {
                assert(rest[i] == events[i]);
                assert forall|j: int| i < j < rest.len() implies !((#[trigger] rest[j]).kind is AskUserAnswered) by {
                    assert(rest[j] == events[j]);
                }
                assert(question_open_at(rest, i));
            }
        }
    }
}

/// A permission request that nothing behind it answers.
pub open spec fn permission_open_at(events: Seq<JournalEvent>, i: int) -> bool {
    &&& 0 <= i < events.len()
    &&& events[i].kind is PermissionRequest
    &&& forall|j: int| i < j < events.len() ==> !((#[trigger] events[j]).kind is PermissionAnswered)
}

/// A permission request is open until it is answered, whatever else is journaled.
pub proof fn law_a_permission_is_open_until_it_is_answered(events: Seq<JournalEvent>)
    ensures
        permission_pending(events) <==> exists|i: int| #[trigger] permission_open_at(events, i),
    decreases events.len(),
{
    if events.len() > 0 {
        let n = events.len() - 1;
        let rest = events.drop_last();
        law_a_permission_is_open_until_it_is_answered(rest);
        assert(forall|j: int| 0 <= j < n ==> #[trigger] rest[j] == events[j]);
        if events[n].kind is PermissionRequest {
            assert(permission_open_at(events, n));
        }
        if permission_pending(events) && !(events[n].kind is PermissionRequest) {
            let i = choose|i: int| #[trigger] permission_open_at(rest, i);
            assert(rest[i] == events[i]);
            assert forall|j: int| i < j < events.len() implies !((#[trigger] events[j]).kind is PermissionAnswered) by {
                if j < n {
                    assert(rest[j] == events[j]);
                }
            }
            assert(permission_open_at(events, i));
        }
        assert forall|i: int| #[trigger] permission_open_at(events, i) implies permission_pending(events) by {
            if i < n {
                assert(rest[i] == events[i]);
                assert forall|j: int| i < j < rest.len() implies !((#[trigger] rest[j]).kind is PermissionAnswered) by {
                    assert(rest[j] == events[j]);
                }
                assert(permission_open_at(rest, i));
            }
        }
    }
}

/// A request to change the mode that nothing behind it decides.
pub open spec fn mode_change_open_at(events: Seq<JournalEvent>, i: int) -> bool {
    &&& 0 <= i < events.len()
    &&& events[i].kind is ModeChangeRequest
    &&& forall|j: int| i < j < events.len() ==> !((#[trigger] events[j]).kind is ModeChange) && !(events[j].kind is ModeChangeRequestDeclined)
}

/// A request to change the mode is open until the mode changes or it is declined.
pub proof fn law_a_mode_change_is_open_until_it_is_decided(events: Seq<JournalEvent>)
    ensures
        mode_change_pending(events) <==> exists|i: int| #[trigger] mode_change_open_at(events, i),
    decreases events.len(),
{
    if events.len() > 0 {
        let n = events.len() - 1;
        let rest = events.drop_last();
        law_a_mode_change_is_open_until_it_is_decided(rest);
        assert(forall|j: int| 0 <= j < n ==> #[trigger] rest[j] == events[j]);
        if events[n].kind is ModeChangeRequest {
            assert(mode_change_open_at(events, n));
        }
        if mode_change_pending(events) && !(events[n].kind is ModeChangeRequest) {
            let i = choose|i: int| #[trigger] mode_change_open_at(rest, i);
            assert(rest[i] == events[i]);
            assert forall|j: int| i < j < events.len() implies !((#[trigger] events[j]).kind is ModeChange) && !(events[j].kind is ModeChangeRequestDeclined) by {
                if j < n {
                    assert(rest[j] == events[j]);
                }
            }
            assert(mode_change_open_at(events, i));
        }
        assert forall|i: int| #[trigger] mode_change_open_at(events, i) implies mode_change_pending(events) by {
            if i < n {
                assert(rest[i] == events[i]);
                assert forall|j: int| i < j < rest.len() implies !((#[trigger] rest[j]).kind is ModeChange) && !(rest[j].kind is ModeChangeRequestDeclined) by {
                    assert(rest[j] == events[j]);
                }
                assert(mode_change_open_at(rest, i));
            }
        }
    }
}

/// Who may ask for access: a root session with a readable journal and nothing
/// else open. Every other one is told why not.
pub proof fn law_access_is_asked_for_one_at_a_time(
    ctx: ToolContext,
    events: Result<Vec<JournalEvent>, String>,
)
    ensures
        ({
            let refusal = ask_refusal(ctx, events);
            &&& ctx.session.parent_id is Some ==> refusal == Some(SUBAGENT_CANNOT_ASK@)
            &&& ctx.session.parent_id is None ==> match events {
                Err(e) => refusal == Some("failed to read session journal: "@ + e@),
                Ok(events) => {
                    let asked = ask_user_pending(events@);
                    let open = permission_pending(events@);
                    &&& asked ==> refusal == Some(QUESTION_PENDING@)
                    &&& !asked && open ==> refusal == Some(PERMISSION_PENDING@)
                    &&& !asked && !open ==> refusal is None
                },
            }
        }),
{
}

/// The model is told what was asked for: the operation, the path and the tool.
pub proof fn law_the_guidance_names_the_request(
    tool: Seq<char>,
    operation: Seq<char>,
    raw: Seq<char>,
)
    ensures
        ({
            let opening = "A permission request was sent to the user: they will see a request to "@
                + operation + " \""@ + raw + "\" via the "@ + tool;
            let guidance = ask_guidance(tool, operation, raw);
            &&& opening.len() < guidance.len()
            &&& guidance.take(opening.len() as int) == opening
        }),
{
    let opening = "A permission request was sent to the user: they will see a request to "@
        + operation + " \""@ + raw + "\" via the "@ + tool;
    let guidance = ask_guidance(tool, operation, raw);
    reveal_strlit(
        " tool in the UI and can allow or deny it.\n\n\
         Stop working now: do not continue the task or retry the tool call until you receive \
         the answer. Finish your turn with a brief message to the user (in their language) \
         telling them the request was sent. The answer will arrive as a user message: if the \
         user allowed the request, retry the tool call with the same arguments; if they \
         denied it, do not retry — find another way or explain why you cannot proceed.",
    );
    assert(guidance.take(opening.len() as int) =~= opening);
}

/// A held call is put to the user as the model made it, with all that it takes to
/// run it later; and a single request names the same things.
pub proof fn law_a_request_is_put_as_it_was_made(
    item: PermissionRequestItem,
    kind: JournalEventKind,
    call_id: Seq<char>,
    tool: Seq<char>,
    raw: Seq<char>,
    arguments: Seq<char>,
    reads: bool,
)
    requires
        asks_for(
            item,
            call_id,
            tool,
            if reads {
                "read"@
            } else {
                "write"@
            },
            raw,
            arguments,
        ),
        requests_one(
            kind,
            tool,
            if reads {
                "read"@
            } else {
                "write"@
            },
            raw,
        ),
    ensures
        item.call_id@ == call_id,
        item.tool@ == tool,
        item.path@ == raw,
        item.arguments@ == arguments,
        reads ==> item.operation@ == "read"@,
        !reads ==> item.operation@ == "write"@,
        kind is PermissionRequest,
        kind->PermissionRequest_request_id@ == "p1"@,
        kind->PermissionRequest_tool is Some && kind->PermissionRequest_tool->0@ == tool,
        kind->PermissionRequest_path is Some && kind->PermissionRequest_path->0@ == raw,
        kind->PermissionRequest_operation is Some && kind->PermissionRequest_operation->0@
            == item.operation@,
        kind->PermissionRequest_items@.len() == 0,
{
    reveal_strlit("read");
    reveal_strlit("write");
    assert("read"@.len() == 4 && "write"@.len() == 5);
}

} // verus!
