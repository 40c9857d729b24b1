//! `ask_user`: asks the user a clarification question.
use vstd::prelude::*;
use vstd::string::*;

use crate::journal::{
    ask_user_pending, has_pending_permission, has_pending_question, is_ask_user_marker,
    is_permission_marker, law_other_events_leave_a_permission_open,
    law_other_events_leave_a_question_open, permission_pending, AskUserOption, AskUserQuestion,
    JournalEvent, JournalEventKind,
};
use crate::text::{blank, cat2, cat3, decimal, decimal_text, is_blank, trim, trimmed};
use crate::tools::ToolContext;

verus! {

/// The id of a question: one is open at a time.
pub const QUESTION_ID: &'static str = "q1";

/// Opens every complaint about the arguments.
pub const INVALID_QUESTION: &'static str = "invalid arguments for ask_user: ";

/// The refusal of a question from a subagent.
pub const SUBAGENT_QUESTION: &'static str = "subagents cannot ask the user: the question is shown in the UI, which only \
             root sessions have. Report the need to your parent agent instead.";

/// The refusal of a question while another one is open.
pub const SECOND_QUESTION: &'static str = "a clarification question is already pending — the user has not answered yet. Do \
             not call this tool again; finish your turn and wait for the user's answer.";

/// The refusal of a question while a permission request is open.
pub const QUESTION_AFTER_PERMISSION: &'static str = "a file-access permission request is already pending — the user has not answered \
             yet. Do not call this tool; finish your turn and wait for the user's decision.";

/// Opens the guidance for the model, up to the title.
pub const QUESTION_SENT: &'static str = "Clarification question sent to the user: they will see \"";

/// Closes the guidance for the model, behind the title.
pub const QUESTION_GUIDANCE: &'static str = "\" in the UI with the \
         listed options and a free-text input box, and can answer by picking an option or \
         typing their own text.\n\n\
         Stop working now: do not continue the task or spawn further subagents until you \
         receive the answer. Finish your turn with a brief message to the user (in their \
         language) telling them the question was sent. The answer will arrive as a user \
         message carrying a JSON object keyed by question_id, e.g. {\"q1\": \"the chosen \
         option title or the user's typed text\"} — then continue from where you left off.";

/// One option of an `ask_user` call.
#[derive(Debug, Clone, PartialEq, Eq)]
pub struct AskUserOptionArgs {
    /// The label that the user picks, which is also the answer.
    pub option_title: String,
    /// What the option means.
    pub option_text: String,
}

/// Arguments of the `ask_user` tool call: exactly one question.
#[derive(Debug, Clone, PartialEq, Eq)]
pub struct AskUserArgs {
    pub question_title: String,
    pub question_text: String,
    /// The preset choices; none for a free-text question.
    pub options: Vec<AskUserOptionArgs>,
}

/// The first option without a title.
pub open spec fn blank_option(options: Seq<AskUserOptionArgs>) -> Option<int>
    decreases options.len(),
{
    if options.len() == 0 {
        None
    } else {
        match blank_option(options.drop_last()) {
            Some(i) => Some(i),
            None => if blank(options.last().option_title@) {
                Some(options.len() - 1)
            } else {
                None
            },
        }
    }
}

/// What is wrong with a question; `None` where it can be asked.
pub open spec fn question_fault(args: AskUserArgs) -> Option<Seq<char>> {
    if blank(args.question_title@) {
        Some(INVALID_QUESTION@ + "question_title must not be empty"@)
    } else if blank(args.question_text@) {
        Some(INVALID_QUESTION@ + "question_text must not be empty"@)
    } else {
        match blank_option(args.options@) {
            Some(i) => Some(
                INVALID_QUESTION@ + ("options["@ + decimal(i as nat)
                    + "].option_title must not be empty"@),
            ),
            None => None,
        }
    }
}

/// `q` is the question of the arguments: the same texts without the blanks
/// around them.
pub open spec fn asks(q: AskUserQuestion, args: AskUserArgs) -> bool {
    &&& q.question_id@ == QUESTION_ID@
    &&& q.question_title@ == trimmed(args.question_title@)
    &&& q.question_text@ == trimmed(args.question_text@)
    &&& q.options@.len() == args.options@.len()
    &&& forall|i: int|
        0 <= i < q.options@.len() ==> (#[trigger] q.options@[i]).option_title@ == trimmed(
            args.options@[i].option_title@,
        ) && q.options@[i].option_text@ == trimmed(args.options@[i].option_text@)
}

/// Checks the arguments and builds the question.
pub fn validate(args: &AskUserArgs) -> (r: Result<AskUserQuestion, String>)
    ensures
        match r {
            Ok(q) => question_fault(*args) is None && asks(q, *args),
            Err(e) => question_fault(*args) == Some(e@),
        },
{
    if is_blank(args.question_title.as_str()) {
        return Err(cat2(INVALID_QUESTION, "question_title must not be empty"));
    }
    if is_blank(args.question_text.as_str()) {
        return Err(cat2(INVALID_QUESTION, "question_text must not be empty"));
    }
    let mut options: Vec<AskUserOption> = Vec::new();
    let mut i: usize = 0;
    assert(args.options@.take(0).len() == 0);
    while i < args.options.len()
        invariant
            i <= args.options.len(),
            options@.len() == i,
            blank_option(args.options@.take(i as int)) is None,
            forall|k: int|
                0 <= k < i ==> (#[trigger] options@[k]).option_title@ == trimmed(
                    args.options@[k].option_title@,
                ) && options@[k].option_text@ == trimmed(args.options@[k].option_text@),
            !blank(args.question_title@),
            !blank(args.question_text@),
        decreases args.options.len() - i,
    {
        let opt = &args.options[i];
        assert(args.options@.take(i + 1).drop_last() =~= args.options@.take(i as int));
        assert(args.options@.take(i + 1).last() == args.options@[i as int]);
        if is_blank(opt.option_title.as_str()) {
            proof {
                lemma_first_blank_stays(args.options@, i + 1);
            }
            let place = cat3(
                "options[",
                decimal_text(i as u64).as_str(),
                "].option_title must not be empty",
            );
            return Err(cat2(INVALID_QUESTION, place.as_str()));
        }
        options.push(
            AskUserOption {
                option_title: trim(opt.option_title.as_str()).to_owned(),
                option_text: trim(opt.option_text.as_str()).to_owned(),
            },
        );
        i = i + 1;
    }
    assert(args.options@.take(i as int) =~= args.options@);
    Ok(
        AskUserQuestion {
            question_id: QUESTION_ID.to_owned(),
            question_title: trim(args.question_title.as_str()).to_owned(),
            question_text: trim(args.question_text.as_str()).to_owned(),
            options,
        },
    )
}

proof fn lemma_first_blank_stays(options: Seq<AskUserOptionArgs>, n: int)
    requires
        0 <= n <= options.len(),
        blank_option(options.take(n)) is Some,
    ensures
        blank_option(options) == blank_option(options.take(n)),
    decreases options.len() - n,
{
    if n < options.len() {
        assert(options.take(n + 1).drop_last() =~= options.take(n));
        lemma_first_blank_stays(options, n + 1);
    } else {
        assert(options.take(n) =~= options);
    }
}

/// Why a question is refused; `None` where it may go out.
pub open spec fn question_refusal(
    ctx: ToolContext,
    args: AskUserArgs,
    events: Result<Vec<JournalEvent>, String>,
) -> Option<Seq<char>> {
    match question_fault(args) {
        Some(fault) => Some(fault),
        None => if ctx.session.parent_id is Some {
            Some(SUBAGENT_QUESTION@)
        } else {
            match events {
                Err(e) => Some("failed to read session journal: "@ + e@),
                Ok(events) => if ask_user_pending(events@) {
                    Some(SECOND_QUESTION@)
                } else if permission_pending(events@) {
                    Some(QUESTION_AFTER_PERMISSION@)
                } else {
                    None
                },
            }
        },
    }
}

/// The event puts the question of the arguments, and the guidance names it.
pub open spec fn puts_question(
    kind: JournalEventKind,
    guidance: Seq<char>,
    args: AskUserArgs,
) -> bool {
    &&& kind matches JournalEventKind::AskUserRequest { question } && asks(question, args)
    &&& guidance == QUESTION_SENT@ + trimmed(args.question_title@) + QUESTION_GUIDANCE@
}

/// Executes an `ask_user` call: the event to journal and the guidance for the
/// model, or why the user cannot be asked.
pub fn ask_user(
    ctx: &ToolContext,
    args: &AskUserArgs,
    events: &Result<Vec<JournalEvent>, String>,
) -> (r: Result<(JournalEventKind, String), String>)
    ensures
        match r {
            Ok((kind, guidance)) => question_refusal(*ctx, *args, *events) is None
                && puts_question(kind, guidance@, *args),
            Err(e) => question_refusal(*ctx, *args, *events) == Some(e@),
        },
{
    let question = match validate(args) {
        Ok(question) => question,
        Err(e) => {
            return Err(e);
        },
    };
    if ctx.session.parent_id.is_some() {
        return Err(SUBAGENT_QUESTION.to_owned());
    }
    match events {
        Err(e) => {
            return Err(cat2("failed to read session journal: ", e.as_str()));
        },
        Ok(events) => {
            if has_pending_question(events) {
                return Err(SECOND_QUESTION.to_owned());
            }
            if has_pending_permission(events) {
                return Err(QUESTION_AFTER_PERMISSION.to_owned());
            }
        },
    }
    let guidance = cat3(QUESTION_SENT, question.question_title.as_str(), QUESTION_GUIDANCE);
    Ok((JournalEventKind::AskUserRequest { question }, guidance))
}

/// One request at a time: once a question or a permission request is journaled,
/// the next question is refused, whatever comes in between, until the user has
/// answered.
pub proof fn law_second_question_is_refused(
    ctx: ToolContext,
    args: AskUserArgs,
    before: Seq<JournalEvent>,
    request: JournalEvent,
    later: Seq<JournalEvent>,
    events: Vec<JournalEvent>,
)
    requires
        request.kind is PermissionRequest || request.kind is AskUserRequest,
        request.kind is PermissionRequest ==> forall|i: int|
            0 <= i < later.len() ==> !is_permission_marker((#[trigger] later[i]).kind),
        request.kind is AskUserRequest ==> forall|i: int|
            0 <= i < later.len() ==> !is_ask_user_marker((#[trigger] later[i]).kind),
        events@ == before.push(request) + later,
    ensures
        question_refusal(ctx, args, Ok(events)) is Some,
{
    if request.kind is PermissionRequest {
        law_other_events_leave_a_permission_open(before.push(request), later);
    } else {
        law_other_events_leave_a_question_open(before.push(request), later);
    }
}

/// Once the user has answered, the question no longer stands in the way.
pub proof fn law_answered_question_is_no_longer_pending(
    events: Seq<JournalEvent>,
    answer: JournalEvent,
)
    requires
        answer.kind is AskUserAnswered,
    ensures
        !ask_user_pending(events.push(answer)),
{
}

} // verus!
