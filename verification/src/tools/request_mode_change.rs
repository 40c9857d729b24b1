//! `request_mode_change`: asks the user to switch the mode of the session.
use vstd::prelude::*;
use vstd::string::*;

use crate::journal::{
    has_pending_mode_change, is_mode_marker, law_other_events_leave_a_mode_change_open,
    mode_change_pending, JournalEvent, JournalEventKind,
};
use crate::session::{mode_text, parsed_mode, unknown_mode_text, Mode};
use crate::text::{blank, cat2, cat3, is_blank};
use crate::tools::ToolContext;

verus! {

/// Opens every complaint about the arguments.
pub const INVALID_MODE_CHANGE: &'static str = "invalid arguments for request_mode_change: ";

/// The refusal of a request from a subagent.
pub const SUBAGENT_MODE_CHANGE: &'static str = "subagents cannot request a mode change: the request is shown to the user in the \
             UI, which only root sessions have. Report the need to your parent agent instead.";

/// The refusal of a request while another one is open.
pub const MODE_CHANGE_PENDING: &'static str = "a mode change request is already pending — the user has not answered yet. Do not \
             call this tool again; finish your turn and wait for the user's decision.";

/// Closes the guidance for the model, behind the mode.
pub const MODE_CHANGE_GUIDANCE: &'static str = " mode once \
         they approve it in the UI.\n\n\
         Stop working now: do not modify the codebase or spawn further subagents. Finish your \
         turn with a brief message to the user (in their language) telling them the request \
         was sent and what you will do once approved.";

/// Arguments of the `request_mode_change` tool call.
#[derive(Debug, Clone, PartialEq, Eq)]
pub struct RequestModeChangeArgs {
    /// The mode to switch to.
    pub mode: String,
    /// Why the switch is needed, in the user's language.
    pub message: String,
}

/// Why a request is refused; `None` where it may go out.
pub open spec fn mode_change_refusal(
    ctx: ToolContext,
    args: RequestModeChangeArgs,
    events: Result<Vec<JournalEvent>, String>,
) -> Option<Seq<char>> {
    match parsed_mode(args.mode@) {
        None => Some(INVALID_MODE_CHANGE@ + unknown_mode_text(args.mode@)),
        Some(mode) => if mode == ctx.session.mode {
            Some(
                "the session is already in "@ + mode_text(mode)
                    + " mode — no mode change needed"@,
            )
        } else if ctx.session.parent_id is Some {
            Some(SUBAGENT_MODE_CHANGE@)
        } else if blank(args.message@) {
            Some(INVALID_MODE_CHANGE@ + "message must not be empty"@)
        } else {
            match events {
                Err(e) => Some("failed to read session journal: "@ + e@),
                Ok(events) => if mode_change_pending(events@) {
                    Some(MODE_CHANGE_PENDING@)
                } else {
                    None
                },
            }
        },
    }
}

/// What the model is told once the request went out.
pub open spec fn mode_change_guidance(mode: Mode) -> Seq<char> {
    "Mode change request sent to the user: the session will switch to "@ + mode_text(mode)
        + MODE_CHANGE_GUIDANCE@
}

/// The event requests the mode of the arguments, for the reason given, and the
/// guidance says so.
pub open spec fn requests_mode(
    kind: JournalEventKind,
    guidance: Seq<char>,
    args: RequestModeChangeArgs,
) -> bool {
    kind matches JournalEventKind::ModeChangeRequest { mode, message } && parsed_mode(args.mode@)
        == Some(mode) && message@ == args.message@ && guidance == mode_change_guidance(mode)
}

/// Executes a `request_mode_change` call: the event to journal and the
/// guidance for the model, or why the user cannot be asked.
pub fn request_mode_change(
    ctx: &ToolContext,
    args: &RequestModeChangeArgs,
    events: &Result<Vec<JournalEvent>, String>,
) -> (r: Result<(JournalEventKind, String), String>)
    ensures
        match r {
            Ok((kind, guidance)) => mode_change_refusal(*ctx, *args, *events) is None
                && requests_mode(kind, guidance@, *args),
            Err(e) => mode_change_refusal(*ctx, *args, *events) == Some(e@),
        },
{
    let mode = match Mode::parse(args.mode.as_str()) {
        Ok(mode) => mode,
        Err(e) => {
            return Err(cat2(INVALID_MODE_CHANGE, e.as_str()));
        },
    };
    if mode == ctx.session.mode {
        return Err(
            cat3(
                "the session is already in ",
                mode.as_str(),
                " mode — no mode change needed",
            ),
        );
    }
    if ctx.session.parent_id.is_some() {
        return Err(SUBAGENT_MODE_CHANGE.to_owned());
    }
    if is_blank(args.message.as_str()) {
        return Err(cat2(INVALID_MODE_CHANGE, "message must not be empty"));
    }
    match events {
        Err(e) => {
            return Err(cat2("failed to read session journal: ", e.as_str()));
        },
        Ok(events) => if has_pending_mode_change(events) {
            return Err(MODE_CHANGE_PENDING.to_owned());
        },
    }
    Ok(
        (
            JournalEventKind::ModeChangeRequest { mode, message: args.message.clone() },
            cat3(
                "Mode change request sent to the user: the session will switch to ",
                mode.as_str(),
                MODE_CHANGE_GUIDANCE,
            ),
        ),
    )
}

/// One request at a time: once a request is journaled, the next one is refused,
/// whatever comes in between, until the user has decided.
pub proof fn law_second_mode_change_is_refused(
    ctx: ToolContext,
    args: RequestModeChangeArgs,
    before: Seq<JournalEvent>,
    request: JournalEvent,
    later: Seq<JournalEvent>,
    events: Vec<JournalEvent>,
)
    requires
        request.kind is ModeChangeRequest,
        forall|i: int| 0 <= i < later.len() ==> !is_mode_marker((#[trigger] later[i]).kind),
        events@ == before.push(request) + later,
    ensures
        mode_change_refusal(ctx, args, Ok(events)) is Some,
{
    law_other_events_leave_a_mode_change_open(before.push(request), later);
}

/// Once the user has decided, the pending request no longer stands in the way.
pub proof fn law_decided_mode_change_is_no_longer_pending(
    events: Seq<JournalEvent>,
    decision: JournalEvent,
)
    requires
        decision.kind is ModeChange || decision.kind is ModeChangeRequestDeclined,
    ensures
        !mode_change_pending(events.push(decision)),
{
}

} // verus!
