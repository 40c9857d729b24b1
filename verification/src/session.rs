//! Sessions: their mode, status and row.
use vstd::prelude::*;
use vstd::string::*;

use crate::text::{cat2, same_text};

verus! {

/// What an agent may do: change the codebase, or only plan or explore it.
#[derive(Debug, Clone, Copy, PartialEq, Eq, Structural)]
pub enum Mode {
    Build,
    Plan,
    Explore,
}

/// The name of a mode.
pub open spec fn mode_text(mode: Mode) -> Seq<char> {
    match mode {
        Mode::Build => "build"@,
        Mode::Plan => "plan"@,
        Mode::Explore => "explore"@,
    }
}

/// The mode that a text names.
pub open spec fn parsed_mode(raw: Seq<char>) -> Option<Mode> {
    if raw == "build"@ {
        Some(Mode::Build)
    } else if raw == "plan"@ {
        Some(Mode::Plan)
    } else if raw == "explore"@ {
        Some(Mode::Explore)
    } else {
        None
    }
}

/// What is said of a text that names no mode.
pub open spec fn unknown_mode_text(raw: Seq<char>) -> Seq<char> {
    "unknown mode: "@ + raw
}

/// The name of a mode names that mode.
pub proof fn law_mode_names_round_trip(mode: Mode)
    ensures
        parsed_mode(mode_text(mode)) == Some(mode),
{
    reveal_strlit("build");
    reveal_strlit("plan");
    reveal_strlit("explore");
    assert("build"@.len() == 5 && "plan"@.len() == 4 && "explore"@.len() == 7);
}

/// The names of the modes, and no other text names one.
pub proof fn law_three_names_are_modes(raw: Seq<char>)
    ensures
        mode_text(Mode::Build) == "build"@,
        mode_text(Mode::Plan) == "plan"@,
        mode_text(Mode::Explore) == "explore"@,
        raw != "build"@ && raw != "plan"@ && raw != "explore"@ ==> parsed_mode(raw) is None,
{
}

impl Mode {
    /// The name of the mode.
    pub fn as_str(self) -> (r: &'static str)
        ensures
            r@ == mode_text(self),
    {
        match self {
            Mode::Build => "build",
            Mode::Plan => "plan",
            Mode::Explore => "explore",
        }
    }

    /// The mode that `raw` names; an error text where it names none.
    pub fn parse(raw: &str) -> (r: Result<Mode, String>)
        ensures
            match r {
                Ok(m) => parsed_mode(raw@) == Some(m),
                Err(e) => parsed_mode(raw@) is None && e@ == unknown_mode_text(raw@),
            },
    {
        if same_text(raw, "build") {
            Ok(Mode::Build)
        } else if same_text(raw, "plan") {
            Ok(Mode::Plan)
        } else if same_text(raw, "explore") {
            Ok(Mode::Explore)
        } else {
            Err(cat2("unknown mode: ", raw))
        }
    }
}

/// Where a session stands.
#[derive(Debug, Clone, Copy, PartialEq, Eq, Structural)]
pub enum SessionStatus {
    Pending,
    Running,
    Completed,
    Failed,
    Cancelled,
}

/// The name of a status.
pub open spec fn status_text(status: SessionStatus) -> Seq<char> {
    match status {
        SessionStatus::Pending => "pending"@,
        SessionStatus::Running => "running"@,
        SessionStatus::Completed => "completed"@,
        SessionStatus::Failed => "failed"@,
        SessionStatus::Cancelled => "cancelled"@,
    }
}

/// A session with this status has ended.
pub open spec fn terminal(status: SessionStatus) -> bool {
    status == SessionStatus::Completed || status == SessionStatus::Failed || status
        == SessionStatus::Cancelled
}

/// A session ends completed, failed or cancelled; it has not ended while it is
/// pending or running. Each status goes by its name.
pub proof fn law_three_statuses_are_ends()
    ensures
        !terminal(SessionStatus::Pending),
        !terminal(SessionStatus::Running),
        terminal(SessionStatus::Completed),
        terminal(SessionStatus::Failed),
        terminal(SessionStatus::Cancelled),
        status_text(SessionStatus::Pending) == "pending"@,
        status_text(SessionStatus::Running) == "running"@,
        status_text(SessionStatus::Completed) == "completed"@,
        status_text(SessionStatus::Failed) == "failed"@,
        status_text(SessionStatus::Cancelled) == "cancelled"@,
{
}

impl SessionStatus {
    /// The name of the status.
    pub fn as_str(self) -> (r: &'static str)
        ensures
            r@ == status_text(self),
    {
        match self {
            SessionStatus::Pending => "pending",
            SessionStatus::Running => "running",
            SessionStatus::Completed => "completed",
            SessionStatus::Failed => "failed",
            SessionStatus::Cancelled => "cancelled",
        }
    }

    /// Whether the session has ended.
    pub fn is_terminal(self) -> (r: bool)
        ensures
            r == terminal(self),
    {
        match self {
            SessionStatus::Completed | SessionStatus::Failed | SessionStatus::Cancelled => true,
            _ => false,
        }
    }
}

/// A session row.
#[derive(Debug, Clone, PartialEq, Eq)]
pub struct Session {
    pub id: String,
    /// The session that spawned this one; `None` for a root session.
    pub parent_id: Option<String>,
    pub workdir: String,
    /// The title shown to the user.
    pub prompt: String,
    pub model: String,
    pub status: SessionStatus,
    pub mode: Mode,
    /// The enabled tools; empty means all of them.
    pub tools: Vec<String>,
    /// The skills whose full text goes into the system prompt.
    pub skills: Vec<String>,
    pub pid: Option<u32>,
    pub journal_path: String,
    pub created_at: String,
    pub updated_at: String,
    pub heartbeat_at: Option<String>,
    pub error: Option<String>,
}

} // verus!
