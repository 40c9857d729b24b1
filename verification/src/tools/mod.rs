//! The tools that the model may call: their names and the context they run in.
pub mod ask_user;
pub mod bash;
pub mod bash_laws;
pub mod bash_in_background;
pub mod definitions;
pub mod dispatch_laws;
pub mod execute;
pub mod file_run;
pub mod fs;
pub mod fs_laws;
pub mod permission;
pub mod permission_laws;
pub mod request_laws;
pub mod request_mode_change;
pub mod sandbox_laws;
pub mod skill;
pub mod subagent;

use vstd::prelude::*;
use vstd::string::*;

use crate::session::Session;

verus! {

pub const TOOL_READ_FILE: &'static str = "read_file";

pub const TOOL_EDIT_FILE: &'static str = "edit_file";

pub const TOOL_CREATE_FILE: &'static str = "create_file";

pub const TOOL_REMOVE_FILE: &'static str = "remove_file";

pub const TOOL_BASH: &'static str = "bash";

pub const TOOL_BASH_IN_BACKGROUND: &'static str = "bash_in_background";

pub const TOOL_SPAWN_SUBAGENT: &'static str = "spawn_subagent";

pub const TOOL_LOAD_SKILL: &'static str = "load_skill";

pub const TOOL_REQUEST_MODE_CHANGE: &'static str = "request_mode_change";

pub const TOOL_ASK_USER: &'static str = "ask_user";

/// Everything a tool needs to run.
#[derive(Debug, Clone)]
pub struct ToolContext {
    /// The sandboxed working directory.
    pub workdir: String,
    /// The shared data directory, which also holds the subagents' sessions.
    pub data_dir: String,
    /// The global agents directory, passed down to subagents.
    pub agents_dir: String,
    pub session: Session,
    /// The session scratch directory, writable in every mode.
    pub scratch: String,
    pub subagent_depth: u32,
    /// How many tool calls of one message run at once; passed to subagents.
    pub max_tool_concurrency: usize,
    pub model_base_url: String,
    pub model_name: String,
    pub auth_token: Option<String>,
    /// The context window of the model in tokens; `None` is unlimited.
    pub context_window: Option<u64>,
    /// The bits of the fraction of the context window at which the context is
    /// compressed; passed to subagents.
    pub context_compression_threshold: u64,
}

} // verus!
