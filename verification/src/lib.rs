//! The verified core of a coding-agent worker.
pub mod agent;
pub mod agent_laws;
pub mod chat;
pub mod config;
pub mod config_laws;
pub mod driver;
pub mod driver_laws;
pub mod history;
pub mod history_laws;
pub mod ids;
pub mod journal;
pub mod journal_laws;
pub mod output;
pub mod path_laws;
pub mod paths;
pub mod prompt;
pub mod prompt_content_laws;
pub mod prompt_laws;
pub mod reply;
pub mod reply_laws;
pub mod session;
pub mod skills;
pub mod skills_laws;
pub mod text;
pub mod text_laws;
pub mod tools;
