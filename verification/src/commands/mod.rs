//! The program's commands.
pub mod agent;
pub mod arguments;
pub mod git_ai_handlers;
