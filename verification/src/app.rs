//! The program as a whole: what is on the screen, and what becomes of keys and events.
pub mod jobs;
pub mod keys;
pub mod program;
pub mod prompt;
pub mod start;
pub mod status_line;
pub mod user_command;
