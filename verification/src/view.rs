//! What fills the screen.
pub mod context;
pub mod detail;
pub mod list;
pub mod screen;
pub mod status;
pub mod status_tree;
