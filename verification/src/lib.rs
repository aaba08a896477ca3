//! A terminal companion for git.
pub mod app;
pub mod color;
pub mod config;
pub mod decode;
pub mod event;
pub mod external;
pub mod git;
pub mod graph;
pub mod input;
pub mod layout;
pub mod names;
pub mod numerals;
pub mod order;
pub mod paths;
pub mod protection;
pub mod repo_state;
pub mod sets;
pub mod span;
pub mod text;
pub mod view;
pub mod widget;
pub mod workflow;
