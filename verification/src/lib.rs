//! State, parsing and drawing logic of a terminal workspace: git panes,
//! worktree windows and pseudo-terminal panes side by side.

pub mod text;
pub mod text_laws;
pub mod paths;
pub mod path_laws;
pub mod git;
pub mod keys;
pub mod key_laws;
pub mod config;
pub mod binding_laws;
pub mod app;
pub mod screen;
pub mod ui;
pub mod events;
pub mod util;
pub mod laws;
pub mod step_laws;
pub mod window_laws;
