//! What the program draws.

pub mod area_laws;
pub mod draw;
pub mod git_pane;
pub mod laws;
pub mod picture_laws;
pub mod layout;
pub mod pty_pane;
pub mod render;
pub mod style;
