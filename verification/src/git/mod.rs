//! What git prints, read into data.

pub mod diff;
pub mod diff_laws;
pub mod entry_laws;
pub mod laws;
pub mod listing_laws;
pub mod refs;
pub mod types;

pub use diff::{parse_diff, parse_side_by_side, try_parse_diff};
pub use refs::{parse_branches, parse_worktrees};
pub use types::{Branch, FileDiff, SbsKind, SbsRow, Worktree};
