//! The records that the git panes show.

use vstd::prelude::*;

verus! {

/// A worktree of the repository.
#[derive(Clone)]
pub struct Worktree {
    pub path: String,
    pub name: String,
}

/// A local branch.
#[derive(Clone)]
pub struct Branch {
    pub name: String,
    pub is_current: bool,
}

/// What a row of a side-by-side diff shows.
#[derive(Clone, Copy, PartialEq, Eq, Structural)]
pub enum SbsKind {
    Context,
    Removed,
    Added,
    Changed,
    Header,
}

/// One row of a side-by-side diff.
#[derive(Clone)]
pub struct SbsRow {
    pub left_no: Option<usize>,
    pub left: String,
    pub right_no: Option<usize>,
    pub right: String,
    pub kind: SbsKind,
}

/// The changes to one file.
pub struct FileDiff {
    pub filename: String,
    pub content: String,
    pub sbs: Vec<SbsRow>,
}

/// The text of a worktree record.
pub struct WorktreeView {
    pub path: Seq<char>,
    pub name: Seq<char>,
}

/// The text of a branch record.
pub struct BranchView {
    pub name: Seq<char>,
    pub is_current: bool,
}

/// The text of a side-by-side row.
pub struct RowView {
    pub left_no: Option<nat>,
    pub left: Seq<char>,
    pub right_no: Option<nat>,
    pub right: Seq<char>,
    pub kind: SbsKind,
}

/// The text of one file's changes.
pub struct FileDiffView {
    pub filename: Seq<char>,
    pub content: Seq<char>,
    pub sbs: Seq<RowView>,
}

impl DeepView for Worktree {
    type V = WorktreeView;

    open spec fn deep_view(&self) -> WorktreeView {
        WorktreeView { path: self.path@, name: self.name@ }
    }
}

impl DeepView for Branch {
    type V = BranchView;

    open spec fn deep_view(&self) -> BranchView {
        BranchView { name: self.name@, is_current: self.is_current }
    }
}

/// A line number as a natural number.
pub open spec fn number(n: Option<usize>) -> Option<nat> {
    match n {
        Some(v) => Some(v as nat),
        None => None,
    }
}

impl DeepView for SbsRow {
    type V = RowView;

    open spec fn deep_view(&self) -> RowView {
        RowView {
            left_no: number(self.left_no),
            left: self.left@,
            right_no: number(self.right_no),
            right: self.right@,
            kind: self.kind,
        }
    }
}

impl DeepView for FileDiff {
    type V = FileDiffView;

    open spec fn deep_view(&self) -> FileDiffView {
        FileDiffView {
            filename: self.filename@,
            content: self.content@,
            sbs: self.sbs.deep_view(),
        }
    }
}

} // verus!
