//! Worktree and branch listings.

use vstd::prelude::*;

use super::types::{Branch, BranchView, Worktree, WorktreeView};
use crate::paths::{file_name, last_name};
use crate::text::{
    after, after_all, blocks, has_text, lines, occurs, same_text, split_blocks, split_lines,
    split_words, starts_with, strip_all, strip_prefix, to_chars, to_text, trim, trimmed, views,
    words,
};

verus! {

/// What follows `prefix` in the last line that begins with it.
pub open spec fn last_field(ls: Seq<Seq<char>>, prefix: Seq<char>) -> Option<Seq<char>>
    decreases ls.len(),
{
    if ls.len() == 0 {
        None
    } else if prefix.is_prefix_of(ls.last()) {
        after(ls.last(), prefix)
    } else {
        last_field(ls.drop_last(), prefix)
    }
}

/// Whether a line marks a worktree that is on no branch.
pub open spec fn unattached(line: Seq<char>) -> bool {
    trim(line) == "detached"@ || trim(line) == "bare"@
}

/// The worktree that lines of a porcelain listing describe. It is called after
/// its branch; failing that `(detached)` or, if it is not marked as detached or
/// bare, after its directory.
pub open spec fn described(ls: Seq<Seq<char>>) -> Option<WorktreeView> {
    match last_field(ls, "worktree "@) {
        None => None,
        Some(p) => Some(
            WorktreeView {
                path: trim(p),
                name: match last_field(ls, "branch "@) {
                    Some(b) => after_all(trim(b), "refs/heads/"@),
                    None => if exists|i: int| 0 <= i < ls.len() && unattached(#[trigger] ls[i]) {
                        "(detached)"@
                    } else {
                        match last_name(trim(p)) {
                            Some(n) => n,
                            None => "?"@,
                        }
                    },
                },
            },
        ),
    }
}

/// The worktree that a block of a porcelain listing describes.
pub open spec fn worktree_of(block: Seq<char>) -> Option<WorktreeView> {
    described(lines(block))
}

/// The worktrees of a porcelain listing, one for each block between empty lines
/// that is not blank and names a path.
pub open spec fn worktrees_of(raw: Seq<char>) -> Seq<WorktreeView> {
    blocks(raw).filter_map(
        |b: Seq<char>|
            if trim(b).len() == 0 {
                None
            } else {
                worktree_of(b)
            },
    )
}

fn parse_worktree(block: &[char]) -> (r: Option<Worktree>)
    ensures
        match r {
            Some(w) => worktree_of(block@) == Some(w.deep_view()),
            None => worktree_of(block@) is None,
        },
{
    let ls = split_lines(block);
    let ghost all = lines(block@);
    let mut path: Option<&[char]> = None;
    let mut branch: Option<&[char]> = None;
    let mut detached = false;
    let mut i: usize = 0;
    while i < ls.len()
        invariant
            i <= ls@.len(),
            all == views(ls@),
            match path {
                Some(p) => last_field(all.take(i as int), "worktree "@) == Some(p@),
                None => last_field(all.take(i as int), "worktree "@) is None,
            },
            match branch {
                Some(b) => last_field(all.take(i as int), "branch "@) == Some(b@),
                None => last_field(all.take(i as int), "branch "@) is None,
            },
            detached == exists|j: int| 0 <= j < i && unattached(#[trigger] all[j]),
        decreases ls@.len() - i,
    {
        let line = ls[i];
        assert(all[i as int] == line@);
        assert(all.take(i + 1).drop_last() =~= all.take(i as int));
        assert(all.take(i + 1).last() == line@);
        if let Some(p) = strip_prefix(line, "worktree ") {
            path = Some(p);
        }
        if let Some(b) = strip_prefix(line, "branch ") {
            branch = Some(b);
        }
        let t = trimmed(line);
        if same_text(t, "detached") || same_text(t, "bare") {
            detached = true;
        }
        i = i + 1;
    }
    assert(all.take(i as int) =~= all);
    match path {
        None => None,
        Some(p) => {
            let path = to_text(trimmed(p));
            let name = match branch {
                Some(b) => {
                    proof {
                        reveal_strlit("refs/heads/");
                    }
                    to_text(strip_all(trimmed(b), "refs/heads/"))
                },
                None => if detached {
                    "(detached)".to_string()
                } else {
                    match file_name(path.as_str()) {
                        Some(n) => n,
                        None => "?".to_string(),
                    }
                },
            };
            Some(Worktree { path, name })
        },
    }
}

/// Reads the output of `git worktree list --porcelain`.
pub fn parse_worktrees(raw: &str) -> (r: Vec<Worktree>)
    ensures
        r.deep_view() == worktrees_of(raw@),
{
    let cs = to_chars(raw);
    let bs = split_blocks(cs.as_slice());
    let ghost all = blocks(raw@);
    let ghost f = |b: Seq<char>|
        if trim(b).len() == 0 {
            None
        } else {
            worktree_of(b)
        };
    let mut r: Vec<Worktree> = Vec::new();
    let mut i: usize = 0;
    assert(r.deep_view() =~= all.take(0).filter_map(f));
    while i < bs.len()
        invariant
            i <= bs@.len(),
            all == views(bs@),
            f == (|b: Seq<char>|
                if trim(b).len() == 0 {
                    None
                } else {
                    worktree_of(b)
                }),
            r.deep_view() == all.take(i as int).filter_map(f),
        decreases bs@.len() - i,
    {
        let block = bs[i];
        let ghost before = r.deep_view();
        proof {
            all.lemma_filter_map_take_succ(f, i as int);
        }
        assert(all[i as int] == block@);
        if trimmed(block).len() > 0 {
            if let Some(w) = parse_worktree(block) {
                r.push(w);
                assert(r.deep_view() =~= before + seq![w.deep_view()]);
            } else {
                assert(before =~= before + Seq::<WorktreeView>::empty());
            }
        } else {
            assert(before =~= before + Seq::<WorktreeView>::empty());
        }
        i = i + 1;
    }
    assert(all.take(i as int) =~= all);
    r
}

/// The branch on one line of a branch listing: two columns of marks, `* ` for
/// the current branch and blanks for the others, and its name. Remote branches
/// and lines of another shape are left out.
pub open spec fn branch_of(line: Seq<char>) -> Option<BranchView> {
    let rest = if "* "@.is_prefix_of(line) {
        after(line, "* "@)
    } else {
        after(line, "  "@)
    };
    if trim(line).len() == 0 || occurs(trim(line), "remotes/"@) {
        None
    } else {
        match rest {
            None => None,
            Some(t) => if words(t).len() == 0 {
                None
            } else {
                Some(BranchView { name: words(t)[0], is_current: "* "@.is_prefix_of(line) })
            },
        }
    }
}

/// The local branches of a branch listing.
pub open spec fn branches_of(raw: Seq<char>) -> Seq<BranchView> {
    lines(raw).filter_map(|l: Seq<char>| branch_of(l))
}

fn parse_branch(line: &[char]) -> (r: Option<Branch>)
    ensures
        match r {
            Some(b) => branch_of(line@) == Some(b.deep_view()),
            None => branch_of(line@) is None,
        },
{
    let t = trimmed(line);
    if t.len() == 0 || has_text(t, "remotes/") {
        return None;
    }
    let is_current = starts_with(line, "* ");
    let rest = if is_current {
        strip_prefix(line, "* ")
    } else {
        strip_prefix(line, "  ")
    };
    match rest {
        None => None,
        Some(rest) => {
            let ws = split_words(rest);
            assert(views(ws@).len() == ws@.len());
            if ws.len() == 0 {
                None
            } else {
                assert(words(rest@)[0] == ws@[0]@);
                Some(Branch { name: to_text(ws[0]), is_current })
            }
        },
    }
}

/// Reads the output of `git branch -a -vv`.
pub fn parse_branches(raw: &str) -> (r: Vec<Branch>)
    ensures
        r.deep_view() == branches_of(raw@),
{
    let cs = to_chars(raw);
    let ls = split_lines(cs.as_slice());
    let ghost all = lines(raw@);
    let ghost f = |l: Seq<char>| branch_of(l);
    let mut r: Vec<Branch> = Vec::new();
    let mut i: usize = 0;
    assert(r.deep_view() =~= all.take(0).filter_map(f));
    while i < ls.len()
        invariant
            i <= ls@.len(),
            all == views(ls@),
            f == (|l: Seq<char>| branch_of(l)),
            r.deep_view() == all.take(i as int).filter_map(f),
        decreases ls@.len() - i,
    {
        let line = ls[i];
        let ghost before = r.deep_view();
        proof {
            all.lemma_filter_map_take_succ(f, i as int);
        }
        assert(all[i as int] == line@);
        if let Some(b) = parse_branch(line) {
            r.push(b);
            assert(r.deep_view() =~= before + seq![b.deep_view()]);
        } else {
            assert(before =~= before + Seq::<BranchView>::empty());
        }
        i = i + 1;
    }
    assert(all.take(i as int) =~= all);
    r
}

} // verus!
