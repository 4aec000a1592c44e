//! Which lines of a listing give which entry.

use vstd::prelude::*;

use super::listing_laws::lemma_listing_unfolds;
use super::refs::{branch_of, branches_of, last_field, unattached, worktrees_of};
use super::types::{BranchView, WorktreeView};
use crate::paths::last_name;
use crate::text::{after_all, lines, occurs, trim, white};
use crate::text_laws::{
    blank, gapless, lemma_gapless, prefixes_come_off, solid, trimmed_text_is_inside,
    trimming_keeps_what_occurs, trimming_takes_white_space, words_are_read_off,
};

verus! {

/// The two columns in front of a branch.
pub open spec fn columns(current: bool) -> Seq<char> {
    seq![
        if current {
            '*'
        } else {
            ' '
        },
        ' ',
    ]
}

/// Whether a line has the two columns of a branch in front.
pub open spec fn in_columns(line: Seq<char>) -> bool {
    line.len() >= 2 && (line[0] == '*' || line[0] == ' ') && line[1] == ' '
}

proof fn lemma_columns(line: Seq<char>)
    ensures
        "* "@.is_prefix_of(line) <==> line.len() >= 2 && line[0] == '*' && line[1] == ' ',
        "  "@.is_prefix_of(line) <==> line.len() >= 2 && line[0] == ' ' && line[1] == ' ',
        "* "@.len() == 2,
        "  "@.len() == 2,
{
    reveal_strlit("* ");
    reveal_strlit("  ");
    if line.len() >= 2 {
        let front = line.subrange(0, 2);
        assert(front[0] == line[0] && front[1] == line[1]);
        assert(line[0] == '*' && line[1] == ' ' ==> front =~= "* "@);
        assert(line[0] == ' ' && line[1] == ' ' ==> front =~= "  "@);
    }
}

proof fn lemma_remote_part()
    ensures
        solid("remotes/"@),
        "remotes/"@.len() == 8,
{
    reveal_strlit("remotes/");
}

proof fn lemma_one_more(before: Seq<char>, now: Seq<char>, line: Seq<char>)
    requires
        lines(now) == lines(before).push(line),
    ensures
        branches_of(now) == (match branch_of(line) {
            Some(b) => branches_of(before).push(b),
            None => branches_of(before),
        }),
{
    let f = |l: Seq<char>| branch_of(l);
    let ls = lines(before);
    assert(ls.push(line).drop_last() =~= ls);
    if let Some(b) = branch_of(line) {
        assert(ls.filter_map(f) + seq![b] =~= ls.filter_map(f).push(b));
    }
}

/// Every line in columns with a word gives one branch, below those of the lines
/// above: it is called by the first word, whatever follows, and is the current
/// one if it has the star. Only a line that speaks of `remotes/` does not.
pub proof fn every_local_branch_is_listed(
    before: Seq<char>,
    now: Seq<char>,
    current: bool,
    gap: Seq<char>,
    name: Seq<char>,
    rest: Seq<char>,
)
    requires
        blank(gap),
        solid(name),
        name.len() > 0,
        rest.len() > 0 ==> white(rest[0]),
        lines(now) == lines(before).push(columns(current) + (gap + name + rest)),
        !occurs(columns(current) + (gap + name + rest), "remotes/"@),
    ensures
        branches_of(now) == branches_of(before).push(BranchView { name, is_current: current }),
{
    let tail = gap + name + rest;
    let line = columns(current) + tail;
    lemma_columns(line);
    lemma_remote_part();
    assert(line[0] == columns(current)[0] && line[1] == columns(current)[1]);
    assert(line.skip(2) =~= tail);
    words_are_read_off(gap, name, rest);
    trimming_keeps_what_occurs(line, "remotes/"@);
    let (a, b) = trimmed_text_is_inside(line);
    if trim(line).len() == 0 {
        assert(line =~= a + b);
        let k = 2 + gap.len() as int;
        assert(line[k] == name[0]);
        assert(!white(name[0]));
        if k < a.len() {
            assert(white(a[k]));
        } else {
            assert(white(b[k - a.len()]));
        }
    }
    lemma_one_more(before, now, line);
}

/// A line that is not in columns, has no word behind them or speaks of
/// `remotes/` gives no branch.
pub proof fn other_lines_list_no_branch(before: Seq<char>, now: Seq<char>, line: Seq<char>)
    requires
        lines(now) == lines(before).push(line),
        !in_columns(line) || blank(line.skip(2)) || occurs(line, "remotes/"@),
    ensures
        branches_of(now) == branches_of(before),
{
    lemma_columns(line);
    lemma_remote_part();
    trimming_keeps_what_occurs(line, "remotes/"@);
    if in_columns(line) && blank(line.skip(2)) {
        words_are_read_off(line.skip(2), Seq::empty(), Seq::empty());
    }
    lemma_one_more(before, now, line);
}

/// No lines, no branches.
pub proof fn no_lines_no_branches(raw: Seq<char>)
    requires
        lines(raw).len() == 0,
    ensures
        branches_of(raw) == Seq::<BranchView>::empty(),
{
    assert(branches_of(raw) =~= Seq::<BranchView>::empty());
}

/// Whether line `i` is the last one that begins with `prefix`.
pub open spec fn last_with(ls: Seq<Seq<char>>, i: int, prefix: Seq<char>) -> bool {
    &&& 0 <= i < ls.len()
    &&& prefix.is_prefix_of(ls[i])
    &&& forall|j: int| i < j < ls.len() ==> !prefix.is_prefix_of(#[trigger] ls[j])
}

/// Whether no line begins with `prefix`.
pub open spec fn none_with(ls: Seq<Seq<char>>, prefix: Seq<char>) -> bool {
    forall|j: int| 0 <= j < ls.len() ==> !prefix.is_prefix_of(#[trigger] ls[j])
}

proof fn lemma_last_field(ls: Seq<Seq<char>>, i: int, prefix: Seq<char>)
    ensures
        last_with(ls, i, prefix) ==> last_field(ls, prefix) == Some(
            ls[i].skip(prefix.len() as int),
        ),
        none_with(ls, prefix) ==> last_field(ls, prefix) is None,
    decreases ls.len(),
{
    if ls.len() > 0 {
        let shorter = ls.drop_last();
        lemma_last_field(shorter, i, prefix);
        if none_with(ls, prefix) {
            assert(!prefix.is_prefix_of(ls[ls.len() - 1]));
            assert forall|j: int| 0 <= j < shorter.len() implies !prefix.is_prefix_of(
                #[trigger] shorter[j],
            ) by {
                assert(!prefix.is_prefix_of(ls[j]));
            }
        }
        if last_with(ls, i, prefix) && i < ls.len() - 1 {
            assert(!prefix.is_prefix_of(ls[ls.len() - 1]));
            assert forall|j: int| i < j < shorter.len() implies !prefix.is_prefix_of(
                #[trigger] shorter[j],
            ) by {
                assert(!prefix.is_prefix_of(ls[j]));
            }
        }
    }
}

/// A block without a `worktree` line is no worktree.
pub proof fn blocks_without_a_path_are_left_out(block: Seq<char>)
    requires
        gapless(block),
        none_with(lines(block), "worktree "@),
    ensures
        worktrees_of(block) == Seq::<WorktreeView>::empty(),
{
    lemma_gapless(block);
    lemma_listing_unfolds(block);
    lemma_last_field(lines(block), 0, "worktree "@);
}

/// A block with a `worktree` line is one worktree, at what the last such line
/// says, without the white space around it.
pub proof fn worktrees_are_where_they_say(
    block: Seq<char>,
    i: int,
    before: Seq<char>,
    path: Seq<char>,
    behind: Seq<char>,
)
    requires
        gapless(block),
        last_with(lines(block), i, "worktree "@),
        lines(block)[i] == "worktree "@ + (before + path + behind),
        blank(before),
        blank(behind),
        path.len() > 0 ==> !white(path[0]) && !white(path.last()),
    ensures
        worktrees_of(block).len() == 1,
        worktrees_of(block)[0].path == path,
{
    let n = "worktree "@.len() as int;
    lemma_gapless(block);
    lemma_listing_unfolds(block);
    lemma_last_field(lines(block), i, "worktree "@);
    assert(lines(block)[i].skip(n) =~= before + path + behind);
    trimming_takes_white_space(before, path, behind);
}

/// A worktree is called by what its last `branch` line says, all of it but the
/// `refs/heads/` in front and the white space around it, whatever else the block
/// says. So a branch of any name gives it that name.
pub proof fn worktrees_are_called_by_their_branch(
    block: Seq<char>,
    i: int,
    j: int,
    before: Seq<char>,
    said: Seq<char>,
    behind: Seq<char>,
    name: Seq<char>,
)
    requires
        gapless(block),
        last_with(lines(block), i, "worktree "@),
        last_with(lines(block), j, "branch "@),
        lines(block)[j] == "branch "@ + (before + said + behind),
        blank(before),
        blank(behind),
        said.len() > 0 ==> !white(said[0]) && !white(said.last()),
    ensures
        worktrees_of(block).len() == 1,
        worktrees_of(block)[0].name == after_all(said, "refs/heads/"@),
        said == "refs/heads/"@ + name && !"refs/heads/"@.is_prefix_of(name) ==> worktrees_of(
            block,
        )[0].name == name,
        !"refs/heads/"@.is_prefix_of(said) ==> worktrees_of(block)[0].name == said,
{
    let n = "branch "@.len() as int;
    lemma_gapless(block);
    lemma_listing_unfolds(block);
    lemma_last_field(lines(block), i, "worktree "@);
    lemma_last_field(lines(block), j, "branch "@);
    lemma_heads();
    prefixes_come_off("refs/heads/"@, name);
    prefixes_come_off("refs/heads/"@, said);
    trimming_takes_white_space(before, said, behind);
    assert(lines(block)[j].skip(n) =~= before + said + behind);
}

proof fn lemma_heads()
    ensures
        "refs/heads/"@.len() == 11,
{
    reveal_strlit("refs/heads/");
}

/// A worktree without a `branch` line is called `(detached)` if a line of its
/// block says that it is detached or bare, and else by its directory; one whose
/// path names no directory is called `?`.
pub proof fn worktrees_without_a_branch_are_called_otherwise(block: Seq<char>, i: int)
    requires
        gapless(block),
        last_with(lines(block), i, "worktree "@),
        none_with(lines(block), "branch "@),
    ensures
        worktrees_of(block).len() == 1,
        ({
            let ls = lines(block);
            let w = worktrees_of(block)[0];
            if exists|k: int|
                0 <= k < ls.len() && (trim(#[trigger] ls[k]) == "detached"@ || trim(ls[k])
                    == "bare"@) {
                w.name == "(detached)"@
            } else {
                match last_name(w.path) {
                    Some(n) => w.name == n,
                    None => w.name == "?"@,
                }
            }
        }),
{
    let ls = lines(block);
    lemma_gapless(block);
    lemma_listing_unfolds(block);
    lemma_last_field(ls, i, "worktree "@);
    lemma_last_field(ls, 0, "branch "@);
    if exists|k: int|
        0 <= k < ls.len() && (trim(#[trigger] ls[k]) == "detached"@ || trim(ls[k]) == "bare"@) {
        let k = choose|k: int|
            0 <= k < ls.len() && (trim(#[trigger] ls[k]) == "detached"@ || trim(ls[k]) == "bare"@);
        assert(unattached(ls[k]));
    }
}

} // verus!
