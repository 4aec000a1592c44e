//! What each line of a diff does to what is read from it.

use vstd::prelude::*;

use super::diff::{
    classify, countable, diff_countable, file_diff, file_of, files_of, hunk_start, joined,
    section_countable, sections, settled, side_rows, side_run, side_start, DiffLine, Pending,
};
use super::types::{FileDiffView, RowView, SbsKind};
use crate::text::{after_all, find, lines, numeral, split, white, words};
use crate::text_laws::{around, blank, solid, the_first_is_found, words_are_read_off};

verus! {

/// Whether a line of a diff is a header.
pub open spec fn heading(line: Seq<char>) -> bool {
    ||| "@@"@.is_prefix_of(line)
    ||| "diff "@.is_prefix_of(line)
    ||| "index "@.is_prefix_of(line)
    ||| "--- "@.is_prefix_of(line)
    ||| "+++ "@.is_prefix_of(line)
}

/// Whether a line of a diff is one that the new file lacks.
pub open spec fn removed(line: Seq<char>) -> bool {
    line.len() > 0 && line[0] == '-' && !heading(line)
}

/// Whether a line of a diff is one that the old file lacks.
pub open spec fn added(line: Seq<char>) -> bool {
    line.len() > 0 && line[0] == '+' && !heading(line)
}

/// Whether a line of a diff is in both files.
pub open spec fn shared(line: Seq<char>) -> bool {
    !heading(line) && !removed(line) && !added(line)
}

/// A shared line without the blank in front of it.
pub open spec fn unmarked(line: Seq<char>) -> Seq<char> {
    if line.len() > 0 && line[0] == ' ' {
        line.skip(1)
    } else {
        line
    }
}

/// The removed lines among the given ones, without their signs.
pub open spec fn removals(run: Seq<Seq<char>>) -> Seq<Seq<char>>
    decreases run.len(),
{
    if run.len() == 0 {
        Seq::empty()
    } else if removed(run.last()) {
        removals(run.drop_last()).push(run.last().skip(1))
    } else {
        removals(run.drop_last())
    }
}

/// The added lines among the given ones, without their signs.
pub open spec fn additions(run: Seq<Seq<char>>) -> Seq<Seq<char>>
    decreases run.len(),
{
    if run.len() == 0 {
        Seq::empty()
    } else if added(run.last()) {
        additions(run.drop_last()).push(run.last().skip(1))
    } else {
        additions(run.drop_last())
    }
}

/// The numbers that the next line has in the old and in the new file. They start
/// at one, and a hunk header that announces numbers sets them.
pub open spec fn next_numbers(ls: Seq<Seq<char>>) -> (nat, nat)
    decreases ls.len(),
{
    if ls.len() == 0 {
        (1, 1)
    } else {
        let (l, r) = next_numbers(ls.drop_last());
        let line = ls.last();
        if "@@"@.is_prefix_of(line) && hunk_start(line) is Some {
            hunk_start(line)->0
        } else if removed(line) {
            (l + 1, r)
        } else if added(line) {
            (l, r + 1)
        } else if shared(line) {
            (l + 1, r + 1)
        } else {
            (l, r)
        }
    }
}

proof fn lemma_kind(line: Seq<char>)
    ensures
        removed(line) ==> classify(line) == DiffLine::Old(line.skip(1)),
        added(line) ==> classify(line) == DiffLine::New(line.skip(1)),
        shared(line) ==> classify(line) == DiffLine::Both(unmarked(line)),
        heading(line) && "@@"@.is_prefix_of(line) ==> classify(line) == DiffLine::Hunk,
        heading(line) && !"@@"@.is_prefix_of(line) ==> classify(line) == DiffLine::Meta,
{
    reveal_strlit("-");
    reveal_strlit("+");
    reveal_strlit(" ");
    if line.len() > 0 {
        let front = line.subrange(0, 1);
        assert(front =~= seq![line[0]]);
        assert(line[0] == '-' ==> "-"@ =~= front);
        assert(line[0] == '+' ==> "+"@ =~= front);
        assert(line[0] == ' ' ==> " "@ =~= front);
        assert("-"@ == front ==> front[0] == "-"@[0]);
        assert("+"@ == front ==> front[0] == "+"@[0]);
        assert(" "@ == front ==> front[0] == " "@[0]);
    }
}

proof fn lemma_next(ls: Seq<Seq<char>>)
    ensures
        side_run(ls).left == next_numbers(ls).0,
        side_run(ls).right == next_numbers(ls).1,
        ls.len() == 0 || heading(ls.last()) || shared(ls.last()) ==> side_run(ls).rem.len() == 0
            && side_run(ls).add.len() == 0,
    decreases ls.len(),
{
    if ls.len() > 0 {
        lemma_next(ls.drop_last());
        lemma_kind(ls.last());
    }
}

/// Nothing to read gives nothing to see.
pub proof fn no_lines_no_rows(content: Seq<char>)
    requires
        lines(content).len() == 0,
    ensures
        side_rows(content) == Seq::<RowView>::empty(),
{
    assert(side_rows(content) =~= Seq::<RowView>::empty());
}

/// A header, or a line of both files, adds one row below all the others: the
/// header as it stands, on the left, without numbers; the shared line on both
/// sides, each with its next number.
pub proof fn other_lines_stand_alone(before: Seq<char>, now: Seq<char>, line: Seq<char>)
    requires
        lines(now) == lines(before).push(line),
        heading(line) || shared(line),
    ensures
        heading(line) ==> side_rows(now) == side_rows(before).push(
            RowView {
                left_no: None,
                left: line,
                right_no: None,
                right: Seq::empty(),
                kind: SbsKind::Header,
            },
        ),
        shared(line) ==> side_rows(now) == side_rows(before).push(
            RowView {
                left_no: Some(next_numbers(lines(before)).0),
                left: unmarked(line),
                right_no: Some(next_numbers(lines(before)).1),
                right: unmarked(line),
                kind: SbsKind::Context,
            },
        ),
{
    let ls = lines(before);
    lemma_kind(line);
    lemma_next(ls);
    lemma_next(ls.push(line));
    assert(ls.push(line).drop_last() =~= ls);
    let s = side_run(ls.push(line));
    assert(settled(s) =~= s.rows);
}

/// Lines with the numbers from `n` on.
pub open spec fn numbered(texts: Seq<Seq<char>>, n: nat) -> Seq<Pending> {
    Seq::new(texts.len(), |i: int| ((n + i) as nat, texts[i]))
}

/// Whether every line is removed or added.
pub open spec fn changes_only(run: Seq<Seq<char>>) -> bool {
    forall|i: int| 0 <= i < run.len() ==> removed(#[trigger] run[i]) || added(run[i])
}

proof fn lemma_run_waits(ls: Seq<Seq<char>>, run: Seq<Seq<char>>)
    requires
        changes_only(run),
        ls.len() == 0 || heading(ls.last()) || shared(ls.last()),
    ensures
        ({
            let s = side_run(ls + run);
            let (l, r) = next_numbers(ls);
            &&& s.rows == side_run(ls).rows
            &&& s.rem == numbered(removals(run), l)
            &&& s.add == numbered(additions(run), r)
            &&& s.left == l + removals(run).len()
            &&& s.right == r + additions(run).len()
        }),
    decreases run.len(),
{
    let (l, r) = next_numbers(ls);
    lemma_next(ls);
    if run.len() == 0 {
        assert(ls + run =~= ls);
        assert(side_run(ls).rem =~= numbered(removals(run), l));
        assert(side_run(ls).add =~= numbered(additions(run), r));
    } else {
        let shorter = run.drop_last();
        assert(changes_only(shorter));
        lemma_run_waits(ls, shorter);
        assert((ls + run).drop_last() =~= ls + shorter);
        assert((ls + run).last() == run.last());
        assert(removed(run[run.len() - 1]) || added(run[run.len() - 1]));
        lemma_kind(run.last());
        let s = side_run(ls + run);
        assert(s.rem =~= numbered(removals(run), l));
        assert(s.add =~= numbered(additions(run), r));
    }
}

/// A run of removed and added lines, between lines that are neither, shows as
/// many rows as there are lines on its longer side: the first removed line
/// against the first added one, the second against the second, and so on, in
/// whatever order the run has them. Each has the number of its file; where both
/// sides have a line the row is a change, else it has one side only.
pub proof fn runs_are_set_side_by_side(before: Seq<char>, now: Seq<char>, run: Seq<Seq<char>>)
    requires
        changes_only(run),
        lines(now) == lines(before) + run,
        lines(before).len() == 0 || heading(lines(before).last()) || shared(lines(before).last()),
    ensures
        ({
            let (l, r) = next_numbers(lines(before));
            let old = removals(run);
            let new = additions(run);
            let n = side_rows(before).len();
            let rows = side_rows(now);
            &&& rows.take(n as int) == side_rows(before)
            &&& rows.len() == n + vstd::math::max(old.len() as int, new.len() as int)
            &&& old.len() + new.len() == run.len()
            &&& forall|i: int|
                #![trigger rows[n + i]]
                0 <= i < old.len() && i < new.len() ==> rows[n + i] == (RowView {
                    left_no: Some((l + i) as nat),
                    left: old[i],
                    right_no: Some((r + i) as nat),
                    right: new[i],
                    kind: SbsKind::Changed,
                })
            &&& forall|i: int|
                #![trigger rows[n + i]]
                new.len() <= i < old.len() ==> rows[n + i] == (RowView {
                    left_no: Some((l + i) as nat),
                    left: old[i],
                    right_no: None,
                    right: Seq::empty(),
                    kind: SbsKind::Removed,
                })
            &&& forall|i: int|
                #![trigger rows[n + i]]
                old.len() <= i < new.len() ==> rows[n + i] == (RowView {
                    left_no: None,
                    left: Seq::empty(),
                    right_no: Some((r + i) as nat),
                    right: new[i],
                    kind: SbsKind::Added,
                })
        }),
{
    let ls = lines(before);
    lemma_next(ls);
    lemma_run_waits(ls, run);
    lemma_run_splits(run);
    assert(settled(side_run(ls)) =~= side_run(ls).rows);
    assert(side_rows(now).take(side_rows(before).len() as int) =~= side_rows(before));
}

proof fn lemma_run_splits(run: Seq<Seq<char>>)
    requires
        changes_only(run),
    ensures
        removals(run).len() + additions(run).len() == run.len(),
    decreases run.len(),
{
    if run.len() > 0 {
        assert(changes_only(run.drop_last()));
        lemma_run_splits(run.drop_last());
        assert(removed(run[run.len() - 1]) || added(run[run.len() - 1]));
    }
}

proof fn lemma_rows_stay(ls: Seq<Seq<char>>, more: Seq<Seq<char>>)
    ensures
        side_run(ls).rows.is_prefix_of(side_run(ls + more).rows),
    decreases more.len(),
{
    if more.len() == 0 {
        assert(ls + more =~= ls);
    } else {
        let shorter = more.drop_last();
        lemma_rows_stay(ls, shorter);
        assert((ls + more).drop_last() =~= ls + shorter);
        let first = side_run(ls).rows;
        let mid = side_run(ls + shorter).rows;
        let all = side_run(ls + more).rows;
        assert(mid.is_prefix_of(all)) by {
            assert(all.len() >= mid.len());
            assert(all.subrange(0, mid.len() as int) =~= mid);
        }
        assert(all.subrange(0, first.len() as int) =~= first) by {
            assert(mid.subrange(0, first.len() as int) == first);
            assert(all.subrange(0, mid.len() as int) == mid);
            assert forall|i: int| 0 <= i < first.len() implies all[i] == first[i] by {
                assert(mid.subrange(0, first.len() as int)[i] == mid[i]);
                assert(all.subrange(0, mid.len() as int)[i] == all[i]);
            }
        }
    }
}

/// Where a run of removed and added lines cannot go on, the rows so far are
/// finished: whatever lines follow, they add rows below and change none.
pub proof fn finished_rows_stay(before: Seq<char>, now: Seq<char>, more: Seq<Seq<char>>)
    requires
        lines(now) == lines(before) + more,
        ({
            ||| lines(before).len() == 0
            ||| heading(lines(before).last()) || shared(lines(before).last())
            ||| more.len() > 0 && (heading(more[0]) || shared(more[0]))
        }),
    ensures
        side_rows(before).is_prefix_of(side_rows(now)),
{
    let ls = lines(before);
    let done = side_rows(before);
    let all = side_run(ls + more);
    if ls.len() == 0 || heading(ls.last()) || shared(ls.last()) {
        lemma_next(ls);
        assert(settled(side_run(ls)) =~= side_run(ls).rows);
        lemma_rows_stay(ls, more);
    } else {
        let next = ls.push(more[0]);
        lemma_kind(more[0]);
        assert(next.drop_last() =~= ls);
        assert(next + more.drop_first() =~= ls + more);
        lemma_rows_stay(next, more.drop_first());
        let mid = side_run(next).rows;
        assert(mid.len() == done.len() + 1);
        assert(mid.subrange(0, done.len() as int) =~= done);
        assert forall|i: int| 0 <= i < done.len() implies all.rows[i] == done[i] by {
            assert(all.rows.subrange(0, mid.len() as int)[i] == all.rows[i]);
            assert(mid.subrange(0, done.len() as int)[i] == mid[i]);
        }
        assert(all.rows.subrange(0, done.len() as int) =~= done);
    }
    assert(all.rows.subrange(0, done.len() as int) == done);
    assert(settled(all).subrange(0, done.len() as int) =~= done);
}

/// A line that replaces another stands beside it, in one row.
pub proof fn a_replaced_line_is_one_row(content: Seq<char>, x: Seq<char>, y: Seq<char>)
    requires
        lines(content) == seq![seq!['-'] + x, seq!['+'] + y],
        !heading(seq!['-'] + x),
        !heading(seq!['+'] + y),
    ensures
        side_rows(content) == seq![
            RowView {
                left_no: Some(1nat),
                left: x,
                right_no: Some(1nat),
                right: y,
                kind: SbsKind::Changed,
            },
        ],
{
    let none = Seq::<char>::empty();
    let run = lines(content);
    assert(lines(none).len() == 0);
    assert(lines(none) + run =~= run);
    assert(changes_only(run));
    no_lines_no_rows(none);
    runs_are_set_side_by_side(none, content, run);
    reveal_with_fuel(removals, 3);
    reveal_with_fuel(additions, 3);
    assert(run[0].skip(1) =~= x);
    assert(run[1].skip(1) =~= y);
    let rows = side_rows(content);
    let n = side_rows(none).len() as int;
    assert(rows[n + 0] == rows[0]);
    assert(rows =~= seq![rows[0]]);
}

/// The line numbers of a diff fit a machine word where every number that is next
/// at some line does.
pub proof fn fitting_numbers_count(ls: Seq<Seq<char>>)
    ensures
        countable(ls) <==> forall|k: int|
            0 <= k <= ls.len() ==> (#[trigger] next_numbers(ls.take(k))).0 <= usize::MAX
                && next_numbers(ls.take(k)).1 <= usize::MAX,
    decreases ls.len(),
{
    lemma_next(ls);
    assert(ls.take(ls.len() as int) =~= ls);
    assert(next_numbers(ls.take(0)) == (1nat, 1nat));
    if ls.len() > 0 {
        let shorter = ls.drop_last();
        fitting_numbers_count(shorter);
        assert forall|k: int| 0 <= k < ls.len() implies #[trigger] ls.take(k) == shorter.take(
            k,
        ) by {
            assert(ls.take(k) =~= shorter.take(k));
        }
        if countable(ls) {
            assert forall|k: int| 0 <= k <= ls.len() implies (#[trigger] next_numbers(
                ls.take(k),
            )).0 <= usize::MAX && next_numbers(ls.take(k)).1 <= usize::MAX by {
                if k < ls.len() {
                    assert(ls.take(k) == shorter.take(k));
                }
            }
        }
        if forall|k: int|
            0 <= k <= ls.len() ==> (#[trigger] next_numbers(ls.take(k))).0 <= usize::MAX
                && next_numbers(ls.take(k)).1 <= usize::MAX {
            assert forall|k: int| 0 <= k <= shorter.len() implies (#[trigger] next_numbers(
                shorter.take(k),
            )).0 <= usize::MAX && next_numbers(shorter.take(k)).1 <= usize::MAX by {
                assert(ls.take(k) == shorter.take(k));
                assert(next_numbers(ls.take(k)).0 <= usize::MAX);
            }
            assert(next_numbers(ls.take(ls.len() as int)).0 <= usize::MAX);
        }
    }
}

/// Whether a line of a diff is the first of a file.
pub open spec fn opens(line: Seq<char>) -> bool {
    "diff --git "@.is_prefix_of(line)
}

/// Whether no line is the first of a file.
pub open spec fn opens_none(ls: Seq<Seq<char>>) -> bool {
    forall|i: int| 0 <= i < ls.len() ==> !opens(#[trigger] ls[i])
}

/// A line with the others below it, a line feed in front of each of them.
pub open spec fn stacked(first: Seq<char>, below: Seq<Seq<char>>) -> Seq<char>
    decreases below.len(),
{
    if below.len() == 0 {
        first
    } else {
        stacked(first, below.drop_last()).push('\n') + below.last()
    }
}

proof fn lemma_stacked(first: Seq<char>, below: Seq<Seq<char>>)
    ensures
        joined(seq![first] + below) == stacked(first, below),
    decreases below.len(),
{
    let all = seq![first] + below;
    if below.len() > 0 {
        lemma_stacked(first, below.drop_last());
        assert(all.drop_last() =~= seq![first] + below.drop_last());
    }
}

proof fn lemma_no_sections(ls: Seq<Seq<char>>)
    requires
        opens_none(ls),
    ensures
        sections(ls) == Seq::<Seq<Seq<char>>>::empty(),
    decreases ls.len(),
{
    if ls.len() > 0 {
        assert(opens_none(ls.drop_last()));
        lemma_no_sections(ls.drop_last());
        assert(!opens(ls[ls.len() - 1]));
    }
}

proof fn lemma_section(ls: Seq<Seq<char>>, first: Seq<char>, below: Seq<Seq<char>>)
    requires
        opens(first),
        opens_none(below),
    ensures
        sections(ls.push(first) + below) == sections(ls).push(seq![first] + below),
    decreases below.len(),
{
    let all = ls.push(first) + below;
    if below.len() == 0 {
        assert(all.drop_last() =~= ls);
        assert(seq![first] + below =~= seq![first]);
    } else {
        let shorter = below.drop_last();
        assert(opens_none(shorter));
        lemma_section(ls, first, shorter);
        assert(all.drop_last() =~= ls.push(first) + shorter);
        assert(!opens(below[below.len() - 1]));
        assert((seq![first] + shorter).push(below.last()) =~= seq![first] + below);
        assert(sections(all) =~= sections(ls).push(seq![first] + below));
    }
}

/// Text in which no file begins has no files.
pub proof fn no_first_lines_no_files(raw: Seq<char>)
    requires
        opens_none(lines(raw)),
    ensures
        files_of(raw) == Seq::<FileDiffView>::empty(),
        diff_countable(raw),
{
    lemma_no_sections(lines(raw));
    assert(files_of(raw) =~= Seq::<FileDiffView>::empty());
}

/// A file goes from its first line to the next file's, or to the end, and no
/// line between is lost: such lines below a diff add one file to those of that
/// diff, with all of them as they stand, unless the first line has no name.
pub proof fn files_have_all_their_lines(
    before: Seq<char>,
    now: Seq<char>,
    first: Seq<char>,
    below: Seq<Seq<char>>,
)
    requires
        opens(first),
        opens_none(below),
        lines(now) == lines(before).push(first) + below,
    ensures
        file_of(first).len() > 0 ==> files_of(now) == files_of(before).push(
            FileDiffView {
                filename: file_of(first),
                content: stacked(first, below),
                sbs: side_rows(stacked(first, below)),
            },
        ),
        file_of(first).len() == 0 ==> files_of(now) == files_of(before),
        diff_countable(now) <==> diff_countable(before) && (file_of(first).len() > 0 ==> countable(
            lines(stacked(first, below)),
        )),
{
    let ss = sections(lines(before));
    let section = seq![first] + below;
    let f = |s: Seq<Seq<char>>| file_diff(s);
    lemma_section(lines(before), first, below);
    lemma_stacked(first, below);
    assert(ss.push(section).drop_last() =~= ss);
    if let Some(file) = f(section) {
        assert(ss.filter_map(f) + seq![file] =~= ss.filter_map(f).push(file));
    }
    let all = ss.push(section);
    assert(all[ss.len() as int] == section);
    assert forall|i: int| 0 <= i < ss.len() implies #[trigger] all[i] == ss[i] by {}
    if diff_countable(now) {
        assert(section_countable(all[ss.len() as int]));
        assert forall|i: int| 0 <= i < ss.len() implies section_countable(#[trigger] ss[i]) by {
            assert(section_countable(all[i]));
        }
    }
    if diff_countable(before) && section_countable(section) {
        assert forall|i: int| 0 <= i < all.len() implies section_countable(#[trigger] all[i]) by {
            if i < ss.len() {
                assert(section_countable(ss[i]));
            }
        }
    }
}

/// Runs of lines one behind the other.
pub open spec fn strung(runs: Seq<Seq<Seq<char>>>) -> Seq<Seq<char>>
    decreases runs.len(),
{
    if runs.len() == 0 {
        Seq::empty()
    } else {
        strung(runs.drop_last()) + runs.last()
    }
}

/// From the first line that begins a file on, the lines of a diff are those of
/// its files, in order; each file's first line is the only one in it that begins
/// a file.
pub proof fn every_line_is_in_a_file(ls: Seq<Seq<char>>, k: int)
    requires
        0 <= k <= ls.len(),
        opens_none(ls.take(k)),
        k < ls.len() ==> opens(ls[k]),
    ensures
        strung(sections(ls)) == ls.skip(k),
        k < ls.len() <==> sections(ls).len() > 0,
        forall|i: int|
            0 <= i < sections(ls).len() ==> (#[trigger] sections(ls)[i]).len() > 0 && opens(
                sections(ls)[i][0],
            ) && opens_none(sections(ls)[i].skip(1)),
    decreases ls.len(),
{
    if k == ls.len() {
        assert(ls.take(k) =~= ls);
        lemma_no_sections(ls);
        assert(ls.skip(k) =~= Seq::<Seq<char>>::empty());
    } else {
        let shorter = ls.drop_last();
        let before = sections(shorter);
        let now = sections(ls);
        let line = ls.last();
        if k == ls.len() - 1 {
            assert(ls.take(k) =~= shorter);
            lemma_no_sections(shorter);
            reveal_with_fuel(strung, 2);
            assert(now =~= seq![seq![line]]);
            assert(now.drop_last() =~= before);
            assert(opens_none(now[0].skip(1)));
            assert(strung(now) =~= ls.skip(k));
        } else {
            assert(shorter.take(k) =~= ls.take(k));
            every_line_is_in_a_file(shorter, k);
            assert(ls.skip(k) =~= shorter.skip(k).push(line));
            if opens(line) {
                assert(now.drop_last() =~= before);
                assert(strung(now) =~= ls.skip(k));
                assert(opens_none(now.last().skip(1)));
            } else {
                assert(now.drop_last() =~= before.drop_last());
                let old_run = before[before.len() - 1];
                assert(old_run.len() > 0 && opens(old_run[0]) && opens_none(old_run.skip(1)));
                assert(now.last() == old_run.push(line));
                assert(strung(now) =~= ls.skip(k));
                let rest = now.last().skip(1);
                assert forall|i: int| 0 <= i < rest.len() implies !opens(#[trigger] rest[i]) by {
                    if i < rest.len() - 1 {
                        assert(rest[i] == old_run.skip(1)[i]);
                    }
                }
            }
            assert forall|i: int| 0 <= i < now.len() implies (#[trigger] now[i]).len() > 0
                && opens(now[i][0]) && opens_none(now[i].skip(1)) by {
                if i < now.len() - 1 {
                    assert(now[i] == before[i]);
                }
            }
        }
    }
}

/// A file is called after the second word behind the mark of its first line, or
/// after all that stands there where there is one word, without the `b/`s in
/// front.
pub proof fn files_are_called_by_the_new_name(
    before: Seq<char>,
    x: Seq<char>,
    gap: Seq<char>,
    y: Seq<char>,
    rest: Seq<char>,
)
    requires
        blank(before),
        solid(x),
        x.len() > 0,
        blank(gap),
        gap.len() > 0,
        solid(y),
        rest.len() > 0 ==> y.len() > 0 && white(rest[0]),
    ensures
        y.len() > 0 ==> file_of("diff --git "@ + (before + x + (gap + y + rest))) == after_all(
            y,
            "b/"@,
        ),
        file_of("diff --git "@ + (before + x + gap)) == after_all(before + x + gap, "b/"@),
        file_of("diff --git "@ + (before + x)) == after_all(before + x, "b/"@),
        file_of("diff --git "@ + before) == after_all(before, "b/"@),
{
    let mark = "diff --git "@;
    let none = Seq::<char>::empty();
    let far = gap + y + rest;
    words_are_read_off(gap, y, rest);
    words_are_read_off(before, none, none);
    words_are_read_off(gap, none, none);
    words_are_read_off(before, x, gap);
    words_are_read_off(before, x, none);
    words_are_read_off(none, none, none);
    assert(white(gap[0]));
    assert(far[0] == gap[0]);
    words_are_read_off(before, x, far);
    assert(before + x + none =~= before + x);
    assert((mark + (before + x + far)).skip(mark.len() as int) =~= before + x + far);
    assert((mark + (before + x + gap)).skip(mark.len() as int) =~= before + x + gap);
    assert((mark + (before + x)).skip(mark.len() as int) =~= before + x);
    assert((mark + before).skip(mark.len() as int) =~= before);
    assert(words(before + x).len() == 1);
    assert(words(before + x + gap).len() == 1);
    if y.len() > 0 {
        assert(words(before + x + far) == seq![x] + (seq![y] + words(rest)));
        assert(words(before + x + far)[1] == y);
    }
}

/// Whether a word is a sign and a number, with nothing behind them but, it may
/// be, a comma and more.
pub open spec fn signed(word: Seq<char>, sign: char, n: nat) -> bool {
    exists|digits: Seq<char>, more: Seq<char>|
        {
            &&& word == #[trigger] around(seq![sign], digits, more)
            &&& !digits.contains(',')
            &&& more.len() > 0 ==> more[0] == ','
            &&& numeral(digits, usize::MAX as nat) == Some(n)
        }
}

proof fn lemma_signed(word: Seq<char>, sign: Seq<char>, c: char, n: nat)
    requires
        sign == seq![c],
    ensures
        side_start(word, sign) == Some(n) <==> signed(word, c, n),
{
    if side_start(word, sign) == Some(n) {
        let t = word.skip(1);
        let digits = split(t, ',')[0];
        assert(word.subrange(0, 1) == sign);
        let k = lemma_first_piece(t, ',');
        let more = t.skip(k);
        assert(word =~= around(seq![c], digits, more));
    }
    if signed(word, c, n) {
        let (digits, more) = choose|digits: Seq<char>, more: Seq<char>|
            {
                &&& word == #[trigger] around(seq![c], digits, more)
                &&& !digits.contains(',')
                &&& more.len() > 0 ==> more[0] == ','
                &&& numeral(digits, usize::MAX as nat) == Some(n)
            };
        assert(word.subrange(0, 1) =~= sign);
        let t = word.skip(1);
        assert(t =~= digits + more);
        let k = lemma_first_piece(t, ',');
        let piece = split(t, ',')[0];
        assert(piece.len() == k);
        if k < digits.len() {
            assert(t[k] == digits[k]);
            assert(digits.contains(digits[k]));
        }
        if k > digits.len() {
            assert(t[digits.len() as int] == more[0]);
            assert(piece[digits.len() as int] == t[digits.len() as int]);
            assert(piece.contains(piece[digits.len() as int]));
        }
        assert(piece =~= digits);
    }
}

/// The first piece ends where the text does or the separator stands.
proof fn lemma_first_piece(t: Seq<char>, c: char) -> (k: int)
    ensures
        0 <= k <= t.len(),
        split(t, c)[0] == t.take(k),
        !split(t, c)[0].contains(c),
        k < t.len() ==> t[k] == c,
{
    let k = find(t, c) as int;
    the_first_is_found(t, c);
    assert(t.take(t.len() as int) =~= t);
    k
}

/// A hunk header announces two numbers where its first word behind `@@ ` is a
/// minus sign and the one and its second a plus sign and the other, and
/// announces none where it has another shape.
pub proof fn hunks_announce_numbers(line: Seq<char>, l: nat, r: nat)
    ensures
        hunk_start(line) == Some((l, r)) <==> {
            let w = words(line.skip(3));
            "@@ "@.is_prefix_of(line) && w.len() >= 2 && signed(w[0], '-', l) && signed(
                w[1],
                '+',
                r,
            )
        },
{
    reveal_strlit("@@ ");
    reveal_strlit("-");
    reveal_strlit("+");
    assert("-"@ =~= seq!['-']);
    assert("+"@ =~= seq!['+']);
    let w = words(line.skip(3));
    if w.len() >= 2 {
        lemma_signed(w[0], "-"@, '-', l);
        lemma_signed(w[1], "+"@, '+', r);
    }
}

} // verus!
