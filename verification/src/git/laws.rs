//! What holds of every listing and every diff.

use vstd::prelude::*;

use super::diff::{
    classify, file_diff, files_of, joined, lemma_sections, paired, paired_row, sections, settled,
    side_rows, side_run, side_step, starts_file, DiffLine, Pending,
};
use super::refs::{branch_of, branches_of};
use super::types::{RowView, SbsKind};
use crate::text::{
    after_all, chomp, find, lines, occurs, trim, trim_end, trim_start, white, word_len, words,
};

verus! {

/// The numbered line that a row shows on its left.
pub open spec fn left_of(r: RowView) -> Option<Pending> {
    match r.left_no {
        Some(n) => Some((n, r.left)),
        None => None,
    }
}

/// The numbered line that a row shows on its right.
pub open spec fn right_of(r: RowView) -> Option<Pending> {
    match r.right_no {
        Some(n) => Some((n, r.right)),
        None => None,
    }
}

/// The left column of a view, read downwards.
pub open spec fn left_column(rows: Seq<RowView>) -> Seq<Pending> {
    rows.filter_map(|r: RowView| left_of(r))
}

/// The right column of a view, read downwards.
pub open spec fn right_column(rows: Seq<RowView>) -> Seq<Pending> {
    rows.filter_map(|r: RowView| right_of(r))
}

/// The lines of the old file that a diff shows, with their numbers.
pub open spec fn old_lines(ls: Seq<Seq<char>>) -> Seq<Pending>
    decreases ls.len(),
{
    if ls.len() == 0 {
        Seq::empty()
    } else {
        let before = old_lines(ls.drop_last());
        match classify(ls.last()) {
            DiffLine::Old(t) => before.push((side_run(ls.drop_last()).left, t)),
            DiffLine::Both(t) => before.push((side_run(ls.drop_last()).left, t)),
            _ => before,
        }
    }
}

/// The lines of the new file that a diff shows, with their numbers.
pub open spec fn new_lines(ls: Seq<Seq<char>>) -> Seq<Pending>
    decreases ls.len(),
{
    if ls.len() == 0 {
        Seq::empty()
    } else {
        let before = new_lines(ls.drop_last());
        match classify(ls.last()) {
            DiffLine::New(t) => before.push((side_run(ls.drop_last()).right, t)),
            DiffLine::Both(t) => before.push((side_run(ls.drop_last()).right, t)),
            _ => before,
        }
    }
}

proof fn lemma_filter_map_push<A, B>(s: Seq<A>, x: A, f: spec_fn(A) -> Option<B>)
    ensures
        s.push(x).filter_map(f) == (match f(x) {
            Some(y) => s.filter_map(f).push(y),
            None => s.filter_map(f),
        }),
{
    assert(s.push(x).drop_last() =~= s);
    if let Some(y) = f(x) {
        assert(s.filter_map(f) + seq![y] =~= s.filter_map(f).push(y));
    }
}

proof fn lemma_filter_map_add<A, B>(a: Seq<A>, b: Seq<A>, f: spec_fn(A) -> Option<B>)
    ensures
        (a + b).filter_map(f) == a.filter_map(f) + b.filter_map(f),
    decreases b.len(),
{
    if b.len() == 0 {
        assert(a + b =~= a);
        assert(a.filter_map(f) + b.filter_map(f) =~= a.filter_map(f));
    } else {
        lemma_filter_map_add(a, b.drop_last(), f);
        lemma_filter_map_push(a + b.drop_last(), b.last(), f);
        lemma_filter_map_push(b.drop_last(), b.last(), f);
        assert((a + b.drop_last()).push(b.last()) =~= a + b);
        assert(b.drop_last().push(b.last()) =~= b);
        assert((a + b).filter_map(f) =~= a.filter_map(f) + b.filter_map(f));
    }
}

proof fn lemma_paired_columns(rem: Seq<Pending>, add: Seq<Pending>, k: int)
    requires
        0 <= k <= paired(rem, add).len(),
    ensures
        left_column(paired(rem, add).take(k)) == rem.take(
            if k < rem.len() {
                k
            } else {
                rem.len() as int
            },
        ),
        right_column(paired(rem, add).take(k)) == add.take(
            if k < add.len() {
                k
            } else {
                add.len() as int
            },
        ),
    decreases k,
{
    let p = paired(rem, add);
    let l = |r: RowView| left_of(r);
    let r = |r: RowView| right_of(r);
    if k == 0 {
        assert(left_column(p.take(0)) =~= rem.take(0));
        assert(right_column(p.take(0)) =~= add.take(0));
    } else {
        lemma_paired_columns(rem, add, k - 1);
        let x = p[k - 1];
        assert(p.take(k) =~= p.take(k - 1).push(x));
        lemma_filter_map_push(p.take(k - 1), x, l);
        lemma_filter_map_push(p.take(k - 1), x, r);
        assert(x == paired_row(rem, add, k - 1));
        if k - 1 < rem.len() {
            assert(rem.take(k) =~= rem.take(k - 1).push(rem[k - 1]));
        }
        if k - 1 < add.len() {
            assert(add.take(k) =~= add.take(k - 1).push(add[k - 1]));
        }
    }
}

proof fn lemma_settled_columns(rows: Seq<RowView>, rem: Seq<Pending>, add: Seq<Pending>)
    ensures
        left_column(rows + paired(rem, add)) == left_column(rows) + rem,
        right_column(rows + paired(rem, add)) == right_column(rows) + add,
{
    let p = paired(rem, add);
    lemma_filter_map_add(rows, p, |r: RowView| left_of(r));
    lemma_filter_map_add(rows, p, |r: RowView| right_of(r));
    lemma_paired_columns(rem, add, p.len() as int);
    assert(p.take(p.len() as int) =~= p);
    assert(rem.take(rem.len() as int) =~= rem);
    assert(add.take(add.len() as int) =~= add);
}

proof fn lemma_run_columns(ls: Seq<Seq<char>>)
    ensures
        left_column(side_run(ls).rows) + side_run(ls).rem == old_lines(ls),
        right_column(side_run(ls).rows) + side_run(ls).add == new_lines(ls),
    decreases ls.len(),
{
    let s = side_run(ls);
    if ls.len() == 0 {
        assert(left_column(s.rows) + s.rem =~= old_lines(ls));
        assert(right_column(s.rows) + s.add =~= new_lines(ls));
    } else {
        let b = side_run(ls.drop_last());
        lemma_run_columns(ls.drop_last());
        lemma_settled_columns(b.rows, b.rem, b.add);
        assert(s == side_step(b, ls.last()));
        match classify(ls.last()) {
            DiffLine::Old(t) => {
                assert(left_column(s.rows) + s.rem =~= old_lines(ls));
            },
            DiffLine::New(t) => {
                assert(right_column(s.rows) + s.add =~= new_lines(ls));
            },
            _ => {
                let row = s.rows.last();
                assert(s.rows =~= settled(b).push(row));
                lemma_filter_map_push(settled(b), row, |r: RowView| left_of(r));
                lemma_filter_map_push(settled(b), row, |r: RowView| right_of(r));
                assert(left_column(s.rows) + s.rem =~= old_lines(ls));
                assert(right_column(s.rows) + s.add =~= new_lines(ls));
            },
        }
    }
}

/// A side-by-side view loses nothing and reorders nothing: its left column is
/// the old file's lines as the diff gives them, with their numbers, and its
/// right column the new file's.
pub proof fn columns_are_the_two_files(content: Seq<char>)
    ensures
        left_column(side_rows(content)) == old_lines(lines(content)),
        right_column(side_rows(content)) == new_lines(lines(content)),
{
    let ls = lines(content);
    let s = side_run(ls);
    lemma_run_columns(ls);
    lemma_settled_columns(s.rows, s.rem, s.add);
}

/// Whether a row's kind says which sides it shows: context and changed rows
/// show both, removed rows the left, added rows the right, headers neither;
/// context is the same on both sides, and a side without a number is empty but
/// for the header text.
pub open spec fn kind_fits(r: RowView) -> bool {
    match r.kind {
        SbsKind::Context => r.left_no is Some && r.right_no is Some && r.left == r.right,
        SbsKind::Changed => r.left_no is Some && r.right_no is Some,
        SbsKind::Removed => r.left_no is Some && r.right_no is None && r.right.len() == 0,
        SbsKind::Added => r.left_no is None && r.right_no is Some && r.left.len() == 0,
        SbsKind::Header => r.left_no is None && r.right_no is None && r.right.len() == 0,
    }
}

proof fn lemma_run_kinds(ls: Seq<Seq<char>>)
    ensures
        forall|i: int|
            0 <= i < side_run(ls).rows.len() ==> kind_fits(#[trigger] side_run(ls).rows[i]),
    decreases ls.len(),
{
    if ls.len() > 0 {
        let b = side_run(ls.drop_last());
        let s = side_run(ls);
        lemma_run_kinds(ls.drop_last());
        assert forall|i: int| 0 <= i < s.rows.len() implies kind_fits(#[trigger] s.rows[i]) by {
            if i < b.rows.len() {
                assert(s.rows[i] == b.rows[i]);
            } else if i < settled(b).len() {
                assert(s.rows[i] == paired_row(b.rem, b.add, i - b.rows.len()));
            }
        }
    }
}

/// Every row of a side-by-side view is of the kind that its two sides call for.
pub proof fn rows_fit_their_kind(content: Seq<char>)
    ensures
        forall|i: int|
            0 <= i < side_rows(content).len() ==> kind_fits(#[trigger] side_rows(content)[i]),
{
    let s = side_run(lines(content));
    lemma_run_kinds(lines(content));
    assert forall|i: int| 0 <= i < side_rows(content).len() implies kind_fits(
        #[trigger] side_rows(content)[i],
    ) by {
        if i < s.rows.len() {
            assert(side_rows(content)[i] == s.rows[i]);
        } else {
            assert(side_rows(content)[i] == paired_row(s.rem, s.add, i - s.rows.len()));
        }
    }
}

/// Line numbers count up by one with every line of their side, and change
/// otherwise only at a hunk header that gives new ones.
pub proof fn numbers_count_up(ls: Seq<Seq<char>>, line: Seq<char>)
    requires
        !(classify(line) is Hunk),
    ensures
        side_run(ls.push(line)).left == side_run(ls).left + (if classify(line) is Old || classify(
            line,
        ) is Both {
            1int
        } else {
            0
        }),
        side_run(ls.push(line)).right == side_run(ls).right + (if classify(line) is New || classify(
            line,
        ) is Both {
            1int
        } else {
            0
        }),
{
    assert(ls.push(line).drop_last() =~= ls);
}

proof fn lemma_filter_map_from<A, B>(s: Seq<A>, f: spec_fn(A) -> Option<B>, k: int) -> (i: int)
    requires
        0 <= k < s.filter_map(f).len(),
    ensures
        0 <= i < s.len(),
        f(s[i]) == Some(s.filter_map(f)[k]),
    decreases s.len(),
{
    let rest = s.drop_last().filter_map(f);
    if k < rest.len() {
        let i = lemma_filter_map_from(s.drop_last(), f, k);
        assert(s.drop_last()[i] == s[i]);
        i
    } else {
        s.len() - 1
    }
}

proof fn lemma_joined_begins(ls: Seq<Seq<char>>)
    requires
        ls.len() > 0,
    ensures
        ls[0].is_prefix_of(joined(ls)),
    decreases ls.len(),
{
    if ls.len() > 1 {
        lemma_joined_begins(ls.drop_last());
        let shorter = joined(ls.drop_last());
        assert(ls[0] == ls.drop_last()[0]);
        assert(joined(ls).subrange(0, ls[0].len() as int) =~= shorter.subrange(
            0,
            ls[0].len() as int,
        ));
    } else {
        assert(ls[0].subrange(0, ls[0].len() as int) =~= ls[0]);
    }
}

/// Whether a line has no line feed in it.
pub open spec fn one_line(s: Seq<char>) -> bool {
    !s.contains('\n')
}

proof fn lemma_find_feed(s: Seq<char>)
    ensures
        find(s, '\n') <= s.len(),
        one_line(s.take(find(s, '\n') as int)),
    decreases s.len(),
{
    if s.len() > 0 && s[0] != '\n' {
        let rest = s.drop_first();
        let n = find(rest, '\n') as int;
        lemma_find_feed(rest);
        assert forall|i: int| 0 <= i <= n implies #[trigger] s.take(n + 1)[i] != '\n' by {
            if i > 0 {
                assert(s.take(n + 1)[i] == rest.take(n)[i - 1]);
                assert(rest.take(n).contains(rest.take(n)[i - 1]));
            }
        }
        assert(find(s, '\n') as int == n + 1);
    } else {
        assert(s.take(0) =~= Seq::<char>::empty());
    }
}

proof fn lemma_lines_clean(s: Seq<char>)
    ensures
        forall|i: int| 0 <= i < lines(s).len() ==> one_line(#[trigger] lines(s)[i]),
    decreases s.len(),
{
    lemma_find_feed(s);
    let n = find(s, '\n') as int;
    if s.len() > 0 {
        if n >= s.len() {
            assert(s.take(n) =~= s);
        } else {
            let rest = s.skip(n + 1);
            lemma_lines_clean(rest);
            let first = s.take(n);
            assert(one_line(chomp(first))) by {
                if chomp(first).contains('\n') {
                    let k = choose|k: int| 0 <= k < chomp(first).len() && chomp(first)[k] == '\n';
                    assert(first[k] == '\n');
                }
            }
            assert forall|i: int| 0 <= i < lines(s).len() implies one_line(
                #[trigger] lines(s)[i],
            ) by {
                if i > 0 {
                    assert(lines(s)[i] == lines(rest)[i - 1]);
                }
            }
        }
    }
}

proof fn lemma_joined_front(ls: Seq<Seq<char>>)
    requires
        ls.len() > 1,
    ensures
        joined(ls) == ls[0].push('\n') + joined(ls.drop_first()),
    decreases ls.len(),
{
    let rest = ls.drop_first();
    if ls.len() == 2 {
        assert(ls.drop_last()[0] == ls[0]);
        assert(joined(ls.drop_last()) == ls[0]);
        assert(joined(rest) == ls[1]);
    } else {
        lemma_joined_front(ls.drop_last());
        assert(ls.drop_last().drop_first() =~= rest.drop_last());
        assert(joined(ls) =~= ls[0].push('\n') + joined(rest));
    }
}

proof fn lemma_find_after(s: Seq<char>, t: Seq<char>)
    requires
        one_line(s),
    ensures
        find(s.push('\n') + t, '\n') == s.len(),
        find(s, '\n') == s.len(),
    decreases s.len(),
{
    let all = s.push('\n') + t;
    if s.len() > 0 {
        let rest = s.drop_first();
        assert(s.contains(s[0]));
        assert(one_line(rest)) by {
            if rest.contains('\n') {
                let k = choose|k: int| 0 <= k < rest.len() && rest[k] == '\n';
                assert(s[k + 1] == '\n');
            }
        }
        lemma_find_after(rest, t);
        assert(all.drop_first() =~= rest.push('\n') + t);
    }
}

/// Lines that were put together come apart again, but for carriage returns at
/// their ends and an empty last line.
proof fn lemma_lines_of_joined(ls: Seq<Seq<char>>)
    requires
        ls.len() > 0,
        forall|i: int| 0 <= i < ls.len() ==> one_line(#[trigger] ls[i]),
    ensures
        lines(joined(ls)).len() <= ls.len(),
        lines(joined(ls)).len() == 0 ==> ls[0].len() == 0,
        forall|i: int|
            0 <= i < lines(joined(ls)).len() ==> #[trigger] lines(joined(ls))[i] == ls[i] || lines(
                joined(ls),
            )[i] == chomp(ls[i]),
    decreases ls.len(),
{
    let s = joined(ls);
    if ls.len() == 1 {
        lemma_find_after(ls[0], Seq::empty());
    } else {
        let rest = ls.drop_first();
        let n = ls[0].len() as int;
        lemma_joined_front(ls);
        lemma_lines_of_joined(rest);
        lemma_find_after(ls[0], joined(rest));
        assert(s.take(n) =~= ls[0]);
        assert(s.skip(n + 1) =~= joined(rest));
        assert forall|i: int| 0 <= i < lines(s).len() implies #[trigger] lines(s)[i] == ls[i]
            || lines(s)[i] == chomp(ls[i]) by {
            if i > 0 {
                assert(lines(s)[i] == lines(joined(rest))[i - 1]);
                assert(ls[i] == rest[i - 1]);
            }
        }
    }
}

/// Sections are made of the lines, and start a file only at their first.
proof fn lemma_section_lines(ls: Seq<Seq<char>>, i: int)
    requires
        forall|j: int| 0 <= j < ls.len() ==> one_line(#[trigger] ls[j]),
        0 <= i < sections(ls).len(),
    ensures
        forall|j: int| 0 <= j < sections(ls)[i].len() ==> one_line(#[trigger] sections(ls)[i][j]),
        forall|j: int|
            1 <= j < sections(ls)[i].len() ==> !starts_file(#[trigger] sections(ls)[i][j]),
    decreases ls.len(),
{
    let before = sections(ls.drop_last());
    let last = ls[ls.len() - 1];
    assert(one_line(last));
    if i < before.len() {
        lemma_section_lines(ls.drop_last(), i);
        lemma_sections(ls.drop_last());
        assert(before[i].len() > 0);
        let now = sections(ls)[i];
        assert forall|j: int| 0 <= j < now.len() implies one_line(#[trigger] now[j]) && (j >= 1
            ==> !starts_file(now[j])) by {
            if j < before[i].len() {
                assert(now[j] == before[i][j]);
            } else {
                assert(now[j] == last);
            }
        }
    }
}

proof fn lemma_after_all(s: Seq<char>, prefix: Seq<char>)
    requires
        prefix.len() > 0,
    ensures
        !prefix.is_prefix_of(after_all(s, prefix)),
    decreases s.len(),
{
    if prefix.is_prefix_of(s) {
        lemma_after_all(s.skip(prefix.len() as int), prefix);
    }
}

/// A line starts a file whether or not a carriage return ends it.
proof fn lemma_chomped_start(line: Seq<char>)
    ensures
        starts_file(chomp(line)) == starts_file(line),
{
    reveal_strlit("diff --git ");
    let p = "diff --git "@;
    let c = chomp(line);
    if c != line {
        assert(line =~= c.push('\r'));
        if p.len() <= c.len() {
            assert(c.subrange(0, p.len() as int) =~= line.subrange(0, p.len() as int));
        } else if p.is_prefix_of(line) {
            assert(line.subrange(0, p.len() as int)[10] == ' ');
            assert(line[10] == '\r');
        }
    }
}

/// Every file of a diff has a name that does not begin with `b/`, its rows are
/// the side-by-side view of its text, and of the lines of its text the first and
/// only the first begins like a line that names a file.
pub proof fn files_are_named(raw: Seq<char>, k: int)
    requires
        0 <= k < files_of(raw).len(),
    ensures
        files_of(raw)[k].filename.len() > 0,
        !"b/"@.is_prefix_of(files_of(raw)[k].filename),
        files_of(raw)[k].sbs == side_rows(files_of(raw)[k].content),
        "diff --git "@.is_prefix_of(files_of(raw)[k].content),
        lines(files_of(raw)[k].content).len() > 0,
        forall|j: int|
            0 <= j < lines(files_of(raw)[k].content).len() ==> ("diff --git "@.is_prefix_of(
                #[trigger] lines(files_of(raw)[k].content)[j],
            ) <==> j == 0),
{
    let f = |s: Seq<Seq<char>>| file_diff(s);
    let ss = sections(lines(raw));
    let i = lemma_filter_map_from(ss, f, k);
    lemma_sections(lines(raw));
    lemma_joined_begins(ss[i]);
    let first = ss[i][0];
    let p = "diff --git "@;
    assert(starts_file(first));
    assert(joined(ss[i]).subrange(0, p.len() as int) =~= first.subrange(0, p.len() as int)) by {
        assert(joined(ss[i]).subrange(0, first.len() as int) == first);
        assert(joined(ss[i]).subrange(0, first.len() as int).subrange(0, p.len() as int)
            =~= joined(ss[i]).subrange(0, p.len() as int));
    }
    reveal_strlit("b/");
    reveal_strlit("diff --git ");
    let rest = first.skip(p.len() as int);
    lemma_after_all(
        if words(rest).len() > 1 {
            words(rest)[1]
        } else {
            rest
        },
        "b/"@,
    );
    lemma_lines_clean(raw);
    lemma_section_lines(lines(raw), i);
    lemma_lines_of_joined(ss[i]);
    let text = lines(joined(ss[i]));
    assert forall|j: int| 0 <= j < text.len() implies (p.is_prefix_of(#[trigger] text[j]) <==> j
        == 0) by {
        lemma_chomped_start(ss[i][j]);
        assert(text[j] == ss[i][j] || text[j] == chomp(ss[i][j]));
    }
}

proof fn trim_start_at(s: Seq<char>) -> (c: int)
    ensures
        0 <= c <= s.len(),
        trim_start(s) == s.skip(c),
        forall|i: int| 0 <= i < c ==> white(#[trigger] s[i]),
    decreases s.len(),
{
    if s.len() > 0 && white(s[0]) {
        let t = s.drop_first();
        let c = trim_start_at(t);
        assert(t.skip(c) =~= s.skip(c + 1));
        assert forall|i: int| 0 <= i < c + 1 implies white(#[trigger] s[i]) by {
            if i > 0 {
                assert(white(t[i - 1]));
            }
        }
        c + 1
    } else {
        assert(s.skip(0) =~= s);
        0
    }
}

proof fn trim_end_at(s: Seq<char>) -> (d: int)
    ensures
        0 <= d <= s.len(),
        trim_end(s) == s.take(d),
        forall|i: int| d <= i < s.len() ==> white(#[trigger] s[i]),
    decreases s.len(),
{
    if s.len() > 0 && white(s.last()) {
        let t = s.drop_last();
        let d = trim_end_at(t);
        assert(t.take(d) =~= s.take(d));
        assert forall|i: int| d <= i < s.len() implies white(#[trigger] s[i]) by {
            if i < t.len() {
                assert(white(t[i]));
            }
        }
        d
    } else {
        assert(s.take(s.len() as int) =~= s);
        s.len() as int
    }
}

proof fn lemma_word(s: Seq<char>)
    ensures
        word_len(s) <= s.len(),
        forall|i: int| 0 <= i < word_len(s) ==> !white(#[trigger] s[i]),
        s.len() > 0 && !white(s[0]) ==> word_len(s) > 0,
    decreases s.len(),
{
    if s.len() > 0 && !white(s[0]) {
        let t = s.drop_first();
        lemma_word(t);
        assert forall|i: int| 0 <= i < word_len(s) implies !white(#[trigger] s[i]) by {
            if i > 0 {
                assert(!white(t[i - 1]));
            }
        }
    }
}

proof fn lemma_branch(line: Seq<char>)
    requires
        branch_of(line) is Some,
    ensures
        ({
            let name = branch_of(line)->0.name;
            &&& name.len() > 0
            &&& forall|i: int| 0 <= i < name.len() ==> !white(#[trigger] name[i])
            &&& !occurs(name, "remotes/"@)
        }),
{
    reveal_strlit("* ");
    reveal_strlit("  ");
    let rest = line.skip(2);
    let c = trim_start_at(rest);
    let t = trim_start(rest);
    let n = word_len(t);
    lemma_word(t);
    crate::text::lemma_trim_start(rest);
    let name = words(rest)[0];
    let a = 2 + c;
    assert(name =~= line.subrange(a, a + n));
    assert(!white(t[0]) && t[0] == line[a]);
    assert(!white(t[n - 1]) && t[n - 1] == line[a + n - 1]);
    let c0 = trim_start_at(line);
    let u = line.skip(c0);
    let d0 = trim_end_at(u);
    let core = trim(line);
    assert(core == u.take(d0));
    assert(c0 <= a) by {
        if a < c0 {
            assert(white(line[a]));
        }
    }
    assert(a + n - c0 <= d0) by {
        if a + n - c0 > d0 {
            assert(white(u[a + n - 1 - c0]));
        }
    }
    let p = "remotes/"@;
    if occurs(name, p) {
        let i = choose|i: int| 0 <= i <= name.len() && p.is_prefix_of(#[trigger] name.skip(i));
        let j = a - c0 + i;
        assert(core.skip(j).subrange(0, p.len() as int) =~= name.skip(i).subrange(
            0,
            p.len() as int,
        ));
        assert(p.is_prefix_of(core.skip(j)));
    }
}

/// A listed branch has a name without white space in it, and is never a remote
/// one.
pub proof fn branches_are_local(raw: Seq<char>, k: int)
    requires
        0 <= k < branches_of(raw).len(),
    ensures
        branches_of(raw)[k].name.len() > 0,
        forall|i: int|
            0 <= i < branches_of(raw)[k].name.len() ==> !white(
                #[trigger] branches_of(raw)[k].name[i],
            ),
        !occurs(branches_of(raw)[k].name, "remotes/"@),
{
    let f = |l: Seq<char>| branch_of(l);
    let i = lemma_filter_map_from(lines(raw), f, k);
    lemma_branch(lines(raw)[i]);
}

} // verus!
