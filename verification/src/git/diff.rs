//! Unified diffs: the files in them, and each file's changes side by side.

use vstd::prelude::*;

use super::types::{number, FileDiff, FileDiffView, RowView, SbsKind, SbsRow};
use crate::text::{
    after, after_all, lines, numeral, parse_number, split, split_char, split_lines, split_words,
    starts_with, strip_all, strip_prefix, to_chars, to_text, views, words,
};

verus! {

/// What a line of a unified diff is.
pub enum DiffLine {
    /// A hunk header.
    Hunk,
    /// Any other header line.
    Meta,
    /// A line only in the old file.
    Old(Seq<char>),
    /// A line only in the new file.
    New(Seq<char>),
    /// A line in both.
    Both(Seq<char>),
}

/// Reads a line of a unified diff by how it begins.
pub open spec fn classify(line: Seq<char>) -> DiffLine {
    if "@@"@.is_prefix_of(line) {
        DiffLine::Hunk
    } else if "diff "@.is_prefix_of(line) || "index "@.is_prefix_of(line) || "--- "@.is_prefix_of(
        line,
    ) || "+++ "@.is_prefix_of(line) {
        DiffLine::Meta
    } else if "-"@.is_prefix_of(line) {
        DiffLine::Old(line.skip("-"@.len() as int))
    } else if "+"@.is_prefix_of(line) {
        DiffLine::New(line.skip("+"@.len() as int))
    } else {
        DiffLine::Both(
            match after(line, " "@) {
                Some(t) => t,
                None => line,
            },
        )
    }
}

/// The number at the front of one side of a hunk header, behind its sign.
pub open spec fn side_start(word: Seq<char>, sign: Seq<char>) -> Option<nat> {
    match after(word, sign) {
        None => None,
        Some(t) => numeral(split(t, ',')[0], usize::MAX as nat),
    }
}

/// The line numbers at which a hunk starts in the old and in the new file.
pub open spec fn hunk_start(line: Seq<char>) -> Option<(nat, nat)> {
    match after(line, "@@ "@) {
        None => None,
        Some(t) => {
            let w = words(t);
            if w.len() < 2 {
                None
            } else {
                match (side_start(w[0], "-"@), side_start(w[1], "+"@)) {
                    (Some(l), Some(r)) => Some((l, r)),
                    _ => None,
                }
            }
        },
    }
}

fn parse_side_start(word: &[char], sign: &str) -> (r: Option<usize>)
    ensures
        number(r) == side_start(word@, sign@),
{
    match strip_prefix(word, sign) {
        None => None,
        Some(t) => {
            let v = split_char(t, ',');
            assert(split(t@, ',')[0] == v@[0]@);
            parse_number(v[0], usize::MAX)
        },
    }
}

/// Reads the line numbers out of a hunk header.
pub fn parse_hunk_start(line: &[char]) -> (r: Option<(usize, usize)>)
    ensures
        match r {
            Some((l, n)) => hunk_start(line@) == Some((l as nat, n as nat)),
            None => hunk_start(line@) is None,
        },
{
    match strip_prefix(line, "@@ ") {
        None => None,
        Some(t) => {
            let w = split_words(t);
            assert(views(w@).len() == w@.len());
            if w.len() < 2 {
                return None;
            }
            assert(words(t@)[0] == w@[0]@);
            assert(words(t@)[1] == w@[1]@);
            match (parse_side_start(w[0], "-"), parse_side_start(w[1], "+")) {
                (Some(l), Some(n)) => Some((l, n)),
                _ => None,
            }
        },
    }
}

/// A numbered line that waits to be placed.
pub type Pending = (nat, Seq<char>);

/// The text of numbered lines.
pub open spec fn pending(v: Seq<(usize, String)>) -> Seq<Pending> {
    Seq::new(v.len(), |i: int| (v[i].0 as nat, v[i].1@))
}

/// Row `i` of a run of removed lines set against a run of added ones.
pub open spec fn paired_row(rem: Seq<Pending>, add: Seq<Pending>, i: int) -> RowView {
    RowView {
        left_no: if i < rem.len() {
            Some(rem[i].0)
        } else {
            None
        },
        left: if i < rem.len() {
            rem[i].1
        } else {
            Seq::empty()
        },
        right_no: if i < add.len() {
            Some(add[i].0)
        } else {
            None
        },
        right: if i < add.len() {
            add[i].1
        } else {
            Seq::empty()
        },
        kind: if i < rem.len() && i < add.len() {
            SbsKind::Changed
        } else if i < rem.len() {
            SbsKind::Removed
        } else {
            SbsKind::Added
        },
    }
}

/// The rows that set removed lines against added ones, the first with the
/// first.
pub open spec fn paired(rem: Seq<Pending>, add: Seq<Pending>) -> Seq<RowView> {
    Seq::new(
        if rem.len() > add.len() {
            rem.len()
        } else {
            add.len()
        },
        |i: int| paired_row(rem, add, i),
    )
}

/// Moves the waiting lines into rows.
pub fn flush_sbs(
    rows: &mut Vec<SbsRow>,
    rem: &mut Vec<(usize, String)>,
    add: &mut Vec<(usize, String)>,
)
    ensures
        final(rows).deep_view() == old(rows).deep_view() + paired(
            pending(old(rem)@),
            pending(old(add)@),
        ),
        final(rem)@.len() == 0,
        final(add)@.len() == 0,
{
    let n: usize = if rem.len() > add.len() { rem.len() } else { add.len() };
    let ghost before = rows.deep_view();
    let ghost goal = paired(pending(rem@), pending(add@));
    let mut i: usize = 0;
    assert(before + goal.take(0) =~= before);
    while i < n
        invariant
            i <= n == goal.len(),
            rem@ == old(rem)@,
            add@ == old(add)@,
            n == rem@.len() || n == add@.len(),
            goal == paired(pending(rem@), pending(add@)),
            rows.deep_view() == before + goal.take(i as int),
        decreases n - i,
    {
        let kind = if i < rem.len() && i < add.len() {
            SbsKind::Changed
        } else if i < rem.len() {
            SbsKind::Removed
        } else {
            SbsKind::Added
        };
        let (left_no, left): (Option<usize>, String) = if i < rem.len() {
            (Some(rem[i].0), rem[i].1.clone())
        } else {
            (None, String::new())
        };
        let (right_no, right): (Option<usize>, String) = if i < add.len() {
            (Some(add[i].0), add[i].1.clone())
        } else {
            (None, String::new())
        };
        let row = SbsRow { left_no, left, right_no, right, kind };
        let ghost sofar = rows.deep_view();
        rows.push(row);
        assert(row.deep_view() == goal[i as int]);
        assert(rows.deep_view() =~= sofar.push(goal[i as int]));
        i = i + 1;
        assert(goal.take(i as int) =~= goal.take(i - 1).push(goal[i - 1]));
        assert(sofar.push(goal[i - 1]) =~= before + goal.take(i as int));
    }
    assert(goal.take(n as int) =~= goal);
    rem.clear();
    add.clear();
}

/// How far a side-by-side view has been built: the finished rows, the removed
/// and the added lines that wait for each other, and the next line numbers.
pub struct SideState {
    pub rows: Seq<RowView>,
    pub rem: Seq<Pending>,
    pub add: Seq<Pending>,
    pub left: nat,
    pub right: nat,
}

/// A row that shows a header line.
pub open spec fn header_row(line: Seq<char>) -> RowView {
    RowView {
        left_no: None,
        left: line,
        right_no: None,
        right: Seq::empty(),
        kind: SbsKind::Header,
    }
}

/// The rows of `s` once nothing waits.
pub open spec fn settled(s: SideState) -> Seq<RowView> {
    s.rows + paired(s.rem, s.add)
}

/// What one more line does.
pub open spec fn side_step(s: SideState, line: Seq<char>) -> SideState {
    match classify(line) {
        DiffLine::Hunk => SideState {
            rows: settled(s).push(header_row(line)),
            rem: Seq::empty(),
            add: Seq::empty(),
            left: match hunk_start(line) {
                Some((l, _)) => l,
                None => s.left,
            },
            right: match hunk_start(line) {
                Some((_, r)) => r,
                None => s.right,
            },
        },
        DiffLine::Meta => SideState {
            rows: settled(s).push(header_row(line)),
            rem: Seq::empty(),
            add: Seq::empty(),
            left: s.left,
            right: s.right,
        },
        DiffLine::Old(t) => SideState {
            rows: s.rows,
            rem: s.rem.push((s.left, t)),
            add: s.add,
            left: s.left + 1,
            right: s.right,
        },
        DiffLine::New(t) => SideState {
            rows: s.rows,
            rem: s.rem,
            add: s.add.push((s.right, t)),
            left: s.left,
            right: s.right + 1,
        },
        DiffLine::Both(t) => SideState {
            rows: settled(s).push(
                RowView {
                    left_no: Some(s.left),
                    left: t,
                    right_no: Some(s.right),
                    right: t,
                    kind: SbsKind::Context,
                },
            ),
            rem: Seq::empty(),
            add: Seq::empty(),
            left: s.left + 1,
            right: s.right + 1,
        },
    }
}

/// The state after the given lines; numbering starts at one.
pub open spec fn side_run(ls: Seq<Seq<char>>) -> SideState
    decreases ls.len(),
{
    if ls.len() == 0 {
        SideState {
            rows: Seq::empty(),
            rem: Seq::empty(),
            add: Seq::empty(),
            left: 1,
            right: 1,
        }
    } else {
        side_step(side_run(ls.drop_last()), ls.last())
    }
}

/// The rows of the side-by-side view of a diff.
pub open spec fn side_rows(content: Seq<char>) -> Seq<RowView> {
    settled(side_run(lines(content)))
}

/// Whether the line numbers of a diff, and the next one after each line, fit a
/// machine word.
pub open spec fn countable(ls: Seq<Seq<char>>) -> bool
    decreases ls.len(),
{
    ls.len() == 0 || {
        &&& countable(ls.drop_last())
        &&& side_run(ls).left <= usize::MAX
        &&& side_run(ls).right <= usize::MAX
    }
}

proof fn lemma_countable_prefix(ls: Seq<Seq<char>>, i: int)
    requires
        countable(ls),
        0 <= i <= ls.len(),
    ensures
        countable(ls.take(i)),
    decreases ls.len(),
{
    if i == ls.len() {
        assert(ls.take(i) =~= ls);
    } else {
        lemma_countable_prefix(ls.drop_last(), i);
        assert(ls.drop_last().take(i) =~= ls.take(i));
    }
}

fn header(line: &[char]) -> (r: SbsRow)
    ensures
        r.deep_view() == header_row(line@),
{
    SbsRow {
        left_no: None,
        left: to_text(line),
        right_no: None,
        right: String::new(),
        kind: SbsKind::Header,
    }
}

/// Builds the side-by-side view, or nothing if its line numbers do not fit.
fn side_by_side(content: &[char]) -> (r: Option<Vec<SbsRow>>)
    ensures
        r is Some <==> countable(lines(content@)),
        r is Some ==> r->0.deep_view() == side_rows(content@),
{
    let ls = split_lines(content);
    let ghost all = lines(content@);
    let mut rows: Vec<SbsRow> = Vec::new();
    let mut rem: Vec<(usize, String)> = Vec::new();
    let mut add: Vec<(usize, String)> = Vec::new();
    let mut ln: usize = 1;
    let mut rn: usize = 1;
    let mut i: usize = 0;
    assert(rows.deep_view() =~= Seq::<RowView>::empty());
    assert(pending(rem@) =~= Seq::<Pending>::empty());
    assert(pending(add@) =~= Seq::<Pending>::empty());
    while i < ls.len()
        invariant
            i <= ls@.len(),
            all == views(ls@),
            all == lines(content@),
            countable(all.take(i as int)),
            ({
                let s = side_run(all.take(i as int));
                &&& rows.deep_view() == s.rows
                &&& pending(rem@) == s.rem
                &&& pending(add@) == s.add
                &&& ln == s.left
                &&& rn == s.right
            }),
        decreases ls@.len() - i,
    {
        let line = ls[i];
        let ghost s = side_run(all.take(i as int));
        let ghost next = side_run(all.take(i + 1));
        let ghost rem0 = rem@;
        let ghost add0 = add@;
        assert(all[i as int] == line@);
        assert(all.take(i + 1).drop_last() =~= all.take(i as int));
        assert(all.take(i + 1).last() == line@);
        assert(next == side_step(s, line@));
        if starts_with(line, "@@") {
            flush_sbs(&mut rows, &mut rem, &mut add);
            if let Some((l, r)) = parse_hunk_start(line) {
                ln = l;
                rn = r;
            }
            let h = header(line);
            let ghost done = rows.deep_view();
            rows.push(h);
            assert(rows.deep_view() =~= done.push(header_row(line@)));
            assert(pending(rem@) =~= Seq::<Pending>::empty());
            assert(pending(add@) =~= Seq::<Pending>::empty());
        } else if starts_with(line, "diff ") || starts_with(line, "index ") || starts_with(
            line,
            "--- ",
        ) || starts_with(line, "+++ ") {
            flush_sbs(&mut rows, &mut rem, &mut add);
            let h = header(line);
            let ghost done = rows.deep_view();
            rows.push(h);
            assert(rows.deep_view() =~= done.push(header_row(line@)));
            assert(pending(rem@) =~= Seq::<Pending>::empty());
            assert(pending(add@) =~= Seq::<Pending>::empty());
        } else if let Some(rest) = strip_prefix(line, "-") {
            if ln == usize::MAX {
                proof {
                    if countable(all) {
                        lemma_countable_prefix(all, i + 1);
                    }
                }
                return None;
            }
            rem.push((ln, to_text(rest)));
            assert(pending(rem@) =~= pending(rem0).push((ln as nat, rest@)));
            ln = ln + 1;
        } else if let Some(rest) = strip_prefix(line, "+") {
            if rn == usize::MAX {
                proof {
                    if countable(all) {
                        lemma_countable_prefix(all, i + 1);
                    }
                }
                return None;
            }
            add.push((rn, to_text(rest)));
            assert(pending(add@) =~= pending(add0).push((rn as nat, rest@)));
            rn = rn + 1;
        } else {
            if ln == usize::MAX || rn == usize::MAX {
                proof {
                    if countable(all) {
                        lemma_countable_prefix(all, i + 1);
                    }
                }
                return None;
            }
            flush_sbs(&mut rows, &mut rem, &mut add);
            let text = match strip_prefix(line, " ") {
                Some(t) => t,
                None => line,
            };
            let row = SbsRow {
                left_no: Some(ln),
                left: to_text(text),
                right_no: Some(rn),
                right: to_text(text),
                kind: SbsKind::Context,
            };
            let ghost done = rows.deep_view();
            rows.push(row);
            assert(rows.deep_view() =~= done.push(row.deep_view()));
            assert(pending(rem@) =~= Seq::<Pending>::empty());
            assert(pending(add@) =~= Seq::<Pending>::empty());
            ln = ln + 1;
            rn = rn + 1;
        }
        i = i + 1;
    }
    assert(all.take(i as int) =~= all);
    flush_sbs(&mut rows, &mut rem, &mut add);
    Some(rows)
}

/// Sets the removed and the added lines of a diff side by side.
pub fn parse_side_by_side(content: &str) -> (r: Vec<SbsRow>)
    requires
        countable(lines(content@)),
    ensures
        r.deep_view() == side_rows(content@),
{
    let cs = to_chars(content);
    match side_by_side(cs.as_slice()) {
        Some(rows) => rows,
        None => Vec::new(),
    }
}

/// Whether a line starts the changes to a file.
pub open spec fn starts_file(line: Seq<char>) -> bool {
    "diff --git "@.is_prefix_of(line)
}

/// The lines of a diff, file by file: each run starts at the file's first line;
/// lines in front of the first file belong to none.
pub open spec fn sections(ls: Seq<Seq<char>>) -> Seq<Seq<Seq<char>>>
    decreases ls.len(),
{
    if ls.len() == 0 {
        Seq::empty()
    } else {
        let before = sections(ls.drop_last());
        if starts_file(ls.last()) {
            before.push(seq![ls.last()])
        } else if before.len() == 0 {
            before
        } else {
            before.drop_last().push(before.last().push(ls.last()))
        }
    }
}

/// Lines put together with line feeds between them.
pub open spec fn joined(ls: Seq<Seq<char>>) -> Seq<char>
    decreases ls.len(),
{
    if ls.len() == 0 {
        Seq::empty()
    } else if ls.len() == 1 {
        ls[0]
    } else {
        joined(ls.drop_last()).push('\n') + ls.last()
    }
}

/// The name of a file from its first line: the second of the two names there,
/// or all that is there, without leading `b/`s.
pub open spec fn file_of(first: Seq<char>) -> Seq<char> {
    let rest = first.skip("diff --git "@.len() as int);
    after_all(
        if words(rest).len() > 1 {
            words(rest)[1]
        } else {
            rest
        },
        "b/"@,
    )
}

/// The changes to one file; a file without a name is left out.
pub open spec fn file_diff(section: Seq<Seq<char>>) -> Option<FileDiffView> {
    if file_of(section[0]).len() == 0 {
        None
    } else {
        Some(
            FileDiffView {
                filename: file_of(section[0]),
                content: joined(section),
                sbs: side_rows(joined(section)),
            },
        )
    }
}

/// The files of a diff.
pub open spec fn files_of(raw: Seq<char>) -> Seq<FileDiffView> {
    sections(lines(raw)).filter_map(|s: Seq<Seq<char>>| file_diff(s))
}

/// Whether the line numbers of every file with a name fit a machine word.
pub open spec fn diff_countable(raw: Seq<char>) -> bool {
    all_countable(sections(lines(raw)))
}

/// Whether the line numbers of each of the given files fit.
pub open spec fn all_countable(ss: Seq<Seq<Seq<char>>>) -> bool {
    forall|i: int| 0 <= i < ss.len() ==> section_countable(#[trigger] ss[i])
}

/// Whether the line numbers of one file fit, if it has a name.
pub open spec fn section_countable(section: Seq<Seq<char>>) -> bool {
    file_of(section[0]).len() > 0 ==> countable(lines(joined(section)))
}

pub proof fn lemma_sections(ls: Seq<Seq<char>>)
    ensures
        forall|i: int|
            0 <= i < sections(ls).len() ==> (#[trigger] sections(ls)[i]).len() > 0 && starts_file(
                sections(ls)[i][0],
            ),
    decreases ls.len(),
{
    if ls.len() > 0 {
        lemma_sections(ls.drop_last());
        let before = sections(ls.drop_last());
        let now = sections(ls);
        assert forall|i: int| 0 <= i < now.len() implies (#[trigger] now[i]).len() > 0
            && starts_file(now[i][0]) by {
            if i < before.len() {
                assert(before[i].len() > 0 && starts_file(before[i][0]));
            }
        }
    }
}

/// A finished file stays as it is.
proof fn lemma_sections_done(ls: Seq<Seq<char>>, k: int, i: int)
    requires
        0 <= k <= ls.len(),
        0 <= i < sections(ls.take(k)).len() - 1 || (0 <= i < sections(ls.take(k)).len() && k
            < ls.len() && starts_file(ls[k])),
    ensures
        i < sections(ls).len(),
        sections(ls)[i] == sections(ls.take(k))[i],
    decreases ls.len(),
{
    if k == ls.len() {
        assert(ls.take(k) =~= ls);
    } else if k == ls.len() - 1 {
        assert(ls.take(k) =~= ls.drop_last());
    } else {
        assert(ls.drop_last().take(k) =~= ls.take(k));
        let shorter = ls.drop_last();
        lemma_sections_done(shorter, k, i);
        lemma_sections_count(shorter, k);
    }
}

/// More lines never make fewer files.
proof fn lemma_sections_count(ls: Seq<Seq<char>>, k: int)
    requires
        0 <= k <= ls.len(),
    ensures
        sections(ls).len() >= sections(ls.take(k)).len(),
        k < ls.len() && starts_file(ls[k]) ==> sections(ls).len() > sections(ls.take(k)).len(),
    decreases ls.len(),
{
    if k == ls.len() {
        assert(ls.take(k) =~= ls);
    } else if k == ls.len() - 1 {
        assert(ls.take(k) =~= ls.drop_last());
    } else {
        assert(ls.drop_last().take(k) =~= ls.take(k));
        lemma_sections_count(ls.drop_last(), k);
    }
}

/// Makes the record of one file, if it has a name and its line numbers fit.
fn make_file(filename: &[char], content: &[char]) -> (r: Option<FileDiff>)
    ensures
        r is Some <==> countable(lines(content@)),
        r is Some ==> r->0.deep_view() == (FileDiffView {
            filename: filename@,
            content: content@,
            sbs: side_rows(content@),
        }),
{
    match side_by_side(content) {
        None => None,
        Some(sbs) => Some(
            FileDiff { filename: to_text(filename), content: to_text(content), sbs },
        ),
    }
}

fn extend_chars(v: &mut Vec<char>, more: &[char])
    ensures
        final(v)@ == old(v)@ + more@,
{
    let ghost before = v@;
    let mut i: usize = 0;
    assert(before + more@.take(0) =~= before);
    while i < more.len()
        invariant
            i <= more@.len(),
            v@ == before + more@.take(i as int),
        decreases more@.len() - i,
    {
        v.push(more[i]);
        i = i + 1;
        assert(more@.take(i as int) =~= more@.take(i - 1).push(more@[i - 1]));
        assert(v@ =~= before + more@.take(i as int));
    }
    assert(more@.take(i as int) =~= more@);
}

fn copy_chars(s: &[char]) -> (r: Vec<char>)
    ensures
        r@ == s@,
{
    let mut r: Vec<char> = Vec::new();
    extend_chars(&mut r, s);
    assert(Seq::<char>::empty() + s@ =~= s@);
    r
}

fn read_file_name(rest: &[char]) -> (r: Vec<char>)
    ensures
        r@ == after_all(
            if words(rest@).len() > 1 {
                words(rest@)[1]
            } else {
                rest@
            },
            "b/"@,
        ),
{
    let w = split_words(rest);
    assert(views(w@).len() == w@.len());
    let name = if w.len() > 1 {
        assert(words(rest@)[1] == w@[1]@);
        w[1]
    } else {
        rest
    };
    proof {
        reveal_strlit("b/");
    }
    copy_chars(strip_all(name, "b/"))
}

/// Reads the output of `git diff`, or nothing if the line numbers of a file do
/// not fit a machine word.
pub fn try_parse_diff(raw: &str) -> (r: Option<Vec<FileDiff>>)
    ensures
        r is Some <==> diff_countable(raw@),
        r is Some ==> r->0.deep_view() == files_of(raw@),
{
    let cs = to_chars(raw);
    let ls = split_lines(cs.as_slice());
    let ghost all = lines(raw@);
    let ghost f = |s: Seq<Seq<char>>| file_diff(s);
    let mut result: Vec<FileDiff> = Vec::new();
    let mut content: Vec<char> = Vec::new();
    let mut filename: Vec<char> = Vec::new();
    let mut i: usize = 0;
    assert(all.take(0) =~= Seq::<Seq<char>>::empty());
    assert(result.deep_view() =~= Seq::<Seq<Seq<char>>>::empty().filter_map(f));
    while i < ls.len()
        invariant
            i <= ls@.len(),
            all == views(ls@),
            all == lines(raw@),
            f == (|s: Seq<Seq<char>>| file_diff(s)),
            ({
                let ss = sections(all.take(i as int));
                if ss.len() == 0 {
                    &&& result.deep_view() == ss.filter_map(f)
                    &&& filename@.len() == 0
                } else {
                    &&& result.deep_view() == ss.drop_last().filter_map(f)
                    &&& all_countable(ss.drop_last())
                    &&& filename@ == file_of(ss.last()[0])
                    &&& content@ == joined(ss.last())
                }
            }),
        decreases ls@.len() - i,
    {
        let line = ls[i];
        let ghost ss = sections(all.take(i as int));
        let ghost before = result.deep_view();
        assert(all[i as int] == line@);
        assert(all.take(i + 1).drop_last() =~= all.take(i as int));
        assert(all.take(i + 1).last() == line@);
        proof {
            lemma_sections(all.take(i as int));
        }
        if let Some(rest) = strip_prefix(line, "diff --git ") {
            if filename.len() > 0 {
                assert(ss.len() > 0);
                match make_file(filename.as_slice(), content.as_slice()) {
                    None => {
                        proof {
                            lemma_sections_done(all, i as int, ss.len() - 1);
                            assert(!section_countable(sections(all)[ss.len() - 1]));
                        }
                        return None;
                    },
                    Some(file) => {
                        result.push(file);
                        assert(result.deep_view() =~= before + seq![file.deep_view()]);
                    },
                }
            }
            filename = read_file_name(rest);
            content = copy_chars(line);
            proof {
                let now = sections(all.take(i + 1));
                assert(now == ss.push(seq![line@]));
                assert(now.drop_last() =~= ss);
                assert(joined(now.last()) =~= line@);
                assert(result.deep_view() == ss.filter_map(f));
                if ss.len() > 0 {
                    assert forall|j: int| 0 <= j < ss.len() implies section_countable(
                        #[trigger] ss[j],
                    ) by {
                        if j < ss.len() - 1 {
                            assert(section_countable(ss.drop_last()[j]));
                        }
                    }
                }
            }
        } else {
            content.push('\n');
            extend_chars(&mut content, line);
            proof {
                if ss.len() > 0 {
                    let now = sections(all.take(i + 1));
                    assert(now.drop_last() =~= ss.drop_last());
                    assert(now.last() == ss.last().push(line@));
                    assert(now.last().drop_last() =~= ss.last());
                    assert(ss.last().len() > 0);
                    assert(now.last()[0] == ss.last()[0]);
                }
            }
        }
        i = i + 1;
    }
    assert(all.take(i as int) =~= all);
    let ghost ss = sections(all);
    proof {
        lemma_sections(all);
    }
    if filename.len() > 0 {
        let ghost before = result.deep_view();
        match make_file(filename.as_slice(), content.as_slice()) {
            None => {
                assert(!section_countable(ss[ss.len() - 1]));
                return None;
            },
            Some(file) => {
                result.push(file);
                assert(result.deep_view() =~= before + seq![file.deep_view()]);
            },
        }
    }
    proof {
        assert forall|j: int| 0 <= j < ss.len() implies section_countable(#[trigger] ss[j]) by {
            if j < ss.len() - 1 {
                assert(section_countable(ss.drop_last()[j]));
            }
        }
    }
    Some(result)
}

/// Reads the output of `git diff`.
pub fn parse_diff(raw: &str) -> (r: Vec<FileDiff>)
    requires
        diff_countable(raw@),
    ensures
        r.deep_view() == files_of(raw@),
{
    match try_parse_diff(raw) {
        Some(files) => files,
        None => Vec::new(),
    }
}

} // verus!
