//! What reading text gives back of text that was written.

use vstd::prelude::*;

use crate::text::{
    after_all, all_digits, blocks, chomp, decimal, digit, find, find_gap, lines, lower, lower_char,
    numeral, occurs, split, trim, trim_end, trim_start, upper_char, value, white, word_len, words,
};

verus! {

/// Lines one below the other, each with a line feed behind it.
pub open spec fn written(ls: Seq<Seq<char>>) -> Seq<char>
    decreases ls.len(),
{
    if ls.len() == 0 {
        Seq::empty()
    } else {
        ls[0].push('\n') + written(ls.drop_first())
    }
}

/// Whether no line has a line feed in it.
pub open spec fn feedless(ls: Seq<Seq<char>>) -> bool {
    forall|i: int| 0 <= i < ls.len() ==> !(#[trigger] ls[i]).contains('\n')
}

/// Whether `l` is `line` as it is read: without the one carriage return that may
/// stand at its end.
pub open spec fn read_as(line: Seq<char>, l: Seq<char>) -> bool {
    ||| line == l.push('\r')
    ||| line == l && (l.len() == 0 || l.last() != '\r')
}

proof fn lemma_find_first(s: Seq<char>, c: char, t: Seq<char>)
    requires
        !s.contains(c),
    ensures
        find(s.push(c) + t, c) == s.len(),
        find(s, c) == s.len(),
    decreases s.len(),
{
    let all = s.push(c) + t;
    if s.len() > 0 {
        let rest = s.drop_first();
        assert(s.contains(s[0]));
        assert forall|k: int| 0 <= k < rest.len() implies rest[k] != c by {
            assert(s.contains(s[k + 1]));
        }
        lemma_find_first(rest, c, t);
        assert(all.drop_first() =~= rest.push(c) + t);
    }
}

/// Every line that was written is read, in order, and nothing else: a line ends
/// at its line feed and loses one carriage return in front of that. Text behind
/// the last line feed is a line, as it stands.
pub proof fn lines_are_read_back(ls: Seq<Seq<char>>, tail: Seq<char>)
    requires
        feedless(ls),
        !tail.contains('\n'),
    ensures
        lines(written(ls) + tail).len() == ls.len() + (if tail.len() == 0 {
            0int
        } else {
            1
        }),
        forall|i: int|
            0 <= i < ls.len() ==> read_as(ls[i], #[trigger] lines(written(ls) + tail)[i]),
        tail.len() > 0 ==> lines(written(ls) + tail).last() == tail,
    decreases ls.len(),
{
    let s = written(ls) + tail;
    if ls.len() == 0 {
        assert(s =~= tail);
        lemma_find_first(tail, '\n', Seq::empty());
    } else {
        let rest = ls.drop_first();
        let n = ls[0].len() as int;
        let below = written(rest) + tail;
        assert(s =~= ls[0].push('\n') + below);
        lemma_find_first(ls[0], '\n', below);
        assert(s.take(n) =~= ls[0]);
        assert(s.skip(n + 1) =~= below);
        assert(feedless(rest));
        lines_are_read_back(rest, tail);
        let got = lines(s);
        assert(got =~= seq![chomp(ls[0])] + lines(below));
        assert(ls[0].len() > 0 && ls[0].last() == '\r' ==> ls[0] =~= chomp(ls[0]).push('\r'));
        assert forall|i: int| 0 <= i < ls.len() implies read_as(ls[i], #[trigger] got[i]) by {
            if i > 0 {
                assert(got[i] == lines(below)[i - 1]);
                assert(rest[i - 1] == ls[i]);
            }
        }
        if tail.len() > 0 {
            assert(got.last() == lines(below).last());
        }
    }
}

/// Pieces with `c` between them.
pub open spec fn separated(pieces: Seq<Seq<char>>, c: char) -> Seq<char>
    decreases pieces.len(),
{
    if pieces.len() == 0 {
        Seq::empty()
    } else if pieces.len() == 1 {
        pieces[0]
    } else {
        pieces[0].push(c) + separated(pieces.drop_first(), c)
    }
}

/// Pieces that were put together with a character between them come apart again.
pub proof fn pieces_come_apart(pieces: Seq<Seq<char>>, c: char)
    requires
        pieces.len() > 0,
        forall|i: int| 0 <= i < pieces.len() ==> !(#[trigger] pieces[i]).contains(c),
    ensures
        split(separated(pieces, c), c) == pieces,
    decreases pieces.len(),
{
    let s = separated(pieces, c);
    let first = pieces[0];
    if pieces.len() == 1 {
        lemma_find_first(first, c, Seq::empty());
        assert(pieces =~= seq![first]);
    } else {
        let rest = pieces.drop_first();
        let n = first.len() as int;
        lemma_find_first(first, c, separated(rest, c));
        assert(s.take(n) =~= first);
        assert(s.skip(n + 1) =~= separated(rest, c));
        pieces_come_apart(rest, c);
        assert(seq![first] + rest =~= pieces);
    }
}

/// Whether text is white space.
pub open spec fn blank(s: Seq<char>) -> bool {
    forall|i: int| 0 <= i < s.len() ==> white(#[trigger] s[i])
}

/// Whether text has no white space in it.
pub open spec fn solid(s: Seq<char>) -> bool {
    forall|i: int| 0 <= i < s.len() ==> !white(#[trigger] s[i])
}

proof fn lemma_trim_front(w: Seq<char>, s: Seq<char>)
    requires
        blank(w),
        s.len() > 0 ==> !white(s[0]),
    ensures
        trim_start(w + s) == s,
    decreases w.len(),
{
    if w.len() == 0 {
        assert(w + s =~= s);
    } else {
        let all = w + s;
        assert(all[0] == w[0] && white(w[0]));
        assert(all.drop_first() =~= w.drop_first() + s);
        assert(blank(w.drop_first()));
        lemma_trim_front(w.drop_first(), s);
    }
}

proof fn lemma_trim_back(s: Seq<char>, w: Seq<char>)
    requires
        blank(w),
        s.len() > 0 ==> !white(s.last()),
    ensures
        trim_end(s + w) == s,
    decreases w.len(),
{
    if w.len() == 0 {
        assert(s + w =~= s);
    } else {
        let all = s + w;
        assert(all.last() == w[w.len() - 1] && white(w[w.len() - 1]));
        assert(all.drop_last() =~= s + w.drop_last());
        assert(blank(w.drop_last()));
        lemma_trim_back(s, w.drop_last());
    }
}

/// Trimming takes off the white space at both ends and nothing else.
pub proof fn trimming_takes_white_space(before: Seq<char>, s: Seq<char>, behind: Seq<char>)
    requires
        blank(before),
        blank(behind),
        s.len() > 0 ==> !white(s[0]) && !white(s.last()),
    ensures
        trim(before + s + behind) == s,
{
    if s.len() == 0 {
        let all = before + behind;
        assert(before + s + behind =~= all + s);
        assert forall|i: int| 0 <= i < all.len() implies white(#[trigger] all[i]) by {
            if i < before.len() {
                assert(white(before[i]));
            } else {
                assert(white(behind[i - before.len()]));
            }
        }
        lemma_trim_front(all, s);
    } else {
        assert(before + s + behind =~= before + (s + behind));
        assert((s + behind)[0] == s[0]);
        lemma_trim_front(before, s + behind);
        lemma_trim_back(s, behind);
    }
}

proof fn lemma_word(w: Seq<char>, rest: Seq<char>)
    requires
        solid(w),
        rest.len() > 0 ==> white(rest[0]),
    ensures
        word_len(w + rest) == w.len(),
    decreases w.len(),
{
    if w.len() == 0 {
        assert(w + rest =~= rest);
    } else {
        let all = w + rest;
        assert(all[0] == w[0] && !white(w[0]));
        assert(all.drop_first() =~= w.drop_first() + rest);
        assert(solid(w.drop_first()));
        lemma_word(w.drop_first(), rest);
    }
}

/// Words are what stands between white space: blank text has none, and text that
/// begins with a word, behind any white space, has that word and then those of
/// the rest.
pub proof fn words_are_read_off(before: Seq<char>, w: Seq<char>, rest: Seq<char>)
    requires
        blank(before),
        solid(w),
        rest.len() > 0 ==> white(rest[0]),
    ensures
        w.len() > 0 ==> words(before + w + rest) == seq![w] + words(rest),
        words(before) == Seq::<Seq<char>>::empty(),
{
    let none = Seq::<char>::empty();
    lemma_trim_front(before, none);
    assert(before + none =~= before);
    if w.len() > 0 {
        let s = before + w + rest;
        let t = w + rest;
        assert(s =~= before + t);
        assert(t[0] == w[0] && !white(w[0]));
        lemma_trim_front(before, t);
        lemma_word(w, rest);
        assert(t.take(w.len() as int) =~= w);
        assert(t.skip(w.len() as int) =~= rest);
    }
}

/// Text with `part` between `a` and `b`.
pub open spec fn around(a: Seq<char>, part: Seq<char>, b: Seq<char>) -> Seq<char> {
    a + part + b
}

/// A text that occurs in another splits it in two, and one that splits it
/// occurs.
pub proof fn occurring_text_splits(s: Seq<char>, part: Seq<char>)
    ensures
        occurs(s, part) <==> exists|a: Seq<char>, b: Seq<char>| s == #[trigger] around(a, part, b),
{
    if occurs(s, part) {
        let i = choose|i: int| 0 <= i <= s.len() && part.is_prefix_of(#[trigger] s.skip(i));
        let a = s.take(i);
        let b = s.skip(i + part.len());
        assert(s.skip(i).subrange(0, part.len() as int) == part);
        assert(s =~= around(a, part, b));
    }
    if exists|a: Seq<char>, b: Seq<char>| s == #[trigger] around(a, part, b) {
        let (a, b) = choose|a: Seq<char>, b: Seq<char>| s == #[trigger] around(a, part, b);
        assert(s.skip(a.len() as int).subrange(0, part.len() as int) =~= part);
        assert(part.is_prefix_of(s.skip(a.len() as int)));
    }
}

/// A prefix comes off as often as it stands in front.
pub proof fn prefixes_come_off(prefix: Seq<char>, s: Seq<char>)
    requires
        prefix.len() > 0,
    ensures
        after_all(prefix + s, prefix) == after_all(s, prefix),
        !prefix.is_prefix_of(s) ==> after_all(s, prefix) == s,
{
    let t = prefix + s;
    assert(t.subrange(0, prefix.len() as int) =~= prefix);
    assert(t.skip(prefix.len() as int) =~= s);
}

/// The character of a decimal digit.
pub open spec fn digit_char(d: nat) -> char {
    (48 + d) as char
}

/// A number is written with its last digit behind the others.
pub proof fn numbers_are_written_by_digits(m: nat, d: nat)
    requires
        d < 10,
    ensures
        decimal(d) == seq![digit_char(d)],
        m > 0 ==> decimal(10 * m + d) == decimal(m).push(digit_char(d)),
{
    if m > 0 {
        assert((10 * m + d) / 10 == m);
        assert((10 * m + d) % 10 == d);
    }
}

proof fn lemma_leading_nought(s: Seq<char>)
    ensures
        value(seq!['0'] + s) == value(s),
    decreases s.len(),
{
    let t = seq!['0'] + s;
    if s.len() == 0 {
        reveal_with_fuel(value, 2);
    } else {
        assert(t.drop_last() =~= seq!['0'] + s.drop_last());
        lemma_leading_nought(s.drop_last());
    }
}

/// Noughts in front of a number do not change it.
pub proof fn leading_noughts_do_not_count(s: Seq<char>, max: nat)
    requires
        s.len() > 0,
        s[0] != '+',
    ensures
        numeral(seq!['0'] + s, max) == numeral(s, max),
{
    let t = seq!['0'] + s;
    lemma_leading_nought(s);
    if all_digits(s) {
        assert forall|i: int| 0 <= i < t.len() implies digit(#[trigger] t[i]) by {
            if i > 0 {
                assert(digit(s[i - 1]));
            }
        }
    }
    if all_digits(t) {
        assert forall|i: int| 0 <= i < s.len() implies digit(#[trigger] s[i]) by {
            assert(digit(t[i + 1]));
        }
    }
}

proof fn lemma_decimal_value(n: nat)
    ensures
        decimal(n).len() > 0,
        all_digits(decimal(n)),
        value(decimal(n)) == n,
        decimal(n)[0] != '+',
    decreases n,
{
    let last = (48 + n % 10) as char;
    if n < 10 {
        assert(decimal(n).drop_last() =~= Seq::<char>::empty());
        reveal_with_fuel(value, 2);
        assert(digit(last));
    } else {
        lemma_decimal_value(n / 10);
        let d = decimal(n);
        assert(d.drop_last() =~= decimal(n / 10));
        assert forall|i: int| 0 <= i < d.len() implies digit(#[trigger] d[i]) by {
            if i < d.len() - 1 {
                assert(d[i] == decimal(n / 10)[i]);
            }
        }
    }
}

/// A number that was written is read, with or without a plus sign, if it is not
/// too large; anything that has another character in it is no number.
pub proof fn numbers_are_read_back(n: nat, max: nat, s: Seq<char>, i: int)
    ensures
        n <= max ==> numeral(decimal(n), max) == Some(n),
        n <= max ==> numeral(seq!['+'] + decimal(n), max) == Some(n),
        n > max ==> numeral(decimal(n), max) is None,
        s.len() == 0 ==> numeral(s, max) is None,
        0 <= i < s.len() && !digit(s[i]) && (i > 0 || s[i] != '+' || s.len() == 1) ==> numeral(
            s,
            max,
        ) is None,
{
    lemma_decimal_value(n);
    assert((seq!['+'] + decimal(n)).skip(1) =~= decimal(n));
    if 0 <= i < s.len() && !digit(s[i]) && (i > 0 || s[i] != '+' || s.len() == 1) {
        if s.len() > 1 && s[0] == '+' {
            assert(s.skip(1)[i - 1] == s[i]);
        }
    }
}

/// ASCII letters have two forms, and no other character has; text in small letters
/// has each character in its place.
pub proof fn letters_have_two_forms(c: char, s: Seq<char>, i: int)
    ensures
        lower(s).len() == s.len(),
        0 <= i < s.len() ==> lower(s)[i] == lower_char(s[i]),
        'A' <= c <= 'Z' ==> lower_char(c) as u32 == c as u32 + 32 && upper_char(lower_char(c)) == c,
        'a' <= c <= 'z' ==> upper_char(c) as u32 == c as u32 - 32 && lower_char(upper_char(c)) == c,
        !('A' <= c <= 'Z') ==> lower_char(c) == c,
        !('a' <= c <= 'z') ==> upper_char(c) == c,
{
}

proof fn lemma_trim_start_parts(s: Seq<char>) -> (n: int)
    ensures
        0 <= n <= s.len(),
        blank(s.take(n)),
        trim_start(s) == s.skip(n),
        n < s.len() ==> !white(s[n]),
    decreases s.len(),
{
    if s.len() == 0 || !white(s[0]) {
        assert(s.skip(0) =~= s);
        0
    } else {
        let rest = s.drop_first();
        let k = lemma_trim_start_parts(rest);
        assert(rest.skip(k) =~= s.skip(k + 1));
        assert forall|i: int| 0 <= i < k + 1 implies white(#[trigger] s.take(k + 1)[i]) by {
            if i > 0 {
                assert(white(rest.take(k)[i - 1]));
            }
        }
        k + 1
    }
}

proof fn lemma_trim_end_parts(s: Seq<char>) -> (n: int)
    ensures
        0 <= n <= s.len(),
        blank(s.skip(n)),
        trim_end(s) == s.take(n),
        n > 0 ==> !white(s[n - 1]),
    decreases s.len(),
{
    if s.len() == 0 || !white(s.last()) {
        assert(s.take(s.len() as int) =~= s);
        s.len() as int
    } else {
        let rest = s.drop_last();
        let k = lemma_trim_end_parts(rest);
        assert(rest.take(k) =~= s.take(k));
        assert forall|i: int| 0 <= i < s.skip(k).len() implies white(#[trigger] s.skip(k)[i]) by {
            if i < s.len() - k - 1 {
                assert(white(rest.skip(k)[i]));
            }
        }
        k
    }
}

/// Trimmed text stands in the text, with white space in front of it and behind
/// it, and neither begins nor ends with white space.
pub proof fn trimmed_text_is_inside(s: Seq<char>) -> (r: (Seq<char>, Seq<char>))
    ensures
        s == r.0 + trim(s) + r.1,
        blank(r.0),
        blank(r.1),
        trim(s).len() > 0 ==> !white(trim(s)[0]) && !white(trim(s).last()),
{
    let n = lemma_trim_start_parts(s);
    let t = s.skip(n);
    let k = lemma_trim_end_parts(t);
    assert(s =~= s.take(n) + t.take(k) + t.skip(k));
    (s.take(n), t.skip(k))
}

/// Trimming never takes away a text without white space that occurs.
pub proof fn trimming_keeps_what_occurs(s: Seq<char>, part: Seq<char>)
    requires
        solid(part),
        part.len() > 0,
    ensures
        occurs(trim(s), part) == occurs(s, part),
{
    let (a, b) = trimmed_text_is_inside(s);
    let t = trim(s);
    let n = part.len() as int;
    if occurs(t, part) {
        let i = choose|i: int| 0 <= i <= t.len() && part.is_prefix_of(#[trigger] t.skip(i));
        assert(s.skip(a.len() + i).subrange(0, n) =~= t.skip(i).subrange(0, n));
        assert(part.is_prefix_of(s.skip(a.len() + i)));
    }
    if occurs(s, part) {
        let i = choose|i: int| 0 <= i <= s.len() && part.is_prefix_of(#[trigger] s.skip(i));
        let here = s.skip(i).subrange(0, n);
        assert(here == part);
        assert(here[0] == s[i] && here[n - 1] == s[i + n - 1]);
        assert(!white(part[0]) && !white(part[n - 1]));
        if i < a.len() {
            assert(s[i] == a[i]);
        }
        if i + n > a.len() + t.len() {
            assert(s[i + n - 1] == b[i + n - 1 - a.len() - t.len()]);
        }
        assert(t.skip(i - a.len()).subrange(0, n) =~= here);
        assert(part.is_prefix_of(t.skip(i - a.len())));
    }
}

/// White space is the blank, the controls from the tab to the carriage return,
/// the next-line control, and the wider blanks and line separators of Unicode.
pub proof fn white_space_is_known(c: char)
    ensures
        (c as u32) < 128 ==> (white(c) <==> c == ' ' || ('\t' <= c && c <= '\r')),
        128 <= c as u32 ==> (white(c) <==> (c == '\u{85}' || c == '\u{a0}' || c == '\u{1680}' || (
        '\u{2000}' <= c && c <= '\u{200a}') || c == '\u{2028}' || c == '\u{2029}' || c
            == '\u{202f}' || c == '\u{205f}' || c == '\u{3000}')),
{
}

/// A character is found where it first stands, and the end stands for nowhere.
pub proof fn the_first_is_found(t: Seq<char>, c: char)
    ensures
        find(t, c) <= t.len(),
        find(t, c) < t.len() ==> t[find(t, c) as int] == c,
        forall|i: int| 0 <= i < find(t, c) ==> t[i] != c,
    decreases t.len(),
{
    if t.len() > 0 && t[0] != c {
        the_first_is_found(t.drop_first(), c);
        assert forall|i: int| 0 <= i < find(t, c) implies t[i] != c by {
            if i > 0 {
                assert(t[i] == t.drop_first()[i - 1]);
            }
        }
    }
}

/// Whether text has no empty line in it: no two line feeds in a row.
pub open spec fn gapless(s: Seq<char>) -> bool {
    forall|i: int| 0 <= i < s.len() - 1 ==> !(#[trigger] s[i] == '\n' && s[i + 1] == '\n')
}

proof fn lemma_gap_at(a: Seq<char>, b: Seq<char>)
    requires
        gapless(a.push('\n')),
    ensures
        find_gap(a + seq!['\n', '\n'] + b) == a.len(),
    decreases a.len(),
{
    let s = a + seq!['\n', '\n'] + b;
    if a.len() > 0 {
        let rest = a.drop_first();
        let p = a.push('\n');
        let q = rest.push('\n');
        assert forall|i: int| 0 <= i < q.len() - 1 implies !(#[trigger] q[i] == '\n' && q[i + 1]
            == '\n') by {
            assert(q[i] == p[i + 1] && q[i + 1] == p[i + 2]);
        }
        lemma_gap_at(rest, b);
        assert(s.drop_first() =~= rest + seq!['\n', '\n'] + b);
        assert(!(p[0] == '\n' && p[1] == '\n'));
        assert(s[0] == p[0] && s[1] == p[1]);
    }
}

pub proof fn lemma_gapless(s: Seq<char>)
    requires
        gapless(s),
    ensures
        find_gap(s) == s.len(),
    decreases s.len(),
{
    if s.len() > 0 {
        let rest = s.drop_first();
        assert forall|i: int| 0 <= i < rest.len() - 1 implies !(#[trigger] rest[i] == '\n'
            && rest[i + 1] == '\n') by {
            assert(rest[i] == s[i + 1] && rest[i + 1] == s[i + 2]);
        }
        lemma_gapless(rest);
        assert(s.len() > 1 ==> !(s[0] == '\n' && s[1] == '\n'));
    }
}

/// Text comes apart at the first two line feeds in a row, then what follows them
/// does, and text without such stays whole.
pub proof fn blocks_come_apart(a: Seq<char>, b: Seq<char>)
    ensures
        gapless(a) ==> blocks(a) == seq![a],
        gapless(a.push('\n')) ==> blocks(a + seq!['\n', '\n'] + b) == seq![a] + blocks(b),
{
    if gapless(a) {
        lemma_gapless(a);
    }
    if gapless(a.push('\n')) {
        let s = a + seq!['\n', '\n'] + b;
        let n = a.len() as int;
        lemma_gap_at(a, b);
        assert(s.take(n) =~= a);
        assert(s.skip(n + 2) =~= b);
    }
}

} // verus!
