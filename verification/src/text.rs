//! Text as sequences of characters: splitting, trimming and numbers.

use vstd::prelude::*;
use vstd::slice::slice_subrange;

verus! {

/// `String::push` appends one character.
pub assume_specification[ String::push ](s: &mut String, c: char)
    ensures
        final(s)@ == old(s)@.push(c),
;

/// `String::pop` takes the last character off, and does nothing to an empty
/// string.
pub assume_specification[ String::pop ](s: &mut String) -> (r: Option<char>)
    ensures
        old(s)@.len() == 0 ==> r is None && final(s)@ == old(s)@,
        old(s)@.len() > 0 ==> r == Some(old(s)@.last()) && final(s)@ == old(s)@.drop_last(),
;

/// The characters of a string.
pub fn to_chars(s: &str) -> (r: Vec<char>)
    ensures
        r@ == s@,
{
    let mut r: Vec<char> = Vec::new();
    for c in it: s.chars()
        invariant
            it.seq() == s@,
            r@ == s@.take(it.index() as int),
    {
        r.push(c);
    }
    r
}

/// The string made of the given characters.
pub fn to_text(cs: &[char]) -> (r: String)
    ensures
        r@ == cs@,
{
    let mut r = String::new();
    let mut i: usize = 0;
    while i < cs.len()
        invariant
            i <= cs@.len(),
            r@ == cs@.take(i as int),
        decreases cs@.len() - i,
    {
        r.push(cs[i]);
        i = i + 1;
        assert(cs@.take(i as int) =~= cs@.take(i - 1).push(cs@[i - 1]));
    }
    assert(cs@.take(i as int) =~= cs@);
    r
}

/// The Unicode `White_Space` property.
pub open spec fn white(c: char) -> bool {
    let n = c as u32;
    ||| 0x09 <= n <= 0x0d
    ||| n == 0x20
    ||| n == 0x85
    ||| n == 0xa0
    ||| n == 0x1680
    ||| 0x2000 <= n <= 0x200a
    ||| n == 0x2028
    ||| n == 0x2029
    ||| n == 0x202f
    ||| n == 0x205f
    ||| n == 0x3000
}

/// Whether `c` is white space.
pub fn is_white(c: char) -> (r: bool)
    ensures
        r == white(c),
{
    let n: u32 = c as u32;
    (0x09 <= n && n <= 0x0d) || n == 0x20 || n == 0x85 || n == 0xa0 || n == 0x1680 || (0x2000 <= n
        && n <= 0x200a) || n == 0x2028 || n == 0x2029 || n == 0x202f || n == 0x205f || n == 0x3000
}

/// `s` without its leading white space.
pub open spec fn trim_start(s: Seq<char>) -> Seq<char>
    decreases s.len(),
{
    if s.len() > 0 && white(s[0]) {
        trim_start(s.drop_first())
    } else {
        s
    }
}

/// `s` without its trailing white space.
pub open spec fn trim_end(s: Seq<char>) -> Seq<char>
    decreases s.len(),
{
    if s.len() > 0 && white(s.last()) {
        trim_end(s.drop_last())
    } else {
        s
    }
}

/// `s` without white space at either end.
pub open spec fn trim(s: Seq<char>) -> Seq<char> {
    trim_end(trim_start(s))
}

/// Drops leading white space.
pub fn trimmed_start(s: &[char]) -> (r: &[char])
    ensures
        r@ == trim_start(s@),
        r@.len() <= s@.len(),
{
    let mut i: usize = 0;
    assert(s@.skip(0) =~= s@);
    while i < s.len() && is_white(s[i])
        invariant
            i <= s@.len(),
            trim_start(s@) == trim_start(s@.skip(i as int)),
        decreases s@.len() - i,
    {
        assert(s@.skip(i as int).drop_first() =~= s@.skip(i + 1));
        i = i + 1;
    }
    let r = slice_subrange(s, i, s.len());
    assert(r@ =~= s@.skip(i as int));
    r
}

/// Drops leading and trailing white space.
pub fn trimmed(s: &[char]) -> (r: &[char])
    ensures
        r@ == trim(s@),
        r@.len() <= s@.len(),
{
    let t = trimmed_start(s);
    let mut n: usize = t.len();
    assert(t@.take(n as int) =~= t@);
    while n > 0 && is_white(t[n - 1])
        invariant
            n <= t@.len(),
            trim_end(t@) == trim_end(t@.take(n as int)),
        decreases n,
    {
        assert(t@.take(n as int).drop_last() =~= t@.take(n - 1));
        n = n - 1;
    }
    let r = slice_subrange(t, 0, n);
    assert(r@ =~= t@.take(n as int));
    r
}

/// The position of the first `c` in `s`, or the length of `s`.
pub open spec fn find(s: Seq<char>, c: char) -> nat
    decreases s.len(),
{
    if s.len() == 0 || s[0] == c {
        0
    } else {
        1 + find(s.drop_first(), c)
    }
}

/// Finds the first `c` in `s`.
pub fn find_char(s: &[char], c: char) -> (r: usize)
    ensures
        r == find(s@, c),
        r <= s@.len(),
{
    let mut i: usize = 0;
    assert(s@.skip(0) =~= s@);
    while i < s.len() && s[i] != c
        invariant
            i <= s@.len(),
            find(s@, c) == i + find(s@.skip(i as int), c),
        decreases s@.len() - i,
    {
        assert(s@.skip(i as int).drop_first() =~= s@.skip(i + 1));
        i = i + 1;
    }
    i
}

/// The pieces of `s` between occurrences of `c`; one more than there are `c`s.
pub open spec fn split(s: Seq<char>, c: char) -> Seq<Seq<char>>
    decreases s.len(),
{
    let n = find(s, c);
    if n >= s.len() {
        seq![s]
    } else {
        seq![s.take(n as int)] + split(s.skip((n + 1) as int), c)
    }
}

/// The text of each slice.
pub open spec fn views(v: Seq<&[char]>) -> Seq<Seq<char>> {
    Seq::new(v.len(), |i: int| v[i]@)
}

/// Splits at every `c`.
pub fn split_char(s: &[char], c: char) -> (r: Vec<&[char]>)
    ensures
        views(r@) == split(s@, c),
        r@.len() > 0,
{
    let mut r: Vec<&[char]> = Vec::new();
    let mut rest = s;
    loop
        invariant_except_break
            split(s@, c) == views(r@) + split(rest@, c),
        ensures
            split(s@, c) == views(r@),
            r@.len() > 0,
        decreases rest@.len(),
    {
        let n: usize = find_char(rest, c);
        let ghost before = views(r@);
        if n >= rest.len() {
            r.push(rest);
            assert(views(r@) =~= before.push(rest@));
            assert(before + seq![rest@] =~= before.push(rest@));
            break;
        }
        let piece = slice_subrange(rest, 0, n);
        let tail = slice_subrange(rest, n + 1, rest.len());
        r.push(piece);
        assert(piece@ =~= rest@.take(n as int));
        assert(tail@ =~= rest@.skip(n + 1));
        assert(views(r@) =~= before.push(piece@));
        assert(before + (seq![piece@] + split(tail@, c)) =~= before.push(piece@) + split(tail@, c));
        rest = tail;
    }
    r
}

/// `s` without a final carriage return.
pub open spec fn chomp(s: Seq<char>) -> Seq<char> {
    if s.len() > 0 && s.last() == '\r' {
        s.drop_last()
    } else {
        s
    }
}

/// The lines of `s`: each ends at a line feed, or at a carriage return and a
/// line feed, which are not part of it; the last one may lack its ending.
pub open spec fn lines(s: Seq<char>) -> Seq<Seq<char>>
    decreases s.len(),
{
    let n = find(s, '\n');
    if s.len() == 0 {
        Seq::empty()
    } else if n >= s.len() {
        seq![s]
    } else {
        seq![chomp(s.take(n as int))] + lines(s.skip((n + 1) as int))
    }
}

/// Splits into lines.
pub fn split_lines(s: &[char]) -> (r: Vec<&[char]>)
    ensures
        views(r@) == lines(s@),
{
    let mut r: Vec<&[char]> = Vec::new();
    let mut rest = s;
    while rest.len() > 0
        invariant
            lines(s@) == views(r@) + lines(rest@),
        decreases rest@.len(),
    {
        let n: usize = find_char(rest, '\n');
        let ghost before = views(r@);
        if n >= rest.len() {
            r.push(rest);
            assert(views(r@) =~= before.push(rest@));
            assert(before + seq![rest@] =~= before.push(rest@) + Seq::<Seq<char>>::empty());
            rest = slice_subrange(rest, 0, 0);
        } else {
            let end: usize = if n > 0 && rest[n - 1] == '\r' { n - 1 } else { n };
            let line = slice_subrange(rest, 0, end);
            let tail = slice_subrange(rest, n + 1, rest.len());
            r.push(line);
            assert(line@ =~= chomp(rest@.take(n as int)));
            assert(tail@ =~= rest@.skip(n + 1));
            assert(views(r@) =~= before.push(line@));
            assert(before + (seq![line@] + lines(tail@)) =~= before.push(line@) + lines(tail@));
            rest = tail;
        }
    }
    assert(views(r@) + lines(rest@) =~= views(r@));
    r
}

/// How many lines a text has.
pub fn count_lines(s: &str) -> (r: usize)
    ensures
        r == lines(s@).len(),
{
    let cs = to_chars(s);
    let v = split_lines(cs.as_slice());
    assert(views(v@).len() == v@.len());
    v.len()
}

/// The pieces of `s` between empty lines, that is, between two line feeds in a
/// row.
pub open spec fn blocks(s: Seq<char>) -> Seq<Seq<char>>
    decreases s.len(),
{
    let n = find_gap(s);
    if n >= s.len() {
        seq![s]
    } else {
        proof {
            lemma_find_gap(s);
        }
        seq![s.take(n as int)] + blocks(s.skip((n + 2) as int))
    }
}

pub proof fn lemma_find_gap(s: Seq<char>)
    ensures
        find_gap(s) < s.len() ==> find_gap(s) + 2 <= s.len(),
    decreases s.len(),
{
    if s.len() > 0 {
        lemma_find_gap(s.drop_first());
    }
}

/// The position of the first two line feeds in a row, or the length of `s`.
pub open spec fn find_gap(s: Seq<char>) -> nat
    decreases s.len(),
{
    if s.len() == 0 || (s.len() > 1 && s[0] == '\n' && s[1] == '\n') {
        0
    } else {
        1 + find_gap(s.drop_first())
    }
}

/// Splits at empty lines.
pub fn split_blocks(s: &[char]) -> (r: Vec<&[char]>)
    ensures
        views(r@) == blocks(s@),
{
    let mut r: Vec<&[char]> = Vec::new();
    let mut rest = s;
    loop
        invariant_except_break
            blocks(s@) == views(r@) + blocks(rest@),
        ensures
            blocks(s@) == views(r@),
        decreases rest@.len(),
    {
        let mut n: usize = 0;
        let ghost before = views(r@);
        assert(rest@.skip(0) =~= rest@);
        while n < rest.len() && !(n < rest.len() - 1 && rest[n] == '\n' && rest[n + 1] == '\n')
            invariant
                n <= rest@.len(),
                find_gap(rest@) == n + find_gap(rest@.skip(n as int)),
            decreases rest@.len() - n,
        {
            assert(rest@.skip(n as int).drop_first() =~= rest@.skip(n + 1));
            n = n + 1;
        }
        if n >= rest.len() {
            r.push(rest);
            assert(views(r@) =~= before.push(rest@));
            assert(before + seq![rest@] =~= before.push(rest@));
            break;
        }
        let piece = slice_subrange(rest, 0, n);
        let tail = slice_subrange(rest, n + 2, rest.len());
        r.push(piece);
        assert(piece@ =~= rest@.take(n as int));
        assert(tail@ =~= rest@.skip(n + 2));
        assert(views(r@) =~= before.push(piece@));
        assert(before + (seq![piece@] + blocks(tail@)) =~= before.push(piece@) + blocks(tail@));
        rest = tail;
    }
    r
}

/// How many characters come before the first white space.
pub open spec fn word_len(s: Seq<char>) -> nat
    decreases s.len(),
{
    if s.len() == 0 || white(s[0]) {
        0
    } else {
        1 + word_len(s.drop_first())
    }
}

pub proof fn lemma_word_len(s: Seq<char>)
    ensures
        word_len(s) <= s.len(),
    decreases s.len(),
{
    if s.len() > 0 && !white(s[0]) {
        lemma_word_len(s.drop_first());
    }
}

pub proof fn lemma_trim_start(s: Seq<char>)
    ensures
        trim_start(s).len() <= s.len(),
        trim_start(s).len() > 0 ==> !white(trim_start(s)[0]),
    decreases s.len(),
{
    if s.len() > 0 && white(s[0]) {
        lemma_trim_start(s.drop_first());
    }
}

/// The longest runs of characters that are not white space.
pub open spec fn words(s: Seq<char>) -> Seq<Seq<char>>
    decreases s.len(),
{
    let t = trim_start(s);
    let n = word_len(t);
    if t.len() == 0 {
        Seq::empty()
    } else {
        proof {
            lemma_trim_start(s);
            lemma_word_len(t);
        }
        seq![t.take(n as int)] + words(t.skip(n as int))
    }
}

/// Splits at white space.
pub fn split_words(s: &[char]) -> (r: Vec<&[char]>)
    ensures
        views(r@) == words(s@),
{
    let mut r: Vec<&[char]> = Vec::new();
    let mut rest = trimmed_start(s);
    let ghost mut from = s@;
    while rest.len() > 0
        invariant
            rest@ == trim_start(from),
            words(s@) == views(r@) + words(from),
        decreases rest@.len(),
    {
        let mut n: usize = 0;
        let ghost before = views(r@);
        assert(rest@.skip(0) =~= rest@);
        while n < rest.len() && !is_white(rest[n])
            invariant
                n <= rest@.len(),
                word_len(rest@) == n + word_len(rest@.skip(n as int)),
            decreases rest@.len() - n,
        {
            assert(rest@.skip(n as int).drop_first() =~= rest@.skip(n + 1));
            n = n + 1;
        }
        proof {
            lemma_trim_start(from);
        }
        let word = slice_subrange(rest, 0, n);
        let tail = slice_subrange(rest, n, rest.len());
        r.push(word);
        assert(word@ =~= rest@.take(n as int));
        assert(tail@ =~= rest@.skip(n as int));
        assert(views(r@) =~= before.push(word@));
        assert(before + (seq![word@] + words(tail@)) =~= before.push(word@) + words(tail@));
        proof {
            from = tail@;
        }
        rest = trimmed_start(tail);
    }
    assert(views(r@) + words(from) =~= views(r@));
    r
}

/// Whether `s` begins with `prefix`.
pub fn starts_with(s: &[char], prefix: &str) -> (r: bool)
    ensures
        r == prefix@.is_prefix_of(s@),
{
    let p = to_chars(prefix);
    if s.len() < p.len() {
        return false;
    }
    let mut i: usize = 0;
    while i < p.len()
        invariant
            i <= p@.len() <= s@.len(),
            p@ == prefix@,
            forall|j: int| 0 <= j < i ==> p@[j] == s@[j],
        decreases p@.len() - i,
    {
        if p[i] != s[i] {
            assert(prefix@[i as int] != s@.subrange(0, p@.len() as int)[i as int]);
            return false;
        }
        i = i + 1;
    }
    assert(prefix@ =~= s@.subrange(0, p@.len() as int));
    true
}

/// What follows `prefix` in `s`, if `s` begins with it.
pub open spec fn after(s: Seq<char>, prefix: Seq<char>) -> Option<Seq<char>> {
    if prefix.is_prefix_of(s) {
        Some(s.skip(prefix.len() as int))
    } else {
        None
    }
}

/// Strips `prefix` from the front of `s`, if it is there.
pub fn strip_prefix<'a>(s: &'a [char], prefix: &str) -> (r: Option<&'a [char]>)
    ensures
        match r {
            Some(t) => after(s@, prefix@) == Some(t@),
            None => after(s@, prefix@) is None,
        },
{
    if starts_with(s, prefix) {
        let n: usize = to_chars(prefix).len();
        let t = slice_subrange(s, n, s.len());
        assert(t@ =~= s@.skip(prefix@.len() as int));
        Some(t)
    } else {
        None
    }
}

/// `s` with every leading `prefix` removed.
pub open spec fn after_all(s: Seq<char>, prefix: Seq<char>) -> Seq<char>
    decreases s.len(),
{
    if prefix.len() > 0 && prefix.is_prefix_of(s) {
        after_all(s.skip(prefix.len() as int), prefix)
    } else {
        s
    }
}

/// Strips `prefix` from the front of `s` as often as it is there.
pub fn strip_all<'a>(s: &'a [char], prefix: &str) -> (r: &'a [char])
    requires
        prefix@.len() > 0,
    ensures
        r@ == after_all(s@, prefix@),
{
    let mut rest = s;
    loop
        invariant_except_break
            prefix@.len() > 0,
            after_all(rest@, prefix@) == after_all(s@, prefix@),
        ensures
            rest@ == after_all(s@, prefix@),
        decreases rest@.len(),
    {
        match strip_prefix(rest, prefix) {
            Some(t) => {
                rest = t;
            },
            None => {
                break;
            },
        }
    }
    rest
}

/// Whether `part` occurs in `s`.
pub open spec fn occurs(s: Seq<char>, part: Seq<char>) -> bool {
    exists|i: int| 0 <= i <= s.len() && part.is_prefix_of(#[trigger] s.skip(i))
}

/// Looks for `part` in `s`.
pub fn has_text(s: &[char], part: &str) -> (r: bool)
    ensures
        r == occurs(s@, part@),
{
    let mut i: usize = 0;
    loop
        invariant
            i <= s@.len(),
            forall|j: int| 0 <= j < i ==> !part@.is_prefix_of(#[trigger] s@.skip(j)),
        decreases s@.len() - i,
    {
        let tail = slice_subrange(s, i, s.len());
        assert(tail@ =~= s@.skip(i as int));
        if starts_with(tail, part) {
            return true;
        }
        if i >= s.len() {
            return false;
        }
        i = i + 1;
    }
}

/// Whether `s` spells `text`.
pub fn same_text(s: &[char], text: &str) -> (r: bool)
    ensures
        r == (s@ == text@),
{
    if starts_with(s, text) {
        let n: usize = to_chars(text).len();
        assert(s@.len() == n ==> s@ =~= text@) by {
            assert(s@.subrange(0, text@.len() as int) == text@);
        }
        s.len() == n
    } else {
        assert(text@.subrange(0, text@.len() as int) =~= text@);
        false
    }
}

/// The lower-case form of an ASCII letter; any other character as it is.
pub open spec fn lower_char(c: char) -> char {
    if 'A' <= c && c <= 'Z' {
        (c as u32 + 32) as char
    } else {
        c
    }
}

/// The upper-case form of an ASCII letter; any other character as it is.
pub open spec fn upper_char(c: char) -> char {
    if 'a' <= c && c <= 'z' {
        (c as u32 - 32) as char
    } else {
        c
    }
}

/// `s` with its ASCII letters in lower case.
pub open spec fn lower(s: Seq<char>) -> Seq<char> {
    Seq::new(s.len(), |i: int| lower_char(s[i]))
}

/// Puts one character in lower case.
pub fn to_lower_char(c: char) -> (r: char)
    ensures
        r == lower_char(c),
{
    if 'A' <= c && c <= 'Z' {
        ((c as u8) + 32u8) as char
    } else {
        c
    }
}

/// Puts one character in upper case.
pub fn to_upper_char(c: char) -> (r: char)
    ensures
        r == upper_char(c),
{
    if 'a' <= c && c <= 'z' {
        ((c as u8) - 32u8) as char
    } else {
        c
    }
}

/// Puts ASCII letters in lower case.
pub fn to_lower(s: &[char]) -> (r: Vec<char>)
    ensures
        r@ == lower(s@),
{
    let mut r: Vec<char> = Vec::new();
    let mut i: usize = 0;
    while i < s.len()
        invariant
            i <= s@.len(),
            r@ =~= lower(s@).take(i as int),
        decreases s@.len() - i,
    {
        r.push(to_lower_char(s[i]));
        i = i + 1;
    }
    assert(lower(s@).take(i as int) =~= lower(s@));
    r
}

/// An ASCII digit.
pub open spec fn digit(c: char) -> bool {
    '0' <= c && c <= '9'
}

/// Whether every character is a digit.
pub open spec fn all_digits(s: Seq<char>) -> bool {
    forall|i: int| 0 <= i < s.len() ==> digit(#[trigger] s[i])
}

/// The number that a run of decimal digits denotes.
pub open spec fn value(s: Seq<char>) -> nat
    decreases s.len(),
{
    if s.len() == 0 {
        0
    } else {
        value(s.drop_last()) * 10 + (s.last() as u32 - 48) as nat
    }
}

/// The digits of a numeral: one plus sign in front of them may be left out.
pub open spec fn unsigned_digits(s: Seq<char>) -> Seq<char> {
    if s.len() > 1 && s[0] == '+' {
        s.skip(1)
    } else {
        s
    }
}

/// The number that `s` denotes: decimal digits, at least one, with at most one
/// plus sign in front, no more than `max`.
pub open spec fn numeral(s: Seq<char>, max: nat) -> Option<nat> {
    let d = unsigned_digits(s);
    if d.len() > 0 && all_digits(d) && value(d) <= max {
        Some(value(d))
    } else {
        None
    }
}

proof fn lemma_value_grows(s: Seq<char>, i: int)
    requires
        all_digits(s),
        0 <= i <= s.len(),
    ensures
        value(s.take(i)) <= value(s),
    decreases s.len(),
{
    if i == s.len() {
        assert(s.take(i) =~= s);
    } else {
        lemma_value_grows(s.drop_last(), i);
        assert(s.drop_last().take(i) =~= s.take(i));
        assert(digit(s[s.len() - 1]));
    }
}

/// Reads a numeral.
pub fn parse_number(s: &[char], max: usize) -> (r: Option<usize>)
    ensures
        match r {
            Some(v) => numeral(s@, max as nat) == Some(v as nat),
            None => numeral(s@, max as nat) is None,
        },
{
    let d = if s.len() > 1 && s[0] == '+' {
        slice_subrange(s, 1, s.len())
    } else {
        s
    };
    assert(d@ =~= unsigned_digits(s@));
    if d.len() == 0 {
        return None;
    }
    let mut v: usize = 0;
    let mut i: usize = 0;
    while i < d.len()
        invariant
            i <= d@.len(),
            v == value(d@.take(i as int)),
            v <= max,
            d@ == unsigned_digits(s@),
            forall|j: int| 0 <= j < i ==> digit(#[trigger] d@[j]),
        decreases d@.len() - i,
    {
        let c = d[i];
        if !('0' <= c && c <= '9') {
            assert(!digit(d@[i as int]));
            return None;
        }
        let k: usize = (c as u8 - 48u8) as usize;
        assert(d@.take(i + 1).drop_last() =~= d@.take(i as int));
        if k > max || v > (max - k) / 10 {
            proof {
                if all_digits(d@) {
                    lemma_value_grows(d@, i + 1);
                    assert(v * 10 + k > max);
                }
            }
            return None;
        }
        v = v * 10 + k;
        i = i + 1;
    }
    assert(d@.take(i as int) =~= d@);
    Some(v)
}

/// The decimal numeral of `n`.
pub open spec fn decimal(n: nat) -> Seq<char>
    decreases n,
{
    let last = (48 + n % 10) as char;
    if n < 10 {
        seq![last]
    } else {
        decimal(n / 10).push(last)
    }
}

/// Writes a number in decimal.
pub fn to_decimal(n: usize) -> (r: Vec<char>)
    ensures
        r@ == decimal(n as nat),
    decreases n,
{
    let last = (48u8 + (n % 10) as u8) as char;
    if n < 10 {
        let mut r: Vec<char> = Vec::new();
        r.push(last);
        assert(r@ =~= seq![last]);
        r
    } else {
        let mut r = to_decimal(n / 10);
        r.push(last);
        r
    }
}

} // verus!
