//! What holds of worktree listings.

use vstd::prelude::*;

use super::refs::{described, last_field, unattached, worktree_of, worktrees_of};
use super::types::WorktreeView;
use crate::text::{
    after, blocks, chomp, find, find_gap, lemma_find_gap, lines, trim, trim_end, trim_start, white,
};

verus! {

proof fn lemma_trim_start_return(s: Seq<char>)
    ensures
        trim_start(s.push('\r')) == if trim_start(s).len() == 0 {
            Seq::empty()
        } else {
            trim_start(s).push('\r')
        },
    decreases s.len(),
{
    let t = s.push('\r');
    if s.len() == 0 {
        assert(t.drop_first() =~= Seq::<char>::empty());
        reveal_with_fuel(trim_start, 2);
    } else if white(s[0]) {
        assert(t.drop_first() =~= s.drop_first().push('\r'));
        lemma_trim_start_return(s.drop_first());
    }
}

proof fn lemma_trim_return(s: Seq<char>)
    ensures
        trim(s.push('\r')) == trim(s),
{
    lemma_trim_start_return(s);
    let t = trim_start(s);
    if t.len() == 0 {
        assert(t =~= Seq::<char>::empty());
    } else {
        assert(t.push('\r').drop_last() =~= t);
    }
}

/// A carriage return behind a line does not change what follows a prefix in it,
/// but for white space.
proof fn lemma_field_return(line: Seq<char>, prefix: Seq<char>)
    requires
        prefix.len() > 0,
        prefix.last() != '\r',
    ensures
        prefix.is_prefix_of(line.push('\r')) == prefix.is_prefix_of(line),
        prefix.is_prefix_of(line) ==> trim(after(line.push('\r'), prefix)->0) == trim(
            after(line, prefix)->0,
        ),
{
    let t = line.push('\r');
    let n = prefix.len() as int;
    if n <= line.len() {
        assert(t.subrange(0, n) =~= line.subrange(0, n));
        assert(t.skip(n) =~= line.skip(n).push('\r'));
        lemma_trim_return(line.skip(n));
    } else if prefix.is_prefix_of(t) {
        assert(t.subrange(0, n)[n - 1] == prefix[n - 1]);
    }
}

proof fn lemma_prefixes()
    ensures
        "worktree "@.len() > 0,
        "worktree "@.last() != '\r',
        "branch "@.len() > 0,
        "branch "@.last() != '\r',
        "detached"@.len() > 0,
        "bare"@.len() > 0,
{
    reveal_strlit("worktree ");
    reveal_strlit("branch ");
    reveal_strlit("detached");
    reveal_strlit("bare");
}

/// A carriage return behind the last line changes nothing.
proof fn lemma_described_return(ls: Seq<Seq<char>>, line: Seq<char>)
    ensures
        described(ls.push(line.push('\r'))) == described(ls.push(line)),
{
    let v = ls.push(line.push('\r'));
    let w = ls.push(line);
    lemma_prefixes();
    lemma_field_return(line, "worktree "@);
    lemma_field_return(line, "branch "@);
    lemma_trim_return(line);
    assert(v.drop_last() =~= ls);
    assert(w.drop_last() =~= ls);
    let some_v = exists|i: int| 0 <= i < v.len() && unattached(#[trigger] v[i]);
    let some_w = exists|i: int| 0 <= i < w.len() && unattached(#[trigger] w[i]);
    assert(some_v == some_w) by {
        if some_v {
            let i = choose|i: int| 0 <= i < v.len() && unattached(#[trigger] v[i]);
            assert(unattached(w[i]));
        }
        if some_w {
            let i = choose|i: int| 0 <= i < w.len() && unattached(#[trigger] w[i]);
            assert(unattached(v[i]));
        }
    }
}

proof fn lemma_field_after_blank(ls: Seq<Seq<char>>, prefix: Seq<char>)
    requires
        prefix.len() > 0,
    ensures
        last_field(seq![Seq::<char>::empty()] + ls, prefix) == last_field(ls, prefix),
    decreases ls.len(),
{
    let v = seq![Seq::<char>::empty()] + ls;
    if ls.len() == 0 {
        assert(v.drop_last() =~= Seq::<Seq<char>>::empty());
        reveal_with_fuel(last_field, 2);
    } else {
        assert(v.drop_last() =~= seq![Seq::<char>::empty()] + ls.drop_last());
        lemma_field_after_blank(ls.drop_last(), prefix);
    }
}

/// An empty line in front changes nothing.
proof fn lemma_described_after_blank(ls: Seq<Seq<char>>)
    ensures
        described(seq![Seq::<char>::empty()] + ls) == described(ls),
{
    let v = seq![Seq::<char>::empty()] + ls;
    lemma_prefixes();
    lemma_field_after_blank(ls, "worktree "@);
    lemma_field_after_blank(ls, "branch "@);
    assert(!unattached(v[0]));
    let some_v = exists|i: int| 0 <= i < v.len() && unattached(#[trigger] v[i]);
    let some_w = exists|i: int| 0 <= i < ls.len() && unattached(#[trigger] ls[i]);
    assert(some_v == some_w) by {
        if some_v {
            let i = choose|i: int| 0 <= i < v.len() && unattached(#[trigger] v[i]);
            assert(unattached(ls[i - 1]));
        }
        if some_w {
            let i = choose|i: int| 0 <= i < ls.len() && unattached(#[trigger] ls[i]);
            assert(unattached(v[i + 1]));
        }
    }
}

proof fn lemma_find_in(s: Seq<char>, t: Seq<char>)
    requires
        find(s, '\n') < s.len(),
    ensures
        find(s + t, '\n') == find(s, '\n'),
    decreases s.len(),
{
    if s[0] != '\n' {
        assert((s + t).drop_first() =~= s.drop_first() + t);
        lemma_find_in(s.drop_first(), t);
    }
}

proof fn lemma_find_none(s: Seq<char>)
    requires
        find(s, '\n') >= s.len(),
    ensures
        find(s, '\n') == s.len(),
        find(s.push('\n'), '\n') == s.len(),
    decreases s.len(),
{
    if s.len() > 0 {
        assert(s.push('\n').drop_first() =~= s.drop_first().push('\n'));
        lemma_find_none(s.drop_first());
    } else {
        assert(s.push('\n')[0] == '\n');
    }
}

/// A line feed behind text that does not end in one leaves the lines as they
/// are, but for a carriage return at the end of the last.
proof fn lemma_lines_feed(s: Seq<char>)
    requires
        s.len() > 0,
        s.last() != '\n',
    ensures
        lines(s).len() > 0,
        lines(s.push('\n')) == lines(s).drop_last().push(chomp(lines(s).last())),
    decreases s.len(),
{
    let t = s.push('\n');
    let n = find(s, '\n') as int;
    if n >= s.len() {
        lemma_find_none(s);
        assert(t.take(n) =~= s);
        assert(t.skip(n + 1) =~= Seq::<char>::empty());
        reveal_with_fuel(lines, 2);
        assert(lines(t) =~= seq![chomp(s)]);
        assert(lines(s).drop_last() =~= Seq::<Seq<char>>::empty());
    } else {
        lemma_find_in(s, seq!['\n']);
        assert(s + seq!['\n'] =~= t);
        let rest = s.skip(n + 1);
        assert(rest.len() > 0) by {
            lemma_find_hit(s);
        }
        lemma_lines_feed(rest);
        assert(t.take(n) =~= s.take(n));
        assert(t.skip(n + 1) =~= rest.push('\n'));
        let head = seq![chomp(s.take(n))];
        assert(lines(s).drop_last() =~= head + lines(rest).drop_last());
        assert(lines(t) =~= lines(s).drop_last().push(chomp(lines(s).last())));
    }
}

proof fn lemma_find_hit(s: Seq<char>)
    requires
        find(s, '\n') < s.len(),
    ensures
        s[find(s, '\n') as int] == '\n',
    decreases s.len(),
{
    if s[0] != '\n' {
        lemma_find_hit(s.drop_first());
    }
}

/// A line feed at the end of a block changes nothing.
proof fn lemma_block_feed(s: Seq<char>)
    requires
        s.len() == 0 || s.last() != '\n',
    ensures
        worktree_of(s.push('\n')) == worktree_of(s),
{
    if s.len() == 0 {
        let t = s.push('\n');
        assert(t.take(0) =~= Seq::<char>::empty());
        assert(t.skip(1) =~= Seq::<char>::empty());
        assert(t[0] == '\n');
        reveal_with_fuel(lines, 2);
        assert(lines(t) =~= seq![Seq::<char>::empty()] + Seq::<Seq<char>>::empty());
        assert(lines(s) =~= Seq::<Seq<char>>::empty());
        lemma_described_after_blank(Seq::empty());
    } else {
        lemma_lines_feed(s);
        let ls = lines(s);
        let last = ls.last();
        assert(ls =~= ls.drop_last().push(last));
        if chomp(last) != last {
            assert(last =~= chomp(last).push('\r'));
            lemma_described_return(ls.drop_last(), chomp(last));
        }
    }
}

/// A line feed in front of a block changes nothing.
proof fn lemma_feed_block(s: Seq<char>)
    ensures
        worktree_of(seq!['\n'] + s) == worktree_of(s),
{
    let t = seq!['\n'] + s;
    assert(t[0] == '\n');
    assert(t.take(0) =~= Seq::<char>::empty());
    assert(t.skip(1) =~= s);
    assert(lines(t) =~= seq![Seq::<char>::empty()] + lines(s));
    lemma_described_after_blank(lines(s));
}

/// Nothing describes a worktree in a blank block.
proof fn lemma_blank_block(block: Seq<char>)
    requires
        trim(block).len() == 0,
    ensures
        worktree_of(block) is None,
{
    lemma_blank(block);
    lemma_blank_lines(block);
    lemma_blank_field(lines(block));
}

proof fn lemma_blank(s: Seq<char>)
    requires
        trim(s).len() == 0,
    ensures
        forall|i: int| 0 <= i < s.len() ==> white(#[trigger] s[i]),
    decreases s.len(),
{
    if s.len() > 0 {
        if white(s[0]) {
            lemma_blank(s.drop_first());
            assert forall|i: int| 0 <= i < s.len() implies white(#[trigger] s[i]) by {
                if i > 0 {
                    assert(s[i] == s.drop_first()[i - 1]);
                }
            }
        } else {
            lemma_trim_end_keeps(s);
        }
    }
}

proof fn lemma_trim_end_keeps(s: Seq<char>)
    requires
        s.len() > 0,
        !white(s[0]),
    ensures
        trim_end(s).len() > 0,
    decreases s.len(),
{
    if white(s.last()) {
        lemma_trim_end_keeps(s.drop_last());
    }
}

proof fn lemma_blank_lines(s: Seq<char>)
    requires
        forall|i: int| 0 <= i < s.len() ==> white(#[trigger] s[i]),
    ensures
        forall|k: int, i: int|
            0 <= k < lines(s).len() && 0 <= i < lines(s)[k].len() ==> white(
                #[trigger] lines(s)[k][i],
            ),
    decreases s.len(),
{
    let n = find(s, '\n') as int;
    if s.len() > 0 && n < s.len() {
        let rest = s.skip(n + 1);
        lemma_blank_lines(rest);
        assert forall|k: int, i: int|
            0 <= k < lines(s).len() && 0 <= i < lines(s)[k].len() implies white(
            #[trigger] lines(s)[k][i],
        ) by {
            if k == 0 {
                assert(lines(s)[k][i] == s[i]);
            } else {
                assert(lines(s)[k] == lines(rest)[k - 1]);
                assert(white(lines(rest)[k - 1][i]));
            }
        }
    }
}

proof fn lemma_blank_field(ls: Seq<Seq<char>>)
    requires
        forall|k: int, i: int|
            0 <= k < ls.len() && 0 <= i < ls[k].len() ==> white(#[trigger] ls[k][i]),
    ensures
        last_field(ls, "worktree "@) is None,
    decreases ls.len(),
{
    if ls.len() > 0 {
        let p = "worktree "@;
        let last = ls[ls.len() - 1];
        reveal_strlit("worktree ");
        if p.is_prefix_of(last) {
            assert(last.subrange(0, p.len() as int)[0] == 'w');
            assert(white(ls[ls.len() - 1][0]));
        }
        lemma_blank_field(ls.drop_last());
    }
}

/// What a block adds to a listing.
pub open spec fn entry(block: Seq<char>) -> Seq<WorktreeView> {
    match worktree_of(block) {
        Some(w) => seq![w],
        None => Seq::empty(),
    }
}

proof fn lemma_filter_map_front<A, B>(x: A, rest: Seq<A>, f: spec_fn(A) -> Option<B>)
    ensures
        (seq![x] + rest).filter_map(f) == (match f(x) {
            Some(y) => seq![y],
            None => Seq::empty(),
        }) + rest.filter_map(f),
    decreases rest.len(),
{
    let all = seq![x] + rest;
    reveal_with_fuel(Seq::filter_map, 2);
    if rest.len() == 0 {
        assert(all.drop_last() =~= Seq::<A>::empty());
        assert(all.filter_map(f) =~= (match f(x) {
            Some(y) => seq![y],
            None => Seq::empty(),
        }) + rest.filter_map(f));
    } else {
        assert(all.drop_last() =~= seq![x] + rest.drop_last());
        lemma_filter_map_front(x, rest.drop_last(), f);
        assert(all.filter_map(f) =~= (match f(x) {
            Some(y) => seq![y],
            None => Seq::empty(),
        }) + rest.filter_map(f));
    }
}

/// A listing is the entry of its first block, and then the listing of the rest.
#[verifier::rlimit(50)]
pub proof fn lemma_listing_unfolds(s: Seq<char>)
    ensures
        find_gap(s) >= s.len() ==> worktrees_of(s) == entry(s),
        find_gap(s) < s.len() ==> worktrees_of(s) == entry(s.take(find_gap(s) as int))
            + worktrees_of(s.skip((find_gap(s) + 2) as int)),
{
    let f = |b: Seq<char>|
        if trim(b).len() == 0 {
            None
        } else {
            worktree_of(b)
        };
    let n = find_gap(s) as int;
    let first = if n >= s.len() {
        s
    } else {
        s.take(n)
    };
    let rest = if n >= s.len() {
        Seq::<Seq<char>>::empty()
    } else {
        blocks(s.skip(n + 2))
    };
    if trim(first).len() == 0 {
        lemma_blank_block(first);
    }
    assert(blocks(s) =~= seq![first] + rest);
    lemma_filter_map_front(first, rest, f);
    if n >= s.len() {
        assert(rest.filter_map(f) =~= Seq::<WorktreeView>::empty());
        assert(worktrees_of(s) =~= entry(s));
    }
}

/// A line feed in front of a listing that does not begin with one changes
/// nothing.
#[verifier::rlimit(50)]
proof fn lemma_feed_block_listing(s: Seq<char>)
    requires
        s.len() == 0 || s[0] != '\n',
    ensures
        worktrees_of(seq!['\n'] + s) == worktrees_of(s),
{
    let t = seq!['\n'] + s;
    let n = find_gap(s) as int;
    assert(t.drop_first() =~= s);
    assert(s.len() > 0 ==> t[1] == s[0]);
    assert(find_gap(t) == n + 1);
    lemma_listing_unfolds(t);
    lemma_listing_unfolds(s);
    if n >= s.len() {
        lemma_feed_block(s);
    } else {
        lemma_find_gap(s);
        lemma_feed_block(s.take(n));
        assert(t.take(n + 1) =~= seq!['\n'] + s.take(n));
        assert(t.skip(n + 3) =~= s.skip(n + 2));
    }
}

/// Two line feeds in front of a listing change nothing.
proof fn lemma_gap_listing(s: Seq<char>)
    ensures
        worktrees_of(seq!['\n', '\n'] + s) == worktrees_of(s),
{
    let t = seq!['\n', '\n'] + s;
    assert(t[0] == '\n' && t[1] == '\n');
    assert(find_gap(t) == 0);
    lemma_listing_unfolds(t);
    assert(t.skip(2) =~= s);
    assert(t.take(0) =~= Seq::<char>::empty());
    assert(lines(t.take(0)) =~= Seq::<Seq<char>>::empty());
    assert(entry(t.take(0)) =~= Seq::<WorktreeView>::empty());
    assert(worktrees_of(t) =~= worktrees_of(s));
}

/// A line feed in front of a listing changes nothing.
proof fn lemma_feed_listing(s: Seq<char>)
    ensures
        worktrees_of(seq!['\n'] + s) == worktrees_of(s),
    decreases s.len(),
{
    if s.len() > 0 && s[0] == '\n' {
        let rest = s.drop_first();
        assert(seq!['\n'] + s =~= seq!['\n', '\n'] + rest);
        lemma_gap_listing(rest);
        lemma_feed_listing(rest);
        assert(seq!['\n'] + rest =~= s);
    } else {
        lemma_feed_block_listing(s);
    }
}

proof fn lemma_gap_in(a: Seq<char>, t: Seq<char>)
    requires
        find_gap(a) < a.len(),
    ensures
        find_gap(a + t) == find_gap(a),
    decreases a.len(),
{
    let all = a + t;
    if a.len() > 1 && a[0] == '\n' && a[1] == '\n' {
        assert(all[0] == '\n' && all[1] == '\n');
    } else {
        assert(all.drop_first() =~= a.drop_first() + t);
        lemma_gap_in(a.drop_first(), t);
        lemma_find_gap(a);
        assert(a.len() > 1);
        assert(all[0] == a[0] && all[1] == a[1]);
    }
}

/// The first gap of text without one, when a gap follows it: there, or one
/// earlier if the text ends in a line feed.
proof fn lemma_gap_behind(a: Seq<char>, b: Seq<char>)
    requires
        find_gap(a) >= a.len(),
    ensures
        find_gap(a + seq!['\n', '\n'] + b) == (if a.len() > 0 && a.last() == '\n' {
            a.len() - 1
        } else {
            a.len() as int
        }),
        a.len() > 1 && a.last() == '\n' ==> a[a.len() - 2] != '\n',
    decreases a.len(),
{
    let all = a + seq!['\n', '\n'] + b;
    if a.len() == 0 {
        assert(all[0] == '\n' && all[1] == '\n');
    } else if a.len() == 1 && a[0] == '\n' {
        assert(all[0] == '\n' && all[1] == '\n');
    } else {
        let rest = a.drop_first();
        assert(all.drop_first() =~= rest + seq!['\n', '\n'] + b);
        assert(all[0] == a[0]);
        assert(a.len() > 1 ==> all[1] == a[1]);
        lemma_gap_behind(rest, b);
        if a.len() == 1 {
            assert(find_gap(all) == 1 + find_gap(all.drop_first()));
        } else {
            assert(rest.last() == a.last());
            if a.len() > 2 {
                assert(rest[rest.len() - 2] == a[a.len() - 2]);
            }
        }
    }
}

/// A block without a gap in it and a listing, with an empty line between them.
#[verifier::rlimit(50)]
proof fn lemma_block_joins(a: Seq<char>, b: Seq<char>)
    requires
        find_gap(a) >= a.len(),
    ensures
        worktrees_of(a + seq!['\n', '\n'] + b) == entry(a) + worktrees_of(b),
{
    let all = a + seq!['\n', '\n'] + b;
    lemma_listing_unfolds(all);
    lemma_gap_behind(a, b);
    if a.len() > 0 && a.last() == '\n' {
        let core = a.drop_last();
        assert(all.take(a.len() - 1) =~= core);
        assert(all.skip((a.len() + 1) as int) =~= seq!['\n'] + b);
        assert(core.push('\n') =~= a);
        lemma_block_feed(core);
        lemma_feed_listing(b);
    } else {
        assert(all.take(a.len() as int) =~= a);
        assert(all.skip((a.len() + 2) as int) =~= b);
    }
}

/// The first block of a listing stays the first when another listing follows.
#[verifier::rlimit(50)]
proof fn lemma_first_block_stays(a: Seq<char>, b: Seq<char>)
    requires
        find_gap(a) < a.len(),
    ensures
        find_gap(a) + 2 <= a.len(),
        worktrees_of(a) == entry(a.take(find_gap(a) as int)) + worktrees_of(
            a.skip((find_gap(a) + 2) as int),
        ),
        worktrees_of(a + seq!['\n', '\n'] + b) == entry(a.take(find_gap(a) as int))
            + worktrees_of(a.skip((find_gap(a) + 2) as int) + seq!['\n', '\n'] + b),
{
    let sep = seq!['\n', '\n'];
    let all = a + sep + b;
    let n = find_gap(a) as int;
    lemma_find_gap(a);
    assert(a + (sep + b) =~= all);
    lemma_gap_in(a, sep + b);
    lemma_listing_unfolds(a);
    lemma_listing_unfolds(all);
    assert(all.take(n) =~= a.take(n));
    assert(all.skip(n + 2) =~= a.skip(n + 2) + sep + b);
}

proof fn lemma_add_associates<A>(x: Seq<A>, y: Seq<A>, z: Seq<A>)
    ensures
        x + (y + z) == x + y + z,
{
    assert(x + (y + z) =~= x + y + z);
}

/// Two listings with an empty line between them are one listing, of the
/// worktrees of the first and then those of the second: nothing carries over
/// from one block to the next.
#[verifier::rlimit(50)]
pub proof fn listings_join(a: Seq<char>, b: Seq<char>)
    ensures
        worktrees_of(a + seq!['\n', '\n'] + b) == worktrees_of(a) + worktrees_of(b),
    decreases a.len(),
{
    if find_gap(a) < a.len() {
        let first = entry(a.take(find_gap(a) as int));
        let rest = a.skip((find_gap(a) + 2) as int);
        lemma_first_block_stays(a, b);
        listings_join(rest, b);
        lemma_add_associates(first, worktrees_of(rest), worktrees_of(b));
    } else {
        lemma_listing_unfolds(a);
        lemma_block_joins(a, b);
    }
}

} // verus!
