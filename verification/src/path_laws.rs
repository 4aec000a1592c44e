//! What counts in a path, and what does not.

use vstd::prelude::*;

use crate::app::{listed, window_paths, Window};
use crate::paths::{
    components, cut, dotted, last_name, lead, lemma_components_at, lemma_one_component, names,
    parent, rooted, same, sibling, tail_len, trim_tail,
};
use crate::text_laws::separated;

verus! {

/// The pieces that count, of those between the slashes of a path: not the empty
/// ones, nor single dots.
pub open spec fn counted(pieces: Seq<Seq<char>>) -> Seq<Seq<char>>
    decreases pieces.len(),
{
    if pieces.len() == 0 {
        Seq::empty()
    } else if pieces[0].len() == 0 || pieces[0] == seq!['.'] {
        counted(pieces.drop_first())
    } else {
        seq![pieces[0]] + counted(pieces.drop_first())
    }
}

/// The components of a path are what stands between its slashes, in order and
/// as it is written, without what is empty and without single dots.
pub proof fn components_are_between_slashes(pieces: Seq<Seq<char>>)
    requires
        forall|i: int| 0 <= i < pieces.len() ==> !(#[trigger] pieces[i]).contains('/'),
    ensures
        components(separated(pieces, '/')) == counted(pieces),
    decreases pieces.len(),
{
    let none = Seq::<char>::empty();
    if pieces.len() == 0 {
        assert(!none.contains('/'));
        lemma_one_component(none);
    } else {
        let first = pieces[0];
        let rest = pieces.drop_first();
        lemma_one_component(first);
        if pieces.len() == 1 {
            assert(counted(rest) =~= Seq::<Seq<char>>::empty());
            assert(components(first) =~= counted(pieces));
        } else {
            components_are_between_slashes(rest);
            lemma_components_at(first, separated(rest, '/'));
            assert(components(first) + counted(rest) =~= counted(pieces));
        }
    }
}

/// The last name of a path is what follows its last slash; a slash or a single
/// dot at the end does not count, and a path that ends in two dots, or has
/// nothing in it, has no last name.
pub proof fn last_names_come_last(base: Seq<char>, name: Seq<char>)
    requires
        !name.contains('/'),
        name.len() > 0,
    ensures
        name != seq!['.'] && name != seq!['.', '.'] ==> last_name(base.push('/') + name) == Some(
            name,
        ) && last_name(name) == Some(name),
        last_name(base.push('/') + seq!['.', '.']) is None,
        last_name(base.push('/')) == last_name(base),
        last_name(base.push('/') + seq!['.']) == last_name(base),
        last_name(Seq::<char>::empty()) is None,
        last_name(seq!['.']) is None,
        last_name(seq!['.', '.']) is None,
{
    let none = Seq::<char>::empty();
    let dot = seq!['.'];
    let dots = seq!['.', '.'];
    assert(dots[1] == '.');
    assert(dots.len() != dot.len());
    lemma_one_component(name);
    lemma_one_component(none);
    lemma_one_component(dot);
    lemma_one_component(dots);
    lemma_components_at(base, name);
    lemma_components_at(base, none);
    lemma_components_at(base, dot);
    lemma_components_at(base, dots);
    assert(base.push('/') + none =~= base.push('/'));
    assert(components(base) + Seq::<Seq<char>>::empty() =~= components(base));
}

/// Paths are the same or not as an equivalence.
pub proof fn sameness_is_an_equivalence(a: Seq<char>, b: Seq<char>, c: Seq<char>)
    ensures
        same(a, a),
        same(a, b) == same(b, a),
        same(a, b) && same(b, c) ==> same(a, c),
{
}

/// Slashes at the end, doubled slashes and single dots behind a slash make no
/// difference to which path is meant.
pub proof fn some_writing_does_not_count(a: Seq<char>, b: Seq<char>)
    requires
        a.len() > 0,
    ensures
        same(a, a.push('/')),
        same(a, a.push('/') + seq!['.']),
        same(a.push('/') + b, a.push('/').push('/') + b),
        same(a.push('/') + b, (a.push('/') + seq!['.']).push('/') + b),
{
    let none = Seq::<char>::empty();
    let dot = seq!['.'];
    let dotted = a.push('/') + dot;
    lemma_one_component(none);
    lemma_one_component(dot);
    lemma_components_at(a, none);
    lemma_components_at(a, dot);
    lemma_components_at(a, b);
    lemma_components_at(a.push('/'), b);
    lemma_components_at(dotted, b);
    assert(a.push('/') + none =~= a.push('/'));
    assert(components(a) + Seq::<Seq<char>>::empty() =~= components(a));
    assert(dotted[0] == a[0]);
    assert((a.push('/') + b)[0] == a[0]);
    assert((a.push('/').push('/') + b)[0] == a[0]);
    assert((dotted.push('/') + b)[0] == a[0]);
    assert((a.push('/') + b)[1] == a.push('/')[1]);
    assert((a.push('/').push('/') + b)[1] == a.push('/')[1]);
    assert((dotted.push('/') + b)[1] == a.push('/')[1]);
    assert(dotted[1] == a.push('/')[1]);
}

/// Paths whose names differ are not the same, nor are a path from the root and
/// one that is not, nor one that starts with a single dot and one that does not,
/// nor a directory and what is in it; two dots count as a name.
pub proof fn different_names_are_different_paths(x: Seq<char>, y: Seq<char>, a: Seq<char>)
    requires
        !x.contains('/'),
        !y.contains('/'),
        names(x),
        names(y),
    ensures
        same(a.push('/') + x, a.push('/') + y) <==> x == y,
        same(x, y) <==> x == y,
        same(seq!['/'] + x, x) <==> false,
        same(seq!['.', '/'] + x, x) <==> false,
        same(a.push('/') + x, a) <==> false,
{
    lemma_one_component(x);
    lemma_one_component(y);
    lemma_components_at(a, x);
    lemma_components_at(a, y);
    let p = components(a) + seq![x];
    let q = components(a) + seq![y];
    assert(p.last() == x && q.last() == y);
    assert(seq![x][0] == x && seq![y][0] == y);
    assert((seq!['/'] + x)[0] == '/');
    if x[0] == '/' {
        assert(x.contains('/'));
    }
    assert(p.len() == components(a).len() + 1);
    assert((seq!['.', '/'] + x)[0] == '.' && (seq!['.', '/'] + x)[1] == '/');
    if x.len() == 1 && x[0] == '.' {
        assert(x =~= seq!['.']);
    }
    if x.len() > 1 && x[1] == '/' {
        assert(x.contains('/'));
    }
}

/// The path of a new worktree ends with the name that was given for it.
pub proof fn siblings_end_with_their_name(base: Seq<char>, name: Seq<char>)
    ensures
        sibling(base, name).len() >= name.len(),
        sibling(base, name).skip(sibling(base, name).len() - name.len()) == name,
{
    let p = sibling(base, name);
    assert(p.skip(p.len() - name.len()) =~= name);
}

proof fn lemma_tail_piece(pre: Seq<char>, y: Seq<char>, start: nat)
    requires
        start <= pre.len(),
        pre.len() == start || pre.last() == '/',
        !y.contains('/'),
    ensures
        tail_len(pre + y, start) == y.len(),
    decreases y.len(),
{
    let p = pre + y;
    if y.len() == 0 {
        assert(p =~= pre);
    } else {
        assert(y.contains(y[y.len() - 1]));
        assert(p.last() == y[y.len() - 1]);
        assert(p.drop_last() =~= pre + y.drop_last());
        assert forall|i: int| 0 <= i < y.len() - 1 implies y.drop_last()[i] != '/' by {
            assert(y.contains(y[i]));
        }
        lemma_tail_piece(pre, y.drop_last(), start);
    }
}

proof fn lemma_kept(pre: Seq<char>, y: Seq<char>, start: nat)
    requires
        start <= pre.len(),
        pre.len() == start || pre.last() == '/',
        !y.contains('/'),
        names(y),
    ensures
        trim_tail(pre + y, start) == pre + y,
        pre.len() > start ==> cut(pre + y, start) == pre.drop_last(),
        pre.len() == start ==> cut(pre + y, start) == pre,
{
    let p = pre + y;
    lemma_tail_piece(pre, y, start);
    assert(p.skip(p.len() - y.len()) =~= y);
    if pre.len() > start {
        assert(p.take(pre.len() - 1) =~= pre.drop_last());
    } else {
        assert(p.take(pre.len() as int) =~= pre);
    }
}

/// A worktree next to `dir/x` is at `dir` and its name, with a slash between them
/// and `dir` as it is written; next to a path of one name it has that place.
pub proof fn siblings_are_written_beside(
    pre: Seq<char>,
    y: Seq<char>,
    x: Seq<char>,
    name: Seq<char>,
)
    requires
        pre.len() == 0 || pre.last() == '/',
        !y.contains('/'),
        names(y),
        !x.contains('/'),
        names(x),
        !rooted(name),
    ensures
        sibling((pre + y).push('/') + x, name) == (pre + y).push('/') + name,
        sibling(seq!['/'] + x, name) == seq!['/'] + name,
        sibling(x, name) == name,
{
    let none = Seq::<char>::empty();
    let dir = pre + y;
    let base = dir.push('/') + x;
    let start = lead(base);
    lemma_single(x);
    lemma_single(y);
    assert(dir.len() > 0);
    if pre.len() == 0 {
        assert(dir =~= y);
        assert(base[0] == y[0]);
        assert(y.len() > 1 ==> base[1] == y[1]);
        assert(start == 0);
    } else {
        assert(start <= pre.len());
        if start == 1 && pre.len() == 1 {
            assert(pre[0] == '/');
        }
    }
    lemma_kept(dir.push('/'), x, start);
    assert(dir.push('/').drop_last() =~= dir);
    assert(base.len() > start);
    lemma_kept(pre, y, start);
    assert(parent(base) == Some(dir));
    assert(dir.last() == y.last());
    assert(y.contains(y[y.len() - 1]));
    let one = seq!['/'] + x;
    assert(one[0] == '/');
    lemma_kept(seq!['/'], x, 1);
    assert(trim_tail(seq!['/'], 1) == seq!['/']);
    assert(parent(one) == Some(seq!['/']));
    assert(none + x =~= x);
    lemma_kept(none, x, 0);
    assert(trim_tail(none, 0) == none);
    assert(lead(x) == 0);
    assert(parent(x) == Some(none));
    assert(none + name =~= name);
}

proof fn lemma_single(x: Seq<char>)
    requires
        !x.contains('/'),
        names(x),
    ensures
        !rooted(x),
        !dotted(x),
{
    assert(x.contains(x[0]));
    if x.len() == 1 && x[0] == '.' {
        assert(x =~= seq!['.']);
    }
    if x.len() > 1 {
        assert(x.contains(x[1]));
    }
}

/// Whether some window is on a path.
pub open spec fn open_somewhere<S>(ws: Seq<Window<S>>, path: Seq<char>) -> bool {
    exists|i: int| 0 <= i < ws.len() && same((#[trigger] ws[i]).path@, path)
}

/// A path is listed as open exactly if some window is on it; no path is listed
/// twice, and each is listed as its first window has it, in the order of the
/// windows.
pub proof fn open_paths_are_those_of_windows<S>(
    ws: Seq<Window<S>>,
    w: Window<S>,
    path: Seq<char>,
)
    ensures
        listed(window_paths(ws), path) <==> open_somewhere(ws, path),
        open_somewhere(ws, w.path@) ==> window_paths(ws.push(w)) == window_paths(ws),
        !open_somewhere(ws, w.path@) ==> window_paths(ws.push(w)) == window_paths(ws).push(w.path@),
        window_paths(Seq::<Window<S>>::empty()).len() == 0,
{
    lemma_listed(ws, path);
    lemma_listed(ws, w.path@);
    assert(ws.push(w).drop_last() =~= ws);
}

proof fn lemma_listed<S>(ws: Seq<Window<S>>, path: Seq<char>)
    ensures
        listed(window_paths(ws), path) <==> open_somewhere(ws, path),
    decreases ws.len(),
{
    if ws.len() > 0 {
        let shorter = ws.drop_last();
        let last = ws.last().path@;
        let before = window_paths(shorter);
        let now = window_paths(ws);
        lemma_listed(shorter, path);
        lemma_listed(shorter, last);
        if listed(now, path) {
            let i = choose|i: int| 0 <= i < now.len() && same(#[trigger] now[i], path);
            if i < before.len() {
                assert(same(before[i], path));
                let k = choose|k: int|
                    0 <= k < shorter.len() && same((#[trigger] shorter[k]).path@, path);
                assert(same(ws[k].path@, path));
            } else {
                assert(same(ws[ws.len() - 1].path@, path));
            }
        }
        if open_somewhere(ws, path) {
            let k = choose|k: int| 0 <= k < ws.len() && same((#[trigger] ws[k]).path@, path);
            if k < shorter.len() {
                assert(same(shorter[k].path@, path));
                let i = choose|i: int| 0 <= i < before.len() && same(#[trigger] before[i], path);
                assert(same(now[i], path));
            } else if listed(before, last) {
                let i = choose|i: int| 0 <= i < before.len() && same(#[trigger] before[i], last);
                assert(same(now[i], path));
            } else {
                assert(same(now[before.len() as int], path));
            }
        }
    }
}

} // verus!
