//! Paths written as text, with `/` between their components.

use vstd::prelude::*;
use vstd::slice::slice_subrange;

use crate::text::{find, split, split_char, to_chars, to_text, views};

verus! {

/// Whether a piece between separators names something: empty pieces and `.` do
/// not.
pub open spec fn names(piece: Seq<char>) -> bool {
    piece.len() > 0 && piece != seq!['.']
}

/// The components of a path below its root, `.` left out.
pub open spec fn components(p: Seq<char>) -> Seq<Seq<char>> {
    split(p, '/').filter(|c: Seq<char>| names(c))
}

/// Whether the path starts at the root.
pub open spec fn rooted(p: Seq<char>) -> bool {
    p.len() > 0 && p[0] == '/'
}

/// Whether the path starts with the component `.`.
pub open spec fn dotted(p: Seq<char>) -> bool {
    p.len() > 0 && p[0] == '.' && (p.len() == 1 || p[1] == '/')
}

/// Whether two paths are written with the same components.
pub open spec fn same(a: Seq<char>, b: Seq<char>) -> bool {
    &&& rooted(a) == rooted(b)
    &&& dotted(a) == dotted(b)
    &&& components(a) == components(b)
}

/// The final component of a path, unless that is `..` or there is none.
pub open spec fn last_name(p: Seq<char>) -> Option<Seq<char>> {
    let c = components(p);
    if c.len() == 0 || c.last() == seq!['.', '.'] {
        None
    } else {
        Some(c.last())
    }
}

fn is_rooted(p: &[char]) -> (r: bool)
    ensures
        r == rooted(p@),
{
    p.len() > 0 && p[0] == '/'
}

fn is_dotted(p: &[char]) -> (r: bool)
    ensures
        r == dotted(p@),
{
    p.len() > 0 && p[0] == '.' && (p.len() == 1 || p[1] == '/')
}

/// Lists the components of a path.
fn list_components(p: &[char]) -> (r: Vec<&[char]>)
    ensures
        views(r@) == components(p@),
{
    let pieces = split_char(p, '/');
    let ghost keep = |c: Seq<char>| names(c);
    let ghost all = views(pieces@);
    let mut r: Vec<&[char]> = Vec::new();
    let mut i: usize = 0;
    assert(all.take(0).filter(keep) =~= views(r@)) by {
        reveal_with_fuel(Seq::filter, 1);
    }
    while i < pieces.len()
        invariant
            i <= pieces@.len(),
            all == views(pieces@),
            keep == (|c: Seq<char>| names(c)),
            views(r@) == all.take(i as int).filter(keep),
        decreases pieces@.len() - i,
    {
        let piece = pieces[i];
        let ghost before = views(r@);
        let ghost seen = all.take(i as int);
        assert(all.take(i + 1) =~= seen.push(piece@));
        proof {
            seen.lemma_filter_push(piece@, keep);
        }
        assert(piece@.len() == 1 && piece@[0] == '.' ==> piece@ =~= seq!['.']);
        if piece.len() > 0 && !(piece.len() == 1 && piece[0] == '.') {
            r.push(piece);
            assert(views(r@) =~= before.push(piece@));
        }
        i = i + 1;
    }
    assert(all.take(i as int) =~= all);
    r
}

fn same_chars(a: &[char], b: &[char]) -> (r: bool)
    ensures
        r == (a@ == b@),
{
    if a.len() != b.len() {
        return false;
    }
    let mut i: usize = 0;
    while i < a.len()
        invariant
            i <= a@.len() == b@.len(),
            forall|j: int| 0 <= j < i ==> a@[j] == b@[j],
        decreases a@.len() - i,
    {
        if a[i] != b[i] {
            return false;
        }
        i = i + 1;
    }
    assert(a@ =~= b@);
    true
}

/// Compares two paths by their components.
pub fn same_path(a: &str, b: &str) -> (r: bool)
    ensures
        r == same(a@, b@),
{
    let ac = to_chars(a);
    let bc = to_chars(b);
    if is_rooted(ac.as_slice()) != is_rooted(bc.as_slice()) || is_dotted(ac.as_slice())
        != is_dotted(bc.as_slice()) {
        return false;
    }
    let av = list_components(ac.as_slice());
    let bv = list_components(bc.as_slice());
    assert(views(av@).len() == av@.len() && views(bv@).len() == bv@.len());
    if av.len() != bv.len() {
        return false;
    }
    let mut i: usize = 0;
    while i < av.len()
        invariant
            i <= av@.len() == bv@.len(),
            views(av@) == components(a@),
            views(bv@) == components(b@),
            forall|j: int| 0 <= j < i ==> views(av@)[j] == views(bv@)[j],
        decreases av@.len() - i,
    {
        if !same_chars(av[i], bv[i]) {
            assert(views(av@)[i as int] != views(bv@)[i as int]);
            return false;
        }
        i = i + 1;
    }
    assert(views(av@) =~= views(bv@));
    true
}

/// Takes the final component of a path.
pub fn file_name(p: &str) -> (r: Option<String>)
    ensures
        match r {
            Some(n) => last_name(p@) == Some(n@),
            None => last_name(p@) is None,
        },
{
    let pc = to_chars(p);
    let v = list_components(pc.as_slice());
    assert(views(v@).len() == v@.len());
    if v.len() == 0 {
        return None;
    }
    let last = v[v.len() - 1];
    assert(components(p@).last() == last@);
    assert(last@.len() == 2 && last@[0] == '.' && last@[1] == '.' ==> last@ =~= seq!['.', '.']);
    if last.len() == 2 && last[0] == '.' && last[1] == '.' {
        None
    } else {
        Some(to_text(last))
    }
}

/// How much of a path comes before its components: the root, or a leading `.`.
pub open spec fn lead(p: Seq<char>) -> nat {
    if rooted(p) || dotted(p) {
        1
    } else {
        0
    }
}

/// The length of what follows the last separator at or after position `start`.
pub open spec fn tail_len(p: Seq<char>, start: nat) -> nat
    decreases p.len(),
{
    if p.len() <= start || p.last() == '/' {
        0
    } else {
        1 + tail_len(p.drop_last(), start)
    }
}

/// `p` without its last piece and the separator in front of that.
pub open spec fn cut(p: Seq<char>, start: nat) -> Seq<char> {
    let n = p.len() - tail_len(p, start);
    if n > start {
        p.take(n - 1)
    } else {
        p.take(n)
    }
}

pub proof fn lemma_tail_len(p: Seq<char>, start: nat)
    ensures
        p.len() > start ==> tail_len(p, start) + start <= p.len(),
        p.len() <= start ==> tail_len(p, start) == 0,
    decreases p.len(),
{
    if p.len() > start && p.last() != '/' {
        lemma_tail_len(p.drop_last(), start);
    }
}

/// `p` without trailing pieces that name nothing.
pub open spec fn trim_tail(p: Seq<char>, start: nat) -> Seq<char>
    decreases p.len(),
{
    if p.len() <= start || names(p.skip(p.len() - tail_len(p, start))) {
        p
    } else {
        proof {
            lemma_tail_len(p, start);
        }
        trim_tail(cut(p, start), start)
    }
}

/// The path without its final component; a path that is only a root, or empty,
/// has no parent.
pub open spec fn parent(p: Seq<char>) -> Option<Seq<char>> {
    let t = trim_tail(p, lead(p));
    if t.len() > lead(p) {
        Some(trim_tail(cut(t, lead(p)), lead(p)))
    } else if dotted(p) {
        Some(Seq::empty())
    } else {
        None
    }
}

/// `name` looked up from `base`.
pub open spec fn join(base: Seq<char>, name: Seq<char>) -> Seq<char> {
    if rooted(name) {
        name
    } else if base.len() > 0 && base.last() != '/' {
        base.push('/') + name
    } else {
        base + name
    }
}

/// Where a worktree of the given name goes: next to `base`.
pub open spec fn sibling(base: Seq<char>, name: Seq<char>) -> Seq<char> {
    join(
        match parent(base) {
            Some(p) => p,
            None => base,
        },
        name,
    )
}

fn measure_tail(p: &[char], start: usize) -> (r: usize)
    requires
        start <= p@.len(),
    ensures
        r == tail_len(p@, start as nat),
        r + start <= p@.len(),
{
    let mut n: usize = p.len();
    assert(p@.take(n as int) =~= p@);
    while n > start && p[n - 1] != '/'
        invariant
            start <= n <= p@.len(),
            tail_len(p@, start as nat) == p@.len() - n + tail_len(p@.take(n as int), start as nat),
        decreases n,
    {
        assert(p@.take(n as int).drop_last() =~= p@.take(n - 1));
        n = n - 1;
    }
    p.len() - n
}

fn cut_tail(p: &[char], start: usize) -> (r: &[char])
    requires
        start <= p@.len(),
    ensures
        r@ == cut(p@, start as nat),
        start <= r@.len() <= p@.len(),
        start < p@.len() ==> r@.len() < p@.len(),
{
    let n: usize = p.len() - measure_tail(p, start);
    let end: usize = if n > start { n - 1 } else { n };
    let r = slice_subrange(p, 0, end);
    assert(r@ =~= cut(p@, start as nat));
    r
}

fn trimmed_tail(p: &[char], start: usize) -> (r: &[char])
    requires
        start <= p@.len(),
    ensures
        r@ == trim_tail(p@, start as nat),
        start <= r@.len(),
{
    let mut q = p;
    loop
        invariant
            start <= q@.len(),
            trim_tail(q@, start as nat) == trim_tail(p@, start as nat),
        decreases q@.len(),
    {
        if q.len() <= start {
            return q;
        }
        let n: usize = measure_tail(q, start);
        let piece = slice_subrange(q, q.len() - n, q.len());
        assert(piece@ =~= q@.skip(q@.len() - n));
        assert(piece@.len() == 1 && piece@[0] == '.' ==> piece@ =~= seq!['.']);
        if piece.len() > 0 && !(piece.len() == 1 && piece[0] == '.') {
            return q;
        }
        q = cut_tail(q, start);
    }
}

/// The path of a worktree called `name` beside `base`.
pub fn sibling_path(base: &str, name: &str) -> (r: String)
    ensures
        r@ == sibling(base@, name@),
{
    let bc = to_chars(base);
    let nc = to_chars(name);
    let b = bc.as_slice();
    let start: usize = if is_rooted(b) || is_dotted(b) { 1 } else { 0 };
    let t = trimmed_tail(b, start);
    let dir = if t.len() > start {
        trimmed_tail(cut_tail(t, start), start)
    } else if is_dotted(b) {
        slice_subrange(b, 0, 0)
    } else {
        b
    };
    assert(dir@ =~= match parent(base@) {
        Some(p) => p,
        None => base@,
    });
    if is_rooted(nc.as_slice()) {
        return to_text(nc.as_slice());
    }
    let mut r = to_text(dir);
    if dir.len() > 0 && dir[dir.len() - 1] != '/' {
        r.push('/');
    }
    r.append(name);
    r
}

proof fn lemma_find_slash(s: Seq<char>, t: Seq<char>)
    ensures
        find(s, '/') <= s.len(),
        find(s, '/') < s.len() ==> s[find(s, '/') as int] == '/',
        find(s, '/') < s.len() ==> find(s + t, '/') == find(s, '/'),
        find(s, '/') >= s.len() ==> find(s.push('/') + t, '/') == s.len(),
    decreases s.len(),
{
    if s.len() > 0 && s[0] != '/' {
        lemma_find_slash(s.drop_first(), t);
        assert((s + t).drop_first() =~= s.drop_first() + t);
        assert((s.push('/') + t).drop_first() =~= s.drop_first().push('/') + t);
    }
}

/// The pieces on both sides of a separator are the pieces of the whole.
proof fn lemma_split_at(x: Seq<char>, y: Seq<char>)
    ensures
        split(x.push('/') + y, '/') == split(x, '/') + split(y, '/'),
    decreases x.len(),
{
    let all = x.push('/') + y;
    let n = find(x, '/') as int;
    if n >= x.len() {
        lemma_find_slash(x, y);
        assert(all.take(n) =~= x);
        assert(all.skip(n + 1) =~= y);
    } else {
        lemma_find_slash(x, seq!['/'] + y);
        assert(x + (seq!['/'] + y) =~= all);
        let rest = x.skip(n + 1);
        lemma_split_at(rest, y);
        assert(all.take(n) =~= x.take(n));
        assert(all.skip(n + 1) =~= rest.push('/') + y);
        assert(split(all, '/') =~= split(x, '/') + split(y, '/'));
    }
}

pub proof fn lemma_components_at(x: Seq<char>, y: Seq<char>)
    ensures
        components(x.push('/') + y) == components(x) + components(y),
{
    let keep = |c: Seq<char>| names(c);
    lemma_split_at(x, y);
    Seq::filter_distributes_over_add(split(x, '/'), split(y, '/'), keep);
}

proof fn lemma_no_slash(s: Seq<char>)
    requires
        !s.contains('/'),
    ensures
        find(s, '/') == s.len(),
    decreases s.len(),
{
    if s.len() > 0 {
        assert(s.contains(s[0]));
        assert(!s.drop_first().contains('/')) by {
            if s.drop_first().contains('/') {
                let k = choose|k: int| 0 <= k < s.len() - 1 && s.drop_first()[k] == '/';
                assert(s[k + 1] == '/');
            }
        }
        lemma_no_slash(s.drop_first());
    }
}

/// A piece without a separator is a component if it names something.
pub proof fn lemma_one_component(s: Seq<char>)
    requires
        !s.contains('/'),
    ensures
        components(s) == if names(s) {
            seq![s]
        } else {
            Seq::empty()
        },
{
    let keep = |c: Seq<char>| names(c);
    lemma_no_slash(s);
    assert(split(s, '/') == seq![s]);
    assert(seq![s] =~= Seq::<Seq<char>>::empty().push(s));
    Seq::<Seq<char>>::empty().lemma_filter_push(s, keep);
    reveal_with_fuel(Seq::filter, 1);
    assert(Seq::<Seq<char>>::empty().filter(keep) =~= Seq::<Seq<char>>::empty());
    if names(s) {
        assert(Seq::<Seq<char>>::empty().push(s) =~= seq![s]);
    }
}

/// Looking a name up adds its components.
proof fn lemma_join_components(base: Seq<char>, name: Seq<char>)
    requires
        !rooted(name),
    ensures
        components(join(base, name)) == components(base) + components(name),
{
    if base.len() == 0 {
        assert(base + name =~= name);
        assert(!base.contains('/'));
        lemma_one_component(base);
        assert(components(base) + components(name) =~= components(name));
    } else if base.last() != '/' {
        lemma_components_at(base, name);
    } else {
        let x = base.drop_last();
        let none = Seq::<char>::empty();
        assert(x.push('/') =~= base);
        assert(x.push('/') + none =~= base);
        lemma_components_at(x, name);
        lemma_components_at(x, none);
        assert(!none.contains('/'));
        lemma_one_component(none);
        assert(components(x) + components(none) =~= components(x));
    }
}

/// Whether the first `start` characters of a path come before its components.
spec fn leads(p: Seq<char>, start: nat) -> bool {
    &&& start <= p.len()
    &&& start == 0 || (start == 1 && (rooted(p) || dotted(p)))
}

proof fn lemma_tail(p: Seq<char>, start: nat)
    requires
        start <= p.len(),
    ensures
        tail_len(p, start) + start <= p.len(),
        !p.skip(p.len() - tail_len(p, start)).contains('/'),
        p.len() - tail_len(p, start) > start ==> p[p.len() - tail_len(p, start) - 1] == '/',
    decreases p.len(),
{
    if p.len() <= start || p.last() == '/' {
        assert(p.skip(p.len() as int) =~= Seq::<char>::empty());
    } else {
        let q = p.drop_last();
        lemma_tail(q, start);
        let n = tail_len(q, start) as int;
        let t = p.skip(q.len() - n);
        assert(t =~= q.skip(q.len() - n).push(p.last()));
        if t.contains('/') {
            let k = choose|k: int| 0 <= k < t.len() && t[k] == '/';
            assert(q.skip(q.len() - n)[k] == '/');
        }
    }
}

/// A path is what `cut` leaves and the piece that it takes off.
proof fn lemma_cut(p: Seq<char>, start: nat)
    requires
        leads(p, start),
        p.len() > start,
    ensures
        leads(cut(p, start), start),
        cut(p, start).len() < p.len(),
        cut(p, start).is_prefix_of(p),
        components(p) == components(cut(p, start)) + components(
            p.skip(p.len() - tail_len(p, start)),
        ),
        !p.skip(p.len() - tail_len(p, start)).contains('/'),
{
    lemma_tail(p, start);
    let n = p.len() - tail_len(p, start);
    let t = p.skip(n);
    let c = cut(p, start);
    let none = Seq::<char>::empty();
    assert(!none.contains('/'));
    lemma_one_component(none);
    if n > start {
        assert(c.push('/') + t =~= p);
        lemma_components_at(c, t);
    } else if start == 0 {
        assert(t =~= p);
        assert(c =~= none);
        assert(components(c) + components(t) =~= components(t));
    } else if rooted(p) {
        assert(none.push('/') + t =~= p);
        lemma_components_at(none, t);
        assert(c =~= none.push('/') + none);
        lemma_components_at(none, none);
        assert(components(none) + components(none) =~= components(none));
    } else {
        assert(p[1] == '/');
        assert(t[0] == '/');
        assert(t.contains('/'));
    }
}

/// Trailing pieces that name nothing are no components.
proof fn lemma_trim_tail(p: Seq<char>, start: nat)
    requires
        leads(p, start),
    ensures
        leads(trim_tail(p, start), start),
        trim_tail(p, start).is_prefix_of(p),
        components(trim_tail(p, start)) == components(p),
        trim_tail(p, start).len() > start ==> names(
            trim_tail(p, start).skip(
                trim_tail(p, start).len() - tail_len(trim_tail(p, start), start),
            ),
        ),
    decreases p.len(),
{
    if p.len() > start && !names(p.skip(p.len() - tail_len(p, start))) {
        let c = cut(p, start);
        lemma_cut(p, start);
        lemma_one_component(p.skip(p.len() - tail_len(p, start)));
        assert(components(c) + Seq::<Seq<char>>::empty() =~= components(c));
        lemma_trim_tail(c, start);
        let t = trim_tail(c, start);
        assert(t =~= p.subrange(0, t.len() as int)) by {
            assert(c =~= p.subrange(0, c.len() as int));
        }
    } else {
        assert(p.subrange(0, p.len() as int) =~= p);
    }
}

/// A path that is only a root, a leading `.` or nothing has no components.
proof fn lemma_bare(p: Seq<char>, start: nat)
    requires
        leads(p, start),
        p.len() == start,
    ensures
        components(p) == Seq::<Seq<char>>::empty(),
{
    let none = Seq::<char>::empty();
    assert(!none.contains('/'));
    lemma_one_component(none);
    if start == 0 {
        assert(p =~= none);
    } else if rooted(p) {
        assert(p =~= none.push('/') + none);
        lemma_components_at(none, none);
        assert(components(none) + components(none) =~= components(none));
    } else {
        assert(p =~= seq!['.']);
        assert(!p.contains('/'));
        lemma_one_component(p);
    }
}

/// The path that a new worktree is made next to: the components of `base`
/// without the last one.
proof fn lemma_parent(base: Seq<char>)
    ensures
        ({
            let dir = match parent(base) {
                Some(p) => p,
                None => base,
            };
            &&& components(dir) == init(components(base))
            &&& rooted(dir) == rooted(base)
        }),
{
    let start = lead(base);
    let t = trim_tail(base, start);
    lemma_trim_tail(base, start);
    assert(t =~= base.subrange(0, t.len() as int));
    if t.len() > start {
        lemma_cut(t, start);
        let tail = t.skip(t.len() - tail_len(t, start));
        let c = cut(t, start);
        lemma_one_component(tail);
        lemma_trim_tail(c, start);
        assert((components(c) + seq![tail]).drop_last() =~= components(c));
        let dir = trim_tail(c, start);
        assert(dir =~= c.subrange(0, dir.len() as int));
        assert(c =~= t.subrange(0, c.len() as int));
        assert(dir.len() > 0 ==> dir[0] == base[0]);
    } else {
        lemma_bare(t, start);
        if dotted(base) {
            let none = Seq::<char>::empty();
            assert(!none.contains('/'));
            lemma_one_component(none);
        }
    }
}

/// All but the last; of nothing, nothing.
pub open spec fn init(c: Seq<Seq<char>>) -> Seq<Seq<char>> {
    if c.len() == 0 {
        c
    } else {
        c.drop_last()
    }
}

/// A worktree goes next to `base`: its path has the components of `base` without
/// the last, and then those of its name, and starts at the root if `base` does.
/// A name that starts at the root is the path.
pub proof fn siblings_share_a_parent(base: Seq<char>, name: Seq<char>)
    ensures
        !rooted(name) ==> components(sibling(base, name)) == init(components(base)) + components(
            name,
        ),
        !rooted(name) ==> rooted(sibling(base, name)) == rooted(base),
        rooted(name) ==> sibling(base, name) == name,
{
    let dir = match parent(base) {
        Some(p) => p,
        None => base,
    };
    lemma_parent(base);
    if !rooted(name) {
        lemma_join_components(dir, name);
    }
}

} // verus!
