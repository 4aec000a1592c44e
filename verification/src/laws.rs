//! What holds of the program as a whole.

use vstd::prelude::*;

use crate::app::{
    last_line, lemma_window_at, window_at, with_offset, AppState, GitTab, InputMode, Pane, Window,
};
use crate::config::{binding_of, modifiers_of, KeyConfig};
use crate::events::{
    all_sizes, arrow_step, claude_step, confirmed, git_step, key_step, list_key, live, pane_after,
    view_step, ActionView,
};
use crate::keys::{KeyCode, KeyEvent, KeyEventKind};
use crate::paths::{components, last_name, names, same};
use crate::screen::{reach, ScreenState};
use crate::text::{find, lower, lower_char, split};
use crate::util::window_name;

verus! {

/// One tab to the right and one to the left again is where one was, and so is
/// four to the right.
pub proof fn tabs_go_round(t: GitTab)
    ensures
        GitTab::at(GitTab::at(t.place() + 1).place() - 1) == t,
        GitTab::at(GitTab::at(t.place() - 1).place() + 1) == t,
        GitTab::at(t.place() + 4) == t,
{
}

/// Every third pane is the same.
pub proof fn panes_go_round(p: Pane)
    ensures
        pane_after(pane_after(pane_after(p))) == p,
        pane_after(p) != p,
{
}

/// Going to the next window and back to the previous one changes nothing, nor
/// does the reverse.
pub proof fn windows_go_round<S>(a: AppState<S>)
    requires
        a.sound(),
        a.windows.len() > 0,
    ensures
        a.turned(1).turned(-1) == a,
        a.turned(-1).turned(1) == a,
{
    let n = a.windows.len() as int;
    let i = a.active;
    assert(((i + 1) % n + -1) % n == i) by (nonlinear_arith)
        requires
            0 <= i < n,
    {
        if i + 1 < n {
            assert((i + 1) % n == i + 1);
        } else {
            assert((i + 1) % n == 0);
            assert((-1int) % n == n - 1);
        }
    }
    assert(((i + -1) % n + 1) % n == i) by (nonlinear_arith)
        requires
            0 <= i < n,
    {
        if i > 0 {
            assert((i + -1) % n == i - 1);
        } else {
            assert((i + -1) % n == n - 1);
            assert(n % n == 0);
        }
    }
}

/// Whether no two windows are open on the same path.
pub open spec fn distinct<S>(ws: Seq<Window<S>>) -> bool {
    forall|i: int, j: int|
        #![trigger ws[i], ws[j]]
        0 <= i < j < ws.len() ==> !same(ws[i].path@, ws[j].path@)
}

proof fn lemma_arrow_keeps_path<S>(w: Window<S>, code: KeyCode)
    ensures
        arrow_step(w, code).path == w.path,
{
}

proof fn lemma_update_keeps_distinct<S>(ws: Seq<Window<S>>, i: int, w: Window<S>)
    requires
        distinct(ws),
        0 <= i < ws.len(),
        w.path == ws[i].path,
    ensures
        distinct(ws.update(i, w)),
{
    let after = ws.update(i, w);
    assert forall|j: int, k: int|
        #![trigger after[j], after[k]]
        0 <= j < k < after.len() implies !same(after[j].path@, after[k].path@) by {
        assert(after[j].path == ws[j].path);
        assert(after[k].path == ws[k].path);
    }
}

proof fn lemma_remove_keeps_distinct<S>(ws: Seq<Window<S>>, i: int)
    requires
        distinct(ws),
        0 <= i < ws.len(),
    ensures
        distinct(ws.remove(i)),
{
    let after = ws.remove(i);
    assert forall|j: int, k: int|
        #![trigger after[j], after[k]]
        0 <= j < k < after.len() implies !same(after[j].path@, after[k].path@) by {
        let j0 = if j < i {
            j
        } else {
            j + 1
        };
        let k0 = if k < i {
            k
        } else {
            k + 1
        };
        assert(after[j] == ws[j0]);
        assert(after[k] == ws[k0]);
    }
}

/// No key opens a second window on a path: if every window has a path of its
/// own, so it is after any key, and a window is asked for only on a path that
/// has none.
pub proof fn keys_keep_windows_distinct<S>(
    a: AppState<S>,
    key: KeyEvent,
    kc: KeyConfig,
    screen: Option<ScreenState>,
)
    requires
        live(a),
        distinct(a.windows),
    ensures
        distinct(key_step(a, key, kc, screen).0.windows),
        key_step(a, key, kc, screen).1 matches ActionView::Open(path) ==> a.open_at(path) is None,
{
    let (b, action) = key_step(a, key, kc, screen);
    let front = a.front();
    lemma_arrow_keeps_path(front, key.code);
    if b.windows.len() == a.windows.len() {
        let w = b.windows[a.active];
        if b.windows != a.windows {
            assert(b.windows == a.windows.update(a.active, w));
            assert(w.path == front.path);
            lemma_update_keeps_distinct(a.windows, a.active, w);
        }
    } else if a.input_mode is Some {
        let path = a.input_mode->0->ConfirmDelete_0;
        lemma_window_at(a.windows, path@);
        lemma_remove_keeps_distinct(a.windows, window_at(a.windows, path@) as int);
    } else {
        lemma_remove_keeps_distinct(a.windows, a.active);
    }
}

/// No key in the git pane leaves a selection past the end of its list, in any
/// window, nor brings a window to the front that is not there.
pub proof fn git_keys_keep_selections<S>(a: AppState<S>, key: KeyEvent, kc: KeyConfig)
    requires
        a.sound(),
        a.windows.len() > 0,
    ensures
        git_step(a, key, kc).0.sound(),
        git_step(a, key, kc).0.windows.len() == a.windows.len(),
{
    let w = a.front();
    assert(w.wf());
    assert(w.git_worktrees.len() == w.git_worktrees@.len());
    assert(w.git_branches.len() == w.git_branches@.len());
    assert(w.file_diffs.len() == w.file_diffs@.len());
    assert(arrow_step(w, key.code).wf());
    assert(view_step(w, key, kc).0.wf());
    if list_key(w, key, kc) && w.worktree_selected < w.git_worktrees@.len() {
        lemma_window_at(a.windows, w.git_worktrees@[w.worktree_selected as int].path@);
    }
}

/// Adding a window on a path that has none keeps the paths of the windows apart.
pub proof fn new_windows_stay_distinct<S>(a: AppState<S>, win: Window<S>)
    requires
        distinct(a.windows),
        a.open_at(win.path@) is None,
    ensures
        distinct(a.windows.push(win)),
{
    lemma_window_at(a.windows, win.path@);
}

/// Whether the user is not asked about deleting the worktree in front.
pub open spec fn spares_the_front<S>(a: AppState<S>) -> bool {
    match a.input_mode {
        Some(InputMode::ConfirmDelete(path, _)) => !same(a.front().path@, path@),
        _ => true,
    }
}

/// No key makes the program ask about deleting the worktree in front.
pub proof fn questions_spare_the_front<S>(
    a: AppState<S>,
    key: KeyEvent,
    kc: KeyConfig,
    screen: Option<ScreenState>,
)
    requires
        live(a),
        spares_the_front(a),
    ensures
        spares_the_front(key_step(a, key, kc, screen).0),
{
}

/// Confirming a deletion never closes the last window. If the closed window
/// comes after the one in front, that one stays in front.
pub proof fn deletion_leaves_a_window<S>(a: AppState<S>)
    requires
        live(a),
        a.input_mode matches Some(InputMode::ConfirmDelete(_, _)),
    ensures
        confirmed(a).0.windows.len() > 0,
        !confirmed(a).0.should_quit || a.should_quit,
        window_at(a.windows, a.input_mode->0->ConfirmDelete_0@) > a.active ==> confirmed(
            a,
        ).0.front() == a.front(),
{
    lemma_window_at(a.windows, a.input_mode->0->ConfirmDelete_0@);
}

/// While a question is asked, no key reaches a session, and windows change only
/// when a deletion is confirmed. Escape and Enter end the question.
pub proof fn questions_hold_keys_back<S>(
    a: AppState<S>,
    key: KeyEvent,
    kc: KeyConfig,
    screen: Option<ScreenState>,
)
    requires
        a.input_mode is Some,
    ensures
        !(key_step(a, key, kc, screen).1 is Send),
        !(key_step(a, key, kc, screen).1 is DeleteWorktree) ==> key_step(
            a,
            key,
            kc,
            screen,
        ).0.windows == a.windows,
        key.kind == KeyEventKind::Press && (key.code == KeyCode::Esc || key.code
            == KeyCode::Enter) ==> key_step(a, key, kc, screen).0.input_mode is None && key_step(
            a,
            key,
            kc,
            screen,
        ).0.input.len() == 0,
{
}

/// Scrolling down never goes past the last line, and scrolling up by as much
/// undoes it where it did not stop there.
pub proof fn scrolling_up_undoes_down<S>(w: Window<S>, amount: u16)
    ensures
        w.down(amount).scroll() <= last_line(w.line_count()),
        w.scroll() + amount <= last_line(w.line_count()) ==> w.down(amount).up(amount) == w,
{
    let i = w.git_tab.place();
    let v = w.down(amount).scroll();
    if w.git_tab != GitTab::Diff {
        let offsets = with_offset(w.scroll_offsets, i, v);
        assert(with_offset(offsets, i, w.scroll()) =~= w.scroll_offsets);
    }
}

/// A screen scrolled back as far as it goes can be drawn.
pub proof fn reached_rows_can_be_drawn(s: ScreenState, desired: nat)
    requires
        s.size.0 == s.rows.len(),
    ensures
        s.scrolled(reach(s, desired)).viewable(),
        reach(s, desired) <= desired,
{
}

/// Keys keep the agent pane scrolled to where its screen can be drawn.
pub proof fn keys_keep_the_pane_drawable<S>(
    w: Window<S>,
    key: KeyEvent,
    kc: KeyConfig,
    s: ScreenState,
)
    requires
        s.size.0 == s.rows.len(),
        s.scrolled(w.claude_scroll as nat).viewable(),
    ensures
        s.scrolled(
            claude_step(w, key, kc, Some(s)).0.claude_scroll as nat,
        ).viewable(),
{
}

/// A session is never resized to nothing, and only sessions of windows that are
/// there are resized.
pub proof fn sessions_keep_some_room<S>(ws: Seq<Window<S>>, cols: u16, rows: u16, i: int)
    requires
        0 <= i < all_sizes(ws, cols, rows).len(),
        ws.len() <= usize::MAX,
    ensures
        all_sizes(ws, cols, rows)[i].cols >= 1,
        all_sizes(ws, cols, rows)[i].rows >= 1,
        all_sizes(ws, cols, rows)[i].window < ws.len(),
    decreases ws.len(),
{
    if i < all_sizes(ws.drop_last(), cols, rows).len() {
        sessions_keep_some_room(ws.drop_last(), cols, rows, i);
    }
}

/// Every window has a name.
pub proof fn windows_have_names(path: Seq<char>, printed: Option<Seq<u8>>)
    ensures
        window_name(path, printed).len() > 0,
{
    reveal_strlit("main");
    if let Some(name) = last_name(path) {
        let f = |c: Seq<char>| names(c);
        let c = components(path);
        split(path, '/').lemma_filter_pred(f, c.len() - 1);
    }
}

proof fn lemma_lower_char(c: char)
    ensures
        lower_char(c) == '+' <==> c == '+',
{
}

proof fn lemma_find_lower(s: Seq<char>)
    ensures
        find(lower(s), '+') == find(s, '+'),
        find(s, '+') <= s.len(),
    decreases s.len(),
{
    if s.len() > 0 {
        lemma_lower_char(s[0]);
        lemma_find_lower(s.drop_first());
        assert(lower(s).drop_first() =~= lower(s.drop_first()));
    }
}

proof fn lemma_split_lower(s: Seq<char>)
    ensures
        split(lower(s), '+').len() == split(s, '+').len(),
        split(s, '+').len() > 0,
        forall|i: int|
            0 <= i < split(s, '+').len() ==> #[trigger] split(lower(s), '+')[i] == lower(
                split(s, '+')[i],
            ),
    decreases s.len(),
{
    lemma_find_lower(s);
    let n = find(s, '+') as int;
    if n < s.len() {
        let rest = s.skip(n + 1);
        lemma_split_lower(rest);
        assert(lower(s).skip(n + 1) =~= lower(rest));
        assert(lower(s).take(n) =~= lower(s.take(n)));
        assert forall|i: int| 0 <= i < split(s, '+').len() implies #[trigger] split(
            lower(s),
            '+',
        )[i] == lower(split(s, '+')[i]) by {
            if i > 0 {
                assert(split(s, '+')[i] == split(rest, '+')[i - 1]);
                assert(split(lower(s), '+')[i] == split(lower(rest), '+')[i - 1]);
            }
        }
    }
}

proof fn lemma_modifiers_lower(v: Seq<Seq<char>>, w: Seq<Seq<char>>)
    requires
        v.len() == w.len(),
        forall|i: int| 0 <= i < v.len() ==> lower(#[trigger] v[i]) == lower(w[i]),
    ensures
        modifiers_of(v) == modifiers_of(w),
    decreases v.len(),
{
    if v.len() > 0 {
        lemma_modifiers_lower(v.drop_last(), w.drop_last());
        assert(lower(v[v.len() - 1]) == lower(w[w.len() - 1]));
    }
}

/// Bindings may be written in capitals or small letters.
pub proof fn bindings_ignore_case(s: Seq<char>, t: Seq<char>)
    requires
        lower(s) == lower(t),
    ensures
        binding_of(s) == binding_of(t),
{
    lemma_split_lower(s);
    lemma_split_lower(t);
    let v = split(s, '+');
    let w = split(t, '+');
    assert forall|i: int| 0 <= i < v.len() implies lower(#[trigger] v[i]) == lower(w[i]) by {
        assert(split(lower(s), '+')[i] == lower(v[i]));
        assert(split(lower(t), '+')[i] == lower(w[i]));
    }
    lemma_modifiers_lower(v.drop_last(), w.drop_last());
    assert(lower(v[v.len() - 1]) == lower(w[w.len() - 1]));
}

} // verus!
