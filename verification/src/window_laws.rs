//! What holds of windows when they are opened, closed, refreshed and named.

use vstd::prelude::*;
use vstd::utf8::{encode_utf8, encode_utf8_decode_utf8, encode_utf8_valid_utf8, valid_utf8};

use crate::app::{lemma_window_at, window_at, AppState, GitOutput, GitTab, Pane, Window};
use crate::config::KeyConfig;
use crate::events::{key_room, live, probes};
use crate::git::diff::files_of;
use crate::git::refs::{branches_of, worktrees_of};
use crate::keys::{KeyCode, KeyEvent};
use crate::paths::{last_name, same};
use crate::screen::{at_least_one, reach, ScreenState};
use crate::step_laws::{for_list, for_pane, for_view, is_for};
use crate::text::{lines, white};
use crate::text_laws::{blank, trimming_takes_white_space};
use crate::util::{either_output, window_name};

verus! {

/// How many lines there are to scroll through: the rows of the selected file in
/// full screen, the lines that git printed of it otherwise, the lines of the
/// log, and none in the tabs that are lists.
pub proof fn tabs_have_their_lines<S>(w: Window<S>)
    requires
        w.wf(),
    ensures
        ({
            let k = w.diff_file_idx as int;
            let n = w.line_count();
            let diff = w.git_tab == GitTab::Diff;
            &&& diff && w.file_diffs@.len() == 0 ==> n == 0
            &&& diff && w.file_diffs@.len() > 0 && w.fullscreen ==> n == w.file_diffs@[k].sbs@.len()
            &&& diff && w.file_diffs@.len() > 0 && !w.fullscreen ==> n == lines(
                w.file_diffs@[k].content@,
            ).len()
            &&& w.git_tab == GitTab::Log ==> n == lines(w.git_log@).len()
            &&& w.git_tab == GitTab::Worktrees || w.git_tab == GitTab::Branches ==> n == 0
        }),
{
}

/// What is selected of a list that has become another: the same place if the new
/// list reaches so far, else its last, and the first of none.
pub open spec fn kept_place(at: int, len: int) -> int {
    if at < len {
        at
    } else if len > 0 {
        len - 1
    } else {
        0
    }
}

/// Refreshing a window shows what git printed, from the top and with the first
/// file selected, and keeps the places in the lists; sessions, path, name,
/// focus, tab and all switches stay.
pub proof fn refreshing_keeps_the_rest<S>(w: Window<S>, out: GitOutput, v: Window<S>)
    requires
        w.refreshed(out, v),
    ensures
        v.path == w.path && v.name == w.name && v.claude == w.claude && v.terminal == w.terminal,
        v.focused == w.focused && v.git_tab == w.git_tab && v.claude_scroll == w.claude_scroll,
        v.fullscreen == w.fullscreen && v.diff_show_list == w.diff_show_list,
        v.git_log@ == out.log@,
        v.git_worktrees.deep_view() == worktrees_of(out.worktrees@),
        v.git_branches.deep_view() == branches_of(out.branches@),
        v.file_diffs.deep_view() == files_of(out.diff@),
        v.diff_file_idx == 0 && v.diff_content_scroll == 0,
        forall|i: int| 0 <= i < 4 ==> #[trigger] v.scroll_offsets@[i] == 0,
        v.worktree_selected == kept_place(
            w.worktree_selected as int,
            v.git_worktrees@.len() as int,
        ),
        v.branch_selected == kept_place(w.branch_selected as int, v.git_branches@.len() as int),
{
    assert(v.git_worktrees.deep_view().len() == v.git_worktrees@.len());
    assert(v.git_branches.deep_view().len() == v.git_branches@.len());
}

/// Closing a window takes it out and keeps the others in order. The place in
/// front stays, or becomes the last if it is no more; with the last window the
/// program quits.
pub proof fn closing_takes_one_out<S>(a: AppState<S>, i: int)
    requires
        live(a),
        0 <= i < a.windows.len(),
    ensures
        ({
            let b = a.closed(i);
            let n = a.windows.len();
            &&& b == (AppState {
                windows: b.windows,
                active: b.active,
                should_quit: b.should_quit,
                ..a
            })
            &&& b.windows.len() == n - 1
            &&& forall|j: int| 0 <= j < i ==> #[trigger] b.windows[j] == a.windows[j]
            &&& forall|j: int| i <= j < n - 1 ==> #[trigger] b.windows[j] == a.windows[j + 1]
            &&& b.should_quit == (a.should_quit || n == 1)
            &&& n > 1 && a.active < n - 1 ==> b.active == a.active
            &&& n > 1 && a.active == n - 1 ==> b.active == n - 2
        }),
{
}

/// The window on a path is the first that is, whatever way its path is written.
pub proof fn windows_are_found_by_path<S>(a: AppState<S>, path: Seq<char>, i: int)
    ensures
        0 <= i < a.windows.len() && same(a.windows[i].path@, path) && (forall|j: int|
            0 <= j < i ==> !same((#[trigger] a.windows[j]).path@, path)) ==> a.open_at(path)
            == Some(a.windows[i]) && window_at(a.windows, path) == i && a.closed_at(path) == a.closed(i),
        (forall|j: int|
            0 <= j < a.windows.len() ==> !same((#[trigger] a.windows[j]).path@, path))
            ==> a.open_at(path) is None && a.closed_at(path) == a,
{
    lemma_window_at(a.windows, path);
    let k = window_at(a.windows, path) as int;
    if k < a.windows.len() {
        assert(same(a.windows[k].path@, path));
    }
}

/// A window is named by the branch that git printed, without the white space
/// around it; by the last name in its path if git printed none that can be read;
/// and `main` if that has none either.
pub proof fn windows_are_named_by_branch(
    path: Seq<char>,
    before: Seq<char>,
    name: Seq<char>,
    behind: Seq<char>,
    bytes: Seq<u8>,
)
    requires
        blank(before),
        blank(behind),
        name.len() > 0 ==> !white(name[0]) && !white(name.last()),
    ensures
        ({
            let otherwise = match last_name(path) {
                Some(n) => n,
                None => "main"@,
            };
            let named = window_name(path, Some(encode_utf8(before + name + behind)));
            &&& name.len() > 0 ==> named == name
            &&& name.len() == 0 ==> named == otherwise
            &&& window_name(path, None) == otherwise
            &&& !valid_utf8(bytes) ==> window_name(path, Some(bytes)) == otherwise
        }),
{
    let text = before + name + behind;
    encode_utf8_valid_utf8(text);
    encode_utf8_decode_utf8(text);
    trimming_takes_white_space(before, name, behind);
}

/// What a program printed shows; what it complained of shows only if it printed
/// nothing.
pub proof fn complaints_come_second(out: Seq<char>, err: Seq<char>)
    ensures
        out.len() > 0 ==> either_output(out, err) == out,
        out.len() == 0 ==> either_output(out, err) == err,
{
}

/// Scrolling back reaches as far as asked, but no further than there are rows
/// that have scrolled off, nor than the screen is high.
pub proof fn scrolling_back_has_its_limits(s: ScreenState, desired: nat)
    ensures
        reach(s, desired) <= desired,
        reach(s, desired) <= s.history.len(),
        reach(s, desired) <= s.size.0,
        reach(s, desired) == desired || reach(s, desired) == s.history.len() || reach(s, desired)
            == s.size.0,
{
}

/// A screen is given the size that is asked for, but one row and one column at
/// least.
pub proof fn screens_have_some_size(n: u16)
    ensures
        n > 0 ==> at_least_one(n) == n,
        n == 0 ==> at_least_one(n) == 1,
{
}

/// Only a key that scrolls down in the git pane can lack the room to do so: a
/// position and the lines that it is to move by must fit in sixteen bits.
#[verifier::rlimit(50)]
pub proof fn only_scrolling_needs_room<S>(a: AppState<S>, key: KeyEvent, kc: KeyConfig)
    requires
        live(a),
    ensures
        ({
            let w = a.front();
            let taken = is_for(kc.diff.fullscreen, key) || is_for(kc.git.refresh, key) || (is_for(
                kc.diff.explorer,
                key,
            ) && w.git_tab == GitTab::Diff);
            let here = for_pane(a, key, kc, Pane::Git) && !for_list(w, key, kc);
            let page = here && !taken && is_for(kc.diff.scroll_down, key);
            let line = here && !for_view(w, key, kc) && key.code == KeyCode::Down && (w.git_tab
                == GitTab::Log || (w.git_tab == GitTab::Diff && !w.diff_show_list));
            &&& page ==> (key_room(a, key, kc) <==> w.scroll() + 20 <= 0xffff)
            &&& line ==> (key_room(a, key, kc) <==> w.scroll() + 1 <= 0xffff)
            &&& !page && !line ==> key_room(a, key, kc)
        }),
{
}

/// The screen of the agent session is asked how far it scrolls only by the keys
/// that scroll the agent pane up.
pub proof fn only_scrolling_up_asks_the_screen<S>(a: AppState<S>, key: KeyEvent, kc: KeyConfig)
    ensures
        probes(a, key, kc) <==> for_pane(a, key, kc, Pane::Claude) && (is_for(kc.pty.scroll_up, key)
            || (is_for(kc.pty.page_up, key) && !is_for(kc.pty.scroll_down, key))),
{
}

} // verus!
