//! What each key does, and what it leaves alone.

use vstd::prelude::*;

use crate::app::{
    lemma_window_at, window_at, AppState, GitCommandView, GitTab, InputMode, Pane,
    Window,
};
use crate::config::{KeyBinding, KeyConfig};
use crate::events::{all_sizes, key_step, live, pane_dims, ActionView};
use crate::keys::{key_bytes, KeyCode, KeyEvent, KeyEventKind};
use crate::paths::{same, sibling};
use crate::screen::ScreenState;
use crate::text::trim;

verus! {

/// Whether a key that was pressed is the bound one, with its modifiers and no
/// others.
pub open spec fn is_for(b: KeyBinding, key: KeyEvent) -> bool {
    key.kind == KeyEventKind::Press && b == (KeyBinding {
        code: key.code,
        modifiers: key.modifiers,
    })
}

/// Whether a key that was pressed means the same in every pane.
pub open spec fn everywhere(key: KeyEvent, kc: KeyConfig) -> bool {
    ||| is_for(kc.global.quit, key)
    ||| is_for(kc.global.cycle_pane, key)
    ||| is_for(kc.global.next_window, key)
    ||| is_for(kc.global.prev_window, key)
    ||| is_for(kc.global.close_window, key)
}

/// Whether a key that was pressed goes to the pane with the focus.
pub open spec fn for_pane<S>(a: AppState<S>, key: KeyEvent, kc: KeyConfig, pane: Pane) -> bool {
    &&& key.kind == KeyEventKind::Press
    &&& a.input_mode is None
    &&& !everywhere(key, kc)
    &&& a.front().focused == pane
}

/// Keys that repeat or come up do nothing.
pub proof fn only_presses_count<S>(
    a: AppState<S>,
    key: KeyEvent,
    kc: KeyConfig,
    screen: Option<ScreenState>,
)
    requires
        key.kind != KeyEventKind::Press,
    ensures
        key_step(a, key, kc, screen) == (a, ActionView::<S>::Nothing),
{
}

/// A key with another code.
pub open spec fn same_press(key: KeyEvent, code: KeyCode) -> KeyEvent {
    KeyEvent { code, ..key }
}

/// A name is typed one character after the other, whatever the bindings, and
/// Backspace takes back the last; on an empty name it does nothing.
pub proof fn names_are_typed<S>(
    a: AppState<S>,
    key: KeyEvent,
    c: char,
    kc: KeyConfig,
    screen: Option<ScreenState>,
)
    requires
        a.input_mode matches Some(InputMode::NewWorktree),
        key.kind == KeyEventKind::Press,
        key.code == KeyCode::Char(c),
        !key.modifiers.control,
    ensures
        ({
            let back = same_press(key, KeyCode::Backspace);
            let (b, action) = key_step(a, key, kc, screen);
            &&& action is Nothing
            &&& b.input == a.input.push(c)
            &&& b == (AppState { input: b.input, ..a })
            &&& key_step(b, back, kc, screen) == (a, ActionView::<S>::Nothing)
            &&& a.input.len() == 0 ==> key_step(a, back, kc, screen) == (
                a,
                ActionView::<S>::Nothing,
            )
        }),
{
    assert(a.input.push(c).drop_last() =~= a.input);
}

/// While a name is asked for, Escape ends that, Control with `y` ends it and
/// leaves what was typed, and other keys that are not typed do nothing. No window
/// changes.
pub proof fn names_are_typed_only<S>(
    a: AppState<S>,
    key: KeyEvent,
    kc: KeyConfig,
    screen: Option<ScreenState>,
)
    requires
        a.input_mode matches Some(InputMode::NewWorktree),
        key.kind == KeyEventKind::Press,
        key.code != KeyCode::Enter,
        key.code != KeyCode::Backspace,
        key.code is Char ==> key.modifiers.control,
    ensures
        ({
            let (b, action) = key_step(a, key, kc, screen);
            let yes = key.code == KeyCode::Char('y') || key.code == KeyCode::Char('Y');
            &&& action is Nothing
            &&& key.code == KeyCode::Esc ==> b == (AppState {
                input_mode: None,
                input: Seq::empty(),
                ..a
            })
            &&& yes ==> b == (AppState { input_mode: None, ..a })
            &&& !yes && key.code != KeyCode::Esc ==> b == a
        }),
{
}

/// A name that is accepted is used without the white space around it, for the
/// branch and for the directory, next to that of the window in front; a blank
/// one is not used. Either way the question is over and nothing else changes.
pub proof fn accepted_names_are_used<S>(
    a: AppState<S>,
    key: KeyEvent,
    kc: KeyConfig,
    screen: Option<ScreenState>,
)
    requires
        a.input_mode matches Some(InputMode::NewWorktree),
        key.kind == KeyEventKind::Press,
        key.code == KeyCode::Enter,
    ensures
        ({
            let name = trim(a.input);
            let path = sibling(a.front().path@, name);
            let (b, action) = key_step(a, key, kc, screen);
            &&& b == (AppState { input_mode: None, input: Seq::empty(), ..a })
            &&& name.len() == 0 ==> action is Nothing
            &&& name.len() > 0 ==> action == ActionView::<S>::CreateWorktree(
                GitCommandView {
                    dir: a.front().path@,
                    args: seq!["worktree"@, "add"@, "-b"@, name, path],
                },
                path,
            )
        }),
{
}

/// Only `y` confirms a deletion. It is the branch or the worktree that was asked
/// about that is deleted, with git run where the window in front is; a window on
/// that worktree is closed, and no other.
#[verifier::rlimit(50)]
pub proof fn confirmed_deletions_are_done<S>(
    a: AppState<S>,
    key: KeyEvent,
    kc: KeyConfig,
    screen: Option<ScreenState>,
)
    requires
        live(a),
        a.input_mode is Some,
        !(a.input_mode matches Some(InputMode::NewWorktree)),
        key.kind == KeyEventKind::Press,
    ensures
        ({
            let (b, action) = key_step(a, key, kc, screen);
            let yes = key.code == KeyCode::Char('y') || key.code == KeyCode::Char('Y');
            let over = yes || key.code == KeyCode::Char('n') || key.code == KeyCode::Char('N')
                || key.code == KeyCode::Esc || key.code == KeyCode::Enter;
            &&& b.input_mode == if over {
                None
            } else {
                a.input_mode
            }
            &&& b.input == if over {
                Seq::empty()
            } else {
                a.input
            }
            &&& b.pty_dims == a.pty_dims && b.should_quit == a.should_quit
            &&& !yes ==> action is Nothing && b.windows == a.windows && b.active == a.active
            &&& yes ==> match a.input_mode->0 {
                InputMode::ConfirmDeleteBranch(name) => {
                    &&& b.windows == a.windows && b.active == a.active
                    &&& action == ActionView::<S>::DeleteBranch(
                        GitCommandView {
                            dir: a.front().path@,
                            args: seq!["branch"@, "-d"@, name@],
                        },
                    )
                },
                InputMode::ConfirmDelete(path, _) => {
                    &&& action matches ActionView::DeleteWorktree(gone, command)
                    &&& command == (GitCommandView {
                        dir: b.front().path@,
                        args: seq!["worktree"@, "remove"@, "--force"@, path@],
                    })
                    &&& match gone {
                        None => b.windows == a.windows && b.active == a.active && forall|i: int|
                            0 <= i < a.windows.len() ==> !same(
                                (#[trigger] a.windows[i]).path@,
                                path@,
                            ),
                        Some(w) => exists|i: int|
                            0 <= i < a.windows.len() && w == a.windows[i] && same(w.path@, path@)
                                && b.windows == #[trigger] a.windows.remove(i),
                    }
                },
                InputMode::NewWorktree => true,
            }
        }),
{
    if let Some(InputMode::ConfirmDelete(path, _)) = a.input_mode {
        let i = window_at(a.windows, path@) as int;
        lemma_window_at(a.windows, path@);
        if i < a.windows.len() {
            assert(key.code == KeyCode::Char('y') ==> key_step(a, key, kc, screen).0.windows
                == a.windows.remove(i));
        }
    }
}

/// Keys that mean the same everywhere: one quits; one moves the focus on and does
/// nothing else to the window in front; two bring the next or the previous
/// window to the front, counted round, and change no window; one closes the
/// window in front and keeps the others in order, the last one quitting.
#[verifier::rlimit(50)]
pub proof fn keys_that_work_everywhere<S>(
    a: AppState<S>,
    key: KeyEvent,
    kc: KeyConfig,
    screen: Option<ScreenState>,
)
    requires
        live(a),
        a.input_mode is None,
        everywhere(key, kc),
    ensures
        ({
            let (b, action) = key_step(a, key, kc, screen);
            let n = a.windows.len() as int;
            let i = a.active;
            let quit = is_for(kc.global.quit, key);
            let cycle = !quit && is_for(kc.global.cycle_pane, key);
            let next = !quit && !cycle && is_for(kc.global.next_window, key);
            let prev = !quit && !cycle && !next && is_for(kc.global.prev_window, key);
            let close = !quit && !cycle && !next && !prev;
            &&& b.input_mode is None && b.input == a.input && b.pty_dims == a.pty_dims
            &&& b.should_quit == (a.should_quit || quit || (close && n == 1))
            &&& !close ==> action is Nothing && b.windows.len() == n
            &&& !close ==> forall|j: int|
                0 <= j < n && j != i ==> #[trigger] b.windows[j] == a.windows[j]
            &&& !cycle && !close ==> b.windows == a.windows
            &&& quit || cycle ==> b.active == i
            &&& cycle ==> {
                &&& b.front() == (Window { focused: b.front().focused, ..a.front() })
                &&& a.front().focused == Pane::Claude ==> b.front().focused == Pane::Git
                &&& a.front().focused == Pane::Git ==> b.front().focused == Pane::Terminal
                &&& a.front().focused == Pane::Terminal ==> b.front().focused == Pane::Claude
            }
            &&& next ==> b.active == (if i + 1 == n {
                0
            } else {
                i + 1
            })
            &&& prev ==> b.active == (if i == 0 {
                n - 1
            } else {
                i - 1
            })
            &&& close ==> {
                &&& action == ActionView::Close(a.front())
                &&& b.windows.len() == n - 1
                &&& forall|j: int| 0 <= j < i ==> #[trigger] b.windows[j] == a.windows[j]
                &&& forall|j: int| i <= j < n - 1 ==> #[trigger] b.windows[j] == a.windows[j + 1]
                &&& n > 1 ==> b.active == (if i == n - 1 {
                    n - 2
                } else {
                    i
                })
            }
        }),
{
    let n = a.windows.len() as int;
    let i = a.active;
    lemma_turn(i, n);
}

proof fn lemma_turn(i: int, n: int)
    requires
        0 <= i < n,
    ensures
        (i + 1) % n == (if i + 1 == n {
            0
        } else {
            i + 1
        }),
        (i - 1) % n == (if i == 0 {
            n - 1
        } else {
            i - 1
        }),
{
    if i + 1 < n {
        vstd::arithmetic::div_mod::lemma_small_mod((i + 1) as nat, n as nat);
    } else {
        vstd::arithmetic::div_mod::lemma_mod_self_0(n);
    }
    if i > 0 {
        vstd::arithmetic::div_mod::lemma_small_mod((i - 1) as nat, n as nat);
    } else {
        vstd::arithmetic::div_mod::lemma_mod_add_multiples_vanish(i - 1, n);
        vstd::arithmetic::div_mod::lemma_small_mod((n - 1) as nat, n as nat);
    }
}

/// A key in the terminal pane goes to its session as a terminal would send it,
/// and does nothing else.
pub proof fn the_terminal_gets_its_keys<S>(
    a: AppState<S>,
    key: KeyEvent,
    kc: KeyConfig,
    screen: Option<ScreenState>,
)
    requires
        for_pane(a, key, kc, Pane::Terminal),
    ensures
        key_step(a, key, kc, screen).0 == a,
        a.front().terminal is Some && key_bytes(key).len() > 0 ==> key_step(a, key, kc, screen).1
            == ActionView::<S>::Send(Pane::Terminal, key_bytes(key)),
        a.front().terminal is None || key_bytes(key).len() == 0 ==> key_step(
            a,
            key,
            kc,
            screen,
        ).1 is Nothing,
{
}

/// A key in the agent pane scrolls it, by three rows or by twenty, as far as
/// there is something to see, or goes to its session and shows the last rows
/// again. Nothing else of the window changes.
#[verifier::rlimit(50)]
pub proof fn the_agent_gets_its_keys<S>(
    a: AppState<S>,
    key: KeyEvent,
    kc: KeyConfig,
    screen: Option<ScreenState>,
)
    requires
        live(a),
        for_pane(a, key, kc, Pane::Claude),
    ensures
        ({
            let (b, action) = key_step(a, key, kc, screen);
            let w = a.front();
            let v = b.front();
            let up = is_for(kc.pty.scroll_up, key);
            let down = !up && is_for(kc.pty.scroll_down, key);
            let page_up = !up && !down && is_for(kc.pty.page_up, key);
            let page_down = !up && !down && !page_up && is_for(kc.pty.page_down, key);
            let by = if up || down {
                3int
            } else {
                20
            };
            &&& b == (AppState { windows: b.windows, ..a })
            &&& b.windows.len() == a.windows.len()
            &&& forall|j: int|
                0 <= j < a.windows.len() && j != a.active ==> #[trigger] b.windows[j]
                    == a.windows[j]
            &&& v == (Window { claude_scroll: v.claude_scroll, ..w })
            &&& up || page_up ==> {
                &&& action is Nothing
                &&& v.claude_scroll <= w.claude_scroll + by
                &&& match screen {
                    Some(s) => {
                        &&& v.claude_scroll <= s.history.len()
                        &&& v.claude_scroll <= s.size.0
                        &&& v.claude_scroll == w.claude_scroll + by || v.claude_scroll
                            == s.history.len() || v.claude_scroll == s.size.0
                    },
                    None => v.claude_scroll == 0,
                }
            }
            &&& down || page_down ==> {
                &&& action is Nothing
                &&& w.claude_scroll >= by ==> v.claude_scroll == w.claude_scroll - by
                &&& w.claude_scroll < by ==> v.claude_scroll == 0
            }
            &&& !up && !down && !page_up && !page_down ==> {
                &&& v.claude_scroll == 0
                &&& w.claude is Some && key_bytes(key).len() > 0 ==> action
                    == ActionView::<S>::Send(Pane::Claude, key_bytes(key))
                &&& w.claude is None || key_bytes(key).len() == 0 ==> action is Nothing
            }
        }),
{
}

/// Whether `b` is `a` but for the window in front, of which the sessions, the
/// path, the name, the focus and all that git printed are the same, and but for
/// whether to quit.
pub open spec fn same_elsewhere<S>(a: AppState<S>, b: AppState<S>) -> bool {
    let w = a.front();
    let v = b.front();
    &&& b == (AppState { windows: b.windows, should_quit: b.should_quit, ..a })
    &&& b.windows.len() == a.windows.len()
    &&& forall|j: int|
        0 <= j < a.windows.len() && j != a.active ==> #[trigger] b.windows[j] == a.windows[j]
    &&& v == (Window {
        git_tab: v.git_tab,
        scroll_offsets: v.scroll_offsets,
        diff_file_idx: v.diff_file_idx,
        diff_content_scroll: v.diff_content_scroll,
        diff_show_list: v.diff_show_list,
        fullscreen: v.fullscreen,
        worktree_selected: v.worktree_selected,
        branch_selected: v.branch_selected,
        ..w
    })
}

/// Opening the selected worktree brings a window on it to the front, or asks for
/// one where there is none, and changes nothing else.
#[verifier::rlimit(50)]
pub proof fn selected_worktrees_are_opened<S>(
    a: AppState<S>,
    key: KeyEvent,
    kc: KeyConfig,
    screen: Option<ScreenState>,
)
    requires
        live(a),
        for_pane(a, key, kc, Pane::Git),
        a.front().git_tab == GitTab::Worktrees,
        is_for(kc.git.open, key),
    ensures
        ({
            let (b, action) = key_step(a, key, kc, screen);
            let w = a.front();
            let k = w.worktree_selected as int;
            let path = w.git_worktrees@[k].path@;
            let none = forall|i: int|
                0 <= i < a.windows.len() ==> !same((#[trigger] a.windows[i]).path@, path);
            &&& b == (AppState { active: b.active, ..a })
            &&& w.git_worktrees@.len() == 0 ==> b == a && action is Nothing
            &&& w.git_worktrees@.len() > 0 && none ==> b == a && action == ActionView::<S>::Open(
                path,
            )
            &&& w.git_worktrees@.len() > 0 && !none ==> {
                &&& action is Nothing
                &&& 0 <= b.active < b.windows.len()
                &&& same(b.front().path@, path)
            }
        }),
{
    let w = a.front();
    assert(w.wf());
    if w.git_worktrees@.len() > 0 {
        lemma_window_at(a.windows, w.git_worktrees@[w.worktree_selected as int].path@);
    }
}

/// In the worktree tab a new worktree is asked for, with an empty name, and the
/// delete key asks about the selected worktree, unless that is the one in front.
#[verifier::rlimit(50)]
pub proof fn worktree_questions_are_about_the_selection<S>(
    a: AppState<S>,
    key: KeyEvent,
    kc: KeyConfig,
    screen: Option<ScreenState>,
)
    requires
        live(a),
        for_pane(a, key, kc, Pane::Git),
        a.front().git_tab == GitTab::Worktrees,
        !is_for(kc.git.open, key),
        is_for(kc.git.new_worktree, key) || is_for(kc.git.delete, key),
    ensures
        ({
            let (b, action) = key_step(a, key, kc, screen);
            let w = a.front();
            let new = is_for(kc.git.new_worktree, key);
            let wt = w.git_worktrees@[w.worktree_selected as int];
            let ask = !new && w.git_worktrees@.len() > 0 && !same(w.path@, wt.path@);
            &&& action is Nothing
            &&& new ==> b == (AppState {
                input_mode: Some(InputMode::NewWorktree),
                input: Seq::empty(),
                ..a
            })
            &&& ask ==> b == (AppState {
                input_mode: Some(InputMode::ConfirmDelete(wt.path, wt.name)),
                ..a
            })
            &&& !new && !ask ==> b == a
        }),
{
    assert(a.front().wf());
}

/// In the branch tab the delete key asks about the selected branch, unless that
/// is the current one.
#[verifier::rlimit(50)]
pub proof fn branch_questions_are_about_the_selection<S>(
    a: AppState<S>,
    key: KeyEvent,
    kc: KeyConfig,
    screen: Option<ScreenState>,
)
    requires
        live(a),
        for_pane(a, key, kc, Pane::Git),
        a.front().git_tab == GitTab::Branches,
        is_for(kc.git.delete, key),
    ensures
        ({
            let (b, action) = key_step(a, key, kc, screen);
            let w = a.front();
            let br = w.git_branches@[w.branch_selected as int];
            let ask = w.git_branches@.len() > 0 && !br.is_current;
            &&& action is Nothing
            &&& ask ==> b == (AppState {
                input_mode: Some(InputMode::ConfirmDeleteBranch(br.name)),
                ..a
            })
            &&& !ask ==> b == a
        }),
{
    assert(a.front().wf());
}

/// Whether a key that was pressed is for the list in the current tab.
pub open spec fn for_list<S>(w: Window<S>, key: KeyEvent, kc: KeyConfig) -> bool {
    ||| w.git_tab == GitTab::Worktrees && (is_for(kc.git.open, key) || is_for(
        kc.git.new_worktree,
        key,
    ) || is_for(kc.git.delete, key))
    ||| w.git_tab == GitTab::Branches && is_for(kc.git.delete, key)
}

/// Whether a key that was pressed is bound to something that shows in the git
/// pane.
pub open spec fn for_view<S>(w: Window<S>, key: KeyEvent, kc: KeyConfig) -> bool {
    ||| is_for(kc.diff.fullscreen, key)
    ||| is_for(kc.git.refresh, key)
    ||| is_for(kc.diff.explorer, key) && w.git_tab == GitTab::Diff
    ||| is_for(kc.diff.scroll_down, key)
    ||| is_for(kc.diff.scroll_up, key)
}

/// Keys in the git pane that are not for a list change only what shows of the
/// window in front. They ask for nothing but to run git again, on the key for
/// that; `q` and Control with `c` quit, and no other key does.
#[verifier::rlimit(50)]
pub proof fn git_keys_change_the_view_only<S>(
    a: AppState<S>,
    key: KeyEvent,
    kc: KeyConfig,
    screen: Option<ScreenState>,
)
    requires
        live(a),
        for_pane(a, key, kc, Pane::Git),
        !for_list(a.front(), key, kc),
    ensures
        ({
            let (b, action) = key_step(a, key, kc, screen);
            let m = key.modifiers;
            let bare = !m.shift && !m.alt && !m.super_key && !m.hyper && !m.meta;
            let refresh = is_for(kc.git.refresh, key) && !is_for(kc.diff.fullscreen, key);
            &&& same_elsewhere(a, b)
            &&& b.should_quit == (a.should_quit || (bare && ((key.code == KeyCode::Char('q')
                && !m.control) || (key.code == KeyCode::Char('c') && m.control))))
            &&& refresh ==> action == ActionView::<S>::Refresh && b.front() == a.front()
            &&& !refresh ==> action is Nothing
        }),
{
    assert(a.windows.update(a.active, a.front()) =~= a.windows);
}

/// The full-screen key and, on diffs, the key for the list of files switch what
/// they are for on and off: pressed twice they change nothing but that going to
/// full screen starts at the top.
#[verifier::rlimit(50)]
pub proof fn switches_go_back<S>(
    a: AppState<S>,
    key: KeyEvent,
    kc: KeyConfig,
    screen: Option<ScreenState>,
)
    requires
        live(a),
        for_pane(a, key, kc, Pane::Git),
        !for_list(a.front(), key, kc),
    ensures
        ({
            let b = key_step(a, key, kc, screen).0.front();
            let w = a.front();
            let full = is_for(kc.diff.fullscreen, key);
            let list = !full && !is_for(kc.git.refresh, key) && is_for(kc.diff.explorer, key)
                && w.git_tab == GitTab::Diff;
            &&& b.fullscreen == (w.fullscreen != full)
            &&& b.diff_show_list == (w.diff_show_list != list)
            &&& full ==> b == (Window {
                fullscreen: b.fullscreen,
                diff_content_scroll: 0,
                ..w
            })
            &&& list ==> b == (Window { diff_show_list: b.diff_show_list, ..w })
        }),
{
}

/// How far along a list one is after a step down, or up.
pub open spec fn stepped(at: int, len: int, down: bool) -> int {
    if down && at + 1 < len {
        at + 1
    } else if !down && at > 0 {
        at - 1
    } else {
        at
    }
}

/// The arrows left and right go to the tab beside the current one, counted
/// round. Up and down move the selection by one and stop at the ends of the list;
/// another file shows from its top. Each changes nothing else.
#[verifier::rlimit(50)]
pub proof fn arrows_move_by_one<S>(
    a: AppState<S>,
    key: KeyEvent,
    kc: KeyConfig,
    screen: Option<ScreenState>,
)
    requires
        live(a),
        for_pane(a, key, kc, Pane::Git),
        !for_list(a.front(), key, kc),
        !for_view(a.front(), key, kc),
    ensures
        ({
            let b = key_step(a, key, kc, screen).0.front();
            let w = a.front();
            let t = w.git_tab;
            let down = key.code == KeyCode::Down;
            let turn = down || key.code == KeyCode::Up;
            let files = t == GitTab::Diff && w.diff_show_list;
            &&& !turn && key.code != KeyCode::Left && key.code != KeyCode::Right ==> b == w
            &&& key.code == KeyCode::Right ==> {
                &&& b == (Window { git_tab: b.git_tab, ..w })
                &&& t == GitTab::Diff ==> b.git_tab == GitTab::Worktrees
                &&& t == GitTab::Worktrees ==> b.git_tab == GitTab::Branches
                &&& t == GitTab::Branches ==> b.git_tab == GitTab::Log
                &&& t == GitTab::Log ==> b.git_tab == GitTab::Diff
            }
            &&& key.code == KeyCode::Left ==> {
                &&& b == (Window { git_tab: b.git_tab, ..w })
                &&& t == GitTab::Diff ==> b.git_tab == GitTab::Log
                &&& t == GitTab::Worktrees ==> b.git_tab == GitTab::Diff
                &&& t == GitTab::Branches ==> b.git_tab == GitTab::Worktrees
                &&& t == GitTab::Log ==> b.git_tab == GitTab::Branches
            }
            &&& turn && t == GitTab::Worktrees ==> {
                &&& b == (Window { worktree_selected: b.worktree_selected, ..w })
                &&& b.worktree_selected == stepped(
                    w.worktree_selected as int,
                    w.git_worktrees@.len() as int,
                    down,
                )
            }
            &&& turn && t == GitTab::Branches ==> {
                &&& b == (Window { branch_selected: b.branch_selected, ..w })
                &&& b.branch_selected == stepped(
                    w.branch_selected as int,
                    w.git_branches@.len() as int,
                    down,
                )
            }
            &&& turn && files ==> {
                &&& b == (Window {
                    diff_file_idx: b.diff_file_idx,
                    diff_content_scroll: b.diff_content_scroll,
                    ..w
                })
                &&& b.diff_file_idx == stepped(
                    w.diff_file_idx as int,
                    w.file_diffs@.len() as int,
                    down,
                )
                &&& b.diff_content_scroll == 0 || w.file_diffs@.len() == 0
            }
        }),
{
    let w = a.front();
    assert(w.wf());
    assert(w.git_worktrees.len() == w.git_worktrees@.len());
    assert(w.git_branches.len() == w.git_branches@.len());
    assert(w.file_diffs.len() == w.file_diffs@.len());
    assert(a.windows.update(a.active, a.front()) =~= a.windows);
}

/// Where the text of a tab is scrolled: down to the line asked for or, if there
/// are not so many, to the last, as far as positions go; up to it or to the
/// first. Only the position of the current tab changes.
#[verifier::rlimit(50)]
pub proof fn scrolling_moves_by_so_much<S>(w: Window<S>, amount: u16)
    ensures
        ({
            let d = w.down(amount);
            let u = w.up(amount);
            let last = if w.line_count() == 0 {
                0
            } else {
                (w.line_count() - 1) % 0x1_0000
            };
            &&& w.scroll() + amount <= last ==> d.scroll() == w.scroll() + amount
            &&& w.scroll() + amount > last ==> d.scroll() == last
            &&& w.scroll() >= amount ==> u.scroll() == w.scroll() - amount
            &&& w.scroll() < amount ==> u.scroll() == 0
            &&& d == (Window {
                scroll_offsets: d.scroll_offsets,
                diff_content_scroll: d.diff_content_scroll,
                ..w
            })
            &&& u == (Window {
                scroll_offsets: u.scroll_offsets,
                diff_content_scroll: u.diff_content_scroll,
                ..w
            })
            &&& w.git_tab == GitTab::Diff ==> d.scroll_offsets == w.scroll_offsets
                && u.scroll_offsets == w.scroll_offsets
            &&& w.git_tab != GitTab::Diff ==> d.diff_content_scroll == w.diff_content_scroll
                && u.diff_content_scroll == w.diff_content_scroll
            &&& forall|i: int|
                0 <= i < 4 && (w.git_tab == GitTab::Diff || i != w.git_tab.place())
                    ==> #[trigger] d.scroll_offsets@[i] == w.scroll_offsets@[i]
                    && u.scroll_offsets@[i] == w.scroll_offsets@[i]
        }),
{
}

/// Keys that scroll the git pane do so by twenty lines, and the arrows by one
/// where nothing is selected.
#[verifier::rlimit(50)]
pub proof fn keys_scroll_the_git_pane<S>(
    a: AppState<S>,
    key: KeyEvent,
    kc: KeyConfig,
    screen: Option<ScreenState>,
)
    requires
        live(a),
        for_pane(a, key, kc, Pane::Git),
        !for_list(a.front(), key, kc),
    ensures
        ({
            let b = key_step(a, key, kc, screen).0.front();
            let w = a.front();
            let taken = is_for(kc.diff.fullscreen, key) || is_for(kc.git.refresh, key) || (is_for(
                kc.diff.explorer,
                key,
            ) && w.git_tab == GitTab::Diff);
            let text = w.git_tab == GitTab::Log || (w.git_tab == GitTab::Diff
                && !w.diff_show_list);
            &&& !taken && is_for(kc.diff.scroll_down, key) ==> b == w.down(20)
            &&& !taken && !is_for(kc.diff.scroll_down, key) && is_for(kc.diff.scroll_up, key) ==> b
                == w.up(20)
            &&& !for_view(w, key, kc) && text && key.code == KeyCode::Down ==> b == w.down(1)
            &&& !for_view(w, key, kc) && text && key.code == KeyCode::Up ==> b == w.up(1)
        }),
{
}

/// The sizes of the panes on a display: half of the columns, and all of the rows
/// but the window bar's, less two for the borders; the terminal has two fifths
/// of these rows, rounded down, less its borders, and one row at least.
pub proof fn panes_fit_the_display(cols: u16, rows: u16)
    ensures
        ({
            let (half, agent, term) = pane_dims(cols, rows);
            let content = if rows == 0 {
                0
            } else {
                rows - 1
            };
            &&& cols >= 4 ==> cols - 1 <= 2 * (half + 2) <= cols
            &&& cols < 4 ==> half == 0
            &&& rows >= 3 ==> agent + 3 == rows
            &&& rows < 3 ==> agent == 0
            &&& content >= 8 ==> 5 * (term + 2) <= 2 * content < 5 * (term + 3)
            &&& content < 8 ==> term == 1
        }),
{
    let content = if rows == 0 {
        0
    } else {
        rows - 1
    };
    assert(content * 40 / 100 == 2 * content / 5);
}

/// How many sessions the first windows have that get a new size: all of the
/// agents', and the terminals' where the window is not in full screen.
pub open spec fn sized_sessions<S>(ws: Seq<Window<S>>) -> nat
    decreases ws.len(),
{
    if ws.len() == 0 {
        0
    } else {
        let w = ws.last();
        sized_sessions(ws.drop_last()) + (if w.claude is Some {
            1nat
        } else {
            0
        }) + (if w.terminal is Some && !w.fullscreen {
            1nat
        } else {
            0
        })
    }
}

/// A number, but one at least.
pub open spec fn positive(n: int) -> int {
    if n < 1 {
        1
    } else {
        n
    }
}

/// Each session of a window gets one new size, that of its pane; the agent has
/// the whole width while its pane is in full screen, and the terminal gets none
/// in full screen.
#[verifier::rlimit(50)]
pub proof fn sessions_get_the_size_of_their_pane<S>(
    ws: Seq<Window<S>>,
    cols: u16,
    rows: u16,
    i: int,
)
    requires
        ws.len() <= usize::MAX,
        0 <= i < ws.len(),
    ensures
        ({
            let (half, agent, term) = pane_dims(cols, rows);
            let w = ws[i];
            let all = all_sizes(ws, cols, rows);
            let at = sized_sessions(ws.take(i)) as int;
            let next = at + if w.claude is Some {
                1int
            } else {
                0
            };
            let wide = w.fullscreen && w.focused == Pane::Claude;
            &&& all.len() == sized_sessions(ws)
            &&& w.claude is Some ==> {
                &&& at < all.len()
                &&& all[at].window == i && all[at].pane == Pane::Claude
                &&& all[at].cols == positive(if wide {
                    cols - 2
                } else {
                    half as int
                })
                &&& all[at].rows == positive(agent as int)
            }
            &&& w.terminal is Some && !w.fullscreen ==> {
                &&& next < all.len()
                &&& all[next].window == i && all[next].pane == Pane::Terminal
                &&& all[next].cols == positive(half as int)
                &&& all[next].rows == positive(term as int)
            }
        }),
    decreases ws.len(),
{
    let shorter = ws.drop_last();
    lemma_sized(ws, cols, rows);
    lemma_sized(shorter, cols, rows);
    if i < ws.len() - 1 {
        assert(shorter.take(i) =~= ws.take(i));
        sessions_get_the_size_of_their_pane(shorter, cols, rows, i);
    } else {
        assert(ws.take(i) =~= shorter);
    }
}

proof fn lemma_sized<S>(ws: Seq<Window<S>>, cols: u16, rows: u16)
    ensures
        all_sizes(ws, cols, rows).len() == sized_sessions(ws),
    decreases ws.len(),
{
    if ws.len() > 0 {
        lemma_sized(ws.drop_last(), cols, rows);
    }
}

} // verus!
