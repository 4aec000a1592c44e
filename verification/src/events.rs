//! What keys and resizes do.

use vstd::prelude::*;

use crate::app::{
    add_command, delete_command, last_index, least, lemma_window_at, remove_command, resize_of,
    window_at, App, AppState, GitCommand, GitCommandView, GitTab, InputMode, Pane, PtyResize,
    Window,
};
use crate::config::KeyConfig;
use crate::keys::{
    control_only, key_bytes, key_to_bytes, no_modifiers, KeyCode, KeyEvent, KeyEventKind,
    KeyModifiers,
};
use crate::paths::{same, same_path, sibling};
use crate::screen::{probe_scroll, reach, screen_of, state_of, ScreenState};
use crate::text::{to_chars, to_text, trim, trimmed};

verus! {

/// What is left to do outside after an event.
pub enum Action<S> {
    Nothing,
    /// Write bytes to a session of the window in front.
    Send(Pane, Vec<u8>),
    /// End the sessions of a closed window.
    Close(Window<S>),
    /// Make a window on a path and add it.
    Open(String),
    /// Run a command that makes a worktree at the path, and tell
    /// `worktree_created` how it went.
    CreateWorktree(GitCommand, String),
    /// Refresh the window in front, then open a window on the path.
    Show(String),
    /// End the sessions of the closed window, run a command and refresh the
    /// window in front.
    DeleteWorktree(Option<Window<S>>, GitCommand),
    /// Run a command and refresh the window in front.
    DeleteBranch(GitCommand),
    /// Refresh the window in front.
    Refresh,
}

/// The text of an action.
pub enum ActionView<S> {
    Nothing,
    Send(Pane, Seq<u8>),
    Close(Window<S>),
    Open(Seq<char>),
    CreateWorktree(GitCommandView, Seq<char>),
    Show(Seq<char>),
    DeleteWorktree(Option<Window<S>>, GitCommandView),
    DeleteBranch(GitCommandView),
    Refresh,
}

impl<S> View for Action<S> {
    type V = ActionView<S>;

    open spec fn view(&self) -> ActionView<S> {
        match *self {
            Action::Nothing => ActionView::Nothing,
            Action::Send(pane, bytes) => ActionView::Send(pane, bytes@),
            Action::Close(w) => ActionView::Close(w),
            Action::Open(path) => ActionView::Open(path@),
            Action::CreateWorktree(c, path) => ActionView::CreateWorktree(c@, path@),
            Action::Show(path) => ActionView::Show(path@),
            Action::DeleteWorktree(w, c) => ActionView::DeleteWorktree(w, c@),
            Action::DeleteBranch(c) => ActionView::DeleteBranch(c@),
            Action::Refresh => ActionView::Refresh,
        }
    }
}

/// The state with the question taken back.
pub open spec fn dismissed<S>(a: AppState<S>) -> AppState<S> {
    AppState { input_mode: None, input: Seq::empty(), ..a }
}

/// Whether the user is being asked for a name.
pub open spec fn asks_name<S>(a: AppState<S>) -> bool {
    a.input_mode matches Some(InputMode::NewWorktree)
}

/// What an answer of yes does.
pub open spec fn confirmed<S>(a: AppState<S>) -> (AppState<S>, ActionView<S>) {
    match a.input_mode {
        Some(InputMode::ConfirmDelete(path, _)) => {
            let b = dismissed(a).closed_at(path@);
            (
                b,
                ActionView::DeleteWorktree(
                    a.open_at(path@),
                    remove_command(b.front().path@, path@),
                ),
            )
        },
        Some(InputMode::ConfirmDeleteBranch(name)) => (
            dismissed(a),
            ActionView::DeleteBranch(delete_command(a.front().path@, name@)),
        ),
        _ => (AppState { input_mode: None, ..a }, ActionView::Nothing),
    }
}

/// What a key does while the user is being asked something. A name is typed;
/// other questions are answered with `y` or `n`. Escape takes the question back,
/// and so does Enter, which also accepts a name that is not blank.
pub open spec fn input_step<S>(a: AppState<S>, key: KeyEvent) -> (AppState<S>, ActionView<S>) {
    match key.code {
        KeyCode::Esc => (dismissed(a), ActionView::Nothing),
        KeyCode::Enter => if a.input_mode is None {
            (a, ActionView::Nothing)
        } else if asks_name(a) && trim(a.input).len() > 0 {
            (
                dismissed(a),
                ActionView::CreateWorktree(
                    add_command(a.front().path@, trim(a.input)),
                    sibling(a.front().path@, trim(a.input)),
                ),
            )
        } else {
            (dismissed(a), ActionView::Nothing)
        },
        KeyCode::Backspace => if asks_name(a) && a.input.len() > 0 {
            (AppState { input: a.input.drop_last(), ..a }, ActionView::Nothing)
        } else {
            (a, ActionView::Nothing)
        },
        KeyCode::Char(c) => if asks_name(a) && !key.modifiers.control {
            (AppState { input: a.input.push(c), ..a }, ActionView::Nothing)
        } else if c == 'y' || c == 'Y' {
            confirmed(a)
        } else if (c == 'n' || c == 'N') && a.input_mode is Some && !asks_name(a) {
            (dismissed(a), ActionView::Nothing)
        } else {
            (a, ActionView::Nothing)
        },
        _ => (a, ActionView::Nothing),
    }
}

/// A window that is not in front is not the only one.
proof fn lemma_close_leaves_one<S>(a: AppState<S>, path: Seq<char>)
    requires
        a.sound(),
        a.windows.len() > 0,
        !same(a.front().path@, path),
    ensures
        a.closed_at(path).windows.len() > 0,
{
    lemma_window_at(a.windows, path);
}

/// Whether the program stands between events with a window in front.
pub open spec fn live<S>(a: AppState<S>) -> bool {
    a.wf() && a.windows.len() > 0
}

fn handle_yes<S>(app: &mut App<S>) -> (r: Action<S>)
    requires
        live(old(app)@),
    ensures
        (final(app)@, r@) == confirmed(old(app)@),
        final(app)@.wf(),
{
    let mode = app.input_mode.take();
    match mode {
        Some(InputMode::ConfirmDelete(path, _)) => {
            app.input_buf = String::new();
            assert(app@ =~= dismissed(old(app)@));
            let (closed, command) = app.delete_worktree(path.as_str());
            Action::DeleteWorktree(closed, command)
        },
        Some(InputMode::ConfirmDeleteBranch(name)) => {
            app.input_buf = String::new();
            Action::DeleteBranch(app.delete_branch(name.as_str()))
        },
        _ => Action::Nothing,
    }
}

/// Handles a key while the user is being asked something.
pub fn handle_input_mode<S>(app: &mut App<S>, key: KeyEvent) -> (r: Action<S>)
    requires
        live(old(app)@),
    ensures
        (final(app)@, r@) == input_step(old(app)@, key),
        final(app)@.wf(),
{
    let named = matches!(app.input_mode, Some(InputMode::NewWorktree));
    match key.code {
        KeyCode::Esc => {
            app.input_mode = None;
            app.input_buf = String::new();
            Action::Nothing
        },
        KeyCode::Enter => {
            let mode = app.input_mode.take();
            match mode {
                Some(InputMode::NewWorktree) => {
                    let cs = to_chars(app.input_buf.as_str());
                    let name = to_text(trimmed(cs.as_slice()));
                    app.input_buf = String::new();
                    if !name.as_str().is_empty() {
                        let (command, target) = app.create_worktree(name.as_str());
                        Action::CreateWorktree(command, target)
                    } else {
                        Action::Nothing
                    }
                },
                Some(_) => {
                    app.input_buf = String::new();
                    Action::Nothing
                },
                None => Action::Nothing,
            }
        },
        KeyCode::Backspace => {
            if named {
                let _ = app.input_buf.pop();
            }
            Action::Nothing
        },
        KeyCode::Char(c) => {
            if named && !key.modifiers.control {
                app.input_buf.push(c);
                Action::Nothing
            } else if c == 'y' || c == 'Y' {
                handle_yes(app)
            } else {
                if (c == 'n' || c == 'N') && app.input_mode.is_some() && !named {
                    app.input_mode = None;
                    app.input_buf = String::new();
                }
                Action::Nothing
            }
        },
        _ => Action::Nothing,
    }
}

/// What is left to do once the command that makes a worktree has run: a new
/// worktree is shown, and a failure changes nothing.
pub fn worktree_created<S>(succeeded: bool, target: String) -> (r: Action<S>)
    ensures
        r@ == (if succeeded {
            ActionView::<S>::Show(target@)
        } else {
            ActionView::<S>::Nothing
        }),
{
    if succeeded {
        Action::Show(target)
    } else {
        Action::Nothing
    }
}

/// What opening a path does: the window on it comes to the front, or one has to
/// be made.
pub open spec fn open_step<S>(a: AppState<S>, path: Seq<char>) -> (AppState<S>, ActionView<S>) {
    if a.open_at(path) is Some {
        (AppState { active: window_at(a.windows, path) as int, ..a }, ActionView::Nothing)
    } else {
        (a, ActionView::Open(path))
    }
}

/// What an arrow key does in the git pane: left and right change the tab, up
/// and down the selection or, where nothing is selected, the scroll position.
pub open spec fn arrow_step<S>(w: Window<S>, code: KeyCode) -> Window<S> {
    match code {
        KeyCode::Right => Window { git_tab: GitTab::at(w.git_tab.place() + 1), ..w },
        KeyCode::Left => Window { git_tab: GitTab::at(w.git_tab.place() - 1), ..w },
        KeyCode::Up => if w.git_tab == GitTab::Worktrees {
            Window {
                worktree_selected: if w.worktree_selected == 0 {
                    0
                } else {
                    (w.worktree_selected - 1) as usize
                },
                ..w
            }
        } else if w.git_tab == GitTab::Branches {
            Window {
                branch_selected: if w.branch_selected == 0 {
                    0
                } else {
                    (w.branch_selected - 1) as usize
                },
                ..w
            }
        } else if w.git_tab == GitTab::Diff && w.diff_show_list {
            w.prev_file()
        } else {
            w.up(1)
        },
        KeyCode::Down => if w.git_tab == GitTab::Worktrees {
            Window {
                worktree_selected: least(
                    w.worktree_selected + 1,
                    last_index(w.git_worktrees@.len()) as int,
                ) as usize,
                ..w
            }
        } else if w.git_tab == GitTab::Branches {
            Window {
                branch_selected: least(
                    w.branch_selected + 1,
                    last_index(w.git_branches@.len()) as int,
                ) as usize,
                ..w
            }
        } else if w.git_tab == GitTab::Diff && w.diff_show_list {
            w.next_file()
        } else {
            w.down(1)
        },
        _ => w,
    }
}

/// What a key does to the git pane that shows.
pub open spec fn view_step<S>(w: Window<S>, key: KeyEvent, kc: KeyConfig) -> (
    Window<S>,
    ActionView<S>,
) {
    if kc.diff.fullscreen.hit(key) {
        (
            Window { fullscreen: !w.fullscreen, diff_content_scroll: 0, ..w },
            ActionView::Nothing,
        )
    } else if kc.git.refresh.hit(key) {
        (w, ActionView::Refresh)
    } else if kc.diff.explorer.hit(key) && w.git_tab == GitTab::Diff {
        (Window { diff_show_list: !w.diff_show_list, ..w }, ActionView::Nothing)
    } else if kc.diff.scroll_down.hit(key) {
        (w.down(20), ActionView::Nothing)
    } else if kc.diff.scroll_up.hit(key) {
        (w.up(20), ActionView::Nothing)
    } else {
        (arrow_step(w, key.code), ActionView::Nothing)
    }
}

/// How many lines a key asks the git pane that shows to scroll down.
pub open spec fn lines_down<S>(w: Window<S>, key: KeyEvent, kc: KeyConfig) -> int {
    if kc.diff.fullscreen.hit(key) || kc.git.refresh.hit(key) || (kc.diff.explorer.hit(key)
        && w.git_tab == GitTab::Diff) {
        0
    } else if kc.diff.scroll_down.hit(key) {
        20
    } else if kc.diff.scroll_up.hit(key) {
        0
    } else if key.code == KeyCode::Down && (w.git_tab == GitTab::Log || (w.git_tab == GitTab::Diff
        && !w.diff_show_list)) {
        1
    } else {
        0
    }
}

/// Whether a key is for the list in the current tab: it opens or deletes what is
/// selected, or asks for something new.
pub open spec fn list_key<S>(w: Window<S>, key: KeyEvent, kc: KeyConfig) -> bool {
    ||| w.git_tab == GitTab::Worktrees && (kc.git.open.hit(key) || kc.git.new_worktree.hit(key)
        || kc.git.delete.hit(key))
    ||| w.git_tab == GitTab::Branches && kc.git.delete.hit(key)
}

/// What a key for the list in the current tab does. The worktree in front and
/// the current branch cannot be deleted.
pub open spec fn list_step<S>(a: AppState<S>, key: KeyEvent, kc: KeyConfig) -> (
    AppState<S>,
    ActionView<S>,
) {
    let w = a.front();
    if w.git_tab == GitTab::Worktrees {
        let wt = w.git_worktrees@[w.worktree_selected as int];
        if kc.git.open.hit(key) {
            if w.worktree_selected < w.git_worktrees@.len() {
                open_step(a, wt.path@)
            } else {
                (a, ActionView::Nothing)
            }
        } else if kc.git.new_worktree.hit(key) {
            (
                AppState {
                    input_mode: Some(InputMode::NewWorktree),
                    input: Seq::empty(),
                    ..a
                },
                ActionView::Nothing,
            )
        } else if w.worktree_selected < w.git_worktrees@.len() && !same(w.path@, wt.path@) {
            (
                AppState { input_mode: Some(InputMode::ConfirmDelete(wt.path, wt.name)), ..a },
                ActionView::Nothing,
            )
        } else {
            (a, ActionView::Nothing)
        }
    } else {
        let b = w.git_branches@[w.branch_selected as int];
        if w.branch_selected < w.git_branches@.len() && !b.is_current {
            (
                AppState { input_mode: Some(InputMode::ConfirmDeleteBranch(b.name)), ..a },
                ActionView::Nothing,
            )
        } else {
            (a, ActionView::Nothing)
        }
    }
}

/// Whether a key quits from the git pane, besides the key that quits anywhere.
pub open spec fn quits(key: KeyEvent) -> bool {
    ||| key.code == KeyCode::Char('c') && key.modifiers == control_only()
    ||| key.code == KeyCode::Char('q') && key.modifiers == no_modifiers()
}

/// What a key does in the git pane. A key that quits still does what else it is
/// bound to.
pub open spec fn git_step<S>(a: AppState<S>, key: KeyEvent, kc: KeyConfig) -> (
    AppState<S>,
    ActionView<S>,
) {
    if list_key(a.front(), key, kc) {
        list_step(a, key, kc)
    } else {
        let (w, action) = view_step(a.front(), key, kc);
        let b = AppState { should_quit: a.should_quit || quits(key), ..a };
        (b.with_front(w), action)
    }
}

/// Whether the git pane has room to scroll as far as a key asks.
pub open spec fn git_room<S>(a: AppState<S>, key: KeyEvent, kc: KeyConfig) -> bool {
    list_key(a.front(), key, kc) || a.front().scroll() + lines_down(a.front(), key, kc) <= u16::MAX
}

fn handle_list_key<S>(app: &mut App<S>, key: KeyEvent, kc: &KeyConfig) -> (r: Action<S>)
    requires
        old(app)@.sound(),
        old(app)@.windows.len() > 0,
        list_key(old(app)@.front(), key, *kc),
    ensures
        (final(app)@, r@) == list_step(old(app)@, key, *kc),
        final(app)@.sound(),
        old(app)@.wf() ==> final(app)@.wf(),
{
    if app.win().git_tab == GitTab::Worktrees {
        let sel: usize = app.win().worktree_selected;
        if kc.git.open.matches(key.code, key.modifiers) {
            if sel < app.win().git_worktrees.len() {
                let path = app.win().git_worktrees[sel].path.clone();
                match app.open_window(path) {
                    None => Action::Nothing,
                    Some(p) => Action::Open(p),
                }
            } else {
                Action::Nothing
            }
        } else if kc.git.new_worktree.matches(key.code, key.modifiers) {
            app.input_mode = Some(InputMode::NewWorktree);
            app.input_buf = String::new();
            Action::Nothing
        } else {
            if sel < app.win().git_worktrees.len() {
                let path = app.win().git_worktrees[sel].path.clone();
                let name = app.win().git_worktrees[sel].name.clone();
                if !same_path(app.win().path.as_str(), path.as_str()) {
                    proof {
                        lemma_close_leaves_one(app@, path@);
                    }
                    app.input_mode = Some(InputMode::ConfirmDelete(path, name));
                }
            }
            Action::Nothing
        }
    } else {
        let sel: usize = app.win().branch_selected;
        if sel < app.win().git_branches.len() {
            let name = app.win().git_branches[sel].name.clone();
            if !app.win().git_branches[sel].is_current {
                app.input_mode = Some(InputMode::ConfirmDeleteBranch(name));
            }
        }
        Action::Nothing
    }
}

fn press_arrow<S>(win: &mut Window<S>, code: KeyCode)
    requires
        old(win).wf(),
        code == KeyCode::Down && (old(win).git_tab == GitTab::Log || (old(win).git_tab
            == GitTab::Diff && !old(win).diff_show_list)) ==> old(win).scroll() + 1 <= u16::MAX,
    ensures
        *final(win) == arrow_step(*old(win), code),
        final(win).wf(),
        final(win).path == old(win).path,
{
    match code {
        KeyCode::Right => {
            win.git_tab = win.git_tab.next();
        },
        KeyCode::Left => {
            win.git_tab = win.git_tab.prev();
        },
        KeyCode::Up => {
            if win.git_tab == GitTab::Worktrees {
                win.worktree_selected = win.worktree_selected.saturating_sub(1);
            } else if win.git_tab == GitTab::Branches {
                win.branch_selected = win.branch_selected.saturating_sub(1);
            } else if win.git_tab == GitTab::Diff && win.diff_show_list {
                win.diff_select_prev();
            } else {
                win.scroll_up(1);
            }
        },
        KeyCode::Down => {
            if win.git_tab == GitTab::Worktrees {
                let max: usize = win.git_worktrees.len().saturating_sub(1);
                win.worktree_selected = (win.worktree_selected + 1).min(max);
            } else if win.git_tab == GitTab::Branches {
                let max: usize = win.git_branches.len().saturating_sub(1);
                win.branch_selected = (win.branch_selected + 1).min(max);
            } else if win.git_tab == GitTab::Diff && win.diff_show_list {
                assert(win.file_diffs.len() == win.file_diffs@.len());
                win.diff_select_next();
            } else {
                win.scroll_down(1);
            }
        },
        _ => {},
    }
}

fn press_view_key<S>(win: &mut Window<S>, key: KeyEvent, kc: &KeyConfig) -> (r: Action<S>)
    requires
        old(win).wf(),
        old(win).scroll() + lines_down(*old(win), key, *kc) <= u16::MAX,
    ensures
        (*final(win), r@) == view_step(*old(win), key, *kc),
        final(win).wf(),
        final(win).path == old(win).path,
{
    if kc.diff.fullscreen.matches(key.code, key.modifiers) {
        win.fullscreen = !win.fullscreen;
        win.diff_content_scroll = 0;
        return Action::Nothing;
    }
    if kc.git.refresh.matches(key.code, key.modifiers) {
        return Action::Refresh;
    }
    if kc.diff.explorer.matches(key.code, key.modifiers) && win.git_tab == GitTab::Diff {
        win.diff_show_list = !win.diff_show_list;
        return Action::Nothing;
    }
    if kc.diff.scroll_down.matches(key.code, key.modifiers) {
        win.scroll_down(20);
        return Action::Nothing;
    }
    if kc.diff.scroll_up.matches(key.code, key.modifiers) {
        win.scroll_up(20);
        return Action::Nothing;
    }
    press_arrow(win, key.code);
    Action::Nothing
}

fn is_list_key<S>(win: &Window<S>, key: KeyEvent, kc: &KeyConfig) -> (r: bool)
    ensures
        r == list_key(*win, key, *kc),
{
    (win.git_tab == GitTab::Worktrees && (kc.git.open.matches(key.code, key.modifiers)
        || kc.git.new_worktree.matches(key.code, key.modifiers) || kc.git.delete.matches(
        key.code,
        key.modifiers,
    ))) || (win.git_tab == GitTab::Branches && kc.git.delete.matches(key.code, key.modifiers))
}

/// Handles a key in the git pane.
pub fn handle_git_key<S>(app: &mut App<S>, key: KeyEvent, kc: &KeyConfig) -> (r: Action<S>)
    requires
        old(app)@.sound(),
        old(app)@.windows.len() > 0,
        git_room(old(app)@, key, *kc),
    ensures
        (final(app)@, r@) == git_step(old(app)@, key, *kc),
        final(app)@.sound(),
        old(app)@.wf() ==> final(app)@.wf(),
{
    if is_list_key(app.win(), key, kc) {
        return handle_list_key(app, key, kc);
    }
    if (key.code == KeyCode::Char('c') && key.modifiers == KeyModifiers::control()) || (key.code
        == KeyCode::Char('q') && key.modifiers == KeyModifiers::none()) {
        app.should_quit = true;
    }
    let win = app.win_mut();
    let action = press_view_key(win, key, kc);
    assert(app@.windows =~= old(app)@.windows.update(old(app)@.active, app@.front()));
    action
}

/// What is sent to a session for a key, if there is a session and the key has
/// bytes.
pub open spec fn sent<S>(session: Option<S>, pane: Pane, key: KeyEvent) -> ActionView<S> {
    if session is Some && key_bytes(key).len() > 0 {
        ActionView::Send(pane, key_bytes(key))
    } else {
        ActionView::Nothing
    }
}

/// How far the agent pane is scrolled back after scrolling `step` rows up.
pub open spec fn probed(screen: Option<ScreenState>, scroll: usize, step: usize) -> usize {
    match screen {
        Some(s) => reach(s, scroll.saturating_add(step) as nat) as usize,
        None => 0,
    }
}

/// How many rows a key scrolls the agent pane up; zero if it does not.
pub open spec fn rows_up(key: KeyEvent, kc: KeyConfig) -> usize {
    if kc.pty.scroll_up.hit(key) {
        3
    } else if kc.pty.scroll_down.hit(key) {
        0
    } else if kc.pty.page_up.hit(key) {
        20
    } else {
        0
    }
}

/// How many rows a key scrolls the agent pane down; zero if it does not.
pub open spec fn rows_down(key: KeyEvent, kc: KeyConfig) -> usize {
    if kc.pty.scroll_up.hit(key) {
        0
    } else if kc.pty.scroll_down.hit(key) {
        3
    } else if kc.pty.page_up.hit(key) {
        0
    } else if kc.pty.page_down.hit(key) {
        20
    } else {
        0
    }
}

/// What a key does in the agent pane: it scrolls, or goes to the session, which
/// then shows its last rows.
pub open spec fn claude_step<S>(
    w: Window<S>,
    key: KeyEvent,
    kc: KeyConfig,
    screen: Option<ScreenState>,
) -> (Window<S>, ActionView<S>) {
    let up = rows_up(key, kc);
    let down = rows_down(key, kc);
    if up > 0 {
        (
            Window { claude_scroll: probed(screen, w.claude_scroll, up), ..w },
            ActionView::Nothing,
        )
    } else if down > 0 {
        (
            Window {
                claude_scroll: if w.claude_scroll < down {
                    0
                } else {
                    (w.claude_scroll - down) as usize
                },
                ..w
            },
            ActionView::Nothing,
        )
    } else {
        (Window { claude_scroll: 0, ..w }, sent(w.claude, Pane::Claude, key))
    }
}

/// The pane that gets the focus after another.
pub open spec fn pane_after(p: Pane) -> Pane {
    match p {
        Pane::Claude => Pane::Git,
        Pane::Git => Pane::Terminal,
        Pane::Terminal => Pane::Claude,
    }
}

/// Whether a key is bound in every pane.
pub open spec fn global_key(key: KeyEvent, kc: KeyConfig) -> bool {
    ||| kc.global.quit.hit(key)
    ||| kc.global.cycle_pane.hit(key)
    ||| kc.global.next_window.hit(key)
    ||| kc.global.prev_window.hit(key)
    ||| kc.global.close_window.hit(key)
}

/// What a key that is bound in every pane does.
pub open spec fn global_step<S>(a: AppState<S>, key: KeyEvent, kc: KeyConfig) -> (
    AppState<S>,
    ActionView<S>,
) {
    if kc.global.quit.hit(key) {
        (AppState { should_quit: true, ..a }, ActionView::Nothing)
    } else if kc.global.cycle_pane.hit(key) {
        (
            a.with_front(Window { focused: pane_after(a.front().focused), ..a.front() }),
            ActionView::Nothing,
        )
    } else if kc.global.next_window.hit(key) {
        (a.turned(1), ActionView::Nothing)
    } else if kc.global.prev_window.hit(key) {
        (a.turned(-1), ActionView::Nothing)
    } else {
        (a.closed(a.active), ActionView::Close(a.front()))
    }
}

/// What a key event does, given the screen of the agent session in front if
/// there is one. Only presses count. A question comes first, keys that are bound
/// in every pane come next, and the pane with the focus gets the rest.
pub open spec fn key_step<S>(
    a: AppState<S>,
    key: KeyEvent,
    kc: KeyConfig,
    screen: Option<ScreenState>,
) -> (AppState<S>, ActionView<S>) {
    if key.kind != KeyEventKind::Press {
        (a, ActionView::Nothing)
    } else if a.input_mode is Some {
        input_step(a, key)
    } else if global_key(key, kc) {
        global_step(a, key, kc)
    } else {
        match a.front().focused {
            Pane::Claude => {
                let (w, action) = claude_step(a.front(), key, kc, screen);
                (a.with_front(w), action)
            },
            Pane::Terminal => (a, sent(a.front().terminal, Pane::Terminal, key)),
            Pane::Git => git_step(a, key, kc),
        }
    }
}

/// Whether a key event goes to the pane with the focus.
pub open spec fn reaches_pane<S>(a: AppState<S>, key: KeyEvent, kc: KeyConfig) -> bool {
    key.kind == KeyEventKind::Press && a.input_mode is None && !global_key(key, kc)
}

/// Whether scroll positions have room for what a key event asks.
pub open spec fn key_room<S>(a: AppState<S>, key: KeyEvent, kc: KeyConfig) -> bool {
    reaches_pane(a, key, kc) && a.front().focused == Pane::Git ==> git_room(a, key, kc)
}

/// Whether a key event asks the screen of the agent session how far it scrolls.
pub open spec fn probes<S>(a: AppState<S>, key: KeyEvent, kc: KeyConfig) -> bool {
    reaches_pane(a, key, kc) && a.front().focused == Pane::Claude && rows_up(key, kc) > 0
}

fn is_global_key(key: KeyEvent, kc: &KeyConfig) -> (r: bool)
    ensures
        r == global_key(key, *kc),
{
    kc.global.quit.matches(key.code, key.modifiers) || kc.global.cycle_pane.matches(
        key.code,
        key.modifiers,
    ) || kc.global.next_window.matches(key.code, key.modifiers) || kc.global.prev_window.matches(
        key.code,
        key.modifiers,
    ) || kc.global.close_window.matches(key.code, key.modifiers)
}

/// Tells whether scroll positions have room for what a key event asks.
pub fn has_key_room<S>(app: &App<S>, key: KeyEvent, kc: &KeyConfig) -> (r: bool)
    requires
        app.active < app.windows@.len(),
    ensures
        r == key_room(app@, key, *kc),
{
    let win = app.win();
    if key.kind != KeyEventKind::Press || app.input_mode.is_some() || is_global_key(key, kc)
        || win.focused != Pane::Git || is_list_key(win, key, kc) {
        return true;
    }
    let down: u16 = if kc.diff.fullscreen.matches(key.code, key.modifiers)
        || kc.git.refresh.matches(key.code, key.modifiers) || (kc.diff.explorer.matches(
        key.code,
        key.modifiers,
    ) && win.git_tab == GitTab::Diff) {
        0
    } else if kc.diff.scroll_down.matches(key.code, key.modifiers) {
        20
    } else if kc.diff.scroll_up.matches(key.code, key.modifiers) {
        0
    } else if key.code == KeyCode::Down && (win.git_tab == GitTab::Log || (win.git_tab
        == GitTab::Diff && !win.diff_show_list)) {
        1
    } else {
        0
    };
    win.current_scroll() <= u16::MAX - down
}

fn handle_global_key<S>(app: &mut App<S>, key: KeyEvent, kc: &KeyConfig) -> (r: Action<S>)
    requires
        live(old(app)@),
        old(app).input_mode is None,
        global_key(key, *kc),
    ensures
        (final(app)@, r@) == global_step(old(app)@, key, *kc),
        final(app)@.wf(),
{
    if kc.global.quit.matches(key.code, key.modifiers) {
        app.should_quit = true;
        return Action::Nothing;
    }
    if kc.global.cycle_pane.matches(key.code, key.modifiers) {
        let win = app.win_mut();
        win.focused = match win.focused {
            Pane::Claude => Pane::Git,
            Pane::Git => Pane::Terminal,
            Pane::Terminal => Pane::Claude,
        };
        return Action::Nothing;
    }
    if kc.global.next_window.matches(key.code, key.modifiers) {
        app.next_window();
        return Action::Nothing;
    }
    if kc.global.prev_window.matches(key.code, key.modifiers) {
        app.prev_window();
        return Action::Nothing;
    }
    let idx: usize = app.active;
    Action::Close(app.close_window(idx))
}

fn key_for<S>(session: &Option<S>, pane: Pane, key: KeyEvent) -> (r: Action<S>)
    ensures
        r@ == sent(*session, pane, key),
{
    if session.is_some() {
        let bytes = key_to_bytes(&key);
        if !bytes.is_empty() {
            return Action::Send(pane, bytes);
        }
    }
    Action::Nothing
}

fn handle_claude_key<S>(
    win: &mut Window<S>,
    key: KeyEvent,
    kc: &KeyConfig,
    screen: Option<&mut vt100::Parser>,
) -> (r: Action<S>)
    requires
        old(win).wf(),
    ensures
        (*final(win), r@) == claude_step(*old(win), key, *kc, state_of(screen)),
        final(win).wf(),
        match screen {
            Some(p) => screen_of(*final(p)) == (if rows_up(key, *kc) > 0 {
                screen_of(*p).scrolled(0)
            } else {
                screen_of(*p)
            }),
            None => true,
        },
{
    if kc.pty.scroll_up.matches(key.code, key.modifiers) {
        win.claude_scroll = probe_scroll(screen, win.claude_scroll, 3);
        return Action::Nothing;
    }
    if kc.pty.scroll_down.matches(key.code, key.modifiers) {
        win.claude_scroll = win.claude_scroll.saturating_sub(3);
        return Action::Nothing;
    }
    if kc.pty.page_up.matches(key.code, key.modifiers) {
        win.claude_scroll = probe_scroll(screen, win.claude_scroll, 20);
        return Action::Nothing;
    }
    if kc.pty.page_down.matches(key.code, key.modifiers) {
        win.claude_scroll = win.claude_scroll.saturating_sub(20);
        return Action::Nothing;
    }
    win.claude_scroll = 0;
    key_for(&win.claude, Pane::Claude, key)
}

/// Handles a key event. `screen` is the screen of the agent session in front, if
/// it has one that can be read.
pub fn handle_key<S>(
    app: &mut App<S>,
    key: KeyEvent,
    kc: &KeyConfig,
    screen: Option<&mut vt100::Parser>,
) -> (r: Action<S>)
    requires
        live(old(app)@),
        key_room(old(app)@, key, *kc),
    ensures
        (final(app)@, r@) == key_step(old(app)@, key, *kc, state_of(screen)),
        final(app)@.wf(),
        match screen {
            Some(p) => screen_of(*final(p)) == (if probes(old(app)@, key, *kc) {
                screen_of(*p).scrolled(0)
            } else {
                screen_of(*p)
            }),
            None => true,
        },
{
    if key.kind != KeyEventKind::Press {
        return Action::Nothing;
    }
    if app.input_mode.is_some() {
        return handle_input_mode(app, key);
    }
    if is_global_key(key, kc) {
        return handle_global_key(app, key, kc);
    }
    match app.win().focused {
        Pane::Claude => {
            let win = app.win_mut();
            let action = handle_claude_key(win, key, kc, screen);
            action
        },
        Pane::Terminal => key_for(&app.win().terminal, Pane::Terminal, key),
        Pane::Git => handle_git_key(app, key, kc),
    }
}

/// `n` less `m`, but not below zero.
pub open spec fn less(n: int, m: int) -> int {
    if n < m {
        0
    } else {
        n - m
    }
}

/// The columns of a pane and the rows of the agent and the terminal pane on a
/// display of the given size: borders take two, the window bar takes one row,
/// and the terminal has two fifths of the rows.
pub open spec fn pane_dims(cols: u16, rows: u16) -> (u16, u16, u16) {
    let content = less(rows as int, 1);
    let term = less(content * 40 / 100, 2);
    (
        less(cols as int / 2, 2) as u16,
        less(content, 2) as u16,
        if term < 1 {
            1
        } else {
            term as u16
        },
    )
}

/// The new sizes of the sessions of window `i` on a display of the given size.
pub open spec fn window_sizes<S>(w: Window<S>, i: usize, cols: u16, rows: u16) -> Seq<PtyResize> {
    let (half, claude_rows, term_rows) = pane_dims(cols, rows);
    resize_of(
        w.claude,
        i,
        Pane::Claude,
        if w.fullscreen && w.focused == Pane::Claude {
            less(cols as int, 2) as u16
        } else {
            half
        },
        claude_rows,
    ) + if w.fullscreen {
        Seq::empty()
    } else {
        resize_of(w.terminal, i, Pane::Terminal, half, term_rows)
    }
}

/// The new sizes of the sessions of all windows.
pub open spec fn all_sizes<S>(ws: Seq<Window<S>>, cols: u16, rows: u16) -> Seq<PtyResize>
    decreases ws.len(),
{
    if ws.len() == 0 {
        Seq::empty()
    } else {
        all_sizes(ws.drop_last(), cols, rows) + window_sizes(
            ws.last(),
            (ws.len() - 1) as usize,
            cols,
            rows,
        )
    }
}

/// Fits the panes to a display of a new size. The result is the new sizes of the
/// sessions.
pub fn handle_resize<S>(app: &mut App<S>, total_cols: u16, total_rows: u16) -> (r: Vec<PtyResize>)
    requires
        less(total_rows as int, 1) * 40 <= u16::MAX,
    ensures
        final(app)@ == (AppState { pty_dims: pane_dims(total_cols, total_rows), ..old(app)@ }),
        r@ == all_sizes(old(app)@.windows, total_cols, total_rows),
{
    let content_rows: u16 = total_rows.saturating_sub(1);
    let half_cols: u16 = (total_cols / 2).saturating_sub(2);
    let claude_rows: u16 = content_rows.saturating_sub(2);
    let term_rows: u16 = (content_rows * 40 / 100).saturating_sub(2).max(1);
    app.pty_dims = (half_cols, claude_rows, term_rows);
    let ghost ws = app.windows@;
    let mut out: Vec<PtyResize> = Vec::new();
    let mut i: usize = 0;
    assert(out@ =~= all_sizes(ws.take(0), total_cols, total_rows));
    while i < app.windows.len()
        invariant
            i <= ws.len(),
            ws == app.windows@,
            app@ == (AppState { pty_dims: pane_dims(total_cols, total_rows), ..old(app)@ }),
            (half_cols, claude_rows, term_rows) == pane_dims(total_cols, total_rows),
            out@ == all_sizes(ws.take(i as int), total_cols, total_rows),
        decreases ws.len() - i,
    {
        let win = &app.windows[i];
        let ghost before = out@;
        let claude_cols: u16 = if win.fullscreen && win.focused == Pane::Claude {
            total_cols.saturating_sub(2)
        } else {
            half_cols
        };
        win.resize_claude_pty(i, claude_cols, claude_rows, &mut out);
        if !win.fullscreen {
            win.resize_terminal_pty(i, half_cols, term_rows, &mut out);
        }
        assert(out@ =~= before + window_sizes(*win, i, total_cols, total_rows));
        i = i + 1;
        assert(ws.take(i as int).drop_last() =~= ws.take(i - 1));
    }
    assert(ws.take(i as int) =~= ws);
    out
}

} // verus!
