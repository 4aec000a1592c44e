//! The state of the program: its windows, and what each of them shows.

use vstd::prelude::*;

use crate::git::diff::{diff_countable, files_of};
use crate::git::refs::{branches_of, worktrees_of};
use crate::git::{parse_branches, parse_diff, parse_worktrees, Branch, FileDiff, Worktree};
use crate::paths::{same, same_path, sibling, sibling_path};
use crate::text::{count_lines, lines};

verus! {

/// The panes of a window.
#[derive(Debug, Clone, Copy, PartialEq, Eq, Structural)]
pub enum Pane {
    Claude,
    Git,
    Terminal,
}

/// The tabs of the git pane.
#[derive(Debug, Clone, Copy, PartialEq, Eq, Structural)]
pub enum GitTab {
    Diff,
    Worktrees,
    Branches,
    Log,
}

impl GitTab {
    /// The tabs from left to right.
    pub const ALL: [GitTab; 4] = [GitTab::Diff, GitTab::Worktrees, GitTab::Branches, GitTab::Log];

    /// What stands on the tab.
    pub open spec fn label(self) -> Seq<char> {
        match self {
            GitTab::Diff => " Diff "@,
            GitTab::Worktrees => " Worktrees "@,
            GitTab::Branches => " Branches "@,
            GitTab::Log => " Log "@,
        }
    }

    /// The place of a tab, counted from the left.
    pub open spec fn place(self) -> int {
        match self {
            GitTab::Diff => 0,
            GitTab::Worktrees => 1,
            GitTab::Branches => 2,
            GitTab::Log => 3,
        }
    }

    /// The tab at a place, counted round.
    pub open spec fn at(place: int) -> GitTab {
        if place % 4 == 0 {
            GitTab::Diff
        } else if place % 4 == 1 {
            GitTab::Worktrees
        } else if place % 4 == 2 {
            GitTab::Branches
        } else {
            GitTab::Log
        }
    }

    /// The title of the tab.
    pub fn title(self) -> (r: &'static str)
        ensures
            r@ == self.label(),
    {
        match self {
            GitTab::Diff => " Diff ",
            GitTab::Worktrees => " Worktrees ",
            GitTab::Branches => " Branches ",
            GitTab::Log => " Log ",
        }
    }

    /// The position of the tab in `ALL`.
    pub fn index(self) -> (r: usize)
        ensures
            r == self.place(),
            r < 4,
            GitTab::ALL@[r as int] == self,
    {
        match self {
            GitTab::Diff => 0,
            GitTab::Worktrees => 1,
            GitTab::Branches => 2,
            GitTab::Log => 3,
        }
    }

    /// The tab to the right, or the first one.
    pub fn next(self) -> (r: Self)
        ensures
            r == GitTab::at(self.place() + 1),
    {
        let i: usize = (self.index() + 1) % 4;
        Self::ALL[i]
    }

    /// The tab to the left, or the last one.
    pub fn prev(self) -> (r: Self)
        ensures
            r == GitTab::at(self.place() - 1),
    {
        let i: usize = (self.index() + 4 - 1) % 4;
        Self::ALL[i]
    }
}

/// What the user is being asked.
pub enum InputMode {
    /// The name of a new worktree.
    NewWorktree,
    /// Whether to delete the worktree at a path, with its name.
    ConfirmDelete(String, String),
    /// Whether to delete the branch of this name.
    ConfirmDeleteBranch(String),
}

/// What git printed about a repository.
pub struct GitOutput {
    pub log: String,
    pub worktrees: String,
    pub branches: String,
    pub diff: String,
}

/// A window on one worktree. `S` is the type of its terminal sessions.
pub struct Window<S> {
    pub name: String,
    pub path: String,
    pub claude: Option<S>,
    pub terminal: Option<S>,
    pub focused: Pane,
    pub git_tab: GitTab,
    pub claude_scroll: usize,
    pub scroll_offsets: [u16; 4],
    pub file_diffs: Vec<FileDiff>,
    pub diff_file_idx: usize,
    pub diff_content_scroll: u16,
    pub diff_show_list: bool,
    pub fullscreen: bool,
    pub git_log: String,
    pub git_worktrees: Vec<Worktree>,
    pub worktree_selected: usize,
    pub git_branches: Vec<Branch>,
    pub branch_selected: usize,
}

/// The last position of a list, or zero if the list is empty.
pub open spec fn last_index(len: nat) -> nat {
    if len == 0 {
        0
    } else {
        (len - 1) as nat
    }
}

/// The smaller of two numbers.
pub open spec fn least(a: int, b: int) -> int {
    if a < b {
        a
    } else {
        b
    }
}

/// `a` with the entry for tab `i` replaced.
pub open spec fn with_offset(a: [u16; 4], i: int, v: u16) -> [u16; 4] {
    [
        if i == 0 {
            v
        } else {
            a[0]
        },
        if i == 1 {
            v
        } else {
            a[1]
        },
        if i == 2 {
            v
        } else {
            a[2]
        },
        if i == 3 {
            v
        } else {
            a[3]
        },
    ]
}

/// A line count as a scroll position of the last line. Positions are sixteen
/// bits wide and wrap round.
pub open spec fn last_line(count: nat) -> u16 {
    (last_index(count) as int % 0x1_0000) as u16
}

fn to_last_line(count: usize) -> (r: u16)
    ensures
        r == last_line(count as nat),
{
    let n: usize = count.saturating_sub(1);
    (n % 0x1_0000) as u16
}

impl<S> Window<S> {
    /// Selections point into their lists.
    pub open spec fn wf(self) -> bool {
        &&& self.worktree_selected <= last_index(self.git_worktrees@.len())
        &&& self.branch_selected <= last_index(self.git_branches@.len())
        &&& self.diff_file_idx <= last_index(self.file_diffs@.len())
    }

    /// The text of the tabs that show plain text.
    pub open spec fn tab_text(self) -> Seq<char> {
        if self.git_tab == GitTab::Log {
            self.git_log@
        } else {
            Seq::empty()
        }
    }

    /// How far the current tab is scrolled.
    pub open spec fn scroll(self) -> u16 {
        if self.git_tab == GitTab::Diff {
            self.diff_content_scroll
        } else {
            self.scroll_offsets@[self.git_tab.place()]
        }
    }

    /// The window with the current tab scrolled to `v`.
    pub open spec fn scrolled_to(self, v: u16) -> Window<S> {
        if self.git_tab == GitTab::Diff {
            Window { diff_content_scroll: v, ..self }
        } else {
            Window {
                scroll_offsets: with_offset(self.scroll_offsets, self.git_tab.place(), v),
                ..self
            }
        }
    }

    /// How many lines the current tab shows: of the selected diff, rows in full
    /// screen and lines otherwise.
    pub open spec fn line_count(self) -> nat {
        if self.git_tab == GitTab::Diff {
            if self.diff_file_idx < self.file_diffs@.len() {
                let f = self.file_diffs@[self.diff_file_idx as int];
                if self.fullscreen {
                    f.sbs@.len()
                } else {
                    lines(f.content@).len()
                }
            } else {
                0
            }
        } else {
            lines(self.tab_text()).len()
        }
    }

    /// The window scrolled down, to the last line at most.
    pub open spec fn down(self, amount: u16) -> Window<S> {
        self.scrolled_to(
            least(self.scroll() + amount, last_line(self.line_count()) as int) as u16,
        )
    }

    /// The window scrolled up, to the top at most.
    pub open spec fn up(self, amount: u16) -> Window<S> {
        self.scrolled_to(
            if self.scroll() < amount {
                0
            } else {
                (self.scroll() - amount) as u16
            },
        )
    }

    /// The window with the next file selected.
    pub open spec fn next_file(self) -> Window<S> {
        if self.file_diffs@.len() == 0 {
            self
        } else {
            Window {
                diff_file_idx: least(self.diff_file_idx + 1, self.file_diffs@.len() - 1) as usize,
                diff_content_scroll: 0,
                ..self
            }
        }
    }

    /// The window with the previous file selected.
    pub open spec fn prev_file(self) -> Window<S> {
        Window {
            diff_file_idx: if self.diff_file_idx == 0 {
                0
            } else {
                (self.diff_file_idx - 1) as usize
            },
            diff_content_scroll: 0,
            ..self
        }
    }

    /// Whether the window shows what git printed.
    pub open spec fn shows(self, out: GitOutput) -> bool {
        &&& self.git_log@ == out.log@
        &&& self.git_worktrees.deep_view() == worktrees_of(out.worktrees@)
        &&& self.git_branches.deep_view() == branches_of(out.branches@)
        &&& self.file_diffs.deep_view() == files_of(out.diff@)
    }

    /// Whether `after` is `self` with what git printed: the first file selected,
    /// nothing scrolled, the other selections kept as far as the lists reach, and
    /// all else as it was.
    pub open spec fn refreshed(self, out: GitOutput, after: Window<S>) -> bool {
        &&& after.shows(out)
        &&& after.scroll_offsets@ == seq![0u16, 0, 0, 0]
        &&& after.worktree_selected == least(
            self.worktree_selected as int,
            last_index(worktrees_of(out.worktrees@).len()) as int,
        )
        &&& after.branch_selected == least(
            self.branch_selected as int,
            last_index(branches_of(out.branches@).len()) as int,
        )
        &&& after == (Window {
            scroll_offsets: after.scroll_offsets,
            file_diffs: after.file_diffs,
            diff_file_idx: 0,
            diff_content_scroll: 0,
            git_log: after.git_log,
            git_worktrees: after.git_worktrees,
            worktree_selected: after.worktree_selected,
            git_branches: after.git_branches,
            branch_selected: after.branch_selected,
            ..self
        })
    }

    /// Opens a window on the agent pane and the diff tab.
    pub fn new(
        path: String,
        name: String,
        claude: Option<S>,
        terminal: Option<S>,
        out: GitOutput,
    ) -> (r: Self)
        requires
            diff_countable(out.diff@),
        ensures
            r.wf(),
            r.shows(out),
            r.scroll_offsets@ == seq![0u16, 0, 0, 0],
            r == (Window {
                name,
                path,
                claude,
                terminal,
                focused: Pane::Claude,
                git_tab: GitTab::Diff,
                claude_scroll: 0,
                diff_file_idx: 0,
                diff_content_scroll: 0,
                diff_show_list: true,
                fullscreen: false,
                worktree_selected: 0,
                branch_selected: 0,
                ..r
            }),
    {
        let mut win = Window {
            name,
            path,
            claude,
            terminal,
            focused: Pane::Claude,
            git_tab: GitTab::Diff,
            claude_scroll: 0,
            scroll_offsets: [0, 0, 0, 0],
            file_diffs: Vec::new(),
            diff_file_idx: 0,
            diff_content_scroll: 0,
            diff_show_list: true,
            fullscreen: false,
            git_log: String::new(),
            git_worktrees: Vec::new(),
            worktree_selected: 0,
            git_branches: Vec::new(),
            branch_selected: 0,
        };
        win.refresh(out);
        win
    }

    /// Shows what git printed now.
    pub fn refresh(&mut self, out: GitOutput)
        requires
            diff_countable(out.diff@),
        ensures
            old(self).refreshed(out, *final(self)),
            final(self).wf(),
    {
        let worktrees = parse_worktrees(out.worktrees.as_str());
        let branches = parse_branches(out.branches.as_str());
        let files = parse_diff(out.diff.as_str());
        assert(worktrees.deep_view().len() == worktrees@.len());
        assert(branches.deep_view().len() == branches@.len());
        self.branch_selected = self.branch_selected.min(branches.len().saturating_sub(1));
        self.worktree_selected = self.worktree_selected.min(worktrees.len().saturating_sub(1));
        self.git_log = out.log;
        self.git_worktrees = worktrees;
        self.git_branches = branches;
        self.file_diffs = files;
        self.scroll_offsets = [0, 0, 0, 0];
        self.diff_file_idx = 0;
        self.diff_content_scroll = 0;
        assert(self.scroll_offsets@ =~= seq![0u16, 0, 0, 0]);
    }

    /// The text of the current tab, if it shows plain text.
    pub fn simple_tab_content(&self) -> (r: &str)
        ensures
            r@ == self.tab_text(),
    {
        match self.git_tab {
            GitTab::Log => self.git_log.as_str(),
            _ => {
                proof {
                    reveal_strlit("");
                    assert(""@ =~= Seq::<char>::empty());
                }
                ""
            },
        }
    }

    /// How far the current tab is scrolled.
    pub fn current_scroll(&self) -> (r: u16)
        ensures
            r == self.scroll(),
    {
        match self.git_tab {
            GitTab::Diff => self.diff_content_scroll,
            t => self.scroll_offsets[t.index()],
        }
    }

    fn set_scroll(&mut self, v: u16)
        ensures
            *final(self) == old(self).scrolled_to(v),
    {
        if self.git_tab == GitTab::Diff {
            self.diff_content_scroll = v;
        } else {
            let i: usize = self.git_tab.index();
            self.scroll_offsets[i] = v;
            assert(self.scroll_offsets =~= with_offset(
                old(self).scroll_offsets,
                self.git_tab.place(),
                v,
            ));
        }
    }

    fn count_shown_lines(&self) -> (r: usize)
        ensures
            r == self.line_count(),
    {
        if self.git_tab == GitTab::Diff {
            if self.diff_file_idx < self.file_diffs.len() {
                let f = &self.file_diffs[self.diff_file_idx];
                if self.fullscreen {
                    f.sbs.len()
                } else {
                    count_lines(f.content.as_str())
                }
            } else {
                0
            }
        } else {
            count_lines(self.simple_tab_content())
        }
    }

    /// Scrolls the current tab down.
    pub fn scroll_down(&mut self, amount: u16)
        requires
            old(self).scroll() + amount <= u16::MAX,
        ensures
            *final(self) == old(self).down(amount),
    {
        let max: u16 = to_last_line(self.count_shown_lines());
        let v: u16 = (self.current_scroll() + amount).min(max);
        self.set_scroll(v);
    }

    /// Scrolls the current tab up.
    pub fn scroll_up(&mut self, amount: u16)
        ensures
            *final(self) == old(self).up(amount),
    {
        let v: u16 = self.current_scroll().saturating_sub(amount);
        self.set_scroll(v);
    }

    /// Selects the next file of the diff.
    pub fn diff_select_next(&mut self)
        requires
            old(self).diff_file_idx < usize::MAX || old(self).file_diffs@.len() == 0,
        ensures
            *final(self) == old(self).next_file(),
    {
        if !self.file_diffs.is_empty() {
            self.diff_file_idx = (self.diff_file_idx + 1).min(self.file_diffs.len() - 1);
            self.diff_content_scroll = 0;
        }
    }

    /// Selects the previous file of the diff.
    pub fn diff_select_prev(&mut self)
        ensures
            *final(self) == old(self).prev_file(),
    {
        self.diff_file_idx = self.diff_file_idx.saturating_sub(1);
        self.diff_content_scroll = 0;
    }
}

/// The columns of a session before it is fitted to the display.
pub const SESSION_COLS: u16 = 80;

/// The rows of an agent session before it is fitted to the display.
pub const AGENT_ROWS: u16 = 24;

/// How many rows that scroll off an agent session are kept.
pub const AGENT_HISTORY: usize = 1000;

/// The rows of a shell session before it is fitted to the display.
pub const SHELL_ROWS: u16 = 12;

/// How many rows that scroll off a shell session are kept.
pub const SHELL_HISTORY: usize = 0;

/// The program of shell sessions: the one that is set up, or else `/bin/zsh`.
pub fn shell_program(set_up: Option<String>) -> (r: String)
    ensures
        match set_up {
            Some(s) => r@ == s@,
            None => r@ == "/bin/zsh"@,
        },
{
    match set_up {
        Some(s) => s,
        None => "/bin/zsh".to_string(),
    }
}

/// A git command to run: where, and with which arguments.
pub struct GitCommand {
    pub dir: String,
    pub args: Vec<String>,
}

/// The text of a git command.
#[verifier::ext_equal]
pub struct GitCommandView {
    pub dir: Seq<char>,
    pub args: Seq<Seq<char>>,
}

impl View for GitCommand {
    type V = GitCommandView;

    open spec fn view(&self) -> GitCommandView {
        GitCommandView { dir: self.dir@, args: self.args.deep_view() }
    }
}

/// A new size for one of the terminal sessions of a window.
#[derive(Debug, Clone, Copy, PartialEq, Eq, Structural)]
pub struct PtyResize {
    pub window: usize,
    pub pane: Pane,
    pub cols: u16,
    pub rows: u16,
}

/// The whole program. `S` is the type of terminal sessions.
pub struct App<S> {
    pub windows: Vec<Window<S>>,
    pub active: usize,
    pub should_quit: bool,
    pub input_mode: Option<InputMode>,
    pub input_buf: String,
    /// Columns of a pane, rows of the agent pane, rows of the terminal pane.
    pub pty_dims: (u16, u16, u16),
}

/// The state of the program.
#[verifier::ext_equal]
pub struct AppState<S> {
    pub windows: Seq<Window<S>>,
    pub active: int,
    pub should_quit: bool,
    pub input_mode: Option<InputMode>,
    pub input: Seq<char>,
    pub pty_dims: (u16, u16, u16),
}

impl<S> View for App<S> {
    type V = AppState<S>;

    open spec fn view(&self) -> AppState<S> {
        AppState {
            windows: self.windows@,
            active: self.active as int,
            should_quit: self.should_quit,
            input_mode: self.input_mode,
            input: self.input_buf@,
            pty_dims: self.pty_dims,
        }
    }
}

/// The position of the first window on a path, or the number of windows.
pub open spec fn window_at<S>(ws: Seq<Window<S>>, path: Seq<char>) -> nat
    decreases ws.len(),
{
    if ws.len() == 0 || same(ws[0].path@, path) {
        0
    } else {
        1 + window_at(ws.drop_first(), path)
    }
}

/// The first window on a path is on it, and those before it are not.
pub proof fn lemma_window_at<S>(ws: Seq<Window<S>>, path: Seq<char>)
    ensures
        window_at(ws, path) <= ws.len(),
        window_at(ws, path) < ws.len() ==> same(ws[window_at(ws, path) as int].path@, path),
        forall|i: int|
            0 <= i < window_at(ws, path) ==> !same((#[trigger] ws[i]).path@, path),
    decreases ws.len(),
{
    if ws.len() > 0 && !same(ws[0].path@, path) {
        let rest = ws.drop_first();
        lemma_window_at(rest, path);
        assert forall|i: int| 0 <= i < window_at(ws, path) implies !same(
            (#[trigger] ws[i]).path@,
            path,
        ) by {
            if i > 0 {
                assert(ws[i] == rest[i - 1]);
            }
        }
    }
}

impl<S> AppState<S> {
    /// There is a window in front unless the program is to quit, and all windows
    /// are in order.
    pub open spec fn sound(self) -> bool {
        &&& self.windows.len() == 0 ==> self.should_quit
        &&& self.windows.len() > 0 ==> 0 <= self.active < self.windows.len()
        &&& forall|i: int| 0 <= i < self.windows.len() ==> (#[trigger] self.windows[i]).wf()
    }

    /// Whatever the user is asked to delete, a window stays open.
    pub open spec fn answerable(self) -> bool {
        match self.input_mode {
            Some(InputMode::ConfirmDelete(path, _)) => self.closed_at(path@).windows.len() > 0,
            _ => true,
        }
    }

    /// What holds between events.
    pub open spec fn wf(self) -> bool {
        self.sound() && self.answerable()
    }

    /// The window in front.
    pub open spec fn front(self) -> Window<S> {
        self.windows[self.active]
    }

    /// The state with the window in front replaced.
    pub open spec fn with_front(self, w: Window<S>) -> AppState<S> {
        AppState { windows: self.windows.update(self.active, w), ..self }
    }

    /// The state with the window in front that comes `by` places later, counted
    /// round.
    pub open spec fn turned(self, by: int) -> AppState<S> {
        AppState { active: (self.active + by) % (self.windows.len() as int), ..self }
    }

    /// The state without window `idx`; the program quits with its last window.
    pub open spec fn closed(self, idx: int) -> AppState<S> {
        let rest = self.windows.remove(idx);
        AppState {
            windows: rest,
            active: if rest.len() == 0 {
                self.active
            } else {
                least(self.active, rest.len() - 1)
            },
            should_quit: self.should_quit || rest.len() == 0,
            ..self
        }
    }

    /// The state with the window on `path` closed, if there is one.
    pub open spec fn closed_at(self, path: Seq<char>) -> AppState<S> {
        let i = window_at(self.windows, path);
        if i < self.windows.len() {
            self.closed(i as int)
        } else {
            self
        }
    }

    /// The window on `path`, if there is one.
    pub open spec fn open_at(self, path: Seq<char>) -> Option<Window<S>> {
        let i = window_at(self.windows, path);
        if i < self.windows.len() {
            Some(self.windows[i as int])
        } else {
            None
        }
    }
}

/// `git worktree remove` for the worktree at `path`.
pub open spec fn remove_command(dir: Seq<char>, path: Seq<char>) -> GitCommandView {
    GitCommandView { dir, args: seq!["worktree"@, "remove"@, "--force"@, path] }
}

/// `git branch -d`.
pub open spec fn delete_command(dir: Seq<char>, name: Seq<char>) -> GitCommandView {
    GitCommandView { dir, args: seq!["branch"@, "-d"@, name] }
}

/// `git worktree add` for a new branch, in a directory beside `dir`.
pub open spec fn add_command(dir: Seq<char>, name: Seq<char>) -> GitCommandView {
    GitCommandView { dir, args: seq!["worktree"@, "add"@, "-b"@, name, sibling(dir, name)] }
}

/// The new size of a session of window `window`, if it has one: at least one
/// column and one row.
pub open spec fn resize_of<S>(
    session: Option<S>,
    window: usize,
    pane: Pane,
    cols: u16,
    rows: u16,
) -> Seq<PtyResize> {
    if session is Some {
        seq![
            PtyResize {
                window,
                pane,
                cols: if cols == 0 {
                    1
                } else {
                    cols
                },
                rows: if rows == 0 {
                    1
                } else {
                    rows
                },
            },
        ]
    } else {
        Seq::empty()
    }
}

impl<S> Window<S> {
    /// Adds the new size of the agent session to `out`.
    pub fn resize_claude_pty(
        &self,
        window: usize,
        cols: u16,
        rows: u16,
        out: &mut Vec<PtyResize>,
    )
        ensures
            final(out)@ == old(out)@ + resize_of(self.claude, window, Pane::Claude, cols, rows),
    {
        if self.claude.is_some() {
            out.push(
                PtyResize { window, pane: Pane::Claude, cols: cols.max(1), rows: rows.max(1) },
            );
        }
        assert(out@ =~= old(out)@ + resize_of(self.claude, window, Pane::Claude, cols, rows));
    }

    /// Adds the new size of the terminal session to `out`.
    pub fn resize_terminal_pty(
        &self,
        window: usize,
        cols: u16,
        rows: u16,
        out: &mut Vec<PtyResize>,
    )
        ensures
            final(out)@ == old(out)@ + resize_of(self.terminal, window, Pane::Terminal, cols, rows),
    {
        if self.terminal.is_some() {
            out.push(
                PtyResize { window, pane: Pane::Terminal, cols: cols.max(1), rows: rows.max(1) },
            );
        }
        assert(out@ =~= old(out)@ + resize_of(self.terminal, window, Pane::Terminal, cols, rows));
    }
}

/// The arguments for git whose output a window shows: for the log, the
/// worktrees, the branches and the diff.
pub open spec fn queries() -> Seq<Seq<Seq<char>>> {
    seq![
        seq!["log"@, "--oneline"@, "--graph"@, "--decorate"@, "--color=never"@, "-100"@],
        seq!["worktree"@, "list"@, "--porcelain"@],
        seq!["branch"@, "-a"@, "-vv"@],
        seq!["diff"@],
    ]
}

/// Lists the git commands whose output a window shows.
pub fn git_queries() -> (r: Vec<Vec<String>>)
    ensures
        r.deep_view() == queries(),
{
    let mut log = words3("log", "--oneline", "--graph");
    let mut more = words3("--decorate", "--color=never", "-100");
    let ghost first = log.deep_view();
    let ghost second = more.deep_view();
    log.append(&mut more);
    assert(log.deep_view() =~= first + second);
    let worktrees = words3("worktree", "list", "--porcelain");
    let branches = words3("branch", "-a", "-vv");
    let mut diff: Vec<String> = Vec::new();
    diff.push("diff".to_string());
    assert(log.deep_view() =~= queries()[0]);
    assert(diff.deep_view() =~= queries()[3]);
    let mut r: Vec<Vec<String>> = Vec::new();
    r.push(log);
    r.push(worktrees);
    r.push(branches);
    r.push(diff);
    assert(r.deep_view() =~= queries());
    r
}

/// The arguments for git that print the branch of a worktree.
pub open spec fn branch_words() -> Seq<Seq<char>> {
    seq!["symbolic-ref"@, "--short"@, "HEAD"@]
}

/// The git command that prints the branch of a worktree.
pub fn branch_query() -> (r: Vec<String>)
    ensures
        r.deep_view() == branch_words(),
{
    words3("symbolic-ref", "--short", "HEAD")
}

/// Whether a path is among the given ones.
pub open spec fn listed(paths: Seq<Seq<char>>, path: Seq<char>) -> bool {
    exists|i: int| 0 <= i < paths.len() && same(#[trigger] paths[i], path)
}

/// The paths of the windows, each path once.
pub open spec fn window_paths<S>(ws: Seq<Window<S>>) -> Seq<Seq<char>>
    decreases ws.len(),
{
    if ws.len() == 0 {
        Seq::empty()
    } else {
        let before = window_paths(ws.drop_last());
        if listed(before, ws.last().path@) {
            before
        } else {
            before.push(ws.last().path@)
        }
    }
}

/// Looks for a path among others.
pub fn lists_path(paths: &Vec<String>, path: &str) -> (r: bool)
    ensures
        r == listed(paths.deep_view(), path@),
{
    let mut i: usize = 0;
    while i < paths.len()
        invariant
            i <= paths@.len(),
            forall|j: int| 0 <= j < i ==> !same(#[trigger] paths.deep_view()[j], path@),
        decreases paths@.len() - i,
    {
        assert(paths.deep_view()[i as int] == paths@[i as int]@);
        if same_path(paths[i].as_str(), path) {
            return true;
        }
        i = i + 1;
    }
    false
}

fn words3(a: &str, b: &str, c: &str) -> (r: Vec<String>)
    ensures
        r.deep_view() == seq![a@, b@, c@],
{
    let mut r: Vec<String> = Vec::new();
    r.push(a.to_string());
    r.push(b.to_string());
    r.push(c.to_string());
    assert(r.deep_view() =~= seq![a@, b@, c@]);
    r
}

impl<S> App<S> {
    /// Starts with one window.
    pub fn new(win: Window<S>) -> (r: Self)
        requires
            win.wf(),
        ensures
            r@ == (AppState {
                windows: seq![win],
                active: 0,
                should_quit: false,
                input_mode: None,
                input: Seq::empty(),
                pty_dims: (80u16, 22u16, 10u16),
            }),
            r@.wf(),
    {
        let mut windows: Vec<Window<S>> = Vec::new();
        windows.push(win);
        assert(windows@ =~= seq![win]);
        App {
            windows,
            active: 0,
            should_quit: false,
            input_mode: None,
            input_buf: String::new(),
            pty_dims: (80, 22, 10),
        }
    }

    /// The window in front.
    pub fn win(&self) -> (r: &Window<S>)
        requires
            self.active < self.windows@.len(),
        ensures
            *r == self@.front(),
    {
        &self.windows[self.active]
    }

    /// The window in front, to be changed.
    pub fn win_mut(&mut self) -> (r: &mut Window<S>)
        requires
            old(self).active < old(self).windows@.len(),
        ensures
            *r == old(self)@.front(),
            final(self)@ == old(self)@.with_front(*final(r)),
    {
        let i: usize = self.active;
        &mut self.windows[i]
    }

    fn find_window(&self, path: &str) -> (r: usize)
        ensures
            r == window_at(self.windows@, path@),
            r <= self.windows@.len(),
    {
        let mut i: usize = 0;
        let ghost ws = self.windows@;
        assert(ws.skip(0) =~= ws);
        while i < self.windows.len() && !same_path(self.windows[i].path.as_str(), path)
            invariant
                i <= ws.len(),
                ws == self.windows@,
                window_at(ws, path@) == i + window_at(ws.skip(i as int), path@),
            decreases ws.len() - i,
        {
            assert(ws.skip(i as int).drop_first() =~= ws.skip(i + 1));
            i = i + 1;
        }
        i
    }

    /// Brings the window on `path` to the front. If there is none, hands the path
    /// back: a window is to be made for it and given to `add_window`.
    pub fn open_window(&mut self, path: String) -> (r: Option<String>)
        ensures
            old(self)@.open_at(path@) is Some ==> r is None && final(self)@ == (AppState {
                active: window_at(old(self)@.windows, path@) as int,
                ..old(self)@
            }),
            old(self)@.open_at(path@) is None ==> r == Some(path) && final(self)@ == old(self)@,
            old(self)@.sound() ==> final(self)@.sound(),
    {
        let i: usize = self.find_window(path.as_str());
        if i < self.windows.len() {
            self.active = i;
            None
        } else {
            Some(path)
        }
    }

    /// Puts a new window in front. The result is the sizes of its sessions.
    pub fn add_window(&mut self, win: Window<S>) -> (r: Vec<PtyResize>)
        requires
            old(self)@.sound(),
            win.wf(),
        ensures
            final(self)@ == (AppState {
                windows: old(self)@.windows.push(win),
                active: old(self)@.windows.len() as int,
                ..old(self)@
            }),
            final(self)@.sound(),
            ({
                let (cols, claude_rows, term_rows) = old(self).pty_dims;
                let i = old(self).windows@.len() as usize;
                r@ == resize_of(win.claude, i, Pane::Claude, cols, claude_rows) + resize_of(
                    win.terminal,
                    i,
                    Pane::Terminal,
                    cols,
                    term_rows,
                )
            }),
    {
        let i: usize = self.windows.len();
        let mut out: Vec<PtyResize> = Vec::new();
        let (cols, claude_rows, term_rows): (u16, u16, u16) = self.pty_dims;
        win.resize_claude_pty(i, cols, claude_rows, &mut out);
        win.resize_terminal_pty(i, cols, term_rows, &mut out);
        assert(Seq::<PtyResize>::empty() + resize_of(win.claude, i, Pane::Claude, cols, claude_rows)
            =~= resize_of(win.claude, i, Pane::Claude, cols, claude_rows));
        self.windows.push(win);
        self.active = i;
        out
    }

    /// Closes a window and hands it back, so that its sessions can be ended.
    pub fn close_window(&mut self, idx: usize) -> (r: Window<S>)
        requires
            idx < old(self).windows@.len(),
        ensures
            final(self)@ == old(self)@.closed(idx as int),
            r == old(self).windows@[idx as int],
            old(self)@.sound() ==> final(self)@.sound(),
    {
        let win = self.windows.remove(idx);
        if self.windows.is_empty() {
            self.should_quit = true;
        } else {
            self.active = self.active.min(self.windows.len() - 1);
        }
        win
    }

    /// Brings the next window to the front, counted round.
    pub fn next_window(&mut self)
        requires
            old(self)@.sound(),
            old(self).windows@.len() > 0,
        ensures
            final(self)@ == old(self)@.turned(1),
            final(self)@.sound(),
    {
        let n: usize = self.windows.len();
        self.active = (self.active + 1) % n;
    }

    /// Brings the previous window to the front, counted round.
    pub fn prev_window(&mut self)
        requires
            old(self)@.sound(),
            old(self).windows@.len() > 0,
        ensures
            final(self)@ == old(self)@.turned(-1),
            final(self)@.sound(),
    {
        let n: usize = self.windows.len();
        let ghost a = self.active as int;
        if self.active == 0 {
            assert((a - 1) % (n as int) == n - 1) by (nonlinear_arith)
                requires
                    a == 0,
                    n > 0,
            ;
            self.active = n - 1;
        } else {
            assert((a - 1) % (n as int) == a - 1) by (nonlinear_arith)
                requires
                    0 < a < n,
            ;
            self.active = self.active - 1;
        }
    }

    /// The paths that windows are open on.
    pub fn open_paths(&self) -> (r: Vec<String>)
        ensures
            r.deep_view() == window_paths(self@.windows),
    {
        let mut r: Vec<String> = Vec::new();
        let mut i: usize = 0;
        let ghost ws = self.windows@;
        assert(r.deep_view() =~= window_paths(ws.take(0)));
        while i < self.windows.len()
            invariant
                i <= ws.len(),
                ws == self.windows@,
                r.deep_view() == window_paths(ws.take(i as int)),
            decreases ws.len() - i,
        {
            let path = &self.windows[i].path;
            let ghost before = r.deep_view();
            assert(ws.take(i + 1).drop_last() =~= ws.take(i as int));
            if !lists_path(&r, path.as_str()) {
                r.push(path.clone());
                assert(r.deep_view() =~= before.push(path@));
            }
            i = i + 1;
        }
        assert(ws.take(i as int) =~= ws);
        r
    }

    /// Closes the window on a worktree and says how to remove the worktree.
    pub fn delete_worktree(&mut self, path: &str) -> (r: (Option<Window<S>>, GitCommand))
        requires
            old(self)@.sound(),
            old(self)@.closed_at(path@).windows.len() > 0,
        ensures
            final(self)@ == old(self)@.closed_at(path@),
            final(self)@.sound(),
            r.0 == old(self)@.open_at(path@),
            r.1@ == remove_command(final(self)@.front().path@, path@),
    {
        let i: usize = self.find_window(path);
        let closed = if i < self.windows.len() {
            Some(self.close_window(i))
        } else {
            None
        };
        let mut args = words3("worktree", "remove", "--force");
        let ghost head = args.deep_view();
        args.push(path.to_string());
        assert(args.deep_view() =~= head.push(path@));
        let command = GitCommand { dir: self.win().path.clone(), args };
        assert(command@.args =~= seq!["worktree"@, "remove"@, "--force"@, path@]);
        (closed, command)
    }

    /// Says how to delete a branch.
    pub fn delete_branch(&self, name: &str) -> (r: GitCommand)
        requires
            self.active < self.windows@.len(),
        ensures
            r@ == delete_command(self@.front().path@, name@),
    {
        GitCommand { dir: self.win().path.clone(), args: words3("branch", "-d", name) }
    }

    /// Says how to make a worktree on a new branch, and where it will be.
    pub fn create_worktree(&self, name: &str) -> (r: (GitCommand, String))
        requires
            self.active < self.windows@.len(),
        ensures
            r.0@ == add_command(self@.front().path@, name@),
            r.1@ == sibling(self@.front().path@, name@),
    {
        let target = sibling_path(self.win().path.as_str(), name);
        let mut args = words3("worktree", "add", "-b");
        let ghost head = args.deep_view();
        args.push(name.to_string());
        args.push(target.clone());
        assert(args.deep_view() =~= head.push(name@).push(target@));
        let command = GitCommand { dir: self.win().path.clone(), args };
        assert(command@.args =~= seq!["worktree"@, "add"@, "-b"@, name@, target@]);
        (command, target)
    }
}

} // verus!
