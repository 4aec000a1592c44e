use daltui::app::{
    branch_query, git_queries, lists_path, shell_program, App, GitOutput, GitTab, InputMode, Pane,
    PtyResize, Window, AGENT_HISTORY, AGENT_ROWS, SESSION_COLS, SHELL_HISTORY, SHELL_ROWS,
};
use daltui::config::KeyConfig;
use daltui::events::{
    handle_git_key, handle_key, handle_resize, has_key_room, worktree_created, Action,
};
use daltui::keys::{KeyCode, KeyEvent, KeyEventKind, KeyModifiers};

const WORKTREES: &str = "worktree /w/main\nbranch refs/heads/main\n\nworktree /w/topic\nbranch refs/heads/topic\n\nworktree /w/other\ndetached\n";
const BRANCHES: &str = "* main 1\n  topic 2\n  old 3\n";
const DIFF: &str =
    "diff --git a/x b/x\n@@ -1 +1 @@\n-a\n+b\ndiff --git a/y b/y\n@@ -1,2 +1 @@\n-a\n-b\n+c\n";

fn output() -> GitOutput {
    GitOutput {
        log: "* 3\n* 2\n* 1\n".to_string(),
        worktrees: WORKTREES.to_string(),
        branches: BRANCHES.to_string(),
        diff: DIFF.to_string(),
    }
}

fn window(path: &str) -> Window<u8> {
    Window::new(path.to_string(), "name".to_string(), Some(1), Some(2), output())
}

fn app_of(paths: &[&str]) -> App<u8> {
    let mut app = App::new(window(paths[0]));
    for p in &paths[1..] {
        app.add_window(window(p));
    }
    app.active = 0;
    app
}

fn key(code: KeyCode) -> KeyEvent {
    KeyEvent { code, modifiers: KeyModifiers::none(), kind: KeyEventKind::Press }
}

fn ctrl(c: char) -> KeyEvent {
    KeyEvent {
        code: KeyCode::Char(c),
        modifiers: KeyModifiers::control(),
        kind: KeyEventKind::Press,
    }
}

fn send(app: &mut App<u8>, k: KeyEvent) -> Action<u8> {
    let kc = KeyConfig::default();
    assert!(has_key_room(app, k, &kc));
    handle_key(app, k, &kc, None)
}

fn on_git(tab: GitTab) -> App<u8> {
    let mut app = app_of(&["/w/main"]);
    app.windows[0].focused = Pane::Git;
    app.windows[0].git_tab = tab;
    app
}

fn args(v: &Vec<String>) -> Vec<&str> {
    v.iter().map(|s| s.as_str()).collect()
}

#[test]
fn tabs_have_titles_and_go_round() {
    let titles: Vec<&str> = GitTab::ALL.iter().map(|t| t.title()).collect();
    assert_eq!(titles, vec![" Diff ", " Worktrees ", " Branches ", " Log "]);
    for (i, t) in GitTab::ALL.iter().enumerate() {
        assert_eq!(t.index(), i);
        assert_eq!(t.next().prev(), *t);
        assert_eq!(t.prev().next(), *t);
        assert_eq!(t.next().next().next().next(), *t);
    }
    assert_eq!(GitTab::Log.next(), GitTab::Diff);
    assert_eq!(GitTab::Diff.prev(), GitTab::Log);
}

#[test]
fn a_new_window_shows_what_git_printed() {
    let w = window("/w/main");
    assert_eq!(w.focused, Pane::Claude);
    assert_eq!(w.git_tab, GitTab::Diff);
    assert!(w.diff_show_list);
    assert!(!w.fullscreen);
    assert_eq!(w.git_log, "* 3\n* 2\n* 1\n");
    assert_eq!(w.git_worktrees.len(), 3);
    assert_eq!(w.git_branches.len(), 3);
    assert_eq!(w.file_diffs.len(), 2);
    assert_eq!(w.scroll_offsets, [0; 4]);
}

#[test]
fn refreshing_keeps_selections_in_range() {
    let mut w = window("/w/main");
    w.worktree_selected = 2;
    w.branch_selected = 2;
    w.diff_file_idx = 1;
    w.diff_content_scroll = 3;
    w.scroll_offsets = [1, 2, 3, 4];
    w.focused = Pane::Terminal;
    w.refresh(GitOutput {
        log: "".to_string(),
        worktrees: "worktree /a\n\nworktree /b\n".to_string(),
        branches: "".to_string(),
        diff: "".to_string(),
    });
    assert_eq!(w.worktree_selected, 1);
    assert_eq!(w.branch_selected, 0);
    assert_eq!(w.diff_file_idx, 0);
    assert_eq!(w.diff_content_scroll, 0);
    assert_eq!(w.scroll_offsets, [0; 4]);
    assert_eq!(w.focused, Pane::Terminal);
    assert!(w.git_branches.is_empty());
}

#[test]
fn scrolling_stops_at_both_ends() {
    let mut w = window("/w/main");
    w.git_tab = GitTab::Log;
    assert_eq!(w.simple_tab_content(), "* 3\n* 2\n* 1\n");
    w.scroll_down(1);
    assert_eq!(w.current_scroll(), 1);
    w.scroll_up(1);
    assert_eq!(w.current_scroll(), 0);
    w.scroll_down(20);
    assert_eq!(w.scroll_offsets, [0, 0, 0, 2]);
    w.scroll_up(20);
    assert_eq!(w.current_scroll(), 0);
    w.git_tab = GitTab::Branches;
    assert_eq!(w.simple_tab_content(), "");
    w.scroll_down(5);
    assert_eq!(w.current_scroll(), 0);
}

#[test]
fn diffs_scroll_by_lines_or_rows() {
    let mut w = window("/w/main");
    w.diff_select_next();
    w.scroll_down(20);
    assert_eq!(w.diff_content_scroll, 4);
    w.diff_content_scroll = 0;
    w.fullscreen = true;
    w.scroll_down(20);
    assert_eq!(w.diff_content_scroll, 3);
    assert_eq!(w.current_scroll(), 3);
}

#[test]
fn scroll_positions_wrap_at_sixteen_bits() {
    let mut w = window("/w/main");
    w.git_tab = GitTab::Log;
    w.git_log = "x\n".repeat(65537);
    w.scroll_down(20);
    assert_eq!(w.current_scroll(), 0);
    w.git_log = "x\n".repeat(65540);
    w.scroll_down(20);
    assert_eq!(w.current_scroll(), 3);
}

#[test]
fn files_are_selected_in_turn() {
    let mut w = window("/w/main");
    w.diff_content_scroll = 1;
    w.diff_select_next();
    assert_eq!((w.diff_file_idx, w.diff_content_scroll), (1, 0));
    w.diff_select_next();
    assert_eq!(w.diff_file_idx, 1);
    w.diff_select_prev();
    assert_eq!(w.diff_file_idx, 0);
    w.diff_select_prev();
    assert_eq!(w.diff_file_idx, 0);
    w.file_diffs.clear();
    w.diff_content_scroll = 7;
    w.diff_select_next();
    assert_eq!(w.diff_content_scroll, 7);
}

#[test]
fn windows_are_opened_once() {
    let mut app = app_of(&["/w/main", "/w/topic"]);
    assert_eq!(app.open_window("/w//topic/".to_string()), None);
    assert_eq!(app.active, 1);
    assert_eq!(app.open_window("/w/new".to_string()), Some("/w/new".to_string()));
    assert_eq!(app.active, 1);
    app.pty_dims = (40, 22, 0);
    let sizes = app.add_window(window("/w/new"));
    assert_eq!(app.active, 2);
    assert_eq!(
        sizes,
        vec![
            PtyResize { window: 2, pane: Pane::Claude, cols: 40, rows: 22 },
            PtyResize { window: 2, pane: Pane::Terminal, cols: 40, rows: 1 },
        ]
    );
    assert_eq!(args(&app.open_paths()), vec!["/w/main", "/w/topic", "/w/new"]);
    assert!(lists_path(&app.open_paths(), "/w/./new"));
    assert!(!lists_path(&app.open_paths(), "/w/newer"));
}

#[test]
fn a_new_program_has_one_window() {
    let app = App::new(window("/w/main"));
    assert_eq!(app.windows.len(), 1);
    assert_eq!((app.active, app.should_quit), (0, false));
    assert_eq!(app.pty_dims, (80, 22, 10));
    assert!(app.input_mode.is_none());
    assert_eq!(app.win().path, "/w/main");
}

#[test]
fn closing_the_last_window_quits() {
    let mut app = app_of(&["/a", "/b", "/c"]);
    app.active = 2;
    assert_eq!(app.close_window(2).path, "/c");
    assert_eq!((app.active, app.should_quit), (1, false));
    assert_eq!(app.close_window(0).path, "/a");
    assert_eq!((app.active, app.win().path.as_str()), (0, "/b"));
    app.close_window(0);
    assert!(app.should_quit);
    assert!(app.windows.is_empty());
}

#[test]
fn windows_go_round_both_ways() {
    let mut app = app_of(&["/a", "/b", "/c"]);
    send(&mut app, ctrl('n'));
    assert_eq!(app.active, 1);
    send(&mut app, ctrl('p'));
    send(&mut app, ctrl('p'));
    assert_eq!(app.active, 2);
    send(&mut app, ctrl('n'));
    assert_eq!(app.active, 0);
}

#[test]
fn panes_go_round() {
    let mut app = app_of(&["/a"]);
    send(&mut app, ctrl('w'));
    assert_eq!(app.win().focused, Pane::Git);
    send(&mut app, ctrl('w'));
    assert_eq!(app.win().focused, Pane::Terminal);
    send(&mut app, ctrl('w'));
    assert_eq!(app.win().focused, Pane::Claude);
}

#[test]
fn global_keys_quit_and_close() {
    let mut app = app_of(&["/a", "/b"]);
    assert!(matches!(send(&mut app, ctrl('x')), Action::Close(w) if w.path == "/a"));
    assert_eq!(app.windows.len(), 1);
    assert!(!app.should_quit);
    assert!(matches!(send(&mut app, ctrl('q')), Action::Nothing));
    assert!(app.should_quit);
}

#[test]
fn only_presses_count() {
    let mut app = app_of(&["/a"]);
    for kind in [KeyEventKind::Release, KeyEventKind::Repeat] {
        assert!(matches!(send(&mut app, KeyEvent { kind, ..ctrl('q') }), Action::Nothing));
    }
    assert!(!app.should_quit);
}

#[test]
fn keys_go_to_the_session_with_the_focus() {
    let mut app = app_of(&["/a"]);
    app.windows[0].claude_scroll = 9;
    assert!(matches!(
        send(&mut app, key(KeyCode::Char('x'))),
        Action::Send(Pane::Claude, b) if b == b"x".to_vec()
    ));
    assert_eq!(app.windows[0].claude_scroll, 0);
    app.windows[0].focused = Pane::Terminal;
    assert!(matches!(
        send(&mut app, key(KeyCode::PageUp)),
        Action::Send(Pane::Terminal, b) if b == b"\x1b[5~".to_vec()
    ));
    assert!(matches!(send(&mut app, key(KeyCode::Null)), Action::Nothing));
    app.windows[0].terminal = None;
    assert!(matches!(send(&mut app, key(KeyCode::Char('x'))), Action::Nothing));
}

#[test]
fn the_agent_pane_scrolls_down_without_a_screen() {
    let mut app = app_of(&["/a"]);
    app.windows[0].claude_scroll = 25;
    send(&mut app, key(KeyCode::PageDown));
    assert_eq!(app.windows[0].claude_scroll, 5);
    let shift_down = KeyEvent { modifiers: KeyModifiers::shift(), ..key(KeyCode::Down) };
    send(&mut app, shift_down);
    send(&mut app, shift_down);
    assert_eq!(app.windows[0].claude_scroll, 0);
    app.windows[0].claude_scroll = 25;
    send(&mut app, key(KeyCode::PageUp));
    assert_eq!(app.windows[0].claude_scroll, 0);
}

#[test]
fn arrows_change_tabs_and_selections() {
    let mut app = on_git(GitTab::Diff);
    send(&mut app, key(KeyCode::Down));
    assert_eq!(app.win().diff_file_idx, 1);
    send(&mut app, key(KeyCode::Up));
    assert_eq!(app.win().diff_file_idx, 0);
    send(&mut app, key(KeyCode::Right));
    assert_eq!(app.win().git_tab, GitTab::Worktrees);
    for _ in 0..5 {
        send(&mut app, key(KeyCode::Down));
    }
    assert_eq!(app.win().worktree_selected, 2);
    send(&mut app, key(KeyCode::Up));
    assert_eq!(app.win().worktree_selected, 1);
    send(&mut app, key(KeyCode::Right));
    send(&mut app, key(KeyCode::Down));
    assert_eq!(app.win().branch_selected, 1);
    send(&mut app, key(KeyCode::Right));
    send(&mut app, key(KeyCode::Down));
    assert_eq!(app.win().scroll_offsets, [0, 0, 0, 1]);
    send(&mut app, key(KeyCode::Left));
    assert_eq!(app.win().git_tab, GitTab::Branches);
}

#[test]
fn diff_keys_change_the_view() {
    let mut app = on_git(GitTab::Diff);
    send(&mut app, key(KeyCode::Char('e')));
    assert!(!app.win().diff_show_list);
    send(&mut app, key(KeyCode::Down));
    assert_eq!((app.win().diff_file_idx, app.win().diff_content_scroll), (0, 1));
    send(&mut app, key(KeyCode::Char('j')));
    assert_eq!(app.win().diff_content_scroll, 3);
    send(&mut app, key(KeyCode::Char('k')));
    assert_eq!(app.win().diff_content_scroll, 0);
    send(&mut app, key(KeyCode::Char('j')));
    send(&mut app, ctrl('f'));
    assert!(app.win().fullscreen);
    assert_eq!(app.win().diff_content_scroll, 0);
    assert!(matches!(send(&mut app, ctrl('r')), Action::Refresh));
}

#[test]
fn the_git_pane_quits_on_q_and_control_c() {
    let mut app = on_git(GitTab::Log);
    send(&mut app, key(KeyCode::Char('q')));
    assert!(app.should_quit);
    let mut app = on_git(GitTab::Log);
    send(&mut app, ctrl('c'));
    assert!(app.should_quit);
    let mut app = on_git(GitTab::Log);
    send(&mut app, key(KeyCode::Char('c')));
    assert!(!app.should_quit);
}

#[test]
fn selected_worktrees_are_opened() {
    let mut app = on_git(GitTab::Worktrees);
    app.windows[0].worktree_selected = 1;
    assert!(matches!(send(&mut app, key(KeyCode::Enter)), Action::Open(p) if p == "/w/topic"));
    let mut app = app_of(&["/w/main", "/w/topic"]);
    app.windows[0].focused = Pane::Git;
    app.windows[0].git_tab = GitTab::Worktrees;
    app.windows[0].worktree_selected = 1;
    assert!(matches!(send(&mut app, key(KeyCode::Enter)), Action::Nothing));
    assert_eq!(app.active, 1);
    let mut app = on_git(GitTab::Worktrees);
    app.windows[0].git_worktrees.clear();
    assert!(matches!(send(&mut app, key(KeyCode::Enter)), Action::Nothing));
}

#[test]
fn worktrees_are_made_beside_the_current_one() {
    let mut app = on_git(GitTab::Worktrees);
    app.input_buf = "rest".to_string();
    send(&mut app, ctrl('t'));
    assert!(matches!(app.input_mode, Some(InputMode::NewWorktree)));
    assert_eq!(app.input_buf, "");
    for c in " nyx".chars() {
        send(&mut app, key(KeyCode::Char(c)));
    }
    send(&mut app, key(KeyCode::Char('!')));
    send(&mut app, key(KeyCode::Backspace));
    send(&mut app, ctrl('z'));
    assert_eq!(app.input_buf, " nyx");
    match send(&mut app, key(KeyCode::Enter)) {
        Action::CreateWorktree(c, target) => {
            assert_eq!(c.dir, "/w/main");
            assert_eq!(args(&c.args), vec!["worktree", "add", "-b", "nyx", "/w/nyx"]);
            assert_eq!(target, "/w/nyx");
        }
        _ => panic!("no worktree"),
    }
    assert!(app.input_mode.is_none());
    assert_eq!(app.input_buf, "");
}

#[test]
fn blank_names_and_escape_make_nothing() {
    let mut app = on_git(GitTab::Worktrees);
    send(&mut app, ctrl('t'));
    send(&mut app, key(KeyCode::Char(' ')));
    assert!(matches!(send(&mut app, key(KeyCode::Enter)), Action::Nothing));
    assert!(app.input_mode.is_none());
    send(&mut app, ctrl('t'));
    send(&mut app, key(KeyCode::Char('x')));
    assert!(matches!(send(&mut app, key(KeyCode::Esc)), Action::Nothing));
    assert!(app.input_mode.is_none());
    assert_eq!(app.input_buf, "");
}

#[test]
fn control_y_takes_the_question_back_and_keeps_the_name() {
    let mut app = on_git(GitTab::Worktrees);
    send(&mut app, ctrl('t'));
    send(&mut app, key(KeyCode::Char('x')));
    assert!(matches!(send(&mut app, ctrl('y')), Action::Nothing));
    assert!(app.input_mode.is_none());
    assert_eq!(app.input_buf, "x");
}

#[test]
fn worktrees_are_deleted_when_confirmed() {
    let mut app = app_of(&["/w/main", "/w/topic"]);
    app.windows[0].focused = Pane::Git;
    app.windows[0].git_tab = GitTab::Worktrees;
    send(&mut app, key(KeyCode::Char('d')));
    assert!(app.input_mode.is_none());
    app.windows[0].worktree_selected = 1;
    send(&mut app, key(KeyCode::Char('d')));
    assert!(matches!(
        &app.input_mode,
        Some(InputMode::ConfirmDelete(p, n)) if p == "/w/topic" && n == "topic"
    ));
    assert!(matches!(send(&mut app, key(KeyCode::Char('x'))), Action::Nothing));
    assert!(app.input_mode.is_some());
    match send(&mut app, key(KeyCode::Char('Y'))) {
        Action::DeleteWorktree(closed, c) => {
            assert_eq!(closed.map(|w| w.path), Some("/w/topic".to_string()));
            assert_eq!(c.dir, "/w/main");
            assert_eq!(args(&c.args), vec!["worktree", "remove", "--force", "/w/topic"]);
        }
        _ => panic!("no deletion"),
    }
    assert_eq!(app.windows.len(), 1);
    assert_eq!(app.win().path, "/w/main");
    assert!(!app.should_quit);
}

#[test]
fn deleting_an_earlier_window_moves_the_front_on() {
    let mut app = app_of(&["/w/topic", "/w/main", "/w/other"]);
    app.active = 1;
    app.input_mode =
        Some(InputMode::ConfirmDelete("/w/topic".to_string(), "topic".to_string()));
    match send(&mut app, key(KeyCode::Char('y'))) {
        Action::DeleteWorktree(_, c) => assert_eq!(c.dir, "/w/other"),
        _ => panic!("no deletion"),
    }
    assert_eq!(app.win().path, "/w/other");
}

#[test]
fn refusing_leaves_everything() {
    for k in [KeyCode::Char('n'), KeyCode::Char('N'), KeyCode::Esc, KeyCode::Enter] {
        let mut app = on_git(GitTab::Branches);
        app.input_mode = Some(InputMode::ConfirmDeleteBranch("topic".to_string()));
        assert!(matches!(send(&mut app, key(k)), Action::Nothing));
        assert!(app.input_mode.is_none());
        assert_eq!(app.windows.len(), 1);
    }
}

#[test]
fn branches_are_deleted_when_confirmed() {
    let mut app = on_git(GitTab::Branches);
    send(&mut app, key(KeyCode::Char('d')));
    assert!(app.input_mode.is_none());
    app.windows[0].branch_selected = 1;
    send(&mut app, key(KeyCode::Char('d')));
    match send(&mut app, key(KeyCode::Char('y'))) {
        Action::DeleteBranch(c) => {
            assert_eq!(c.dir, "/w/main");
            assert_eq!(args(&c.args), vec!["branch", "-d", "topic"]);
        }
        _ => panic!("no deletion"),
    }
    assert!(app.input_mode.is_none());
}

#[test]
fn questions_hold_all_keys() {
    let mut app = app_of(&["/a"]);
    app.input_mode = Some(InputMode::NewWorktree);
    assert!(matches!(send(&mut app, ctrl('q')), Action::Nothing));
    assert!(!app.should_quit);
    assert!(matches!(send(&mut app, key(KeyCode::Char('q'))), Action::Nothing));
    assert_eq!(app.input_buf, "q");
}

#[test]
fn room_to_scroll_is_checked() {
    let kc = KeyConfig::default();
    let mut app = on_git(GitTab::Log);
    app.windows[0].scroll_offsets = [0, 0, 0, u16::MAX - 19];
    assert!(!has_key_room(&app, key(KeyCode::Char('j')), &kc));
    assert!(has_key_room(&app, key(KeyCode::Down), &kc));
    app.windows[0].scroll_offsets = [0, 0, 0, u16::MAX - 20];
    assert!(has_key_room(&app, key(KeyCode::Char('j')), &kc));
    app.windows[0].scroll_offsets = [0, 0, 0, u16::MAX];
    assert!(!has_key_room(&app, key(KeyCode::Down), &kc));
    assert!(has_key_room(&app, key(KeyCode::Up), &kc));
    app.windows[0].focused = Pane::Terminal;
    assert!(has_key_room(&app, key(KeyCode::Down), &kc));
}

#[test]
fn sessions_are_fitted_to_the_display() {
    let mut app = app_of(&["/a", "/b", "/c"]);
    app.windows[1].fullscreen = true;
    app.windows[2].fullscreen = true;
    app.windows[2].focused = Pane::Git;
    app.windows[2].terminal = None;
    let v = handle_resize(&mut app, 101, 41);
    assert_eq!(app.pty_dims, (48, 38, 14));
    assert_eq!(
        v,
        vec![
            PtyResize { window: 0, pane: Pane::Claude, cols: 48, rows: 38 },
            PtyResize { window: 0, pane: Pane::Terminal, cols: 48, rows: 14 },
            PtyResize { window: 1, pane: Pane::Claude, cols: 99, rows: 38 },
            PtyResize { window: 2, pane: Pane::Claude, cols: 48, rows: 38 },
        ]
    );
}

#[test]
fn tiny_displays_leave_one_cell() {
    let mut app = app_of(&["/a"]);
    let v = handle_resize(&mut app, 0, 0);
    assert_eq!(app.pty_dims, (0, 0, 1));
    assert!(v.iter().all(|r| r.cols == 1 && r.rows == 1));
    assert_eq!(v.len(), 2);
}

#[test]
fn git_is_asked_for_four_things() {
    let q = git_queries();
    let words: Vec<Vec<&str>> = q.iter().map(args).collect();
    assert_eq!(
        words,
        vec![
            vec!["log", "--oneline", "--graph", "--decorate", "--color=never", "-100"],
            vec!["worktree", "list", "--porcelain"],
            vec!["branch", "-a", "-vv"],
            vec!["diff"],
        ]
    );
}

#[test]
fn new_worktrees_are_shown() {
    let done: Action<u8> = worktree_created(true, "/w/nyx".to_string());
    assert!(matches!(done, Action::Show(p) if p == "/w/nyx"));
    let failed: Action<u8> = worktree_created(false, "/w/nyx".to_string());
    assert!(matches!(failed, Action::Nothing));
}

#[test]
fn sessions_start_with_their_sizes() {
    assert_eq!((AGENT_ROWS, SESSION_COLS, AGENT_HISTORY), (24, 80, 1000));
    assert_eq!((SHELL_ROWS, SHELL_HISTORY), (12, 0));
    assert_eq!(shell_program(Some("/bin/sh".to_string())), "/bin/sh");
    assert_eq!(shell_program(None), "/bin/zsh");
}

#[test]
fn selections_stay_in_their_lists() {
    let kc = KeyConfig::default();
    for tab in GitTab::ALL {
        let mut app = on_git(tab);
        app.input_mode = Some(InputMode::NewWorktree);
        for code in [KeyCode::Down, KeyCode::Down, KeyCode::Down, KeyCode::Up, KeyCode::Right] {
            handle_git_key(&mut app, key(code), &kc);
            let w = app.win();
            assert!(w.worktree_selected < 3 && w.branch_selected < 3 && w.diff_file_idx < 2);
        }
    }
}

#[test]
fn git_is_asked_for_the_branch() {
    assert_eq!(args(&branch_query()), vec!["symbolic-ref", "--short", "HEAD"]);
}
