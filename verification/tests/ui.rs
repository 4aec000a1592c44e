use daltui::app::{App, GitOutput, GitTab, InputMode, Pane, Window};
use daltui::git::{parse_diff, parse_side_by_side, FileDiff};
use daltui::text::to_chars;
use daltui::ui::draw::{Body, Draw, Side, Widget};
use daltui::ui::git_pane::{
    color_diff_line, draw_sbs, draw_unified_diff, render_branches_tab, render_diff_tab,
    render_git_pane, render_sbs, render_scrollable_text, render_worktrees_tab, sbs_row_to_lines,
};
use daltui::ui::layout::{inside_border, split_four, split_three, split_two, Area, Axis, Part};
use daltui::ui::pty_pane::{render_claude_pane, render_terminal_pane};
use daltui::ui::render::{render, render_input_prompt, render_window_bar};
use daltui::ui::style::{Color, Line, Style};

fn area(x: u16, y: u16, width: u16, height: u16) -> Area {
    Area { x, y, width, height }
}

fn output() -> GitOutput {
    GitOutput {
        log: "* 2\n* 1\n".to_string(),
        worktrees: "worktree /w/main\nbranch refs/heads/main\n\nworktree /w/topic\nbranch refs/heads/topic\n".to_string(),
        branches: "* main 1\n  topic 2\n".to_string(),
        diff: "diff --git a/x b/x\n@@ -9,2 +9 @@\n a\n-b\n".to_string(),
    }
}

fn window() -> Window<u8> {
    Window::new("/w/main".to_string(), "main".to_string(), Some(1), Some(2), output())
}

fn texts(line: &Line) -> Vec<(String, Style)> {
    line.spans.iter().map(|s| (s.content.clone(), s.style)).collect()
}

fn area_of(d: &Draw) -> Area {
    match d {
        Draw::Widget(a, _) => *a,
        Draw::Cursor(x, y) => area(*x, *y, 1, 1),
    }
}

fn raw_text(d: &Draw) -> String {
    match d {
        Draw::Widget(_, Widget::Text { body: Body::Raw(s), .. }) => s.clone(),
        _ => panic!("no text"),
    }
}

fn cursors(v: &[Draw]) -> Vec<(u16, u16)> {
    let mut out = Vec::new();
    for d in v {
        if let Draw::Cursor(x, y) = d {
            out.push((*x, *y));
        }
    }
    out
}

#[test]
fn borders_take_one_cell_on_each_side() {
    assert_eq!(inside_border(area(3, 4, 10, 8)), area(4, 5, 8, 6));
    assert_eq!(inside_border(area(3, 4, 2, 1)), area(4, 5, 0, 0));
    assert_eq!(inside_border(area(3, 4, 0, 0)), area(3, 4, 0, 0));
    assert_eq!(inside_border(area(65535, 65535, 1, 9)), area(65535, 65535, 0, 7));
}

#[test]
fn halves_and_fifths_round_up_at_the_middle() {
    for n in 0..400u16 {
        let half = Part::Percentage(50);
        let (a, b) = split_two(Axis::Across, half, half, area(7, 1, n, 3));
        assert_eq!(a, area(7, 1, (n + 1) / 2, 3));
        assert_eq!(b, area(7 + a.width, 1, n - a.width, 3));
        let (a, b) =
            split_two(Axis::Down, Part::Percentage(60), Part::Percentage(40), area(7, 1, 5, n));
        assert_eq!(a, area(7, 1, 5, (60 * n + 50) / 100));
        assert_eq!(b, area(7, 1 + a.height, 5, n - a.height));
    }
}

#[test]
fn fixed_parts_come_before_the_rest() {
    for n in 0..400u16 {
        let (a, b) = split_two(Axis::Down, Part::Length(1), Part::Min(0), area(2, 3, 9, n));
        assert_eq!(a, area(2, 3, 9, n.min(1)));
        assert_eq!(b, area(2, 3 + a.height, 9, n - a.height));
        let (a, b) = split_two(Axis::Across, Part::Min(0), Part::Length(1), area(2, 3, n, 9));
        assert_eq!(b, area(2 + a.width, 3, n.min(1), 9));
        assert_eq!(a, area(2, 3, n - b.width, 9));
        let (a, b) = split_two(Axis::Down, Part::Length(1), Part::Length(1), area(2, 3, 9, n));
        if n >= 2 {
            assert_eq!((a, b), (area(2, 3, 9, 1), area(2, 4, 9, 1)));
        }
        assert!(a.height + b.height <= n);
    }
}

#[test]
fn three_parts_share_an_area() {
    for n in 0..400u16 {
        let (a, b, c) = split_three(
            Axis::Across,
            Part::Percentage(20),
            Part::Length(1),
            Part::Min(0),
            area(5, 0, n, 2),
        );
        assert_eq!(a.x, 5);
        assert_eq!(b.x, a.x + a.width);
        assert_eq!(c.x, b.x + b.width);
        assert!(c.x + c.width <= 5 + n);
        if n >= 2 {
            assert_eq!(a.width, (20 * n + 50) / 100);
            assert_eq!(b.width, 1);
            assert_eq!(c.x + c.width, 5 + n);
        }
        let (a, b, c) = split_three(
            Axis::Down,
            Part::Length(1),
            Part::Length(1),
            Part::Min(0),
            area(5, 0, 2, n),
        );
        if n >= 2 {
            assert_eq!((a.height, b.height, c.height), (1, 1, n - 2));
        }
        assert_eq!((a.y, b.y, c.y), (0, a.height, a.height + b.height));
    }
}

#[test]
fn four_parts_share_an_area() {
    let half = Part::Percentage(50);
    let one = Part::Length(1);
    for n in 0..400u16 {
        let (a, b, c, d) = split_four(Axis::Across, half, one, half, one, area(0, 0, n, 2));
        assert_eq!((a.x, b.x), (0, a.width));
        assert_eq!((c.x, d.x), (b.x + b.width, c.x + c.width));
        assert_eq!(d.x + d.width, n);
        if n >= 2 {
            assert_eq!((b.width, d.width), (1, 1));
            for w in [a.width, c.width] {
                assert!(2 * w + 6 >= n && 2 * w <= n + 2);
            }
            if n >= 6 {
                assert_eq!(a.width, (n + 1) / 2);
            }
        } else {
            assert_eq!((a.width, c.width), (0, 0));
        }
    }
}

#[test]
fn the_second_of_two_shares_gives_way() {
    for x in [0u16, 1, 40, 1001] {
        for n in (6..300u16).chain([999, 1000, 20000, 64000]) {
            let half = Part::Percentage(50);
            let one = Part::Length(1);
            let (a, b, c, d) = split_four(Axis::Across, half, one, half, one, area(x, 0, n, 2));
            assert_eq!((a.x, a.width), (x, (n + 1) / 2));
            assert_eq!((b.x, b.width), (x + a.width, 1));
            assert_eq!((c.x, c.width), (b.x + 1, n - 2 - a.width));
            assert_eq!((d.x, d.width), (x + n - 1, 1));
        }
    }
    for n in 40..200u16 {
        for (p, q, k, l) in [(70, 30, 2, 5), (30, 70, 5, 2), (45, 60, 1, 0), (10, 95, 0, 9)] {
            let (a, b, c, d) = split_four(
                Axis::Down,
                Part::Percentage(p),
                Part::Length(k),
                Part::Percentage(q),
                Part::Length(l),
                area(0, 3, 1, n),
            );
            let over = (p + q) as i32 * n as i32 + 100 * (k + l) as i32 - 100 * n as i32;
            let second = q as i32 * n as i32 - over;
            if over > 0 && second >= 100 * k as i32 && second >= 100 * l as i32 {
                assert_eq!((a.y, a.height), (3, (p * n + 50) / 100));
                assert_eq!((b.height, d.height), (k, l));
                assert_eq!(c.height, n - a.height - k - l);
            }
        }
    }
}

#[test]
fn the_two_halves_of_a_diff_are_alike() {
    let fd = parse_diff("diff --git a/x b/x\n@@ -1 +1 @@\n-a\n+b\n").remove(0);
    for n in [2u16, 7, 40, 81, 200] {
        let v = render_sbs(&fd, 0, area(3, 0, n, 5), Style::new());
        let (rule, left, right, bar) =
            (area_of(&v[0]), area_of(&v[1]), area_of(&v[2]), area_of(&v[3]));
        assert_eq!(left.width + right.width, n - 2);
        assert!(left.width.abs_diff(right.width) <= 4);
        assert_eq!((rule.width, bar.width), (1, 1));
        assert_eq!(bar.x + 1, 3 + n);
    }
}

#[test]
fn shares_give_way_to_minimums_and_lengths() {
    for n in 0..60u16 {
        let (a, b, c) = split_three(
            Axis::Across,
            Part::Percentage(80),
            Part::Percentage(40),
            Part::Min(3),
            area(0, 0, n, 1),
        );
        assert_eq!(c.x + c.width, n);
        assert_eq!((b.x, c.x), (a.width, a.width + b.width));
        if n >= 3 {
            assert_eq!(c.width, 3);
            let over = 20 * n as i32 + 300;
            for (w, p) in [(a.width, 80), (b.width, 40)] {
                let (got, want) = (100 * w as i32, p * n as i32);
                assert!(want - over - 100 <= got && got <= want + 100);
            }
        } else {
            assert_eq!((a.width, b.width), (0, 0));
        }
    }
}

#[test]
fn lengths_that_do_not_fit_fill_the_area() {
    for n in 0..9u16 {
        let (a, b, c) = split_three(
            Axis::Down,
            Part::Length(4),
            Part::Percentage(50),
            Part::Length(5),
            area(0, 0, 1, n),
        );
        assert_eq!((b.height, c.y + c.height), (0, n));
        assert!(a.height <= 4 && c.height <= 5);
    }
    let (a, b) = split_two(Axis::Down, Part::Length(1), Part::Length(1), area(0, 0, 1, 1));
    assert_eq!(a.height + b.height, 1);
}

#[test]
fn uneven_requests_are_met_where_they_fit() {
    let (a, b, c, d) = split_four(
        Axis::Down,
        Part::Length(3),
        Part::Percentage(25),
        Part::Min(2),
        Part::Percentage(10),
        area(0, 10, 4, 50),
    );
    assert_eq!((a.y, a.height), (10, 3));
    assert_eq!((b.y, b.height), (13, 13));
    assert_eq!((c.y, c.height), (26, 29));
    assert_eq!((d.y, d.height), (55, 5));
}

#[test]
fn areas_beyond_the_coordinates_are_cut() {
    let (a, b) =
        split_two(Axis::Across, Part::Length(1), Part::Min(0), area(65530, 0, 100, 1));
    assert_eq!(a, area(65530, 0, 1, 1));
    assert_eq!(b, area(65531, 0, 4, 1));
}

#[test]
fn diff_lines_are_coloured() {
    let style = |s: &str| texts(&color_diff_line(&to_chars(s)))[0].1;
    assert_eq!(style("+x"), Style::color(Color::Green));
    assert_eq!(style("+++ b/x"), Style::new());
    assert_eq!(style("-x"), Style::color(Color::Red));
    assert_eq!(style("--- a/x"), Style::new());
    assert_eq!(style("@@ -1 +1 @@"), Style::color(Color::Cyan));
    assert_eq!(style("diff --git"), Style::bold_color(Color::Blue));
    assert_eq!(style("index 1..2"), Style::bold_color(Color::Blue));
    assert_eq!(style(" same"), Style::new());
    assert_eq!(style(""), Style::new());
    assert_eq!(texts(&color_diff_line(&to_chars("+x")))[0].0, "+x");
}

#[test]
fn rows_are_set_with_numbers() {
    let rows = parse_side_by_side("@@ -9 +99 @@\n a\n-b\n+c\n-d\n+e\n+f\n");
    let dim = Style::color(Color::DarkGray);
    let (l, r) = sbs_row_to_lines(&rows[0], 3);
    assert_eq!(
        texts(&l),
        vec![("@@ -9 +99 @@".to_string(), Style::bold_color(Color::Blue))]
    );
    assert_eq!(texts(&r), vec![("".to_string(), Style::bold_color(Color::Blue))]);
    let (l, r) = sbs_row_to_lines(&rows[1], 3);
    assert_eq!(texts(&l), vec![("  9 ".to_string(), dim), ("a".to_string(), Style::new())]);
    assert_eq!(texts(&r), vec![(" 99 ".to_string(), dim), ("a".to_string(), Style::new())]);
    let (l, r) = sbs_row_to_lines(&rows[2], 3);
    assert_eq!(
        texts(&l),
        vec![(" 10 ".to_string(), dim), ("b".to_string(), Style::color(Color::Red))]
    );
    assert_eq!(
        texts(&r),
        vec![("100 ".to_string(), dim), ("c".to_string(), Style::color(Color::Green))]
    );
    let (l, r) = sbs_row_to_lines(&rows[4], 1);
    assert_eq!(texts(&l), vec![("".to_string(), Style::new())]);
    assert_eq!(
        texts(&r),
        vec![("102 ".to_string(), dim), ("f".to_string(), Style::color(Color::Green))]
    );
}

#[test]
fn removed_rows_leave_the_right_empty() {
    let rows = parse_side_by_side("-a\n");
    let (l, r) = sbs_row_to_lines(&rows[0], 2);
    assert_eq!(texts(&l)[0].0, " 1 ");
    assert_eq!(texts(&r), vec![("".to_string(), Style::new())]);
}

#[test]
fn side_by_side_shows_the_rows_in_view() {
    let mut raw = "diff --git a/x b/x\n@@ -1 +1 @@\n".to_string();
    for i in 0..120 {
        raw.push_str(&format!(" row {i}\n"));
    }
    let fd = parse_diff(&raw).remove(0);
    let style = Style::color(Color::Blue);
    let a = area(0, 0, 40, 10);
    let v = draw_sbs(&fd, 2, a, area(40, 0, 1, 10), area(41, 0, 38, 10), area(79, 0, 1, 10), style);
    assert_eq!(v.len(), 4);
    assert!(matches!(&v[0], Draw::Widget(_, Widget::Rule { side: Side::Left, .. })));
    match &v[1] {
        Draw::Widget(b, Widget::Text { body: Body::Lines(lines), .. }) => {
            assert_eq!(*b, a);
            assert_eq!(lines.len(), 10);
            assert_eq!(texts(&lines[0])[0].0, "  1 ");
            assert_eq!(texts(&lines[0])[1].0, "row 0");
            let widths: Vec<usize> = lines.iter().map(|l| texts(l)[0].0.len()).collect();
            assert!(widths.iter().all(|w| *w == 4));
        }
        _ => panic!("no lines"),
    }
    match &v[3] {
        Draw::Widget(_, Widget::Scrollbar { length, position, .. }) => {
            assert_eq!((*length, *position), (112, 2));
        }
        _ => panic!("no scroll bar"),
    }
    let v = draw_sbs(&fd, 118, a, a, a, a, style);
    match &v[1] {
        Draw::Widget(_, Widget::Text { body: Body::Lines(lines), .. }) => assert_eq!(lines.len(), 4),
        _ => panic!("no lines"),
    }
    let v = draw_sbs(&fd, 999, a, a, a, a, style);
    match &v[1] {
        Draw::Widget(_, Widget::Text { body: Body::Lines(lines), .. }) => assert_eq!(lines.len(), 0),
        _ => panic!("no lines"),
    }
}

#[test]
fn an_empty_diff_has_narrow_numbers() {
    let fd = FileDiff { filename: "x".to_string(), content: String::new(), sbs: Vec::new() };
    let v = render_sbs(&fd, 0, area(0, 0, 10, 5), Style::new());
    assert_eq!(v.len(), 4);
}

#[test]
fn text_has_a_scroll_bar() {
    let v = render_scrollable_text("a\nb\nc\n", 1, area(0, 0, 20, 2), Style::color(Color::Blue));
    assert_eq!(v.len(), 2);
    match &v[0] {
        Draw::Widget(a, Widget::Text { body: Body::Raw(s), scroll, wrap, centered, .. }) => {
            assert_eq!(*a, area(0, 0, 19, 2));
            assert_eq!((s.as_str(), *scroll, *wrap, *centered), ("a\nb\nc\n", 1, true, false));
        }
        _ => panic!("no text"),
    }
    match &v[1] {
        Draw::Widget(a, Widget::Scrollbar { length, position, style }) => {
            assert_eq!(*a, area(19, 0, 1, 2));
            assert_eq!((*length, *position, *style), (1, 1, Style::color(Color::Blue)));
        }
        _ => panic!("no scroll bar"),
    }
}

#[test]
fn unified_diffs_are_coloured_line_by_line() {
    let a = area(0, 0, 9, 9);
    let v = draw_unified_diff("+a\n-b\nc", 0, a, a, Style::new());
    match &v[0] {
        Draw::Widget(_, Widget::Text { body: Body::Lines(lines), wrap, .. }) => {
            assert!(*wrap);
            let styles: Vec<Style> = lines.iter().map(|l| texts(l)[0].1).collect();
            assert_eq!(
                styles,
                vec![Style::color(Color::Green), Style::color(Color::Red), Style::new()]
            );
        }
        _ => panic!("no lines"),
    }
    assert!(matches!(&v[1], Draw::Widget(_, Widget::Scrollbar { length: 0, position: 0, .. })));
}

#[test]
fn worktrees_with_windows_are_marked() {
    let w = window();
    let v = render_worktrees_tab(&w, area(0, 0, 20, 5), &vec!["/w//topic".to_string()]);
    match &v[0] {
        Draw::Widget(_, Widget::Items { items, selected, highlight }) => {
            let names: Vec<&str> = items.iter().map(|s| s.content.as_str()).collect();
            assert_eq!(names, vec!["main", "topic [open]"]);
            assert_eq!(*selected, 0);
            assert_eq!(*highlight, Style { reversed: true, ..Style::bold_color(Color::Blue) });
        }
        _ => panic!("no list"),
    }
    let mut w = window();
    w.git_worktrees.clear();
    let v = render_worktrees_tab(&w, area(0, 0, 20, 5), &Vec::new());
    assert_eq!(raw_text(&v[0]), "No worktrees found.");
}

#[test]
fn the_current_branch_stands_out() {
    let w = window();
    let v = render_branches_tab(&w, area(0, 0, 20, 5));
    match &v[0] {
        Draw::Widget(_, Widget::Items { items, .. }) => {
            assert_eq!(items[0].content, "* main");
            assert_eq!(items[0].style, Style::bold_color(Color::Green));
            assert_eq!(items[1].content, "  topic");
            assert_eq!(items[1].style, Style::new());
        }
        _ => panic!("no list"),
    }
    let mut w = window();
    w.git_branches.clear();
    assert_eq!(raw_text(&render_branches_tab(&w, area(0, 0, 20, 5))[0]), "No branches found.");
}

#[test]
fn the_diff_tab_lists_files() {
    let mut w = window();
    let v = render_diff_tab(&w, area(0, 0, 50, 10), true, Style::new());
    assert_eq!(v.len(), 4);
    assert_eq!(area_of(&v[0]), area(0, 0, 10, 10));
    assert_eq!(area_of(&v[1]), area(10, 0, 1, 10));
    assert_eq!(area_of(&v[2]), area(11, 0, 38, 10));
    w.diff_show_list = false;
    assert_eq!(render_diff_tab(&w, area(0, 0, 50, 10), true, Style::new()).len(), 2);
    w.fullscreen = true;
    assert_eq!(render_diff_tab(&w, area(0, 0, 50, 10), true, Style::new()).len(), 4);
    w.file_diffs.clear();
    let v = render_diff_tab(&w, area(0, 0, 50, 10), true, Style::new());
    assert_eq!(raw_text(&v[0]), "No changes in working tree.");
    assert_eq!(raw_text(&render_diff_tab(&w, area(0, 0, 50, 10), false, Style::new())[0]), "");
}

#[test]
fn the_git_pane_has_tabs_and_hints() {
    let mut w = window();
    let normal = Style::color(Color::Blue);
    let active = Style::bold_color(Color::Blue);
    let hints = [
        (GitTab::Diff, false, " ←→ tabs  ↑↓ file  j/k scroll  e explorer  ^F fullscreen  ^R refresh "),
        (GitTab::Diff, true, " ↑↓/j/k scroll  e explorer  ^F exit fullscreen  ^R refresh "),
        (GitTab::Worktrees, false, " ←→ tabs  ↑↓ select  Enter open  ^T new  d delete  ^R refresh "),
        (GitTab::Branches, true, " ←→ tabs  ↑↓ select  d delete  ^R refresh "),
        (GitTab::Log, false, " ←→ tabs  ↑↓ scroll  ^R refresh "),
    ];
    for (tab, fullscreen, want) in hints {
        w.git_tab = tab;
        w.fullscreen = fullscreen;
        let v = render_git_pane(&w, area(0, 0, 40, 10), true, normal, active, &Vec::new());
        match &v[0] {
            Draw::Widget(_, Widget::Border { style, title, hint }) => {
                assert_eq!(*style, active);
                assert_eq!(*title, None);
                assert_eq!(hint.as_deref(), Some(want));
            }
            _ => panic!("no border"),
        }
        match &v[1] {
            Draw::Widget(a, Widget::Tabs { titles, selected, style, highlight }) => {
                assert_eq!(*a, area(1, 1, 38, 1));
                assert_eq!(titles.len(), 4);
                assert_eq!(titles[*selected], tab.title());
                assert_eq!(*style, normal);
                assert_eq!(*highlight, Style { underlined: true, ..active });
            }
            _ => panic!("no tabs"),
        }
        assert!(matches!(&v[2], Draw::Widget(_, Widget::Rule { side: Side::Top, .. })));
        assert_eq!(area_of(&v[2]), area(1, 2, 38, 1));
    }
    let v = render_git_pane(&w, area(0, 0, 40, 10), false, normal, active, &Vec::new());
    match (&v[0], &v[1]) {
        (
            Draw::Widget(_, Widget::Border { style, hint, .. }),
            Draw::Widget(_, Widget::Tabs { style: tabs, .. }),
        ) => {
            assert_eq!(*style, normal);
            assert_eq!(hint.as_deref(), Some(""));
            assert_eq!(*tabs, Style::color(Color::DarkGray));
        }
        _ => panic!("no frame"),
    }
}

#[test]
fn panes_without_a_session_say_so() {
    let mut w = window();
    w.claude = None;
    w.terminal = None;
    let s = Style::new();
    let v = render_claude_pane(&w, "agent", None, area(0, 0, 40, 10), true, s, s);
    assert_eq!(raw_text(&v[1]), "Failed to start agent CLI.\nEnsure `agent` is on PATH.");
    match &v[0] {
        Draw::Widget(_, Widget::Border { title, hint, .. }) => {
            assert_eq!(title.as_deref(), Some(" main * "));
            assert_eq!(hint.as_deref(), Some(" S↑↓/PgUp/PgDn scroll  ^W pane  ^Q quit "));
        }
        _ => panic!("no border"),
    }
    let v = render_terminal_pane(&w, None, area(0, 0, 40, 10), false, s, s);
    assert_eq!(raw_text(&v[1]), "Failed to start shell.\nCheck $SHELL.");
    match &v[0] {
        Draw::Widget(_, Widget::Border { title, hint, .. }) => {
            assert_eq!(title.as_deref(), Some(" Terminal "));
            assert_eq!(hint.as_deref(), Some(""));
        }
        _ => panic!("no border"),
    }
}

#[test]
fn an_unreadable_session_leaves_the_border() {
    let w = window();
    let s = Style::new();
    assert_eq!(render_claude_pane(&w, "agent", None, area(0, 0, 40, 10), true, s, s).len(), 1);
}

#[test]
fn the_cursor_shows_in_the_pane_with_the_focus() {
    let w = window();
    let s = Style::new();
    let mut p = vt100::Parser::new(5, 10, 0);
    p.process(b"hi\r\nyou");
    let v = render_terminal_pane(&w, Some(&mut p), area(10, 5, 12, 7), true, s, s);
    assert_eq!(cursors(&v), vec![(14, 7)]);
    let v = render_terminal_pane(&w, Some(&mut p), area(10, 5, 12, 7), false, s, s);
    assert!(cursors(&v).is_empty());
    let v = render_terminal_pane(&w, Some(&mut p), area(10, 5, 5, 7), true, s, s);
    assert!(cursors(&v).is_empty());
    let mut w = window();
    let mut q = vt100::Parser::new(2, 10, 9);
    q.process(b"1\r\n2\r\n3");
    w.claude_scroll = 1;
    let v = render_claude_pane(&w, "agent", Some(&mut q), area(0, 0, 12, 4), true, s, s);
    assert!(cursors(&v).is_empty());
    match &v[1] {
        Draw::Widget(_, Widget::Text { body: Body::Lines(lines), .. }) => {
            assert_eq!(texts(&lines[0])[0].0, "1         ");
        }
        _ => panic!("no lines"),
    }
}

#[test]
fn the_bar_names_windows() {
    let mut app = App::new(window());
    let mut second = window();
    second.name = "topic".to_string();
    app.add_window(second);
    let v = render_window_bar(&app, area(0, 0, 80, 1));
    match &v[0] {
        Draw::Widget(_, Widget::Tabs { titles, selected, .. }) => {
            assert_eq!(*titles, vec![" main ".to_string(), " topic ".to_string()]);
            assert_eq!(*selected, 1);
        }
        _ => panic!("no tabs"),
    }
    assert_eq!(raw_text(&v[1]), "datui");
    assert!(matches!(&v[1], Draw::Widget(_, Widget::Text { centered: true, .. })));
}

#[test]
fn questions_stand_in_the_middle() {
    let mut app = App::new(window());
    app.input_mode = Some(InputMode::NewWorktree);
    app.input_buf = "top".to_string();
    let v = render_input_prompt(&app, area(0, 0, 80, 24));
    assert_eq!(v.len(), 4);
    assert!(matches!(&v[0], Draw::Widget(_, Widget::Clear)));
    assert_eq!(area_of(&v[0]), area(13, 9, 54, 5));
    assert_eq!(raw_text(&v[2]), "Branch name (worktree created at ../name):");
    assert_eq!(area_of(&v[2]), area(14, 10, 52, 1));
    assert_eq!(raw_text(&v[3]), "top_");
    assert_eq!(area_of(&v[3]), area(14, 11, 52, 1));
    app.input_mode = Some(InputMode::ConfirmDelete("/p".to_string(), "topic".to_string()));
    let v = render_input_prompt(&app, area(0, 0, 30, 24));
    assert_eq!(area_of(&v[0]), area(2, 9, 26, 5));
    assert_eq!(raw_text(&v[2]), "Remove worktree 'topic'?");
    assert_eq!(raw_text(&v[3]), "Press y to confirm, n or Esc to cancel");
    app.input_mode = Some(InputMode::ConfirmDeleteBranch("b".to_string()));
    let v = render_input_prompt(&app, area(0, 0, 3, 3));
    assert_eq!(area_of(&v[0]), area(1, 0, 0, 5));
    assert_eq!(raw_text(&v[2]), "Delete branch 'b'?");
    match &v[1] {
        Draw::Widget(_, Widget::Border { style, title, hint }) => {
            assert_eq!(*style, Style::bold_color(Color::Red));
            assert_eq!(title.as_deref(), Some(" Delete Branch "));
            assert_eq!(*hint, None);
        }
        _ => panic!("no border"),
    }
}

#[test]
fn the_display_holds_three_panes() {
    let mut app = App::new(window());
    app.windows[0].focused = Pane::Terminal;
    let mut a = vt100::Parser::new(5, 10, 0);
    let mut b = vt100::Parser::new(5, 10, 0);
    let v = render(&app, "agent", Some(&mut a), Some(&mut b), area(0, 0, 81, 25));
    assert_eq!(area_of(&v[0]), area(0, 0, 81, 1));
    assert_eq!(area_of(&v[2]), area(0, 1, 41, 24));
    let borders: Vec<Area> = v
        .iter()
        .filter(|d| matches!(d, Draw::Widget(_, Widget::Border { .. })))
        .map(area_of)
        .collect();
    assert_eq!(
        borders,
        vec![area(0, 1, 41, 24), area(41, 1, 40, 14), area(41, 15, 40, 10)]
    );
    assert_eq!(cursors(&v), vec![(42, 16)]);
}

#[test]
fn full_screen_shows_git_alone() {
    let mut app = App::new(window());
    app.windows[0].fullscreen = true;
    app.input_mode = Some(InputMode::NewWorktree);
    let v = render(&app, "agent", None, None, area(0, 0, 80, 24));
    let borders: Vec<Area> = v
        .iter()
        .filter(|d| matches!(d, Draw::Widget(_, Widget::Border { .. })))
        .map(area_of)
        .collect();
    assert_eq!(borders, vec![area(0, 1, 80, 23)]);
    app.windows[0].fullscreen = false;
    let v = render(&app, "agent", None, None, area(0, 0, 80, 24));
    assert!(v.iter().any(|d| matches!(d, Draw::Widget(_, Widget::Clear))));
}

#[test]
fn nothing_is_drawn_off_the_display() {
    let mut app = App::new(window());
    app.windows[0].focused = Pane::Claude;
    app.input_mode = Some(InputMode::NewWorktree);
    for (w, h) in [(0u16, 5u16), (1, 6), (3, 7), (20, 9), (80, 24), (300, 100)] {
        for tab in GitTab::ALL {
            app.windows[0].git_tab = tab;
            let mut p = vt100::Parser::new(30, 200, 0);
            let v = render(&app, "agent", Some(&mut p), None, area(0, 0, w, h));
            for d in &v {
                let a = area_of(d);
                assert!(a.x + a.width <= w && a.y + a.height <= h);
            }
        }
    }
}
