use daltui::app::{App, GitOutput, Window};
use daltui::config::KeyConfig;
use daltui::events::{handle_key, Action};
use daltui::keys::{KeyCode, KeyEvent, KeyEventKind, KeyModifiers};
use daltui::screen::{can_capture, capture, new_screen, probe_scroll, resize_screen, CellColor};
use daltui::ui::pty_pane::row_line;
use daltui::ui::style::{vt100_color, Color, Style};

fn filled(rows: u16, cols: u16, history: usize) -> vt100::Parser {
    let mut p = vt100::Parser::new(rows, cols, 100);
    for i in 0..history + rows as usize {
        if i > 0 {
            p.process(b"\r\n");
        }
        p.process(format!("line {i}").as_bytes());
    }
    p
}

fn text_of(p: &mut vt100::Parser, scroll: usize) -> Vec<String> {
    let shot = capture(p, scroll);
    let mut out = Vec::new();
    for row in &shot.rows {
        let s: String = row.iter().map(|g| g.text.as_str()).collect();
        out.push(s.trim_end().to_string());
    }
    out
}

#[test]
fn a_screen_is_captured_from_the_bottom() {
    let mut p = filled(3, 10, 2);
    assert_eq!(text_of(&mut p, 0), vec!["line 2", "line 3", "line 4"]);
    assert_eq!(p.screen().scrollback(), 0);
}

#[test]
fn a_screen_is_captured_scrolled_back() {
    let mut p = filled(3, 10, 5);
    assert_eq!(text_of(&mut p, 2), vec!["line 3", "line 4", "line 5"]);
    assert_eq!(text_of(&mut p, 3), vec!["line 2", "line 3", "line 4"]);
    assert_eq!(p.screen().scrollback(), 0);
    let mut p = filled(3, 10, 1);
    assert_eq!(text_of(&mut p, 9), vec!["line 0", "line 1", "line 2"]);
}

#[test]
fn too_far_back_cannot_be_captured() {
    let mut p = filled(3, 10, 5);
    assert!(can_capture(&mut p, 3));
    assert!(!can_capture(&mut p, 4));
    assert_eq!(p.screen().scrollback(), 0);
    let mut p = filled(3, 10, 2);
    assert!(can_capture(&mut p, 1000));
}

#[test]
fn scrolling_back_is_limited_by_history_and_height() {
    let mut p = filled(4, 10, 2);
    assert_eq!(probe_scroll(Some(&mut p), 0, 3), 2);
    assert_eq!(probe_scroll(Some(&mut p), 0, 1), 1);
    assert_eq!(p.screen().scrollback(), 0);
    let mut p = filled(4, 10, 50);
    assert_eq!(probe_scroll(Some(&mut p), 0, 3), 3);
    assert_eq!(probe_scroll(Some(&mut p), 3, 3), 4);
    assert_eq!(probe_scroll(Some(&mut p), usize::MAX, 3), 4);
    assert_eq!(probe_scroll(None, 5, 3), 0);
}

#[test]
fn what_keys_reach_can_be_drawn() {
    let out = GitOutput {
        log: String::new(),
        worktrees: String::new(),
        branches: String::new(),
        diff: String::new(),
    };
    let win = Window::new("/a".to_string(), "a".to_string(), Some(1u8), None, out);
    let mut app = App::new(win);
    let kc = KeyConfig::default();
    let mut p = filled(5, 10, 30);
    let up = KeyEvent {
        code: KeyCode::Up,
        modifiers: KeyModifiers::shift(),
        kind: KeyEventKind::Press,
    };
    let page = KeyEvent { code: KeyCode::PageUp, modifiers: KeyModifiers::none(), ..up };
    let mut seen = Vec::new();
    for k in [up, up, page, page] {
        assert!(matches!(handle_key(&mut app, k, &kc, Some(&mut p)), Action::Nothing));
        seen.push(app.windows[0].claude_scroll);
        assert!(can_capture(&mut p, app.windows[0].claude_scroll));
    }
    assert_eq!(seen, vec![3, 5, 5, 5]);
}

#[test]
fn cells_keep_their_attributes() {
    let mut p = vt100::Parser::new(1, 8, 0);
    p.process(b"\x1b[1;31mA\x1b[0;3;4;7mB\x1b[0;48;5;200mC\x1b[0;38;2;1;2;3mD");
    let shot = capture(&mut p, 0);
    let row = &shot.rows[0];
    let plain = Style::new();
    assert_eq!(row[0].text, "A");
    assert_eq!(row[0].style, Style { fg: Some(Color::Red), bold: true, ..plain });
    assert_eq!(
        row[1].style,
        Style { italic: true, underlined: true, reversed: true, ..plain }
    );
    assert_eq!(row[2].style, Style { bg: Some(Color::Indexed(200)), ..plain });
    assert_eq!(row[3].style, Style { fg: Some(Color::Rgb(1, 2, 3)), ..plain });
    assert_eq!((row[4].text.as_str(), row[4].style), (" ", plain));
    assert_eq!(shot.cursor, (0, 4));
}

#[test]
fn the_first_colours_have_names() {
    let want = [
        Color::Black,
        Color::Red,
        Color::Green,
        Color::Yellow,
        Color::Blue,
        Color::Magenta,
        Color::Cyan,
        Color::White,
        Color::DarkGray,
        Color::LightRed,
        Color::LightGreen,
        Color::LightYellow,
        Color::LightBlue,
        Color::LightMagenta,
        Color::LightCyan,
        Color::Gray,
    ];
    for i in 0..16u8 {
        assert_eq!(vt100_color(CellColor::Idx(i)), Some(want[i as usize]));
    }
    assert_eq!(vt100_color(CellColor::Idx(16)), Some(Color::Indexed(16)));
    assert_eq!(vt100_color(CellColor::Default), None);
}

#[test]
fn glyphs_of_one_style_are_one_span() {
    let mut p = vt100::Parser::new(1, 9, 0);
    p.process(b"ab\x1b[32mcd\x1b[0m e\x1b[1mf");
    let shot = capture(&mut p, 0);
    let line = row_line(&shot.rows[0]);
    let texts: Vec<&str> = line.spans.iter().map(|s| s.content.as_str()).collect();
    assert_eq!(texts, vec!["ab", "cd", " e", "f", "  "]);
    for pair in line.spans.windows(2) {
        assert_ne!(pair[0].style, pair[1].style);
    }
    let all: String = line.spans.iter().map(|s| s.content.as_str()).collect();
    assert_eq!(all, "abcd ef  ");
}

#[test]
fn resizing_keeps_what_fits() {
    let mut p = filled(3, 10, 1);
    resize_screen(&mut p, 4, 2);
    assert_eq!(p.screen().size(), (2, 4));
    assert_eq!(text_of(&mut p, 0), vec!["line", "line"]);
    assert_eq!(p.screen().cursor_position(), (1, 3));
    resize_screen(&mut p, 6, 3);
    assert_eq!(text_of(&mut p, 0), vec!["line", "line", ""]);
    resize_screen(&mut p, 0, 0);
    assert_eq!(p.screen().size(), (1, 1));
}

#[test]
fn new_screens_are_blank_and_keep_history() {
    let mut p = new_screen(3, 5, 2);
    assert_eq!(p.screen().size(), (3, 5));
    let shot = capture(&mut p, 9);
    assert_eq!(shot.cursor, (0, 0));
    assert_eq!(shot.rows.len(), 3);
    for row in &shot.rows {
        assert_eq!(row.len(), 5);
        assert!(row.iter().all(|g| g.text == " " && g.style == Style::new()));
    }
    p.process(b"1\r\n2\r\n3\r\n4\r\n5\r\n6\r\n7");
    assert_eq!(text_of(&mut p, 9), vec!["3", "4", "5"]);
}

#[test]
fn a_screen_may_have_no_columns() {
    let mut p = new_screen(2, 0, 0);
    assert_eq!(p.screen().size(), (2, 0));
    let shot = capture(&mut p, 0);
    assert_eq!(shot.rows.len(), 2);
    assert!(shot.rows.iter().all(|r| r.is_empty()));
}
