use daltui::config::{parse_key_binding, KeyBinding, KeyConfig};
use daltui::keys::{KeyCode, KeyModifiers};

fn ok(s: &str) -> KeyBinding {
    match parse_key_binding(s) {
        Ok(b) => b,
        Err(e) => panic!("{s}: {e}"),
    }
}

fn err(s: &str) -> String {
    match parse_key_binding(s) {
        Ok(_) => panic!("{s} was read"),
        Err(e) => e,
    }
}

#[test]
fn bindings_are_read() {
    assert_eq!(ok("q"), KeyBinding::new(KeyCode::Char('q'), KeyModifiers::none()));
    assert_eq!(ok("ctrl+q"), KeyBinding::new(KeyCode::Char('q'), KeyModifiers::control()));
    assert_eq!(ok("Control+Q"), ok("ctrl+q"));
    assert_eq!(ok("shift+up"), KeyBinding::new(KeyCode::Up, KeyModifiers::shift()));
    let all = KeyModifiers { alt: true, control: true, ..KeyModifiers::shift() };
    assert_eq!(ok("ctrl+alt+shift+f12"), KeyBinding::new(KeyCode::F(12), all));
    assert_eq!(ok("meta+x").modifiers, ok("alt+x").modifiers);
    assert_eq!(ok("ctrl+ctrl+x"), ok("ctrl+x"));
}

#[test]
fn named_keys_are_read() {
    let table = [
        ("enter", KeyCode::Enter),
        ("return", KeyCode::Enter),
        ("esc", KeyCode::Esc),
        ("ESCAPE", KeyCode::Esc),
        ("backspace", KeyCode::Backspace),
        ("bs", KeyCode::Backspace),
        ("up", KeyCode::Up),
        ("down", KeyCode::Down),
        ("left", KeyCode::Left),
        ("right", KeyCode::Right),
        ("tab", KeyCode::Tab),
        ("delete", KeyCode::Delete),
        ("del", KeyCode::Delete),
        ("home", KeyCode::Home),
        ("end", KeyCode::End),
        ("pageup", KeyCode::PageUp),
        ("PageDown", KeyCode::PageDown),
        ("f", KeyCode::Char('f')),
        ("f0", KeyCode::F(0)),
        ("F255", KeyCode::F(255)),
        (" ", KeyCode::Char(' ')),
    ];
    for (s, code) in table {
        assert_eq!(ok(s), KeyBinding::new(code, KeyModifiers::none()));
    }
}

#[test]
fn complaints_name_the_word() {
    assert_eq!(err("Hyper+x"), "unknown modifier: hyper");
    assert_eq!(err("ctrl+nope+Fx"), "unknown modifier: nope");
    assert_eq!(err("Fx"), "invalid key: fx");
    assert_eq!(err("f256"), "invalid key: f256");
    assert_eq!(err("ctrl+Bogus"), "unknown key: bogus");
    assert_eq!(err(""), "unknown key: ");
    assert_eq!(err("ctrl+"), "unknown key: ");
    assert_eq!(err("é"), "unknown key: é");
    assert_eq!(err("+"), "unknown modifier: ");
}

#[test]
fn case_does_not_matter() {
    for s in ["ctrl+ALT+Delete", "Shift+PageUp", "WRONG+x", "F12"] {
        let small = s.to_ascii_lowercase();
        let capital = s.to_ascii_uppercase();
        assert_eq!(parse_key_binding(s), parse_key_binding(&small));
        assert_eq!(parse_key_binding(s), parse_key_binding(&capital));
    }
}

#[test]
fn bindings_match_on_key_and_modifiers() {
    let b = ok("ctrl+x");
    assert!(b.matches(KeyCode::Char('x'), KeyModifiers::control()));
    assert!(!b.matches(KeyCode::Char('x'), KeyModifiers::none()));
    assert!(!b.matches(KeyCode::Char('X'), KeyModifiers::control()));
    let more = KeyModifiers { shift: true, ..KeyModifiers::control() };
    assert!(!b.matches(KeyCode::Char('x'), more));
}

#[test]
fn bindings_are_displayed() {
    assert_eq!(ok("ctrl+q").display(), "^Q");
    assert_eq!(ok("q").display(), "q");
    assert_eq!(ok("alt+q").display(), "M-q");
    assert_eq!(ok("shift+up").display(), "S↑");
    assert_eq!(ok("down").display(), "↓");
    assert_eq!(ok("left").display(), "←");
    assert_eq!(ok("right").display(), "→");
    assert_eq!(ok("enter").display(), "Enter");
    assert_eq!(ok("esc").display(), "Esc");
    assert_eq!(ok("bs").display(), "BS");
    assert_eq!(ok("f12").display(), "F12");
    assert_eq!(ok("ctrl+alt+pageup").display(), "^?");
}

#[test]
fn defaults_are_as_written_down() {
    let kc = KeyConfig::default();
    assert_eq!(kc.global.quit, ok("ctrl+q"));
    assert_eq!(kc.global.cycle_pane, ok("ctrl+w"));
    assert_eq!(kc.global.next_window, ok("ctrl+n"));
    assert_eq!(kc.global.prev_window, ok("ctrl+p"));
    assert_eq!(kc.global.close_window, ok("ctrl+x"));
    assert_eq!(kc.git.open, ok("enter"));
    assert_eq!(kc.git.new_worktree, ok("ctrl+t"));
    assert_eq!(kc.git.delete, ok("d"));
    assert_eq!(kc.git.refresh, ok("ctrl+r"));
    assert_eq!(kc.diff.fullscreen, ok("ctrl+f"));
    assert_eq!(kc.diff.explorer, ok("e"));
    assert_eq!(kc.diff.scroll_down, ok("j"));
    assert_eq!(kc.diff.scroll_up, ok("k"));
    assert_eq!(kc.pty.cycle_pane, ok("ctrl+w"));
    assert_eq!(kc.pty.quit, ok("ctrl+q"));
    assert_eq!(kc.pty.scroll_up, ok("shift+up"));
    assert_eq!(kc.pty.scroll_down, ok("shift+down"));
    assert_eq!(kc.pty.page_up, ok("pageup"));
    assert_eq!(kc.pty.page_down, ok("pagedown"));
}
