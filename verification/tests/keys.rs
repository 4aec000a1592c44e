use daltui::keys::{key_to_bytes, KeyCode, KeyEvent, KeyEventKind, KeyModifiers};

fn press(code: KeyCode, modifiers: KeyModifiers) -> KeyEvent {
    KeyEvent { code, modifiers, kind: KeyEventKind::Press }
}

fn plain(code: KeyCode) -> Vec<u8> {
    key_to_bytes(&press(code, KeyModifiers::none()))
}

#[test]
fn characters_are_sent_as_utf8() {
    assert_eq!(plain(KeyCode::Char('a')), b"a".to_vec());
    assert_eq!(plain(KeyCode::Char('é')), "é".as_bytes().to_vec());
    assert_eq!(plain(KeyCode::Char('€')), "€".as_bytes().to_vec());
    assert_eq!(plain(KeyCode::Char('🦀')), "🦀".as_bytes().to_vec());
}

#[test]
fn alt_puts_an_escape_before_the_character() {
    let alt = KeyModifiers { alt: true, ..KeyModifiers::none() };
    assert_eq!(key_to_bytes(&press(KeyCode::Char('x'), alt)), vec![0x1b, b'x']);
    let mut want = vec![0x1b];
    want.extend_from_slice("ß".as_bytes());
    assert_eq!(key_to_bytes(&press(KeyCode::Char('ß'), alt)), want);
}

#[test]
fn control_makes_control_characters() {
    let ctrl = KeyModifiers::control();
    for (i, c) in ('a'..='z').enumerate() {
        assert_eq!(key_to_bytes(&press(KeyCode::Char(c), ctrl)), vec![i as u8 + 1]);
        let upper = c.to_ascii_uppercase();
        assert_eq!(key_to_bytes(&press(KeyCode::Char(upper), ctrl)), vec![i as u8 + 1]);
    }
    assert_eq!(key_to_bytes(&press(KeyCode::Char('['), ctrl)), vec![0x1b]);
    assert_eq!(key_to_bytes(&press(KeyCode::Char('@'), ctrl)), vec![0]);
    assert_eq!(key_to_bytes(&press(KeyCode::Char(' '), ctrl)), vec![0]);
    assert_eq!(key_to_bytes(&press(KeyCode::Char('?'), ctrl)), vec![0x1f]);
    let both = KeyModifiers { alt: true, ..ctrl };
    assert_eq!(key_to_bytes(&press(KeyCode::Char('a'), both)), vec![1]);
    let c = '\u{161}';
    assert_eq!(key_to_bytes(&press(KeyCode::Char(c), ctrl)), vec![1]);
}

#[test]
fn named_keys_have_their_sequences() {
    assert_eq!(plain(KeyCode::Enter), b"\r".to_vec());
    assert_eq!(plain(KeyCode::Backspace), vec![0x7f]);
    assert_eq!(plain(KeyCode::Delete), b"\x1b[3~".to_vec());
    assert_eq!(plain(KeyCode::Esc), vec![0x1b]);
    assert_eq!(plain(KeyCode::Tab), b"\t".to_vec());
    assert_eq!(plain(KeyCode::BackTab), b"\x1b[Z".to_vec());
    assert_eq!(plain(KeyCode::Up), b"\x1b[A".to_vec());
    assert_eq!(plain(KeyCode::Down), b"\x1b[B".to_vec());
    assert_eq!(plain(KeyCode::Right), b"\x1b[C".to_vec());
    assert_eq!(plain(KeyCode::Left), b"\x1b[D".to_vec());
    assert_eq!(plain(KeyCode::Home), b"\x1b[H".to_vec());
    assert_eq!(plain(KeyCode::End), b"\x1b[F".to_vec());
    assert_eq!(plain(KeyCode::PageUp), b"\x1b[5~".to_vec());
    assert_eq!(plain(KeyCode::PageDown), b"\x1b[6~".to_vec());
    assert_eq!(plain(KeyCode::Insert), b"\x1b[2~".to_vec());
    assert!(plain(KeyCode::Null).is_empty());
    assert!(plain(KeyCode::CapsLock).is_empty());
}

#[test]
fn function_keys_have_their_sequences() {
    let want: [&[u8]; 12] = [
        b"\x1bOP",
        b"\x1bOQ",
        b"\x1bOR",
        b"\x1bOS",
        b"\x1b[15~",
        b"\x1b[17~",
        b"\x1b[18~",
        b"\x1b[19~",
        b"\x1b[20~",
        b"\x1b[21~",
        b"\x1b[23~",
        b"\x1b[24~",
    ];
    for n in 1..=12u8 {
        assert_eq!(plain(KeyCode::F(n)), want[n as usize - 1].to_vec());
    }
    assert!(plain(KeyCode::F(0)).is_empty());
    assert!(plain(KeyCode::F(13)).is_empty());
}
