//! Key presses, and the bytes that a terminal expects for them.

use vstd::prelude::*;
use vstd::slice::slice_to_vec;
use vstd::utf8::encode_utf8;

verus! {

/// A key. Media and modifier keys are told apart by their number.
#[derive(Debug, Clone, Copy, PartialEq, Eq, Structural)]
pub enum KeyCode {
    Backspace,
    Enter,
    Left,
    Right,
    Up,
    Down,
    Home,
    End,
    PageUp,
    PageDown,
    Tab,
    BackTab,
    Delete,
    Insert,
    F(u8),
    Char(char),
    Null,
    Esc,
    CapsLock,
    ScrollLock,
    NumLock,
    PrintScreen,
    Pause,
    Menu,
    KeypadBegin,
    Media(u8),
    Modifier(u8),
}

/// The modifier keys that are held.
#[derive(Debug, Clone, Copy, PartialEq, Eq, Structural)]
pub struct KeyModifiers {
    pub shift: bool,
    pub control: bool,
    pub alt: bool,
    pub super_key: bool,
    pub hyper: bool,
    pub meta: bool,
}

/// Whether a key goes down, repeats or comes up.
#[derive(Debug, Clone, Copy, PartialEq, Eq, Structural)]
pub enum KeyEventKind {
    Press,
    Repeat,
    Release,
}

/// Something that happened to a key.
#[derive(Debug, Clone, Copy, PartialEq, Eq, Structural)]
pub struct KeyEvent {
    pub code: KeyCode,
    pub modifiers: KeyModifiers,
    pub kind: KeyEventKind,
}

/// No modifier.
pub open spec fn no_modifiers() -> KeyModifiers {
    KeyModifiers {
        shift: false,
        control: false,
        alt: false,
        super_key: false,
        hyper: false,
        meta: false,
    }
}

/// Control alone.
pub open spec fn control_only() -> KeyModifiers {
    KeyModifiers { control: true, ..no_modifiers() }
}

/// Shift alone.
pub open spec fn shift_only() -> KeyModifiers {
    KeyModifiers { shift: true, ..no_modifiers() }
}

impl KeyModifiers {
    /// No modifier.
    pub fn none() -> (r: KeyModifiers)
        ensures
            r == no_modifiers(),
    {
        KeyModifiers {
            shift: false,
            control: false,
            alt: false,
            super_key: false,
            hyper: false,
            meta: false,
        }
    }

    /// Control alone.
    pub fn control() -> (r: KeyModifiers)
        ensures
            r == control_only(),
    {
        KeyModifiers {
            shift: false,
            control: true,
            alt: false,
            super_key: false,
            hyper: false,
            meta: false,
        }
    }

    /// Shift alone.
    pub fn shift() -> (r: KeyModifiers)
        ensures
            r == shift_only(),
    {
        KeyModifiers {
            shift: true,
            control: false,
            alt: false,
            super_key: false,
            hyper: false,
            meta: false,
        }
    }
}

/// The byte for a character typed with Control: letters count from one, and
/// others keep the lowest five bits of their code.
pub open spec fn control_byte(c: char) -> u8 {
    let low = (c as u32) % 256;
    if 0x41 <= low <= 0x5a {
        (low - 0x40) as u8
    } else if 0x61 <= low <= 0x7a {
        (low - 0x60) as u8
    } else {
        (low % 32) as u8
    }
}

/// The escape sequence of a function key.
pub open spec fn function_bytes(n: u8) -> Seq<u8> {
    if n == 1 {
        seq![0x1b, 0x4f, 0x50]
    } else if n == 2 {
        seq![0x1b, 0x4f, 0x51]
    } else if n == 3 {
        seq![0x1b, 0x4f, 0x52]
    } else if n == 4 {
        seq![0x1b, 0x4f, 0x53]
    } else if n == 5 {
        seq![0x1b, 0x5b, 0x31, 0x35, 0x7e]
    } else if 6 <= n <= 8 {
        seq![0x1b, 0x5b, 0x31, (0x31 + n) as u8, 0x7e]
    } else if 9 <= n <= 10 {
        seq![0x1b, 0x5b, 0x32, (0x27 + n) as u8, 0x7e]
    } else if 11 <= n <= 12 {
        seq![0x1b, 0x5b, 0x32, (0x28 + n) as u8, 0x7e]
    } else {
        Seq::empty()
    }
}

/// The bytes that a terminal sends for a key; none for a key that it does not
/// send.
pub open spec fn key_bytes(key: KeyEvent) -> Seq<u8> {
    match key.code {
        KeyCode::Char(c) => if key.modifiers.control {
            seq![control_byte(c)]
        } else if key.modifiers.alt {
            seq![0x1bu8] + encode_utf8(seq![c])
        } else {
            encode_utf8(seq![c])
        },
        KeyCode::Enter => seq![0x0d],
        KeyCode::Backspace => seq![0x7f],
        KeyCode::Delete => seq![0x1b, 0x5b, 0x33, 0x7e],
        KeyCode::Esc => seq![0x1b],
        KeyCode::Tab => seq![0x09],
        KeyCode::BackTab => seq![0x1b, 0x5b, 0x5a],
        KeyCode::Up => seq![0x1b, 0x5b, 0x41],
        KeyCode::Down => seq![0x1b, 0x5b, 0x42],
        KeyCode::Right => seq![0x1b, 0x5b, 0x43],
        KeyCode::Left => seq![0x1b, 0x5b, 0x44],
        KeyCode::Home => seq![0x1b, 0x5b, 0x48],
        KeyCode::End => seq![0x1b, 0x5b, 0x46],
        KeyCode::PageUp => seq![0x1b, 0x5b, 0x35, 0x7e],
        KeyCode::PageDown => seq![0x1b, 0x5b, 0x36, 0x7e],
        KeyCode::Insert => seq![0x1b, 0x5b, 0x32, 0x7e],
        KeyCode::F(n) => function_bytes(n),
        _ => Seq::empty(),
    }
}

fn utf8_bytes(c: char) -> (r: Vec<u8>)
    ensures
        r@ == encode_utf8(seq![c]),
{
    let mut s = String::new();
    s.push(c);
    assert(s@ =~= seq![c]);
    slice_to_vec(s.as_str().as_bytes())
}

fn to_control_byte(c: char) -> (r: u8)
    ensures
        r == control_byte(c),
{
    let low: u32 = (c as u32) % 256;
    if 0x41 <= low && low <= 0x5a {
        (low - 0x40) as u8
    } else if 0x61 <= low && low <= 0x7a {
        (low - 0x60) as u8
    } else {
        (low % 32) as u8
    }
}

fn to_function_bytes(n: u8) -> (r: Vec<u8>)
    ensures
        r@ == function_bytes(n),
{
    let r: Vec<u8> = if n == 1 {
        vec![0x1b, 0x4f, 0x50]
    } else if n == 2 {
        vec![0x1b, 0x4f, 0x51]
    } else if n == 3 {
        vec![0x1b, 0x4f, 0x52]
    } else if n == 4 {
        vec![0x1b, 0x4f, 0x53]
    } else if n == 5 {
        vec![0x1b, 0x5b, 0x31, 0x35, 0x7e]
    } else if 6 <= n && n <= 8 {
        vec![0x1b, 0x5b, 0x31, 0x31 + n, 0x7e]
    } else if 9 <= n && n <= 10 {
        vec![0x1b, 0x5b, 0x32, 0x27 + n, 0x7e]
    } else if 11 <= n && n <= 12 {
        vec![0x1b, 0x5b, 0x32, 0x28 + n, 0x7e]
    } else {
        Vec::new()
    };
    assert(r@ =~= function_bytes(n));
    r
}

/// Encodes a key for a terminal.
pub fn key_to_bytes(key: &KeyEvent) -> (r: Vec<u8>)
    ensures
        r@ == key_bytes(*key),
{
    let r: Vec<u8> = match key.code {
        KeyCode::Char(c) => if key.modifiers.control {
            vec![to_control_byte(c)]
        } else if key.modifiers.alt {
            let mut v: Vec<u8> = vec![0x1b];
            let mut rest = utf8_bytes(c);
            v.append(&mut rest);
            v
        } else {
            utf8_bytes(c)
        },
        KeyCode::Enter => vec![0x0d],
        KeyCode::Backspace => vec![0x7f],
        KeyCode::Delete => vec![0x1b, 0x5b, 0x33, 0x7e],
        KeyCode::Esc => vec![0x1b],
        KeyCode::Tab => vec![0x09],
        KeyCode::BackTab => vec![0x1b, 0x5b, 0x5a],
        KeyCode::Up => vec![0x1b, 0x5b, 0x41],
        KeyCode::Down => vec![0x1b, 0x5b, 0x42],
        KeyCode::Right => vec![0x1b, 0x5b, 0x43],
        KeyCode::Left => vec![0x1b, 0x5b, 0x44],
        KeyCode::Home => vec![0x1b, 0x5b, 0x48],
        KeyCode::End => vec![0x1b, 0x5b, 0x46],
        KeyCode::PageUp => vec![0x1b, 0x5b, 0x35, 0x7e],
        KeyCode::PageDown => vec![0x1b, 0x5b, 0x36, 0x7e],
        KeyCode::Insert => vec![0x1b, 0x5b, 0x32, 0x7e],
        KeyCode::F(n) => to_function_bytes(n),
        _ => Vec::new(),
    };
    assert(r@ =~= key_bytes(*key));
    r
}

} // verus!
