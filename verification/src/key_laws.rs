//! What holds of every key that is sent to a terminal.

use vstd::prelude::*;
use vstd::utf8::{decode_utf8, encode_utf8, encode_utf8_decode_utf8, encode_utf8_valid_utf8};
use vstd::utf8::valid_utf8;

use crate::keys::{key_bytes, KeyCode, KeyEvent};

verus! {

/// What is sent of a key behind the escape byte that Alt puts in front.
pub open spec fn plain_bytes(key: KeyEvent) -> Seq<u8> {
    if key.modifiers.alt {
        key_bytes(key).skip(1)
    } else {
        key_bytes(key)
    }
}

/// A character typed without Control arrives as it is: what is sent, behind an
/// escape byte if Alt is held, reads as that one character.
pub proof fn characters_arrive(key: KeyEvent, c: char)
    requires
        key.code == KeyCode::Char(c),
        !key.modifiers.control,
    ensures
        valid_utf8(plain_bytes(key)),
        decode_utf8(plain_bytes(key)) == seq![c],
        key.modifiers.alt ==> key_bytes(key) == seq![0x1bu8] + plain_bytes(key),
{
    let bytes = encode_utf8(seq![c]);
    encode_utf8_valid_utf8(seq![c]);
    encode_utf8_decode_utf8(seq![c]);
    assert((seq![0x1bu8] + bytes).skip(1) =~= bytes);
    if key.modifiers.alt {
        assert(key_bytes(key) =~= seq![0x1bu8] + plain_bytes(key));
    }
}

/// Different characters typed without Control are sent differently.
pub proof fn characters_are_told_apart(a: KeyEvent, b: KeyEvent, c: char, d: char)
    requires
        a.code == KeyCode::Char(c),
        b.code == KeyCode::Char(d),
        c != d,
        !a.modifiers.control,
        !b.modifiers.control,
        a.modifiers.alt == b.modifiers.alt,
    ensures
        key_bytes(a) != key_bytes(b),
{
    characters_arrive(a, c);
    characters_arrive(b, d);
    assert(seq![c][0] == c && seq![d][0] == d);
}

/// A character typed with Control is sent as one byte, the lowest five bits of
/// its code, whatever else is held. So a letter is sent as its place in the
/// alphabet, small or capital.
pub proof fn control_keeps_five_bits(key: KeyEvent, c: char)
    requires
        key.code == KeyCode::Char(c),
        key.modifiers.control,
    ensures
        key_bytes(key).len() == 1,
        key_bytes(key)[0] as u32 == c as u32 % 32,
        'a' <= c && c <= 'z' ==> key_bytes(key)[0] as u32 == c as u32 - 'a' as u32 + 1,
        'A' <= c && c <= 'Z' ==> key_bytes(key)[0] as u32 == c as u32 - 'A' as u32 + 1,
{
}

/// Only the key, Control and Alt decide what is sent, and the latter two only of
/// characters: Shift, the other modifiers and whether the key repeats make no
/// difference.
pub proof fn other_modifiers_send_nothing(a: KeyEvent, b: KeyEvent)
    requires
        a.code == b.code,
        a.code is Char ==> a.modifiers.control == b.modifiers.control && (a.modifiers.control
            || a.modifiers.alt == b.modifiers.alt),
    ensures
        key_bytes(a) == key_bytes(b),
{
}

/// Whether a terminal is sent something for a key that is no character.
pub open spec fn has_sequence(code: KeyCode) -> bool {
    match code {
        KeyCode::F(n) => 1 <= n <= 12,
        KeyCode::Char(_) | KeyCode::Null | KeyCode::CapsLock | KeyCode::ScrollLock => false,
        KeyCode::NumLock | KeyCode::PrintScreen | KeyCode::Pause | KeyCode::Menu => false,
        KeyCode::KeypadBegin | KeyCode::Media(_) | KeyCode::Modifier(_) => false,
        _ => true,
    }
}

/// Keys that are no characters send something exactly if they have a sequence,
/// and no two of them send the same.
pub proof fn sequences_are_told_apart(a: KeyEvent, b: KeyEvent)
    requires
        !(a.code is Char),
        !(b.code is Char),
    ensures
        key_bytes(a).len() > 0 <==> has_sequence(a.code),
        has_sequence(a.code) && a.code != b.code ==> key_bytes(a) != key_bytes(b),
{
    let x = key_bytes(a);
    let y = key_bytes(b);
    if has_sequence(a.code) && a.code != b.code && x.len() == y.len() {
        assert(x.len() > 0);
        assert(x[0] != y[0] || (x.len() > 1 && x[1] != y[1]) || (x.len() > 2 && x[2] != y[2]) || (
        x.len() > 3 && x[3] != y[3]) || (x.len() > 4 && x[4] != y[4]));
    }
}

} // verus!
