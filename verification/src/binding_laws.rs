//! How bindings are read and shown.

use vstd::prelude::*;

use crate::config::{binding_of, key_label, key_of, modifier_label, modifiers_of, KeyBinding};
use crate::keys::{KeyCode, KeyModifiers};
use crate::text::{decimal, lower, lower_char, numeral, upper_char};
use crate::text_laws::{numbers_are_read_back, pieces_come_apart, separated};

verus! {

/// Whether a word is, in capitals or small letters, one of two names.
pub open spec fn called(word: Seq<char>, name: Seq<char>, other: Seq<char>) -> bool {
    lower(word) == name || lower(word) == other
}

/// Whether a word names Control.
pub open spec fn names_control(word: Seq<char>) -> bool {
    called(word, "ctrl"@, "control"@)
}

/// Whether a word names Alt.
pub open spec fn names_alt(word: Seq<char>) -> bool {
    called(word, "alt"@, "meta"@)
}

/// Whether a word names Shift.
pub open spec fn names_shift(word: Seq<char>) -> bool {
    called(word, "shift"@, "shift"@)
}

/// Whether a word names a modifier.
pub open spec fn names_modifier(word: Seq<char>) -> bool {
    names_control(word) || names_alt(word) || names_shift(word)
}

/// Whether every word names a modifier.
pub open spec fn all_modifiers(ws: Seq<Seq<char>>) -> bool {
    forall|i: int| 0 <= i < ws.len() ==> names_modifier(#[trigger] ws[i])
}

/// Whether these are the modifiers that the words name, and no others.
pub open spec fn gathered(ws: Seq<Seq<char>>, m: KeyModifiers) -> bool {
    &&& m.control <==> exists|i: int| 0 <= i < ws.len() && names_control(#[trigger] ws[i])
    &&& m.alt <==> exists|i: int| 0 <= i < ws.len() && names_alt(#[trigger] ws[i])
    &&& m.shift <==> exists|i: int| 0 <= i < ws.len() && names_shift(#[trigger] ws[i])
    &&& !m.super_key && !m.hyper && !m.meta
}

proof fn lemma_names_differ(word: Seq<char>)
    ensures
        !(names_control(word) && names_alt(word)),
        !(names_control(word) && names_shift(word)),
        !(names_alt(word) && names_shift(word)),
{
    reveal_strlit("ctrl");
    reveal_strlit("control");
    reveal_strlit("alt");
    reveal_strlit("meta");
    reveal_strlit("shift");
    assert("ctrl"@[0] == 'c' && "control"@[0] == 'c' && "alt"@[0] == 'a' && "meta"@[0] == 'm'
        && "shift"@[0] == 's');
}

proof fn lemma_gathered(ws: Seq<Seq<char>>)
    requires
        all_modifiers(ws),
    ensures
        modifiers_of(ws) is Ok,
        gathered(ws, modifiers_of(ws)->Ok_0),
    decreases ws.len(),
{
    if ws.len() > 0 {
        let shorter = ws.drop_last();
        assert forall|i: int| 0 <= i < shorter.len() implies names_modifier(
            #[trigger] shorter[i],
        ) by {
            assert(names_modifier(ws[i]));
        }
        lemma_gathered(shorter);
        let k = ws.len() - 1;
        let m = modifiers_of(shorter)->Ok_0;
        let n = modifiers_of(ws)->Ok_0;
        lemma_names_differ(ws[k]);
        assert(names_modifier(ws[k]));
        assert(n.control ==> exists|i: int| 0 <= i < ws.len() && names_control(#[trigger] ws[i]))
            by {
            if m.control {
                let i = choose|i: int|
                    0 <= i < shorter.len() && names_control(#[trigger] shorter[i]);
                assert(names_control(ws[i]));
            } else if n.control {
                assert(names_control(ws[k]));
            }
        }
        assert(n.alt ==> exists|i: int| 0 <= i < ws.len() && names_alt(#[trigger] ws[i])) by {
            if m.alt {
                let i = choose|i: int| 0 <= i < shorter.len() && names_alt(#[trigger] shorter[i]);
                assert(names_alt(ws[i]));
            } else if n.alt {
                assert(names_alt(ws[k]));
            }
        }
        assert(n.shift ==> exists|i: int| 0 <= i < ws.len() && names_shift(#[trigger] ws[i])) by {
            if m.shift {
                let i = choose|i: int| 0 <= i < shorter.len() && names_shift(#[trigger] shorter[i]);
                assert(names_shift(ws[i]));
            } else if n.shift {
                assert(names_shift(ws[k]));
            }
        }
        assert forall|i: int| 0 <= i < ws.len() implies (names_control(#[trigger] ws[i])
            ==> n.control) && (names_alt(ws[i]) ==> n.alt) && (names_shift(ws[i]) ==> n.shift) by {
            if i < k {
                assert(ws[i] == shorter[i]);
            }
        }
    }
}

proof fn lemma_complaint(ws: Seq<Seq<char>>, k: int)
    requires
        0 <= k < ws.len(),
        all_modifiers(ws.take(k)),
        !names_modifier(ws[k]),
    ensures
        modifiers_of(ws) == Err::<KeyModifiers, Seq<char>>("unknown modifier: "@ + lower(ws[k])),
    decreases ws.len(),
{
    let shorter = ws.drop_last();
    if k < ws.len() - 1 {
        assert(shorter.take(k) =~= ws.take(k));
        lemma_complaint(shorter, k);
    } else {
        assert(shorter =~= ws.take(k));
        lemma_gathered(shorter);
    }
}

/// Words with plus signs between them are a binding: the last names the key, and
/// each of the others, in any order and any number of times, a modifier. The
/// first that names none is what the complaint is about, whatever the key.
pub proof fn bindings_are_read(ws: Seq<Seq<char>>, key: Seq<char>, k: int)
    requires
        forall|i: int| 0 <= i < ws.len() ==> !(#[trigger] ws[i]).contains('+'),
        !key.contains('+'),
    ensures
        ({
            let r = binding_of(separated(ws.push(key), '+'));
            &&& all_modifiers(ws) && key_of(key) is Ok ==> r is Ok && r->Ok_0.code
                == key_of(key)->Ok_0 && gathered(ws, r->Ok_0.modifiers)
            &&& all_modifiers(ws) && key_of(key) is Err ==> r == Err::<KeyBinding, Seq<char>>(
                key_of(key)->Err_0,
            )
            &&& 0 <= k < ws.len() && all_modifiers(ws.take(k)) && !names_modifier(ws[k]) ==> r
                == Err::<KeyBinding, Seq<char>>("unknown modifier: "@ + lower(ws[k]))
        }),
{
    let all = ws.push(key);
    assert forall|i: int| 0 <= i < all.len() implies !(#[trigger] all[i]).contains('+') by {
        if i < ws.len() {
            assert(!ws[i].contains('+'));
        }
    }
    pieces_come_apart(all, '+');
    assert(all.drop_last() =~= ws);
    if all_modifiers(ws) {
        lemma_gathered(ws);
    }
    if 0 <= k < ws.len() && all_modifiers(ws.take(k)) && !names_modifier(ws[k]) {
        lemma_complaint(ws, k);
    }
}

/// Whether a word is, in capitals or small letters, the name of a key that is
/// no character and no function key.
pub open spec fn key_called(word: Seq<char>, code: KeyCode) -> bool {
    match code {
        KeyCode::Enter => called(word, "enter"@, "return"@),
        KeyCode::Esc => called(word, "esc"@, "escape"@),
        KeyCode::Backspace => called(word, "backspace"@, "bs"@),
        KeyCode::Delete => called(word, "delete"@, "del"@),
        KeyCode::Up => called(word, "up"@, "up"@),
        KeyCode::Down => called(word, "down"@, "down"@),
        KeyCode::Left => called(word, "left"@, "left"@),
        KeyCode::Right => called(word, "right"@, "right"@),
        KeyCode::Tab => called(word, "tab"@, "tab"@),
        KeyCode::Home => called(word, "home"@, "home"@),
        KeyCode::End => called(word, "end"@, "end"@),
        KeyCode::PageUp => called(word, "pageup"@, "pageup"@),
        KeyCode::PageDown => called(word, "pagedown"@, "pagedown"@),
        _ => false,
    }
}

proof fn lemma_key_names()
    ensures
        "enter"@.len() == 5 && "enter"@[0] == 'e' && "enter"@[2] == 't',
        "return"@.len() == 6 && "return"@[0] == 'r',
        "esc"@.len() == 3 && "esc"@[0] == 'e' && "esc"@[2] == 'c',
        "escape"@.len() == 6 && "escape"@[0] == 'e',
        "backspace"@.len() == 9 && "backspace"@[0] == 'b',
        "bs"@.len() == 2 && "bs"@[0] == 'b',
        "delete"@.len() == 6 && "delete"@[0] == 'd',
        "del"@.len() == 3 && "del"@[0] == 'd',
        "up"@.len() == 2 && "up"@[0] == 'u',
        "down"@.len() == 4 && "down"@[0] == 'd',
        "left"@.len() == 4 && "left"@[0] == 'l',
        "right"@.len() == 5 && "right"@[0] == 'r',
        "tab"@.len() == 3 && "tab"@[0] == 't',
        "home"@.len() == 4 && "home"@[0] == 'h',
        "end"@.len() == 3 && "end"@[0] == 'e' && "end"@[2] == 'd',
        "pageup"@.len() == 6 && "pageup"@[0] == 'p',
        "pagedown"@.len() == 8 && "pagedown"@[0] == 'p',
{
    reveal_strlit("enter");
    reveal_strlit("return");
    reveal_strlit("esc");
    reveal_strlit("escape");
    reveal_strlit("backspace");
    reveal_strlit("bs");
    reveal_strlit("delete");
    reveal_strlit("del");
    reveal_strlit("up");
    reveal_strlit("down");
    reveal_strlit("left");
    reveal_strlit("right");
    reveal_strlit("tab");
    reveal_strlit("home");
    reveal_strlit("end");
    reveal_strlit("pageup");
    reveal_strlit("pagedown");
}

/// A key is read by one of its names and by nothing else. A single ASCII
/// character is that key, a letter as the small one; `f` with a number is a
/// function key. Everything else is complained about.
pub proof fn keys_are_read(word: Seq<char>, code: KeyCode)
    ensures
        !(code is Char) && !(code is F) ==> (key_of(word) == Ok::<KeyCode, Seq<char>>(code)
            <==> key_called(word, code)),
        code matches KeyCode::Char(c) ==> (key_of(word) == Ok::<KeyCode, Seq<char>>(code)
            <==> word.len() == 1 && (c as u32) < 128 && c == lower_char(word[0])),
        code matches KeyCode::F(n) ==> (key_of(word) == Ok::<KeyCode, Seq<char>>(code) <==> {
            &&& word.len() > 1
            &&& word[0] == 'f' || word[0] == 'F'
            &&& numeral(lower(word).skip(1), 255) == Some(n as nat)
        }),
        key_of(word) is Err ==> key_of(word)->Err_0 == (if word.len() > 0 && (word[0] == 'f'
            || word[0] == 'F') {
            "invalid key: "@
        } else {
            "unknown key: "@
        }) + lower(word),
{
    lemma_key_names();
    let w = lower(word);
    if w.len() > 0 {
        assert(w[0] == lower_char(word[0]));
        assert(w[0] == 'f' <==> word[0] == 'f' || word[0] == 'F');
    }
    if w.len() == 1 {
        assert(w =~= seq![w[0]]);
    }
    if w.len() > 0 {
        numbers_are_read_back(0, 255, w.skip(1), 0);
    }
}

/// A function key is read back from `f` and its number.
pub proof fn function_keys_are_read(n: u8, word: Seq<char>)
    requires
        lower(word) == seq!['f'] + decimal(n as nat),
    ensures
        key_of(word) == Ok::<KeyCode, Seq<char>>(KeyCode::F(n)),
{
    let digits = decimal(n as nat);
    numbers_are_read_back(n as nat, 255, digits, 0);
    assert(lower(word).skip(1) =~= digits);
    assert(lower(word)[0] == 'f' && lower(word)[0] == lower_char(word[0]));
    assert(digits.len() > 0);
    keys_are_read(word, KeyCode::F(n));
}

/// What a binding is shown as: the mark of its first modifier, of Control, Alt
/// and Shift, and then its key: a character as it is, or as a capital with
/// Control, and a function key with its number.
pub proof fn labels_show_the_key(b: KeyBinding)
    ensures
        ({
            let m = b.modifiers;
            let label = modifier_label(m) + key_label(b);
            let mark = if m.control {
                seq!['^']
            } else if m.alt {
                seq!['M', '-']
            } else if m.shift {
                seq!['S']
            } else {
                Seq::empty()
            };
            &&& b.code matches KeyCode::Char(c) ==> label == mark.push(
                if m.control {
                    upper_char(c)
                } else {
                    c
                },
            )
            &&& b.code matches KeyCode::F(n) ==> label == mark.push('F') + decimal(n as nat)
        }),
{
    let m = b.modifiers;
    reveal_strlit("^");
    reveal_strlit("M-");
    reveal_strlit("S");
    reveal_strlit("F");
    let mark = modifier_label(m);
    assert(m.control ==> mark =~= seq!['^']);
    assert(!m.control && m.alt ==> mark =~= seq!['M', '-']);
    assert(!m.control && !m.alt && m.shift ==> mark =~= seq!['S']);
    match b.code {
        KeyCode::Char(c) => {
            let d = if m.control {
                upper_char(c)
            } else {
                c
            };
            assert(mark + seq![d] =~= mark.push(d));
        },
        KeyCode::F(n) => {
            assert("F"@ =~= seq!['F']);
            assert(mark + (seq!['F'] + decimal(n as nat)) =~= mark.push('F') + decimal(n as nat));
        },
        _ => {},
    }
}

/// What is shown of a key that is no character does not depend on its modifiers,
/// but for the mark in front.
pub proof fn modifiers_only_add_a_mark(a: KeyBinding, b: KeyBinding)
    requires
        a.code == b.code,
        !(a.code is Char),
    ensures
        key_label(a) == key_label(b),
{
}

} // verus!
