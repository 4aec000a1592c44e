//! Key bindings: how they are written, shown and matched, and the defaults.

use vstd::prelude::*;
use vstd::slice::slice_subrange;

use crate::keys::{control_only, no_modifiers, shift_only, KeyCode, KeyEvent, KeyModifiers};
use crate::text::{
    decimal, lower, numeral, parse_number, same_text, split, split_char, to_chars, to_decimal,
    to_lower, to_text, to_upper_char, upper_char, views,
};

verus! {

/// A key with the modifiers that go with it.
#[derive(Debug, Clone, Copy, PartialEq, Eq, Structural)]
pub struct KeyBinding {
    pub code: KeyCode,
    pub modifiers: KeyModifiers,
}

/// The label of a bound key, without its modifiers.
pub open spec fn key_label(b: KeyBinding) -> Seq<char> {
    match b.code {
        KeyCode::Char(c) => seq![
            if b.modifiers.control {
                upper_char(c)
            } else {
                c
            },
        ],
        KeyCode::Enter => "Enter"@,
        KeyCode::Esc => "Esc"@,
        KeyCode::Backspace => "BS"@,
        KeyCode::Up => "↑"@,
        KeyCode::Down => "↓"@,
        KeyCode::Left => "←"@,
        KeyCode::Right => "→"@,
        KeyCode::F(n) => "F"@ + decimal(n as nat),
        _ => "?"@,
    }
}

/// The mark of the first modifier, of Control, Alt and Shift, that a binding
/// has.
pub open spec fn modifier_label(m: KeyModifiers) -> Seq<char> {
    if m.control {
        "^"@
    } else if m.alt {
        "M-"@
    } else if m.shift {
        "S"@
    } else {
        Seq::empty()
    }
}

impl KeyBinding {
    /// Binds a key.
    pub fn new(code: KeyCode, modifiers: KeyModifiers) -> (r: Self)
        ensures
            r == (KeyBinding { code, modifiers }),
    {
        KeyBinding { code, modifiers }
    }

    /// Whether this is the key that was pressed, with exactly these modifiers.
    pub fn matches(&self, code: KeyCode, modifiers: KeyModifiers) -> (r: bool)
        ensures
            r == (self.code == code && self.modifiers == modifiers),
    {
        self.code == code && self.modifiers == modifiers
    }

    /// Whether a key event is for this binding.
    pub open spec fn hit(self, key: KeyEvent) -> bool {
        self.code == key.code && self.modifiers == key.modifiers
    }

    /// Shows the binding as a short label.
    pub fn display(&self) -> (r: String)
        ensures
            r@ == modifier_label(self.modifiers) + key_label(*self),
    {
        let key: String = match self.code {
            KeyCode::Char(c) => {
                let mut s = String::new();
                s.push(
                    if self.modifiers.control {
                        to_upper_char(c)
                    } else {
                        c
                    },
                );
                assert(s@ =~= key_label(*self));
                s
            },
            KeyCode::Enter => "Enter".to_string(),
            KeyCode::Esc => "Esc".to_string(),
            KeyCode::Backspace => "BS".to_string(),
            KeyCode::Up => "↑".to_string(),
            KeyCode::Down => "↓".to_string(),
            KeyCode::Left => "←".to_string(),
            KeyCode::Right => "→".to_string(),
            KeyCode::F(n) => {
                let digits = to_decimal(n as usize);
                let text = to_text(digits.as_slice());
                "F".to_string().concat(text.as_str())
            },
            _ => "?".to_string(),
        };
        let mark: String = if self.modifiers.control {
            "^".to_string()
        } else if self.modifiers.alt {
            "M-".to_string()
        } else if self.modifiers.shift {
            "S".to_string()
        } else {
            String::new()
        };
        mark.concat(key.as_str())
    }
}

/// The modifiers with the one called `word` added, if there is one of that
/// name.
pub open spec fn with_modifier(m: KeyModifiers, word: Seq<char>) -> Option<KeyModifiers> {
    let w = lower(word);
    if w == "ctrl"@ || w == "control"@ {
        Some(KeyModifiers { control: true, ..m })
    } else if w == "alt"@ || w == "meta"@ {
        Some(KeyModifiers { alt: true, ..m })
    } else if w == "shift"@ {
        Some(KeyModifiers { shift: true, ..m })
    } else {
        None
    }
}

/// The modifiers that the words name, or the complaint about the first word
/// that names none.
pub open spec fn modifiers_of(ws: Seq<Seq<char>>) -> Result<KeyModifiers, Seq<char>>
    decreases ws.len(),
{
    if ws.len() == 0 {
        Ok(no_modifiers())
    } else {
        match modifiers_of(ws.drop_last()) {
            Err(e) => Err(e),
            Ok(m) => match with_modifier(m, ws.last()) {
                Some(n) => Ok(n),
                None => Err("unknown modifier: "@ + lower(ws.last())),
            },
        }
    }
}

/// The key called `word`: a name, a single ASCII character, or `f` and a
/// number; or the complaint that there is none.
pub open spec fn key_of(word: Seq<char>) -> Result<KeyCode, Seq<char>> {
    let w = lower(word);
    if w == "enter"@ || w == "return"@ {
        Ok(KeyCode::Enter)
    } else if w == "esc"@ || w == "escape"@ {
        Ok(KeyCode::Esc)
    } else if w == "backspace"@ || w == "bs"@ {
        Ok(KeyCode::Backspace)
    } else if w == "up"@ {
        Ok(KeyCode::Up)
    } else if w == "down"@ {
        Ok(KeyCode::Down)
    } else if w == "left"@ {
        Ok(KeyCode::Left)
    } else if w == "right"@ {
        Ok(KeyCode::Right)
    } else if w == "tab"@ {
        Ok(KeyCode::Tab)
    } else if w == "delete"@ || w == "del"@ {
        Ok(KeyCode::Delete)
    } else if w == "home"@ {
        Ok(KeyCode::Home)
    } else if w == "end"@ {
        Ok(KeyCode::End)
    } else if w == "pageup"@ {
        Ok(KeyCode::PageUp)
    } else if w == "pagedown"@ {
        Ok(KeyCode::PageDown)
    } else if w.len() == 1 && (w[0] as u32) < 128 {
        Ok(KeyCode::Char(w[0]))
    } else if w.len() > 0 && w[0] == 'f' {
        match numeral(w.skip(1), 255) {
            Some(n) => Ok(KeyCode::F(n as u8)),
            None => Err("invalid key: "@ + w),
        }
    } else {
        Err("unknown key: "@ + w)
    }
}

/// The binding that `s` writes down: modifiers and a key, with plus signs
/// between them. The modifiers are read first.
pub open spec fn binding_of(s: Seq<char>) -> Result<KeyBinding, Seq<char>> {
    let parts = split(s, '+');
    match modifiers_of(parts.drop_last()) {
        Err(e) => Err(e),
        Ok(modifiers) => match key_of(parts.last()) {
            Err(e) => Err(e),
            Ok(code) => Ok(KeyBinding { code, modifiers }),
        },
    }
}

fn complaint(what: &str, word: &[char]) -> (r: String)
    ensures
        r@ == what@ + word@,
{
    let tail = to_text(word);
    what.to_string().concat(tail.as_str())
}

fn parse_key(word: &[char]) -> (r: Result<KeyCode, String>)
    ensures
        match r {
            Ok(k) => key_of(word@) == Ok::<KeyCode, Seq<char>>(k),
            Err(e) => key_of(word@) == Err::<KeyCode, Seq<char>>(e@),
        },
{
    let v = to_lower(word);
    let w = v.as_slice();
    if same_text(w, "enter") || same_text(w, "return") {
        Ok(KeyCode::Enter)
    } else if same_text(w, "esc") || same_text(w, "escape") {
        Ok(KeyCode::Esc)
    } else if same_text(w, "backspace") || same_text(w, "bs") {
        Ok(KeyCode::Backspace)
    } else if same_text(w, "up") {
        Ok(KeyCode::Up)
    } else if same_text(w, "down") {
        Ok(KeyCode::Down)
    } else if same_text(w, "left") {
        Ok(KeyCode::Left)
    } else if same_text(w, "right") {
        Ok(KeyCode::Right)
    } else if same_text(w, "tab") {
        Ok(KeyCode::Tab)
    } else if same_text(w, "delete") || same_text(w, "del") {
        Ok(KeyCode::Delete)
    } else if same_text(w, "home") {
        Ok(KeyCode::Home)
    } else if same_text(w, "end") {
        Ok(KeyCode::End)
    } else if same_text(w, "pageup") {
        Ok(KeyCode::PageUp)
    } else if same_text(w, "pagedown") {
        Ok(KeyCode::PageDown)
    } else if w.len() == 1 && (w[0] as u32) < 128 {
        Ok(KeyCode::Char(w[0]))
    } else if w.len() > 0 && w[0] == 'f' {
        let digits = slice_subrange(w, 1, w.len());
        assert(digits@ =~= w@.skip(1));
        match parse_number(digits, 255) {
            Some(n) => Ok(KeyCode::F(n as u8)),
            None => Err(complaint("invalid key: ", w)),
        }
    } else {
        Err(complaint("unknown key: ", w))
    }
}

/// Reads a binding such as `ctrl+q`.
pub fn parse_key_binding(s: &str) -> (r: Result<KeyBinding, String>)
    ensures
        match r {
            Ok(b) => binding_of(s@) == Ok::<KeyBinding, Seq<char>>(b),
            Err(e) => binding_of(s@) == Err::<KeyBinding, Seq<char>>(e@),
        },
{
    let cs = to_chars(s);
    let parts = split_char(cs.as_slice(), '+');
    let ghost ws = split(s@, '+').drop_last();
    assert(views(parts@).len() == parts@.len());
    let mut modifiers = KeyModifiers::none();
    let mut i: usize = 0;
    while i < parts.len() - 1
        invariant
            i <= parts@.len() - 1,
            ws == views(parts@).drop_last(),
            views(parts@) == split(s@, '+'),
            modifiers_of(ws.take(i as int)) == Ok::<KeyModifiers, Seq<char>>(modifiers),
        decreases parts@.len() - i,
    {
        let word = parts[i];
        let v = to_lower(word);
        let w = v.as_slice();
        assert(ws.take(i + 1).drop_last() =~= ws.take(i as int));
        assert(ws.take(i + 1).last() == word@);
        if same_text(w, "ctrl") || same_text(w, "control") {
            modifiers.control = true;
        } else if same_text(w, "alt") || same_text(w, "meta") {
            modifiers.alt = true;
        } else if same_text(w, "shift") {
            modifiers.shift = true;
        } else {
            let e = complaint("unknown modifier: ", w);
            proof {
                lemma_first_complaint(ws, i + 1);
            }
            return Err(e);
        }
        i = i + 1;
    }
    assert(ws.take(i as int) =~= ws);
    let last = parts[parts.len() - 1];
    assert(split(s@, '+').last() == last@);
    match parse_key(last) {
        Ok(code) => Ok(KeyBinding::new(code, modifiers)),
        Err(e) => Err(e),
    }
}

proof fn lemma_first_complaint(ws: Seq<Seq<char>>, i: int)
    requires
        0 <= i <= ws.len(),
        modifiers_of(ws.take(i)) is Err,
    ensures
        modifiers_of(ws) == modifiers_of(ws.take(i)),
    decreases ws.len(),
{
    if i == ws.len() {
        assert(ws.take(i) =~= ws);
    } else {
        assert(ws.drop_last().take(i) =~= ws.take(i));
        lemma_first_complaint(ws.drop_last(), i);
    }
}

/// A character with Control.
pub open spec fn ctrl_binding(c: char) -> KeyBinding {
    KeyBinding { code: KeyCode::Char(c), modifiers: control_only() }
}

/// A key alone.
pub open spec fn plain_binding(code: KeyCode) -> KeyBinding {
    KeyBinding { code, modifiers: no_modifiers() }
}

/// A key with Shift.
pub open spec fn shift_binding(code: KeyCode) -> KeyBinding {
    KeyBinding { code, modifiers: shift_only() }
}

fn ctrl(c: char) -> (r: KeyBinding)
    ensures
        r == ctrl_binding(c),
{
    KeyBinding::new(KeyCode::Char(c), KeyModifiers::control())
}

fn key(c: char) -> (r: KeyBinding)
    ensures
        r == plain_binding(KeyCode::Char(c)),
{
    KeyBinding::new(KeyCode::Char(c), KeyModifiers::none())
}

fn enter() -> (r: KeyBinding)
    ensures
        r == plain_binding(KeyCode::Enter),
{
    KeyBinding::new(KeyCode::Enter, KeyModifiers::none())
}

fn shift_up() -> (r: KeyBinding)
    ensures
        r == shift_binding(KeyCode::Up),
{
    KeyBinding::new(KeyCode::Up, KeyModifiers::shift())
}

fn shift_down() -> (r: KeyBinding)
    ensures
        r == shift_binding(KeyCode::Down),
{
    KeyBinding::new(KeyCode::Down, KeyModifiers::shift())
}

fn page_up() -> (r: KeyBinding)
    ensures
        r == plain_binding(KeyCode::PageUp),
{
    KeyBinding::new(KeyCode::PageUp, KeyModifiers::none())
}

fn page_down() -> (r: KeyBinding)
    ensures
        r == plain_binding(KeyCode::PageDown),
{
    KeyBinding::new(KeyCode::PageDown, KeyModifiers::none())
}

/// Keys that work in every pane.
#[derive(Debug, Clone, Copy, PartialEq, Eq, Structural)]
pub struct GlobalKeys {
    pub quit: KeyBinding,
    pub cycle_pane: KeyBinding,
    pub next_window: KeyBinding,
    pub prev_window: KeyBinding,
    pub close_window: KeyBinding,
}

/// Keys of the git pane.
#[derive(Debug, Clone, Copy, PartialEq, Eq, Structural)]
pub struct GitKeys {
    pub open: KeyBinding,
    pub new_worktree: KeyBinding,
    pub delete: KeyBinding,
    pub refresh: KeyBinding,
}

/// Keys for reading a diff.
#[derive(Debug, Clone, Copy, PartialEq, Eq, Structural)]
pub struct DiffKeys {
    pub fullscreen: KeyBinding,
    pub explorer: KeyBinding,
    pub scroll_down: KeyBinding,
    pub scroll_up: KeyBinding,
}

/// Keys of the terminal panes.
#[derive(Debug, Clone, Copy, PartialEq, Eq, Structural)]
pub struct PtyKeys {
    pub cycle_pane: KeyBinding,
    pub quit: KeyBinding,
    pub scroll_up: KeyBinding,
    pub scroll_down: KeyBinding,
    pub page_up: KeyBinding,
    pub page_down: KeyBinding,
}

/// All key bindings.
#[derive(Debug, Clone, Copy, PartialEq, Eq, Structural)]
pub struct KeyConfig {
    pub global: GlobalKeys,
    pub git: GitKeys,
    pub diff: DiffKeys,
    pub pty: PtyKeys,
}

/// The bindings of the global keys if none are configured.
pub open spec fn default_global() -> GlobalKeys {
    GlobalKeys {
        quit: ctrl_binding('q'),
        cycle_pane: ctrl_binding('w'),
        next_window: ctrl_binding('n'),
        prev_window: ctrl_binding('p'),
        close_window: ctrl_binding('x'),
    }
}

/// The bindings of the git keys if none are configured.
pub open spec fn default_git() -> GitKeys {
    GitKeys {
        open: plain_binding(KeyCode::Enter),
        new_worktree: ctrl_binding('t'),
        delete: plain_binding(KeyCode::Char('d')),
        refresh: ctrl_binding('r'),
    }
}

/// The bindings of the diff keys if none are configured.
pub open spec fn default_diff() -> DiffKeys {
    DiffKeys {
        fullscreen: ctrl_binding('f'),
        explorer: plain_binding(KeyCode::Char('e')),
        scroll_down: plain_binding(KeyCode::Char('j')),
        scroll_up: plain_binding(KeyCode::Char('k')),
    }
}

/// The bindings of the terminal keys if none are configured.
pub open spec fn default_pty() -> PtyKeys {
    PtyKeys {
        cycle_pane: ctrl_binding('w'),
        quit: ctrl_binding('q'),
        scroll_up: shift_binding(KeyCode::Up),
        scroll_down: shift_binding(KeyCode::Down),
        page_up: plain_binding(KeyCode::PageUp),
        page_down: plain_binding(KeyCode::PageDown),
    }
}

impl Default for GlobalKeys {
    fn default() -> (r: Self)
        ensures
            r == default_global(),
    {
        GlobalKeys {
            quit: ctrl('q'),
            cycle_pane: ctrl('w'),
            next_window: ctrl('n'),
            prev_window: ctrl('p'),
            close_window: ctrl('x'),
        }
    }
}

impl Default for GitKeys {
    fn default() -> (r: Self)
        ensures
            r == default_git(),
    {
        GitKeys {
            open: enter(),
            new_worktree: ctrl('t'),
            delete: key('d'),
            refresh: ctrl('r'),
        }
    }
}

impl Default for DiffKeys {
    fn default() -> (r: Self)
        ensures
            r == default_diff(),
    {
        DiffKeys {
            fullscreen: ctrl('f'),
            explorer: key('e'),
            scroll_down: key('j'),
            scroll_up: key('k'),
        }
    }
}

impl Default for PtyKeys {
    fn default() -> (r: Self)
        ensures
            r == default_pty(),
    {
        PtyKeys {
            cycle_pane: ctrl('w'),
            quit: ctrl('q'),
            scroll_up: shift_up(),
            scroll_down: shift_down(),
            page_up: page_up(),
            page_down: page_down(),
        }
    }
}

impl Default for KeyConfig {
    fn default() -> (r: Self)
        ensures
            r == (KeyConfig {
                global: default_global(),
                git: default_git(),
                diff: default_diff(),
                pty: default_pty(),
            }),
    {
        KeyConfig {
            global: GlobalKeys::default(),
            git: GitKeys::default(),
            diff: DiffKeys::default(),
            pty: PtyKeys::default(),
        }
    }
}

} // verus!
