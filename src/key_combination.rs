use vstd::prelude::*;
use crate::text::{char_from_u32, is_scalar_value, parse_u32, push_str_chars, string_from_chars, u32_of_text};

verus! {

/// A key combination as its key code's text and its three modifier flags.
pub type KeyView = (Seq<char>, bool, bool, bool);

/// A keyboard shortcut: a primary key, given by its numeric code written in
/// decimal, and the modifiers held with it.
#[derive(Clone, Debug, Hash, Eq)]
pub struct KeyCombination {
    pub key_code: String,
    pub ctrl: bool,
    pub shift: bool,
    pub alt: bool,
}

impl View for KeyCombination {
    type V = KeyView;

    open spec fn view(&self) -> KeyView {
        (self.key_code@, self.ctrl, self.shift, self.alt)
    }
}

impl PartialEq for KeyCombination {
    fn eq(&self, other: &KeyCombination) -> (r: bool)
        ensures
            r == (self@ == other@),
    {
        self.key_code == other.key_code && self.ctrl == other.ctrl && self.shift == other.shift
            && self.alt == other.alt
    }
}

impl vstd::std_specs::cmp::PartialEqSpecImpl for KeyCombination {
    open spec fn obeys_eq_spec() -> bool {
        true
    }

    open spec fn eq_spec(&self, other: &KeyCombination) -> bool {
        self@ == other@
    }
}

impl Default for KeyCombination {
    fn default() -> (r: KeyCombination)
        ensures
            r@ == (Seq::<char>::empty(), false, false, false),
    {
        KeyCombination { key_code: String::new(), ctrl: false, shift: false, alt: false }
    }
}

/// One key that a shortcut presses.
#[derive(Clone, Copy, Debug, PartialEq, Eq, Structural)]
pub enum KeyPress {
    ControlLeft,
    ShiftLeft,
    Alt,
    /// A key given by its platform code.
    Code(u32),
}

/// The keys that a shortcut presses, modifiers first, or `None` when its key
/// code is not a number.
pub open spec fn key_presses(k: KeyView) -> Option<Seq<KeyPress>> {
    match u32_of_text(k.0) {
        None => None,
        Some(code) => Some(
            (if k.1 { seq![KeyPress::ControlLeft] } else { Seq::empty() })
                + (if k.2 { seq![KeyPress::ShiftLeft] } else { Seq::empty() })
                + (if k.3 { seq![KeyPress::Alt] } else { Seq::empty() })
                + seq![KeyPress::Code(code)],
        ),
    }
}

/// The character whose scalar value is `code`.
pub open spec fn char_with_code(code: u32) -> char {
    choose|c: char| scalar_of(c) == code as int
}

pub open spec fn scalar_of(c: char) -> int {
    c as int
}

/// The text shown for a shortcut: `Ctrl+`, `Shift+` and `Alt+` for the
/// modifiers held, then the character whose code the key code writes, if any.
pub open spec fn key_label(k: KeyView) -> Seq<char> {
    (if k.1 { "Ctrl+"@ } else { Seq::empty() }) + (if k.2 { "Shift+"@ } else { Seq::empty() })
        + (if k.3 { "Alt+"@ } else { Seq::empty() }) + match u32_of_text(k.0) {
        Some(code) => if is_scalar_value(code) {
            seq![char_with_code(code)]
        } else {
            Seq::empty()
        },
        None => Seq::empty(),
    }
}

impl KeyCombination {
    /// A copy of this shortcut.
    pub fn duplicate(&self) -> (r: KeyCombination)
        ensures
            r@ == self@,
    {
        KeyCombination {
            key_code: self.key_code.clone(),
            ctrl: self.ctrl,
            shift: self.shift,
            alt: self.alt,
        }
    }

    /// The keys to press for this shortcut, in order, or `None` when its key
    /// code cannot be read.
    pub fn key_sequence(&self) -> (r: Option<Vec<KeyPress>>)
        ensures
            r matches Some(v) ==> key_presses(self@) == Some(v@),
            r is None ==> key_presses(self@) is None,
    {
        let code = match parse_u32(self.key_code.as_str()) {
            Some(code) => code,
            None => {
                return None;
            },
        };
        let mut keys: Vec<KeyPress> = Vec::new();
        if self.ctrl {
            keys.push(KeyPress::ControlLeft);
        }
        if self.shift {
            keys.push(KeyPress::ShiftLeft);
        }
        if self.alt {
            keys.push(KeyPress::Alt);
        }
        keys.push(KeyPress::Code(code));
        assert(key_presses(self@) == Some(keys@));
        Some(keys)
    }

    /// The text shown for this shortcut.
    pub fn label(&self) -> (r: String)
        ensures
            r@ == key_label(self@),
    {
        proof {
            reveal_strlit("Ctrl+");
            reveal_strlit("Shift+");
            reveal_strlit("Alt+");
        }
        let mut out: Vec<char> = Vec::new();
        if self.ctrl {
            push_str_chars(&mut out, "Ctrl+");
        }
        if self.shift {
            push_str_chars(&mut out, "Shift+");
        }
        if self.alt {
            push_str_chars(&mut out, "Alt+");
        }
        let ghost modifiers = out@;
        assert(modifiers == (if self.ctrl { "Ctrl+"@ } else { Seq::empty() }) + (if self.shift {
            "Shift+"@
        } else {
            Seq::empty()
        }) + (if self.alt { "Alt+"@ } else { Seq::empty() }));
        if let Some(code) = parse_u32(self.key_code.as_str()) {
            if let Some(ch) = char_from_u32(code) {
                out.push(ch);
                proof {
                    assert(scalar_of(ch) == code as int);
                }
                assert(ch == char_with_code(code));
            }
        }
        assert(out@ == key_label(self@));
        string_from_chars(&out)
    }
}

} // verus!
