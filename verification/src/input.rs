//! Keystrokes: their names as the server expects them, which ones the GUI
//! keeps for itself, and what a keystroke sends to the focused pane.
use vstd::prelude::*;

use crate::text::str_eq;

verus! {

broadcast use vstd::string::group_string_axioms;

/// A keystroke: the key's name, the text it types (if any), and the
/// modifiers held.
#[derive(Clone, Debug, PartialEq, Eq)]
pub struct KeyPress {
    pub key: String,
    pub key_char: Option<String>,
    pub control: bool,
    pub alt: bool,
    pub shift: bool,
    pub platform: bool,
    pub function: bool,
}

/// The name of a keystroke: its modifiers in the order ctrl, alt, shift,
/// cmd, each followed by `+`, then the key.
pub open spec fn key_name_spec(k: KeyPress) -> Seq<char> {
    (if k.control {
        "ctrl+"@
    } else {
        Seq::empty()
    }) + (if k.alt {
        "alt+"@
    } else {
        Seq::empty()
    }) + (if k.shift {
        "shift+"@
    } else {
        Seq::empty()
    }) + (if k.platform {
        "cmd+"@
    } else {
        Seq::empty()
    }) + k.key@
}

pub fn key_name(key: &KeyPress) -> (name: String)
    ensures
        name@ == key_name_spec(*key),
{
    let mut name = String::new();
    if key.control {
        name.append("ctrl+");
    }
    if key.alt {
        name.append("alt+");
    }
    if key.shift {
        name.append("shift+");
    }
    if key.platform {
        name.append("cmd+");
    }
    name.append(key.key.as_str());
    name
}

pub open spec fn swallow_spec(k: KeyPress) -> bool {
    let key = k.key@;
    if key == "f1"@ {
        true
    } else if !k.platform {
        false
    } else if key == "v"@ {
        !k.shift
    } else if key == "r"@ {
        true
    } else if key == "s"@ {
        k.shift
    } else if key == "b"@ {
        !k.shift
    } else if key == "t"@ {
        !k.shift
    } else if key == "w"@ {
        true
    } else if key == "]"@ {
        true
    } else if key == "left"@ || key == "right"@ {
        true
    } else {
        false
    }
}

/// Whether a keystroke belongs to the GUI's own key bindings, so that it is
/// not forwarded to the terminal as well.
pub fn should_swallow_gui_keystroke(key: &KeyPress) -> (b: bool)
    ensures
        b == swallow_spec(*key),
{
    let k = key.key.as_str();
    if str_eq(k, "f1") {
        return true;
    }
    if !key.platform {
        return false;
    }
    let shift = key.shift;
    if str_eq(k, "v") {
        !shift
    } else if str_eq(k, "r") {
        true
    } else if str_eq(k, "s") {
        shift
    } else if str_eq(k, "b") {
        !shift
    } else if str_eq(k, "t") {
        !shift
    } else if str_eq(k, "w") {
        true
    } else if str_eq(k, "]") {
        true
    } else if str_eq(k, "left") || str_eq(k, "right") {
        true
    } else {
        false
    }
}

/// The keys that are always sent by name, never as typed text.
pub open spec fn named_keys() -> Seq<Seq<char>> {
    seq![
        "enter"@,
        "backspace"@,
        "tab"@,
        "escape"@,
        "up"@,
        "down"@,
        "left"@,
        "right"@,
        "delete"@,
        "home"@,
        "end"@,
        "pageup"@,
        "pagedown"@,
        "insert"@,
    ]
}

pub fn is_named_key(key: &str) -> (b: bool)
    ensures
        b == named_keys().contains(key@),
{
    let names: [&str; 14] = [
        "enter",
        "backspace",
        "tab",
        "escape",
        "up",
        "down",
        "left",
        "right",
        "delete",
        "home",
        "end",
        "pageup",
        "pagedown",
        "insert",
    ];
    let ghost nv = names@.map_values(|s: &str| s@);
    assert(nv =~= named_keys());
    let mut i: usize = 0;
    while i < 14
        invariant
            i <= 14,
            nv == names@.map_values(|s: &str| s@),
            nv == named_keys(),
            forall|j: int| 0 <= j < i ==> nv[j] != key@,
        decreases 14 - i,
    {
        if str_eq(names[i], key) {
            assert(nv[i as int] == key@);
            return true;
        }
        i = i + 1;
    }
    false
}

/// What a keystroke sends to the focused pane.
#[derive(Clone, Debug, PartialEq, Eq)]
pub enum KeyInput {
    /// A key event by name.
    Key(String),
    /// Typed text.
    Text(String),
}

pub enum KeyInputView {
    Key(Seq<char>),
    Text(Seq<char>),
}

impl View for KeyInput {
    type V = KeyInputView;

    open spec fn view(&self) -> KeyInputView {
        match self {
            KeyInput::Key(k) => KeyInputView::Key(k@),
            KeyInput::Text(t) => KeyInputView::Text(t@),
        }
    }
}

/// Named keys and keystrokes with alt held go by name, so that the terminal
/// sees them as keys (enter sent as text would read as shift+enter); other
/// keystrokes send the text they type, or their name when they type none.
pub open spec fn key_input_spec(k: KeyPress) -> KeyInputView {
    if k.alt || named_keys().contains(k.key@) {
        KeyInputView::Key(key_name_spec(k))
    } else {
        match k.key_char {
            Some(t) => KeyInputView::Text(t@),
            None => KeyInputView::Key(key_name_spec(k)),
        }
    }
}

pub fn key_input(key: &KeyPress) -> (input: KeyInput)
    ensures
        input@ == key_input_spec(*key),
{
    if key.alt || is_named_key(key.key.as_str()) {
        KeyInput::Key(key_name(key))
    } else {
        match &key.key_char {
            Some(t) => KeyInput::Text(t.clone()),
            None => KeyInput::Key(key_name(key)),
        }
    }
}

} // verus!
