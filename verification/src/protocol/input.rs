//! Input events and the key table of browsers.
use vstd::prelude::*;
use crate::text;

pub mod buttons;

verus! {

#[derive(Debug, Clone, Copy, PartialEq, Eq, Structural)]
pub enum KeyState {
    Pressed,
    Released,
    Repeat,
}

#[derive(Debug, Clone, Copy, PartialEq, Eq, Structural)]
pub struct KeyEvent {
    pub scancode: u32,
    pub keysym: u32,
    pub state: KeyState,
    pub modifiers: u32,
}

/// A pointer position or movement. The coordinates are 64-bit floating-point
/// numbers on the wire; their bit patterns are carried here.
#[derive(Debug, Clone, Copy, PartialEq, Eq, Structural)]
pub struct MouseMove {
    pub x_bits: u64,
    pub y_bits: u64,
    pub absolute: bool,
}

#[derive(Debug, Clone, Copy, PartialEq, Eq, Structural)]
pub enum ButtonState {
    Pressed,
    Released,
}

#[derive(Debug, Clone, Copy, PartialEq, Eq, Structural)]
pub struct MouseButton {
    pub button: u32,
    pub state: ButtonState,
}

/// A scroll movement, as the bit patterns of two 64-bit floating-point
/// numbers.
#[derive(Debug, Clone, Copy, PartialEq, Eq, Structural)]
pub struct MouseScroll {
    pub dx_bits: u64,
    pub dy_bits: u64,
}

/// The table of keys: the name that a browser gives a physical key
/// (`KeyboardEvent.code`) and its Linux evdev scancode.
pub open spec fn key_table() -> Seq<(Seq<char>, u32)> {
    seq![
        ("Escape"@, 1),
        ("Digit1"@, 2),
        ("Digit2"@, 3),
        ("Digit3"@, 4),
        ("Digit4"@, 5),
        ("Digit5"@, 6),
        ("Digit6"@, 7),
        ("Digit7"@, 8),
        ("Digit8"@, 9),
        ("Digit9"@, 10),
        ("Digit0"@, 11),
        ("Minus"@, 12),
        ("Equal"@, 13),
        ("Backspace"@, 14),
        ("Tab"@, 15),
        ("KeyQ"@, 16),
        ("KeyW"@, 17),
        ("KeyE"@, 18),
        ("KeyR"@, 19),
        ("KeyT"@, 20),
        ("KeyY"@, 21),
        ("KeyU"@, 22),
        ("KeyI"@, 23),
        ("KeyO"@, 24),
        ("KeyP"@, 25),
        ("BracketLeft"@, 26),
        ("BracketRight"@, 27),
        ("Enter"@, 28),
        ("ControlLeft"@, 29),
        ("KeyA"@, 30),
        ("KeyS"@, 31),
        ("KeyD"@, 32),
        ("KeyF"@, 33),
        ("KeyG"@, 34),
        ("KeyH"@, 35),
        ("KeyJ"@, 36),
        ("KeyK"@, 37),
        ("KeyL"@, 38),
        ("Semicolon"@, 39),
        ("Quote"@, 40),
        ("Backquote"@, 41),
        ("ShiftLeft"@, 42),
        ("Backslash"@, 43),
        ("KeyZ"@, 44),
        ("KeyX"@, 45),
        ("KeyC"@, 46),
        ("KeyV"@, 47),
        ("KeyB"@, 48),
        ("KeyN"@, 49),
        ("KeyM"@, 50),
        ("Comma"@, 51),
        ("Period"@, 52),
        ("Slash"@, 53),
        ("ShiftRight"@, 54),
        ("NumpadMultiply"@, 55),
        ("AltLeft"@, 56),
        ("Space"@, 57),
        ("CapsLock"@, 58),
        ("F1"@, 59),
        ("F2"@, 60),
        ("F3"@, 61),
        ("F4"@, 62),
        ("F5"@, 63),
        ("F6"@, 64),
        ("F7"@, 65),
        ("F8"@, 66),
        ("F9"@, 67),
        ("F10"@, 68),
        ("NumLock"@, 69),
        ("ScrollLock"@, 70),
        ("Numpad7"@, 71),
        ("Numpad8"@, 72),
        ("Numpad9"@, 73),
        ("NumpadSubtract"@, 74),
        ("Numpad4"@, 75),
        ("Numpad5"@, 76),
        ("Numpad6"@, 77),
        ("NumpadAdd"@, 78),
        ("Numpad1"@, 79),
        ("Numpad2"@, 80),
        ("Numpad3"@, 81),
        ("Numpad0"@, 82),
        ("NumpadDecimal"@, 83),
        ("F11"@, 87),
        ("F12"@, 88),
        ("NumpadEnter"@, 96),
        ("ControlRight"@, 97),
        ("NumpadDivide"@, 98),
        ("PrintScreen"@, 99),
        ("AltRight"@, 100),
        ("Home"@, 102),
        ("ArrowUp"@, 103),
        ("PageUp"@, 104),
        ("ArrowLeft"@, 105),
        ("ArrowRight"@, 106),
        ("End"@, 107),
        ("ArrowDown"@, 108),
        ("PageDown"@, 109),
        ("Insert"@, 110),
        ("Delete"@, 111),
        ("Pause"@, 119),
        ("MetaLeft"@, 125),
        ("MetaRight"@, 126),
        ("ContextMenu"@, 127),
    ]
}

/// The first entry of a table under a name.
pub open spec fn lookup(table: Seq<(Seq<char>, u32)>, name: Seq<char>) -> Option<u32>
    decreases table.len(),
{
    if table.len() == 0 {
        None
    } else if table[0].0 == name {
        Some(table[0].1)
    } else {
        lookup(table.skip(1), name)
    }
}

proof fn lookup_first(table: Seq<(Seq<char>, u32)>, name: Seq<char>, i: int)
    requires
        0 <= i <= table.len(),
        forall|k: int| 0 <= k < i ==> (#[trigger] table[k]).0 != name,
        i < table.len() ==> table[i].0 == name,
    ensures
        lookup(table, name) == (if i < table.len() {
            Some(table[i].1)
        } else {
            None
        }),
    decreases table.len(),
{
    if i > 0 {
        assert(table[0].0 != name);
        let t = table.skip(1);
        assert forall|k: int| 0 <= k < i - 1 implies (#[trigger] t[k]).0 != name by {
            assert(t[k] == table[k + 1]);
        }
        lookup_first(t, name, i - 1);
    }
}

/// A list of keys as a table.
pub open spec fn table_of(keys: Seq<(&'static str, u32)>) -> Seq<(Seq<char>, u32)> {
    keys.map_values(|k: (&'static str, u32)| (k.0@, k.1))
}

/// Looks a name up in a list of keys.
pub fn find_key(keys: &[(&'static str, u32)], name: &str) -> (r: Option<u32>)
    ensures
        r == lookup(table_of(keys@), name@),
{
    let c = text::chars_of(name);
    let ghost t = table_of(keys@);
    let mut i: usize = 0;
    while i < keys.len()
        invariant
            i <= keys@.len(),
            c@ == name@,
            t == table_of(keys@),
            forall|k: int| 0 <= k < i ==> (#[trigger] t[k]).0 != name@,
        decreases keys@.len() - i,
    {
        let entry = keys[i];
        assert(t[i as int] == (entry.0@, entry.1));
        if text::chars_equal(&c, &text::chars_of(entry.0)) {
            proof {
                lookup_first(t, name@, i as int);
            }
            return Some(entry.1);
        }
        i = i + 1;
    }
    proof {
        lookup_first(t, name@, i as int);
    }
    None
}

fn key_list() -> (v: Vec<(&'static str, u32)>)
    ensures
        table_of(v@) == key_table(),
{
    vec![
        ("Escape", 1),
        ("Digit1", 2),
        ("Digit2", 3),
        ("Digit3", 4),
        ("Digit4", 5),
        ("Digit5", 6),
        ("Digit6", 7),
        ("Digit7", 8),
        ("Digit8", 9),
        ("Digit9", 10),
        ("Digit0", 11),
        ("Minus", 12),
        ("Equal", 13),
        ("Backspace", 14),
        ("Tab", 15),
        ("KeyQ", 16),
        ("KeyW", 17),
        ("KeyE", 18),
        ("KeyR", 19),
        ("KeyT", 20),
        ("KeyY", 21),
        ("KeyU", 22),
        ("KeyI", 23),
        ("KeyO", 24),
        ("KeyP", 25),
        ("BracketLeft", 26),
        ("BracketRight", 27),
        ("Enter", 28),
        ("ControlLeft", 29),
        ("KeyA", 30),
        ("KeyS", 31),
        ("KeyD", 32),
        ("KeyF", 33),
        ("KeyG", 34),
        ("KeyH", 35),
        ("KeyJ", 36),
        ("KeyK", 37),
        ("KeyL", 38),
        ("Semicolon", 39),
        ("Quote", 40),
        ("Backquote", 41),
        ("ShiftLeft", 42),
        ("Backslash", 43),
        ("KeyZ", 44),
        ("KeyX", 45),
        ("KeyC", 46),
        ("KeyV", 47),
        ("KeyB", 48),
        ("KeyN", 49),
        ("KeyM", 50),
        ("Comma", 51),
        ("Period", 52),
        ("Slash", 53),
        ("ShiftRight", 54),
        ("NumpadMultiply", 55),
        ("AltLeft", 56),
        ("Space", 57),
        ("CapsLock", 58),
        ("F1", 59),
        ("F2", 60),
        ("F3", 61),
        ("F4", 62),
        ("F5", 63),
        ("F6", 64),
        ("F7", 65),
        ("F8", 66),
        ("F9", 67),
        ("F10", 68),
        ("NumLock", 69),
        ("ScrollLock", 70),
        ("Numpad7", 71),
        ("Numpad8", 72),
        ("Numpad9", 73),
        ("NumpadSubtract", 74),
        ("Numpad4", 75),
        ("Numpad5", 76),
        ("Numpad6", 77),
        ("NumpadAdd", 78),
        ("Numpad1", 79),
        ("Numpad2", 80),
        ("Numpad3", 81),
        ("Numpad0", 82),
        ("NumpadDecimal", 83),
        ("F11", 87),
        ("F12", 88),
        ("NumpadEnter", 96),
        ("ControlRight", 97),
        ("NumpadDivide", 98),
        ("PrintScreen", 99),
        ("AltRight", 100),
        ("Home", 102),
        ("ArrowUp", 103),
        ("PageUp", 104),
        ("ArrowLeft", 105),
        ("ArrowRight", 106),
        ("End", 107),
        ("ArrowDown", 108),
        ("PageDown", 109),
        ("Insert", 110),
        ("Delete", 111),
        ("Pause", 119),
        ("MetaLeft", 125),
        ("MetaRight", 126),
        ("ContextMenu", 127),
    ]
}

/// The evdev scancode of a physical key that a browser names. Both sides name
/// keys independently of the layout, so this is a fixed table; the compositor
/// applies the keymap. Keys without an evdev code give `None` and are to be
/// dropped.
pub fn browser_code_to_evdev(code: &str) -> (r: Option<u32>)
    ensures
        r == lookup(key_table(), code@),
{
    find_key(&key_list(), code)
}

proof fn key_codes_ascend(i: int, j: int)
    requires
        0 <= i < j < key_table().len(),
    ensures
        key_table()[i].1 < key_table()[j].1,
{
}

/// No scancode stands for two keys: names that map to the same code are the
/// same name.
pub proof fn key_codes_are_unique(a: Seq<char>, b: Seq<char>)
    requires
        lookup(key_table(), a) is Some,
        lookup(key_table(), a) == lookup(key_table(), b),
    ensures
        a == b,
{
    let i = lookup_finds(key_table(), a);
    let j = lookup_finds(key_table(), b);
    if i < j {
        key_codes_ascend(i, j);
    } else if j < i {
        key_codes_ascend(j, i);
    }
}

proof fn lookup_finds(table: Seq<(Seq<char>, u32)>, name: Seq<char>) -> (i: int)
    requires
        lookup(table, name) is Some,
    ensures
        0 <= i < table.len(),
        table[i] == (name, lookup(table, name)->0),
    decreases table.len(),
{
    if table[0].0 == name {
        0
    } else {
        let k = lookup_finds(table.skip(1), name);
        assert(table.skip(1)[k] == table[k + 1]);
        k + 1
    }
}

/// The keys are numbered along the rows of a keyboard, from left to right: the
/// digits, then the letters of each row, then the function keys.
pub proof fn keys_are_numbered_along_the_rows()
    ensures
        forall|i: int|
            0 <= i < 10 ==> #[trigger] key_table()[1 + i] == ("Digit"@.push("1234567890"@[i]), (2 + i) as u32),
        forall|i: int|
            0 <= i < 10 ==> #[trigger] key_table()[15 + i] == ("Key"@.push("QWERTYUIOP"@[i]), (16 + i) as u32),
        forall|i: int|
            0 <= i < 9 ==> #[trigger] key_table()[29 + i] == ("Key"@.push("ASDFGHJKL"@[i]), (30 + i) as u32),
        forall|i: int|
            0 <= i < 7 ==> #[trigger] key_table()[43 + i] == ("Key"@.push("ZXCVBNM"@[i]), (44 + i) as u32),
        forall|i: int| 0 <= i < 83 ==> (#[trigger] key_table()[i]).1 == i + 1,
{
    reveal_strlit("1234567890");
    reveal_strlit("ASDFGHJKL");
    reveal_strlit("Digit");
    reveal_strlit("Digit0");
    reveal_strlit("Digit1");
    reveal_strlit("Digit2");
    reveal_strlit("Digit3");
    reveal_strlit("Digit4");
    reveal_strlit("Digit5");
    reveal_strlit("Digit6");
    reveal_strlit("Digit7");
    reveal_strlit("Digit8");
    reveal_strlit("Digit9");
    reveal_strlit("Key");
    reveal_strlit("KeyA");
    reveal_strlit("KeyB");
    reveal_strlit("KeyC");
    reveal_strlit("KeyD");
    reveal_strlit("KeyE");
    reveal_strlit("KeyF");
    reveal_strlit("KeyG");
    reveal_strlit("KeyH");
    reveal_strlit("KeyI");
    reveal_strlit("KeyJ");
    reveal_strlit("KeyK");
    reveal_strlit("KeyL");
    reveal_strlit("KeyM");
    reveal_strlit("KeyN");
    reveal_strlit("KeyO");
    reveal_strlit("KeyP");
    reveal_strlit("KeyQ");
    reveal_strlit("KeyR");
    reveal_strlit("KeyS");
    reveal_strlit("KeyT");
    reveal_strlit("KeyU");
    reveal_strlit("KeyV");
    reveal_strlit("KeyW");
    reveal_strlit("KeyX");
    reveal_strlit("KeyY");
    reveal_strlit("KeyZ");
    reveal_strlit("QWERTYUIOP");
    reveal_strlit("ZXCVBNM");
    assert forall|i: int| 0 <= i < 10 implies #[trigger] key_table()[1 + i] == (
        "Digit"@.push("1234567890"@[i]),
        (2 + i) as u32,
    ) by {
        assert(key_table()[1 + i].0 =~= "Digit"@.push("1234567890"@[i]));
    }
    assert forall|i: int| 0 <= i < 10 implies #[trigger] key_table()[15 + i] == (
        "Key"@.push("QWERTYUIOP"@[i]),
        (16 + i) as u32,
    ) by {
        assert(key_table()[15 + i].0 =~= "Key"@.push("QWERTYUIOP"@[i]));
    }
    assert forall|i: int| 0 <= i < 9 implies #[trigger] key_table()[29 + i] == (
        "Key"@.push("ASDFGHJKL"@[i]),
        (30 + i) as u32,
    ) by {
        assert(key_table()[29 + i].0 =~= "Key"@.push("ASDFGHJKL"@[i]));
    }
    assert forall|i: int| 0 <= i < 7 implies #[trigger] key_table()[43 + i] == (
        "Key"@.push("ZXCVBNM"@[i]),
        (44 + i) as u32,
    ) by {
        assert(key_table()[43 + i].0 =~= "Key"@.push("ZXCVBNM"@[i]));
    }
}

proof fn key_at(code: Seq<char>, k: int)
    requires
        0 <= k < key_table().len(),
        lookup(key_table(), code) == Some(key_table()[k].1),
    ensures
        code == key_table()[k].0,
{
    let i = lookup_finds(key_table(), code);
    if i < k {
        key_codes_ascend(i, k);
    } else if k < i {
        key_codes_ascend(k, i);
    }
}

proof fn listed_names_are_found(table: Seq<(Seq<char>, u32)>, name: Seq<char>, k: int)
    requires
        0 <= k < table.len(),
        table[k].0 == name,
    ensures
        lookup(table, name) is Some,
    decreases table.len(),
{
    if table[0].0 != name {
        assert(table.skip(1)[k - 1] == table[k]);
        listed_names_are_found(table.skip(1), name, k - 1);
    }
}

/// Each code belongs to one key, which is the one of that name, and every key
/// that has a name has a code.
pub proof fn codes_belong_to_their_key(code: &str, r: Option<u32>)
    requires
        call_ensures(browser_code_to_evdev, (code,), r),
    ensures
        forall|i: int|
            0 <= i < 10 ==> (r == Some((2 + i) as u32) ==> code@ == #[trigger] "Digit"@.push("1234567890"@[i])),
        forall|i: int|
            0 <= i < 10 ==> (r == Some((16 + i) as u32) ==> code@ == #[trigger] "Key"@.push("QWERTYUIOP"@[i])),
        forall|i: int|
            0 <= i < 9 ==> (r == Some((30 + i) as u32) ==> code@ == #[trigger] "Key"@.push("ASDFGHJKL"@[i])),
        forall|i: int|
            0 <= i < 7 ==> (r == Some((44 + i) as u32) ==> code@ == #[trigger] "Key"@.push("ZXCVBNM"@[i])),
        r == Some(1u32) ==> code@ == "Escape"@,
        r == Some(12u32) ==> code@ == "Minus"@,
        r == Some(13u32) ==> code@ == "Equal"@,
        r == Some(14u32) ==> code@ == "Backspace"@,
        r == Some(15u32) ==> code@ == "Tab"@,
        r == Some(26u32) ==> code@ == "BracketLeft"@,
        r == Some(27u32) ==> code@ == "BracketRight"@,
        r == Some(28u32) ==> code@ == "Enter"@,
        r == Some(29u32) ==> code@ == "ControlLeft"@,
        r == Some(39u32) ==> code@ == "Semicolon"@,
        r == Some(40u32) ==> code@ == "Quote"@,
        r == Some(41u32) ==> code@ == "Backquote"@,
        r == Some(42u32) ==> code@ == "ShiftLeft"@,
        r == Some(43u32) ==> code@ == "Backslash"@,
        r == Some(51u32) ==> code@ == "Comma"@,
        r == Some(52u32) ==> code@ == "Period"@,
        r == Some(53u32) ==> code@ == "Slash"@,
        r == Some(54u32) ==> code@ == "ShiftRight"@,
        r == Some(55u32) ==> code@ == "NumpadMultiply"@,
        r == Some(56u32) ==> code@ == "AltLeft"@,
        r == Some(57u32) ==> code@ == "Space"@,
        r == Some(58u32) ==> code@ == "CapsLock"@,
        r == Some(59u32) ==> code@ == "F1"@,
        r == Some(60u32) ==> code@ == "F2"@,
        r == Some(61u32) ==> code@ == "F3"@,
        r == Some(62u32) ==> code@ == "F4"@,
        r == Some(63u32) ==> code@ == "F5"@,
        r == Some(64u32) ==> code@ == "F6"@,
        r == Some(65u32) ==> code@ == "F7"@,
        r == Some(66u32) ==> code@ == "F8"@,
        r == Some(67u32) ==> code@ == "F9"@,
        r == Some(68u32) ==> code@ == "F10"@,
        r == Some(69u32) ==> code@ == "NumLock"@,
        r == Some(70u32) ==> code@ == "ScrollLock"@,
        r == Some(71u32) ==> code@ == "Numpad7"@,
        r == Some(72u32) ==> code@ == "Numpad8"@,
        r == Some(73u32) ==> code@ == "Numpad9"@,
        r == Some(74u32) ==> code@ == "NumpadSubtract"@,
        r == Some(75u32) ==> code@ == "Numpad4"@,
        r == Some(76u32) ==> code@ == "Numpad5"@,
        r == Some(77u32) ==> code@ == "Numpad6"@,
        r == Some(78u32) ==> code@ == "NumpadAdd"@,
        r == Some(79u32) ==> code@ == "Numpad1"@,
        r == Some(80u32) ==> code@ == "Numpad2"@,
        r == Some(81u32) ==> code@ == "Numpad3"@,
        r == Some(82u32) ==> code@ == "Numpad0"@,
        r == Some(83u32) ==> code@ == "NumpadDecimal"@,
        r == Some(87u32) ==> code@ == "F11"@,
        r == Some(88u32) ==> code@ == "F12"@,
        r == Some(96u32) ==> code@ == "NumpadEnter"@,
        r == Some(97u32) ==> code@ == "ControlRight"@,
        r == Some(98u32) ==> code@ == "NumpadDivide"@,
        r == Some(99u32) ==> code@ == "PrintScreen"@,
        r == Some(100u32) ==> code@ == "AltRight"@,
        r == Some(102u32) ==> code@ == "Home"@,
        r == Some(103u32) ==> code@ == "ArrowUp"@,
        r == Some(104u32) ==> code@ == "PageUp"@,
        r == Some(105u32) ==> code@ == "ArrowLeft"@,
        r == Some(106u32) ==> code@ == "ArrowRight"@,
        r == Some(107u32) ==> code@ == "End"@,
        r == Some(108u32) ==> code@ == "ArrowDown"@,
        r == Some(109u32) ==> code@ == "PageDown"@,
        r == Some(110u32) ==> code@ == "Insert"@,
        r == Some(111u32) ==> code@ == "Delete"@,
        r == Some(119u32) ==> code@ == "Pause"@,
        r == Some(125u32) ==> code@ == "MetaLeft"@,
        r == Some(126u32) ==> code@ == "MetaRight"@,
        r == Some(127u32) ==> code@ == "ContextMenu"@,
        code@ == "Escape"@ ==> r is Some,
        code@ == "Minus"@ ==> r is Some,
        code@ == "Equal"@ ==> r is Some,
        code@ == "Backspace"@ ==> r is Some,
        code@ == "Tab"@ ==> r is Some,
        code@ == "BracketLeft"@ ==> r is Some,
        code@ == "BracketRight"@ ==> r is Some,
        code@ == "Enter"@ ==> r is Some,
        code@ == "ControlLeft"@ ==> r is Some,
        code@ == "Semicolon"@ ==> r is Some,
        code@ == "Quote"@ ==> r is Some,
        code@ == "Backquote"@ ==> r is Some,
        code@ == "ShiftLeft"@ ==> r is Some,
        code@ == "Backslash"@ ==> r is Some,
        code@ == "Comma"@ ==> r is Some,
        code@ == "Period"@ ==> r is Some,
        code@ == "Slash"@ ==> r is Some,
        code@ == "ShiftRight"@ ==> r is Some,
        code@ == "NumpadMultiply"@ ==> r is Some,
        code@ == "AltLeft"@ ==> r is Some,
        code@ == "Space"@ ==> r is Some,
        code@ == "CapsLock"@ ==> r is Some,
        code@ == "F1"@ ==> r is Some,
        code@ == "F2"@ ==> r is Some,
        code@ == "F3"@ ==> r is Some,
        code@ == "F4"@ ==> r is Some,
        code@ == "F5"@ ==> r is Some,
        code@ == "F6"@ ==> r is Some,
        code@ == "F7"@ ==> r is Some,
        code@ == "F8"@ ==> r is Some,
        code@ == "F9"@ ==> r is Some,
        code@ == "F10"@ ==> r is Some,
        code@ == "NumLock"@ ==> r is Some,
        code@ == "ScrollLock"@ ==> r is Some,
        code@ == "Numpad7"@ ==> r is Some,
        code@ == "Numpad8"@ ==> r is Some,
        code@ == "Numpad9"@ ==> r is Some,
        code@ == "NumpadSubtract"@ ==> r is Some,
        code@ == "Numpad4"@ ==> r is Some,
        code@ == "Numpad5"@ ==> r is Some,
        code@ == "Numpad6"@ ==> r is Some,
        code@ == "NumpadAdd"@ ==> r is Some,
        code@ == "Numpad1"@ ==> r is Some,
        code@ == "Numpad2"@ ==> r is Some,
        code@ == "Numpad3"@ ==> r is Some,
        code@ == "Numpad0"@ ==> r is Some,
        code@ == "NumpadDecimal"@ ==> r is Some,
        code@ == "F11"@ ==> r is Some,
        code@ == "F12"@ ==> r is Some,
        code@ == "NumpadEnter"@ ==> r is Some,
        code@ == "ControlRight"@ ==> r is Some,
        code@ == "NumpadDivide"@ ==> r is Some,
        code@ == "PrintScreen"@ ==> r is Some,
        code@ == "AltRight"@ ==> r is Some,
        code@ == "Home"@ ==> r is Some,
        code@ == "ArrowUp"@ ==> r is Some,
        code@ == "PageUp"@ ==> r is Some,
        code@ == "ArrowLeft"@ ==> r is Some,
        code@ == "ArrowRight"@ ==> r is Some,
        code@ == "End"@ ==> r is Some,
        code@ == "ArrowDown"@ ==> r is Some,
        code@ == "PageDown"@ ==> r is Some,
        code@ == "Insert"@ ==> r is Some,
        code@ == "Delete"@ ==> r is Some,
        code@ == "Pause"@ ==> r is Some,
        code@ == "MetaLeft"@ ==> r is Some,
        code@ == "MetaRight"@ ==> r is Some,
        code@ == "ContextMenu"@ ==> r is Some,
        forall|i: int| 0 <= i < 10 ==> (code@ == #[trigger] "Digit"@.push("1234567890"@[i]) ==> r is Some),
        forall|i: int| 0 <= i < 10 ==> (code@ == #[trigger] "Key"@.push("QWERTYUIOP"@[i]) ==> r is Some),
        forall|i: int| 0 <= i < 9 ==> (code@ == #[trigger] "Key"@.push("ASDFGHJKL"@[i]) ==> r is Some),
        forall|i: int| 0 <= i < 7 ==> (code@ == #[trigger] "Key"@.push("ZXCVBNM"@[i]) ==> r is Some),
        r matches Some(c) ==> 1 <= c <= 127,
{
    keys_are_numbered_along_the_rows();
    let t = key_table();
    assert forall|i: int| 0 <= i < 10 implies (r == Some((2 + i) as u32) ==> code@
        == #[trigger] "Digit"@.push("1234567890"@[i])) && (code@ == "Digit"@.push("1234567890"@[i]) ==> r is Some) by {
        assert(t[1 + i] == ("Digit"@.push("1234567890"@[i]), (2 + i) as u32));
        if r == Some((2 + i) as u32) {
            key_at(code@, 1 + i);
        }
        if code@ == "Digit"@.push("1234567890"@[i]) {
            listed_names_are_found(t, code@, 1 + i);
        }
    }
    assert forall|i: int| 0 <= i < 10 implies (r == Some((16 + i) as u32) ==> code@
        == #[trigger] "Key"@.push("QWERTYUIOP"@[i])) && (code@ == "Key"@.push("QWERTYUIOP"@[i]) ==> r is Some) by {
        assert(t[15 + i] == ("Key"@.push("QWERTYUIOP"@[i]), (16 + i) as u32));
        if r == Some((16 + i) as u32) {
            key_at(code@, 15 + i);
        }
        if code@ == "Key"@.push("QWERTYUIOP"@[i]) {
            listed_names_are_found(t, code@, 15 + i);
        }
    }
    assert forall|i: int| 0 <= i < 9 implies (r == Some((30 + i) as u32) ==> code@
        == #[trigger] "Key"@.push("ASDFGHJKL"@[i])) && (code@ == "Key"@.push("ASDFGHJKL"@[i]) ==> r is Some) by {
        assert(t[29 + i] == ("Key"@.push("ASDFGHJKL"@[i]), (30 + i) as u32));
        if r == Some((30 + i) as u32) {
            key_at(code@, 29 + i);
        }
        if code@ == "Key"@.push("ASDFGHJKL"@[i]) {
            listed_names_are_found(t, code@, 29 + i);
        }
    }
    assert forall|i: int| 0 <= i < 7 implies (r == Some((44 + i) as u32) ==> code@
        == #[trigger] "Key"@.push("ZXCVBNM"@[i])) && (code@ == "Key"@.push("ZXCVBNM"@[i]) ==> r is Some) by {
        assert(t[43 + i] == ("Key"@.push("ZXCVBNM"@[i]), (44 + i) as u32));
        if r == Some((44 + i) as u32) {
            key_at(code@, 43 + i);
        }
        if code@ == "Key"@.push("ZXCVBNM"@[i]) {
            listed_names_are_found(t, code@, 43 + i);
        }
    }
    if r == Some(1u32) {
        key_at(code@, 0);
    }
    if code@ == "Escape"@ {
        listed_names_are_found(t, code@, 0);
    }
    if r == Some(12u32) {
        key_at(code@, 11);
    }
    if code@ == "Minus"@ {
        listed_names_are_found(t, code@, 11);
    }
    if r == Some(13u32) {
        key_at(code@, 12);
    }
    if code@ == "Equal"@ {
        listed_names_are_found(t, code@, 12);
    }
    if r == Some(14u32) {
        key_at(code@, 13);
    }
    if code@ == "Backspace"@ {
        listed_names_are_found(t, code@, 13);
    }
    if r == Some(15u32) {
        key_at(code@, 14);
    }
    if code@ == "Tab"@ {
        listed_names_are_found(t, code@, 14);
    }
    if r == Some(26u32) {
        key_at(code@, 25);
    }
    if code@ == "BracketLeft"@ {
        listed_names_are_found(t, code@, 25);
    }
    if r == Some(27u32) {
        key_at(code@, 26);
    }
    if code@ == "BracketRight"@ {
        listed_names_are_found(t, code@, 26);
    }
    if r == Some(28u32) {
        key_at(code@, 27);
    }
    if code@ == "Enter"@ {
        listed_names_are_found(t, code@, 27);
    }
    if r == Some(29u32) {
        key_at(code@, 28);
    }
    if code@ == "ControlLeft"@ {
        listed_names_are_found(t, code@, 28);
    }
    if r == Some(39u32) {
        key_at(code@, 38);
    }
    if code@ == "Semicolon"@ {
        listed_names_are_found(t, code@, 38);
    }
    if r == Some(40u32) {
        key_at(code@, 39);
    }
    if code@ == "Quote"@ {
        listed_names_are_found(t, code@, 39);
    }
    if r == Some(41u32) {
        key_at(code@, 40);
    }
    if code@ == "Backquote"@ {
        listed_names_are_found(t, code@, 40);
    }
    if r == Some(42u32) {
        key_at(code@, 41);
    }
    if code@ == "ShiftLeft"@ {
        listed_names_are_found(t, code@, 41);
    }
    if r == Some(43u32) {
        key_at(code@, 42);
    }
    if code@ == "Backslash"@ {
        listed_names_are_found(t, code@, 42);
    }
    if r == Some(51u32) {
        key_at(code@, 50);
    }
    if code@ == "Comma"@ {
        listed_names_are_found(t, code@, 50);
    }
    if r == Some(52u32) {
        key_at(code@, 51);
    }
    if code@ == "Period"@ {
        listed_names_are_found(t, code@, 51);
    }
    if r == Some(53u32) {
        key_at(code@, 52);
    }
    if code@ == "Slash"@ {
        listed_names_are_found(t, code@, 52);
    }
    if r == Some(54u32) {
        key_at(code@, 53);
    }
    if code@ == "ShiftRight"@ {
        listed_names_are_found(t, code@, 53);
    }
    if r == Some(55u32) {
        key_at(code@, 54);
    }
    if code@ == "NumpadMultiply"@ {
        listed_names_are_found(t, code@, 54);
    }
    if r == Some(56u32) {
        key_at(code@, 55);
    }
    if code@ == "AltLeft"@ {
        listed_names_are_found(t, code@, 55);
    }
    if r == Some(57u32) {
        key_at(code@, 56);
    }
    if code@ == "Space"@ {
        listed_names_are_found(t, code@, 56);
    }
    if r == Some(58u32) {
        key_at(code@, 57);
    }
    if code@ == "CapsLock"@ {
        listed_names_are_found(t, code@, 57);
    }
    if r == Some(59u32) {
        key_at(code@, 58);
    }
    if code@ == "F1"@ {
        listed_names_are_found(t, code@, 58);
    }
    if r == Some(60u32) {
        key_at(code@, 59);
    }
    if code@ == "F2"@ {
        listed_names_are_found(t, code@, 59);
    }
    if r == Some(61u32) {
        key_at(code@, 60);
    }
    if code@ == "F3"@ {
        listed_names_are_found(t, code@, 60);
    }
    if r == Some(62u32) {
        key_at(code@, 61);
    }
    if code@ == "F4"@ {
        listed_names_are_found(t, code@, 61);
    }
    if r == Some(63u32) {
        key_at(code@, 62);
    }
    if code@ == "F5"@ {
        listed_names_are_found(t, code@, 62);
    }
    if r == Some(64u32) {
        key_at(code@, 63);
    }
    if code@ == "F6"@ {
        listed_names_are_found(t, code@, 63);
    }
    if r == Some(65u32) {
        key_at(code@, 64);
    }
    if code@ == "F7"@ {
        listed_names_are_found(t, code@, 64);
    }
    if r == Some(66u32) {
        key_at(code@, 65);
    }
    if code@ == "F8"@ {
        listed_names_are_found(t, code@, 65);
    }
    if r == Some(67u32) {
        key_at(code@, 66);
    }
    if code@ == "F9"@ {
        listed_names_are_found(t, code@, 66);
    }
    if r == Some(68u32) {
        key_at(code@, 67);
    }
    if code@ == "F10"@ {
        listed_names_are_found(t, code@, 67);
    }
    if r == Some(69u32) {
        key_at(code@, 68);
    }
    if code@ == "NumLock"@ {
        listed_names_are_found(t, code@, 68);
    }
    if r == Some(70u32) {
        key_at(code@, 69);
    }
    if code@ == "ScrollLock"@ {
        listed_names_are_found(t, code@, 69);
    }
    if r == Some(71u32) {
        key_at(code@, 70);
    }
    if code@ == "Numpad7"@ {
        listed_names_are_found(t, code@, 70);
    }
    if r == Some(72u32) {
        key_at(code@, 71);
    }
    if code@ == "Numpad8"@ {
        listed_names_are_found(t, code@, 71);
    }
    if r == Some(73u32) {
        key_at(code@, 72);
    }
    if code@ == "Numpad9"@ {
        listed_names_are_found(t, code@, 72);
    }
    if r == Some(74u32) {
        key_at(code@, 73);
    }
    if code@ == "NumpadSubtract"@ {
        listed_names_are_found(t, code@, 73);
    }
    if r == Some(75u32) {
        key_at(code@, 74);
    }
    if code@ == "Numpad4"@ {
        listed_names_are_found(t, code@, 74);
    }
    if r == Some(76u32) {
        key_at(code@, 75);
    }
    if code@ == "Numpad5"@ {
        listed_names_are_found(t, code@, 75);
    }
    if r == Some(77u32) {
        key_at(code@, 76);
    }
    if code@ == "Numpad6"@ {
        listed_names_are_found(t, code@, 76);
    }
    if r == Some(78u32) {
        key_at(code@, 77);
    }
    if code@ == "NumpadAdd"@ {
        listed_names_are_found(t, code@, 77);
    }
    if r == Some(79u32) {
        key_at(code@, 78);
    }
    if code@ == "Numpad1"@ {
        listed_names_are_found(t, code@, 78);
    }
    if r == Some(80u32) {
        key_at(code@, 79);
    }
    if code@ == "Numpad2"@ {
        listed_names_are_found(t, code@, 79);
    }
    if r == Some(81u32) {
        key_at(code@, 80);
    }
    if code@ == "Numpad3"@ {
        listed_names_are_found(t, code@, 80);
    }
    if r == Some(82u32) {
        key_at(code@, 81);
    }
    if code@ == "Numpad0"@ {
        listed_names_are_found(t, code@, 81);
    }
    if r == Some(83u32) {
        key_at(code@, 82);
    }
    if code@ == "NumpadDecimal"@ {
        listed_names_are_found(t, code@, 82);
    }
    if r == Some(87u32) {
        key_at(code@, 83);
    }
    if code@ == "F11"@ {
        listed_names_are_found(t, code@, 83);
    }
    if r == Some(88u32) {
        key_at(code@, 84);
    }
    if code@ == "F12"@ {
        listed_names_are_found(t, code@, 84);
    }
    if r == Some(96u32) {
        key_at(code@, 85);
    }
    if code@ == "NumpadEnter"@ {
        listed_names_are_found(t, code@, 85);
    }
    if r == Some(97u32) {
        key_at(code@, 86);
    }
    if code@ == "ControlRight"@ {
        listed_names_are_found(t, code@, 86);
    }
    if r == Some(98u32) {
        key_at(code@, 87);
    }
    if code@ == "NumpadDivide"@ {
        listed_names_are_found(t, code@, 87);
    }
    if r == Some(99u32) {
        key_at(code@, 88);
    }
    if code@ == "PrintScreen"@ {
        listed_names_are_found(t, code@, 88);
    }
    if r == Some(100u32) {
        key_at(code@, 89);
    }
    if code@ == "AltRight"@ {
        listed_names_are_found(t, code@, 89);
    }
    if r == Some(102u32) {
        key_at(code@, 90);
    }
    if code@ == "Home"@ {
        listed_names_are_found(t, code@, 90);
    }
    if r == Some(103u32) {
        key_at(code@, 91);
    }
    if code@ == "ArrowUp"@ {
        listed_names_are_found(t, code@, 91);
    }
    if r == Some(104u32) {
        key_at(code@, 92);
    }
    if code@ == "PageUp"@ {
        listed_names_are_found(t, code@, 92);
    }
    if r == Some(105u32) {
        key_at(code@, 93);
    }
    if code@ == "ArrowLeft"@ {
        listed_names_are_found(t, code@, 93);
    }
    if r == Some(106u32) {
        key_at(code@, 94);
    }
    if code@ == "ArrowRight"@ {
        listed_names_are_found(t, code@, 94);
    }
    if r == Some(107u32) {
        key_at(code@, 95);
    }
    if code@ == "End"@ {
        listed_names_are_found(t, code@, 95);
    }
    if r == Some(108u32) {
        key_at(code@, 96);
    }
    if code@ == "ArrowDown"@ {
        listed_names_are_found(t, code@, 96);
    }
    if r == Some(109u32) {
        key_at(code@, 97);
    }
    if code@ == "PageDown"@ {
        listed_names_are_found(t, code@, 97);
    }
    if r == Some(110u32) {
        key_at(code@, 98);
    }
    if code@ == "Insert"@ {
        listed_names_are_found(t, code@, 98);
    }
    if r == Some(111u32) {
        key_at(code@, 99);
    }
    if code@ == "Delete"@ {
        listed_names_are_found(t, code@, 99);
    }
    if r == Some(119u32) {
        key_at(code@, 100);
    }
    if code@ == "Pause"@ {
        listed_names_are_found(t, code@, 100);
    }
    if r == Some(125u32) {
        key_at(code@, 101);
    }
    if code@ == "MetaLeft"@ {
        listed_names_are_found(t, code@, 101);
    }
    if r == Some(126u32) {
        key_at(code@, 102);
    }
    if code@ == "MetaRight"@ {
        listed_names_are_found(t, code@, 102);
    }
    if r == Some(127u32) {
        key_at(code@, 103);
    }
    if code@ == "ContextMenu"@ {
        listed_names_are_found(t, code@, 103);
    }
    if r is Some {
        let i = lookup_finds(t, code@);
        if i < 103 {
            key_codes_ascend(i, 103);
        }
        if i > 0 {
            key_codes_ascend(0, i);
        }
    }
}

} // verus!
