//! Injecting keys and text into a session.
//!
//! Keys come as evdev scancodes, which the standard keymap resolves. Text has
//! characters that this keymap lacks, so it is typed with a keymap made for
//! it, and the standard keymap is put back whatever happens.
use vstd::prelude::*;
use crate::compositor::screencopy;
use crate::compositor::screencopy::{after, min_version};
use crate::text;

verus! {

/// The keymap that scancodes are resolved against.
pub const STATIC_KEYMAP: &'static str =
    "xkb_keymap {\n    xkb_keycodes { include \"evdev+aliases(qwerty)\" };\n    xkb_types { include \"complete\" };\n    xkb_compat { include \"complete\" };\n    xkb_symbols { include \"pc+us+inet(evdev)\" };\n    xkb_geometry { include \"pc(pc105)\" };\n};";

/// The first xkb keycode of a keymap made for text. Keycode 8 is evdev code 0,
/// which is not a key.
pub const FIRST_SYNTH_KEYCODE: u32 = 9;

/// How many characters one keymap made for text holds. Keycodes end at 255;
/// longer text takes several keymaps.
pub const MAX_KEYS_PER_KEYMAP: usize = 240;

/// The pause after each key of a text, in milliseconds. Programs drop keys that
/// carry the same time.
pub const TEXT_KEY_DELAY_MS: u64 = 2;

/// Why input could not be injected.
#[derive(Debug, Clone)]
pub enum InputError {
    Connect(String),
    MissingGlobal(&'static str),
    InjectFailed(String),
}

impl InputError {
    /// What the error says.
    pub open spec fn text(self) -> Seq<char> {
        match self {
            InputError::Connect(e) => "wayland connect: "@ + e@,
            InputError::MissingGlobal(g) => "missing global: "@ + g@,
            InputError::InjectFailed(e) => "failed to inject: "@ + e@,
        }
    }

    /// Writes what the error says.
    pub fn message(&self) -> (s: String)
        ensures
            s@ == self.text(),
    {
        match self {
            InputError::Connect(e) => after("wayland connect: ", e),
            InputError::MissingGlobal(g) => after("missing global: ", g),
            InputError::InjectFailed(e) => after("failed to inject: ", e),
        }
    }
}

/// Which globals an injector needs and binds.
#[derive(Debug, Clone, Copy, PartialEq, Eq, Structural)]
pub enum InputGlobal {
    Seat,
    PointerManager,
    KeyboardManager,
}

/// Which global an announced interface is and the version to bind; of the seats
/// only the first is taken.
pub fn input_global(interface: &str, version: u32, have_seat: bool) -> (r: Option<
    (InputGlobal, u32),
>)
    ensures
        r == (if interface@ == "wl_seat"@ {
            if have_seat {
                None
            } else {
                Some((InputGlobal::Seat, screencopy::lower(version, 8)))
            }
        } else if interface@ == "zwlr_virtual_pointer_manager_v1"@ {
            Some((InputGlobal::PointerManager, screencopy::lower(version, 2)))
        } else if interface@ == "zwp_virtual_keyboard_manager_v1"@ {
            Some((InputGlobal::KeyboardManager, screencopy::lower(version, 1)))
        } else {
            None
        }),
{
    if text::same_text(interface, "wl_seat") {
        if have_seat {
            None
        } else {
            Some((InputGlobal::Seat, min_version(version, 8)))
        }
    } else if text::same_text(interface, "zwlr_virtual_pointer_manager_v1") {
        Some((InputGlobal::PointerManager, min_version(version, 2)))
    } else if text::same_text(interface, "zwp_virtual_keyboard_manager_v1") {
        Some((InputGlobal::KeyboardManager, min_version(version, 1)))
    } else {
        None
    }
}

/// Whether the globals that were found suffice.
pub fn check_input_globals(seat: bool, pointer: bool, keyboard: bool) -> (r: Result<(), InputError>)
    ensures
        r is Ok <==> seat && pointer && keyboard,
        r matches Err(e) ==> (e matches InputError::MissingGlobal(g) && g@ == (if !seat {
            "wl_seat"@
        } else if !pointer {
            "zwlr_virtual_pointer_manager_v1"@
        } else {
            "zwp_virtual_keyboard_manager_v1"@
        })),
{
    if !seat {
        Err(InputError::MissingGlobal("wl_seat"))
    } else if !pointer {
        Err(InputError::MissingGlobal("zwlr_virtual_pointer_manager_v1"))
    } else if !keyboard {
        Err(InputError::MissingGlobal("zwp_virtual_keyboard_manager_v1"))
    } else {
        Ok(())
    }
}

/// The xkb modifier that a scancode stands for: Shift, Control, Alt or Super.
pub open spec fn modifier_of(scancode: u32) -> Option<u32> {
    if scancode == 42 || scancode == 54 {
        Some(0x1)
    } else if scancode == 29 || scancode == 97 {
        Some(0x4)
    } else if scancode == 56 || scancode == 100 {
        Some(0x8)
    } else if scancode == 125 || scancode == 126 {
        Some(0x40)
    } else {
        None
    }
}

/// The modifiers that are held after a key.
pub open spec fn held_after(mods: u32, scancode: u32, pressed: bool) -> u32 {
    match modifier_of(scancode) {
        Some(bit) => if pressed {
            mods | bit
        } else {
            mods & !bit
        },
        None => mods,
    }
}

/// The modifiers that are held.
#[derive(Debug, Clone, Copy, PartialEq, Eq, Structural)]
pub struct Modifiers {
    pub depressed: u32,
}

impl Modifiers {
    /// None is held.
    pub fn new() -> (m: Modifiers)
        ensures
            m.depressed == 0,
    {
        Modifiers { depressed: 0 }
    }

    /// Notes a key. The result is what to tell the compositor of the modifiers,
    /// where the key is one.
    pub fn key(&mut self, scancode: u32, pressed: bool) -> (r: Option<u32>)
        ensures
            final(self).depressed == held_after(old(self).depressed, scancode, pressed),
            r == (if modifier_of(scancode) is Some {
                Some(final(self).depressed)
            } else {
                None
            }),
    {
        let bit: Option<u32> = match scancode {
            42 | 54 => Some(0x1),
            29 | 97 => Some(0x4),
            56 | 100 => Some(0x8),
            125 | 126 => Some(0x40),
            _ => None,
        };
        match bit {
            Some(b) => {
                if pressed {
                    self.depressed = self.depressed | b;
                } else {
                    self.depressed = self.depressed & !b;
                }
                Some(self.depressed)
            },
            None => None,
        }
    }
}

/// A modifier is held from its press to its release, and no key touches another
/// modifier.
pub proof fn modifiers_follow_their_keys(mods: u32, scancode: u32, bit: u32, other: u32)
    requires
        modifier_of(scancode) == Some(bit),
        other & bit == 0,
    ensures
        held_after(mods, scancode, true) & bit == bit,
        held_after(mods, scancode, false) & bit == 0,
        held_after(mods, scancode, true) & other == mods & other,
        held_after(mods, scancode, false) & other == mods & other,
{
    assert((mods | bit) & bit == bit) by (bit_vector);
    assert((mods & !bit) & bit == 0) by (bit_vector);
    assert((mods | bit) & other == mods & other) by (bit_vector)
        requires
            other & bit == 0,
    ;
    assert((mods & !bit) & other == mods & other) by (bit_vector)
        requires
            other & bit == 0,
    ;
}

/// The upper-case hexadecimal digits of `n`, without leading zeros.
pub open spec fn upper_hex(n: nat) -> Seq<char>
    decreases n,
{
    let d = n % 16;
    let c = (if d < 10 {
        48 + d
    } else {
        55 + d
    }) as char;
    if n < 16 {
        seq![c]
    } else {
        upper_hex(n / 16).push(c)
    }
}

fn upper_hex_chars(n: u32) -> (r: Vec<char>)
    ensures
        r@ == upper_hex(n as nat),
    decreases n,
{
    let d: u8 = (n % 16) as u8;
    let c: char = if d < 10 {
        (48 + d) as char
    } else {
        (55 + d) as char
    };
    let mut r: Vec<char> = Vec::new();
    if n >= 16 {
        r = upper_hex_chars(n / 16);
    }
    r.push(c);
    assert(r@ == upper_hex(n as nat));
    r
}

/// A character's number in upper-case hexadecimal, in four digits or more.
pub open spec fn code_point(c: char) -> Seq<char> {
    let digits = upper_hex(c as nat);
    text::repeated('0', 4 - digits.len()) + digits
}

fn code_point_chars(c: char) -> (r: Vec<char>)
    ensures
        r@ == code_point(c),
{
    let mut digits = upper_hex_chars(c as u32);
    let ghost all = digits@;
    let n: usize = if digits.len() < 4 {
        4 - digits.len()
    } else {
        0
    };
    let mut r: Vec<char> = Vec::new();
    let mut i: usize = 0;
    assert(r@ == text::repeated('0', 0));
    while i < n
        invariant
            i <= n,
            r@ == text::repeated('0', i as int),
        decreases n - i,
    {
        r.push('0');
        i = i + 1;
        assert(r@ == text::repeated('0', i as int));
    }
    r.append(&mut digits);
    assert(text::repeated('0', n as int) == text::repeated('0', 4 - all.len()));
    r
}

/// The xkb name of what a character types, where it can be typed. Control
/// characters cannot, but for newline and tab, which have names of their own: a
/// keymap with another of them does not compile.
pub open spec fn keysym(c: char) -> Option<Seq<char>> {
    let n = c as u32;
    if c == '\n' || c == '\r' {
        Some("Return"@)
    } else if c == '\t' {
        Some("Tab"@)
    } else if n < 0x20 || 0x7f <= n < 0xa0 {
        None
    } else {
        Some("U"@ + code_point(c))
    }
}

/// The xkb name of what a character types, where it can be typed.
pub fn keysym_name(c: char) -> (r: Option<String>)
    ensures
        text::optional(r) == keysym(c),
{
    let n: u32 = c as u32;
    if c == '\n' || c == '\r' {
        Some(String::from_str("Return"))
    } else if c == '\t' {
        Some(String::from_str("Tab"))
    } else if n < 0x20 || (0x7f <= n && n < 0xa0) {
        None
    } else {
        let mut out = text::chars_of("U");
        let mut digits = code_point_chars(c);
        out.append(&mut digits);
        Some(text::text_of(&out))
    }
}

/// The characters of a text that can be typed.
pub open spec fn typable(s: Seq<char>) -> Seq<char>
    decreases s.len(),
{
    if s.len() == 0 {
        Seq::empty()
    } else {
        let t = typable(s.drop_last());
        if keysym(s.last()) is Some {
            t.push(s.last())
        } else {
            t
        }
    }
}

/// The different characters of a text, each where it first comes.
pub open spec fn distinct(s: Seq<char>) -> Seq<char>
    decreases s.len(),
{
    if s.len() == 0 {
        Seq::empty()
    } else {
        let d = distinct(s.drop_last());
        if d.contains(s.last()) {
            d
        } else {
            d.push(s.last())
        }
    }
}

/// Whether one keymap holds all characters of a text.
pub open spec fn fits(s: Seq<char>) -> bool {
    distinct(s).len() <= MAX_KEYS_PER_KEYMAP
}

/// How long the longest beginning of a text is that one keymap holds.
pub open spec fn longest(s: Seq<char>) -> nat
    decreases s.len(),
{
    if s.len() == 0 || fits(s) {
        s.len()
    } else {
        longest(s.drop_last())
    }
}

/// A keymap holds that beginning, which is empty only where the text is.
pub proof fn longest_facts(s: Seq<char>)
    ensures
        longest(s) <= s.len(),
        s.len() > 0 ==> longest(s) > 0,
        fits(s.take(longest(s) as int)),
    decreases s.len(),
{
    if s.len() == 0 || fits(s) {
        assert(s.take(s.len() as int) == s);
    } else {
        longest_facts(s.drop_last());
        assert(s.drop_last().take(longest(s) as int) == s.take(longest(s) as int));
        if s.len() == 1 {
            reveal_with_fuel(distinct, 2);
            assert(distinct(s) == seq![s[0]]);
        }
    }
}

/// A text in pieces that one keymap holds each, as long as can be.
pub open spec fn chunks(s: Seq<char>) -> Seq<Seq<char>>
    decreases s.len(),
{
    if s.len() == 0 {
        Seq::empty()
    } else {
        proof {
            longest_facts(s);
        }
        seq![s.take(longest(s) as int)] + chunks(s.skip(longest(s) as int))
    }
}

/// Some texts, one behind the other.
pub open spec fn strung(v: Seq<Seq<char>>) -> Seq<char>
    decreases v.len(),
{
    if v.len() == 0 {
        Seq::empty()
    } else {
        v[0] + strung(v.skip(1))
    }
}

/// The pieces of a text make the text again, none is empty, and one keymap
/// holds each.
pub proof fn chunks_make_the_text(s: Seq<char>)
    ensures
        strung(chunks(s)) == s,
        forall|i: int|
            0 <= i < chunks(s).len() ==> fits(#[trigger] chunks(s)[i]) && chunks(s)[i].len() > 0,
    decreases s.len(),
{
    if s.len() > 0 {
        longest_facts(s);
        let n = longest(s) as int;
        let rest = s.skip(n);
        chunks_make_the_text(rest);
        let all = chunks(s);
        assert(all.skip(1) == chunks(rest));
        assert(s.take(n) + rest == s);
        assert forall|i: int| 0 <= i < all.len() implies fits(#[trigger] all[i]) && all[i].len()
            > 0 by {
            if i > 0 {
                assert(all[i] == chunks(rest)[i - 1]);
            }
        }
    }
}

/// One character more either joins the last piece or starts the next.
proof fn chunks_grow(done: Seq<Seq<char>>, current: Seq<char>, s: Seq<char>, c: char)
    requires
        s.len() > 0,
        chunks(s) == done.push(current),
    ensures
        chunks(s.push(c)) == (if fits(current.push(c)) {
            done.push(current.push(c))
        } else {
            done.push(current).push(seq![c])
        }),
    decreases s.len(),
{
    longest_facts(s);
    let t = s.push(c);
    let n = longest(s) as int;
    assert(t.drop_last() == s);
    let all = done.push(current);
    assert(all[0] == s.take(n));
    assert(all.skip(1) == chunks(s.skip(n)));
    if n == s.len() {
        assert(s.take(n) == s);
        assert(s.skip(n).len() == 0);
        assert(all.len() == 1);
        assert(done.len() == 0);
        assert(current == s);
        if fits(t) {
            assert(t.take(t.len() as int) == t);
            assert(t.skip(t.len() as int).len() == 0);
            assert(chunks(t) == seq![t] + chunks(t.skip(t.len() as int)));
            assert(chunks(t) == done.push(current.push(c)));
        } else {
            assert(fits(s)) by {
                assert(fits(s.take(n)));
            }
            assert(longest(t) == s.len());
            assert(t.take(n) == s);
            assert(t.skip(n) == seq![c]);
            one_chunk(c);
            assert(chunks(t) == done.push(current).push(seq![c]));
        }
    } else {
        assert(!fits(s)) by {
            if fits(s) {
                assert(longest(s) == s.len());
            }
        }
        assert(!fits(t));
        assert(longest(t) == n);
        assert(t.take(n) == s.take(n));
        assert(t.skip(n) == s.skip(n).push(c));
        let rest = s.skip(n);
        assert(rest.len() > 0);
        longest_facts(rest);
        assert(chunks(rest).len() > 0);
        assert(done.len() > 0);
        assert(chunks(rest) == done.skip(1).push(current));
        chunks_grow(done.skip(1), current, rest, c);
        if fits(current.push(c)) {
            assert(chunks(t) == seq![s.take(n)] + done.skip(1).push(current.push(c)));
            assert(chunks(t) == done.push(current.push(c)));
        } else {
            assert(chunks(t) == seq![s.take(n)] + done.skip(1).push(current).push(seq![c]));
            assert(chunks(t) == done.push(current).push(seq![c]));
        }
    }
}

proof fn one_chunk(c: char)
    ensures
        chunks(seq![c]) == seq![seq![c]],
        distinct(seq![c]) == seq![c],
{
    let s = seq![c];
    reveal_with_fuel(distinct, 2);
    assert(s.drop_last() == Seq::<char>::empty());
    assert(distinct(s) == seq![c]);
    assert(longest(s) == 1);
    assert(s.take(1) == s);
    assert(s.skip(1) == Seq::<char>::empty());
    assert(chunks(Seq::<char>::empty()) == Seq::<Seq<char>>::empty());
    assert(chunks(s) == seq![s] + chunks(s.skip(1)));
}

/// Splits a text into pieces that one keymap holds each. It goes by different
/// characters, not by length: a keymap types its characters any number of
/// times. What cannot be typed is left out.
pub fn text_chunks(s: &str) -> (r: Vec<Vec<char>>)
    ensures
        text::char_rows(r@) == chunks(typable(s@)),
{
    let chars = text::chars_of(s);
    let mut done: Vec<Vec<char>> = Vec::new();
    let mut current: Vec<char> = Vec::new();
    let mut seen: Vec<char> = Vec::new();
    let mut i: usize = 0;
    assert(chars@.take(0) == Seq::<char>::empty());
    while i < chars.len()
        invariant
            i <= chars@.len(),
            seen@ == distinct(current@),
            fits(current@),
            current@.len() == 0 ==> typable(chars@.take(i as int)).len() == 0 && done@.len() == 0,
            current@.len() > 0 ==> typable(chars@.take(i as int)).len() > 0 && chunks(
                typable(chars@.take(i as int)),
            ) == text::char_rows(done@).push(current@),
        decreases chars@.len() - i,
    {
        let c = chars[i];
        let ghost so_far = typable(chars@.take(i as int));
        proof {
            let t = chars@.take(i + 1);
            assert(t.drop_last() == chars@.take(i as int));
            assert(t.last() == c);
        }
        if keysym_name(c).is_some() {
            let ghost before = current@;
            let known = text::contains_char(&seen, c);
            proof {
                assert(before.push(c).drop_last() == before);
                if before.len() > 0 {
                    chunks_grow(text::char_rows(done@), before, so_far, c);
                } else {
                    one_chunk(c);
                    assert(so_far.push(c) == seq![c]);
                    assert(before.push(c) == seq![c]);
                    assert(text::char_rows(done@) == Seq::<Seq<char>>::empty());
                    assert(text::char_rows(done@).push(seq![c]) == seq![seq![c]]);
                }
            }
            if !known {
                if seen.len() >= MAX_KEYS_PER_KEYMAP {
                    let ghost rows = text::char_rows(done@);
                    done.push(current);
                    current = Vec::new();
                    seen = Vec::new();
                    proof {
                        assert(text::char_rows(done@) == rows.push(before));
                        one_chunk(c);
                        assert(current@.push(c) == seq![c]);
                        assert(seen@.push(c) == seq![c]);
                    }
                }
                seen.push(c);
            }
            current.push(c);
        }
        i = i + 1;
    }
    assert(chars@.take(i as int) == chars@);
    if current.len() > 0 {
        let ghost rows = text::char_rows(done@);
        let ghost last = current@;
        done.push(current);
        assert(text::char_rows(done@) == rows.push(last));
    } else {
        assert(text::char_rows(done@) == chunks(typable(s@)));
    }
    done
}

/// What types a piece of text: a keymap, and the evdev codes to press and
/// release.
#[derive(Debug, Clone)]
pub struct TypePlan {
    pub keymap: String,
    pub keys: Vec<u32>,
}

/// The line that gives a keycode its name.
pub open spec fn keycode_line(code: nat) -> Seq<char> {
    "        <K"@ + text::decimal(code) + "> = "@ + text::decimal(code) + ";\n"@
}

/// The line that gives a keycode its symbol. With one symbol per key, the
/// modifiers do not matter.
pub open spec fn symbol_line(code: nat, name: Seq<char>) -> Seq<char> {
    "        key <K"@ + text::decimal(code) + "> { [ "@ + name + " ] };\n"@
}

/// The lines that name the keycodes of some characters.
pub open spec fn keycode_lines(n: nat) -> Seq<char>
    decreases n,
{
    if n == 0 {
        Seq::empty()
    } else {
        keycode_lines((n - 1) as nat) + keycode_line((FIRST_SYNTH_KEYCODE + n - 1) as nat)
    }
}

/// The lines that give the keycodes their characters.
pub open spec fn symbol_lines(d: Seq<char>) -> Seq<char>
    decreases d.len(),
{
    if d.len() == 0 {
        Seq::empty()
    } else {
        symbol_lines(d.drop_last()) + symbol_line(
            (FIRST_SYNTH_KEYCODE + d.len() - 1) as nat,
            keysym(d.last())->0,
        )
    }
}

/// The keymap that types some characters.
pub open spec fn keymap_for(d: Seq<char>) -> Seq<char> {
    "xkb_keymap {\n    xkb_keycodes \"termland_text\" {\n        minimum = 8;\n        maximum = "@
        + text::decimal((FIRST_SYNTH_KEYCODE + d.len()) as nat) + ";\n"@ + keycode_lines(d.len())
        + "    };\n    xkb_types { include \"complete\" };\n    xkb_compat { include \"complete\" };\n    xkb_symbols \"termland_text\" {\n"@
        + symbol_lines(d) + "    };\n};"@
}

/// The keys that type a text with the keymap of its characters. Keys carry
/// evdev codes, which are xkb keycodes less eight.
pub open spec fn keys_for(s: Seq<char>) -> Seq<u32> {
    s.map_values(|c: char| (FIRST_SYNTH_KEYCODE + distinct(s).index_of(c) - 8) as u32)
}

/// The first character that cannot be typed.
pub open spec fn first_untypable(d: Seq<char>) -> Option<char>
    decreases d.len(),
{
    if d.len() == 0 {
        None
    } else {
        match first_untypable(d.drop_last()) {
            Some(c) => Some(c),
            None => if keysym(d.last()) is None {
                Some(d.last())
            } else {
                None
            },
        }
    }
}

proof fn distinct_facts(s: Seq<char>)
    ensures
        distinct(s).no_duplicates(),
        forall|i: int| 0 <= i < s.len() ==> distinct(s).contains(#[trigger] s[i]),
        forall|i: int| 0 <= i < distinct(s).len() ==> s.contains(#[trigger] distinct(s)[i]),
        distinct(s).len() <= s.len(),
    decreases s.len(),
{
    if s.len() > 0 {
        let t = s.drop_last();
        distinct_facts(t);
        let d = distinct(t);
        let e = distinct(s);
        assert forall|i: int| 0 <= i < s.len() implies e.contains(#[trigger] s[i]) by {
            if i < t.len() {
                assert(s[i] == t[i]);
                let k = choose|k: int| 0 <= k < d.len() && d[k] == t[i];
                assert(e[k] == t[i]);
            } else {
                assert(s[i] == s.last());
                if !d.contains(s.last()) {
                    assert(e[d.len() as int] == s.last());
                }
            }
        }
        assert forall|i: int| 0 <= i < e.len() implies s.contains(#[trigger] e[i]) by {
            if i < d.len() {
                assert(e[i] == d[i]);
                let k = choose|k: int| 0 <= k < t.len() && t[k] == d[i];
                assert(s[k] == e[i]);
            } else {
                assert(s[s.len() - 1] == e[i]);
            }
        }
        assert forall|i: int, j: int| 0 <= i < e.len() && 0 <= j < e.len() && i != j implies e[i]
            != e[j] by {
            if i < d.len() && j < d.len() {
                assert(e[i] == d[i] && e[j] == d[j]);
            } else if i < d.len() {
                assert(d.contains(d[i]));
            } else if j < d.len() {
                assert(d.contains(d[j]));
            }
        }
    }
}

/// The keys of a piece type it: each stands for its character in the keymap,
/// and is a key that there is.
pub proof fn keys_type_their_characters(s: Seq<char>, i: int)
    requires
        fits(s),
        0 <= i < s.len(),
    ensures
        keys_for(s).len() == s.len(),
        1 <= keys_for(s)[i] <= MAX_KEYS_PER_KEYMAP,
        distinct(s)[keys_for(s)[i] - 1] == s[i],
{
    distinct_facts(s);
    assert(distinct(s).contains(s[i]));
}

fn distinct_chars(chars: &[char]) -> (d: Vec<char>)
    ensures
        d@ == distinct(chars@),
{
    let mut d: Vec<char> = Vec::new();
    let mut i: usize = 0;
    while i < chars.len()
        invariant
            i <= chars@.len(),
            d@ == distinct(chars@.take(i as int)),
        decreases chars@.len() - i,
    {
        proof {
            let t = chars@.take(i + 1);
            assert(t.drop_last() == chars@.take(i as int));
            assert(t.last() == chars@[i as int]);
        }
        if !text::contains_char(&d, chars[i]) {
            d.push(chars[i]);
        }
        i = i + 1;
    }
    assert(chars@.take(i as int) == chars@);
    d
}

fn place_of(d: &[char], c: char) -> (i: usize)
    requires
        d@.no_duplicates(),
        d@.contains(c),
    ensures
        i < d@.len(),
        i == d@.index_of(c),
{
    let mut i: usize = 0;
    let ghost p = d@.index_of(c);
    while d[i] != c
        invariant
            0 <= i <= p < d@.len(),
            d@[p] == c,
        decreases p - i,
    {
        i = i + 1;
    }
    i
}

fn push_code(out: &mut Vec<char>, code: u32)
    ensures
        final(out)@ == old(out)@ + text::decimal(code as nat),
{
    let mut digits = text::decimal_chars(code as u64);
    out.append(&mut digits);
}

/// Plans the typing of a piece of text.
pub fn type_chunk(chars: &[char]) -> (r: Result<TypePlan, InputError>)
    ensures
        match r {
            Ok(p) => {
                &&& fits(chars@)
                &&& first_untypable(distinct(chars@)) is None
                &&& p.keymap@ == keymap_for(distinct(chars@))
                &&& p.keys@ == keys_for(chars@)
            },
            Err(e) => e matches InputError::InjectFailed(m) && if !fits(chars@) {
                m@ == "text chunk needs "@ + text::decimal(distinct(chars@).len())
                    + " keycodes, max "@ + text::decimal(MAX_KEYS_PER_KEYMAP as nat)
            } else {
                first_untypable(distinct(chars@)) matches Some(c) && m@ == "untypable char U+"@
                    + code_point(c)
            },
        },
{
    let d = distinct_chars(chars);
    proof {
        distinct_facts(chars@);
    }
    if d.len() > MAX_KEYS_PER_KEYMAP {
        let mut m = text::chars_of("text chunk needs ");
        let mut digits = text::decimal_chars(d.len() as u64);
        m.append(&mut digits);
        text::push_str(&mut m, " keycodes, max ");
        let mut limit = text::decimal_chars(MAX_KEYS_PER_KEYMAP as u64);
        m.append(&mut limit);
        return Err(InputError::InjectFailed(text::text_of(&m)));
    }
    let mut keycodes: Vec<char> = Vec::new();
    let mut symbols: Vec<char> = Vec::new();
    let mut i: usize = 0;
    while i < d.len()
        invariant
            i <= d@.len() <= MAX_KEYS_PER_KEYMAP,
            d@ == distinct(chars@),
            fits(chars@),
            first_untypable(d@.take(i as int)) is None,
            keycodes@ == keycode_lines(i as nat),
            symbols@ == symbol_lines(d@.take(i as int)),
        decreases d@.len() - i,
    {
        let ghost names = keycodes@;
        let ghost rows = symbols@;
        proof {
            let t = d@.take(i + 1);
            assert(t.drop_last() == d@.take(i as int));
            assert(t.last() == d@[i as int]);
        }
        let code: u32 = FIRST_SYNTH_KEYCODE + i as u32;
        match keysym_name(d[i]) {
            None => {
                proof {
                    let t = d@.take(i + 1);
                    assert(first_untypable(t) == Some(d@[i as int]));
                    untypable_stays(d@, i + 1);
                }
                let mut m = text::chars_of("untypable char U+");
                let mut digits = code_point_chars(d[i]);
                m.append(&mut digits);
                return Err(InputError::InjectFailed(text::text_of(&m)));
            },
            Some(name) => {
                text::push_str(&mut keycodes, "        <K");
                push_code(&mut keycodes, code);
                text::push_str(&mut keycodes, "> = ");
                push_code(&mut keycodes, code);
                text::push_str(&mut keycodes, ";\n");
                assert(keycodes@ == names + keycode_line(code as nat));
                text::push_str(&mut symbols, "        key <K");
                push_code(&mut symbols, code);
                text::push_str(&mut symbols, "> { [ ");
                text::push_str(&mut symbols, name.as_str());
                text::push_str(&mut symbols, " ] };\n");
                assert(symbols@ == rows + symbol_line(code as nat, name@));
            },
        }
        i = i + 1;
    }
    assert(d@.take(i as int) == d@);
    let mut keymap = text::chars_of(
        "xkb_keymap {\n    xkb_keycodes \"termland_text\" {\n        minimum = 8;\n        maximum = ",
    );
    push_code(&mut keymap, FIRST_SYNTH_KEYCODE + d.len() as u32);
    text::push_str(&mut keymap, ";\n");
    keymap.append(&mut keycodes);
    text::push_str(
        &mut keymap,
        "    };\n    xkb_types { include \"complete\" };\n    xkb_compat { include \"complete\" };\n    xkb_symbols \"termland_text\" {\n",
    );
    keymap.append(&mut symbols);
    text::push_str(&mut keymap, "    };\n};");
    let mut keys: Vec<u32> = Vec::new();
    let ghost all = keys_for(chars@);
    let mut k: usize = 0;
    while k < chars.len()
        invariant
            k <= chars@.len(),
            d@ == distinct(chars@),
            d@.no_duplicates(),
            d@.len() <= MAX_KEYS_PER_KEYMAP,
            forall|j: int| 0 <= j < chars@.len() ==> d@.contains(#[trigger] chars@[j]),
            all == keys_for(chars@),
            keys@ == all.take(k as int),
        decreases chars@.len() - k,
    {
        assert(d@.contains(chars@[k as int]));
        let place: usize = place_of(&d, chars[k]);
        keys.push(FIRST_SYNTH_KEYCODE + place as u32 - 8);
        proof {
            assert(all.take(k + 1) == all.take(k as int).push(all[k as int]));
        }
        k = k + 1;
    }
    assert(all.take(k as int) == all);
    Ok(TypePlan { keymap: text::text_of(&keymap), keys })
}

proof fn untypable_stays(d: Seq<char>, n: int)
    requires
        0 <= n <= d.len(),
        first_untypable(d.take(n)) is Some,
    ensures
        first_untypable(d) == first_untypable(d.take(n)),
    decreases d.len(),
{
    if n < d.len() {
        assert(d.drop_last().take(n) == d.take(n));
        untypable_stays(d.drop_last(), n);
    } else {
        assert(d.take(n) == d);
    }
}

proof fn typable_characters_have_names(s: Seq<char>)
    ensures
        forall|i: int| 0 <= i < typable(s).len() ==> keysym(#[trigger] typable(s)[i]) is Some,
    decreases s.len(),
{
    if s.len() > 0 {
        let t = s.drop_last();
        typable_characters_have_names(t);
        assert forall|i: int| 0 <= i < typable(s).len() implies keysym(
            #[trigger] typable(s)[i],
        ) is Some by {
            if i < typable(t).len() {
                assert(typable(s)[i] == typable(t)[i]);
            }
        }
    }
}

proof fn pieces_are_of_the_text(s: Seq<char>, i: int, k: int)
    requires
        0 <= i < chunks(s).len(),
        0 <= k < chunks(s)[i].len(),
    ensures
        s.contains(chunks(s)[i][k]),
    decreases s.len(),
{
    longest_facts(s);
    let n = longest(s) as int;
    let rest = s.skip(n);
    if i == 0 {
        assert(chunks(s)[0] == s.take(n));
        assert(s[k] == chunks(s)[i][k]);
    } else {
        assert(chunks(s)[i] == chunks(rest)[i - 1]);
        pieces_are_of_the_text(rest, i - 1, k);
        let j = choose|j: int| 0 <= j < rest.len() && rest[j] == chunks(s)[i][k];
        assert(s[n + j] == chunks(s)[i][k]);
    }
}

proof fn named_text_is_typable(d: Seq<char>)
    requires
        forall|i: int| 0 <= i < d.len() ==> keysym(#[trigger] d[i]) is Some,
    ensures
        first_untypable(d) is None,
    decreases d.len(),
{
    if d.len() > 0 {
        let t = d.drop_last();
        assert forall|i: int| 0 <= i < t.len() implies keysym(#[trigger] t[i]) is Some by {
            assert(t[i] == d[i]);
        }
        named_text_is_typable(t);
        assert(keysym(d[d.len() - 1]) is Some);
    }
}

/// Every piece of a text can be typed.
pub proof fn chunks_can_be_typed(s: Seq<char>, i: int)
    requires
        0 <= i < chunks(typable(s)).len(),
    ensures
        fits(chunks(typable(s))[i]),
        first_untypable(distinct(chunks(typable(s))[i])) is None,
{
    let t = typable(s);
    let piece = chunks(t)[i];
    chunks_make_the_text(t);
    typable_characters_have_names(s);
    distinct_facts(piece);
    let d = distinct(piece);
    assert forall|k: int| 0 <= k < d.len() implies keysym(#[trigger] d[k]) is Some by {
        assert(piece.contains(d[k]));
        let j = choose|j: int| 0 <= j < piece.len() && piece[j] == d[k];
        pieces_are_of_the_text(t, i, j);
        let p = choose|p: int| 0 <= p < t.len() && t[p] == piece[j];
        assert(keysym(t[p]) is Some);
    }
    named_text_is_typable(d);
}

/// How far the typing of a text has come: what was done last.
#[derive(Debug, Clone, Copy, PartialEq, Eq, Structural)]
pub enum TextPhase {
    Start,
    /// The held modifiers were let go.
    Released,
    /// The piece at this place was typed.
    Typing(usize),
    /// The standard keymap was put back.
    Restoring,
    /// The held modifiers were pressed again.
    Reasserting,
    /// The compositor was waited for.
    Flushing,
    Done,
}

/// What to do next for a text.
#[derive(Debug)]
pub enum TextAction {
    /// Tell the compositor which modifiers are held.
    SetModifiers(u32),
    /// Type the piece at this place.
    Type(usize),
    /// Put the standard keymap back.
    RestoreKeymap,
    /// Wait for the compositor.
    Flush,
    /// The text is done with.
    Finish(Result<(), InputError>),
}

/// The typing of a text. A modifier that is held would turn its keys into
/// shortcuts, so the modifiers are let go for as long as it takes. The standard
/// keymap is put back even where typing fails: until then every scancode means
/// something else.
pub struct TextInjection {
    /// The pieces of the text.
    pub pieces: Vec<Vec<char>>,
    /// The modifiers that are held.
    pub held: u32,
    pub phase: TextPhase,
    /// Whether the standard keymap was put back.
    pub restored: bool,
    /// What went wrong first.
    pub error: Option<InputError>,
}

/// What follows an action, in the order: let go, type, put back, hold again,
/// and wait where the keymap was put back.
pub open spec fn text_next(
    phase: TextPhase,
    held: u32,
    pieces: nat,
    restored: bool,
    failed: bool,
) -> TextPhase {
    match phase {
        TextPhase::Start => if pieces == 0 {
            TextPhase::Done
        } else if held != 0 {
            TextPhase::Released
        } else {
            TextPhase::Typing(0)
        },
        TextPhase::Released => TextPhase::Typing(0),
        TextPhase::Typing(i) => if !failed && i + 1 < pieces {
            TextPhase::Typing((i + 1) as usize)
        } else {
            TextPhase::Restoring
        },
        TextPhase::Restoring => if held != 0 {
            TextPhase::Reasserting
        } else if failed {
            TextPhase::Done
        } else {
            TextPhase::Flushing
        },
        TextPhase::Reasserting => if restored {
            TextPhase::Flushing
        } else {
            TextPhase::Done
        },
        TextPhase::Flushing => TextPhase::Done,
        TextPhase::Done => TextPhase::Done,
    }
}

/// Whether an action can go wrong.
pub open spec fn can_fail(phase: TextPhase) -> bool {
    phase is Typing || phase is Restoring || phase is Flushing
}

impl TextInjection {
    /// Starts on a text, with the modifiers that are held.
    pub fn new(s: &str, held: u32) -> (t: TextInjection)
        ensures
            text::char_rows(t.pieces@) == chunks(typable(s@)),
            t.held == held,
            t.phase == TextPhase::Start,
            !t.restored,
            t.error is None,
    {
        TextInjection {
            pieces: text_chunks(s),
            held,
            phase: TextPhase::Start,
            restored: false,
            error: None,
        }
    }

    /// The next action, given what went wrong with the last one. A text ends
    /// with what went wrong first.
    pub fn next(&mut self, failed: Option<InputError>) -> (a: TextAction)
        ensures
            final(self).pieces == old(self).pieces,
            final(self).held == old(self).held,
            final(self).phase == text_next(
                old(self).phase,
                old(self).held,
                old(self).pieces@.len(),
                old(self).restored,
                failed is Some,
            ),
            final(self).restored == (if old(self).phase is Restoring {
                failed is None
            } else {
                old(self).restored
            }),
            ({
                let error = if old(self).error is None && can_fail(old(self).phase) {
                    failed
                } else {
                    old(self).error
                };
                match final(self).phase {
                    TextPhase::Start => false,
                    TextPhase::Released => a == TextAction::SetModifiers(0) && final(self).error
                        == error,
                    TextPhase::Typing(i) => a == TextAction::Type(i) && final(self).error == error,
                    TextPhase::Restoring => a == TextAction::RestoreKeymap && final(self).error
                        == error,
                    TextPhase::Reasserting => a == TextAction::SetModifiers(old(self).held)
                        && final(self).error == error,
                    TextPhase::Flushing => a == TextAction::Flush && final(self).error == error,
                    TextPhase::Done => final(self).error is None && a == TextAction::Finish(
                        match error {
                            Some(e) => Err(e),
                            None => Ok(()),
                        },
                    ),
                }
            }),
    {
        let ok = failed.is_none();
        let fallible = match self.phase {
            TextPhase::Typing(_) => true,
            TextPhase::Restoring => true,
            TextPhase::Flushing => true,
            _ => false,
        };
        if fallible && self.error.is_none() {
            self.error = failed;
        }
        let phase = match self.phase {
            TextPhase::Start => if self.pieces.len() == 0 {
                TextPhase::Done
            } else if self.held != 0 {
                TextPhase::Released
            } else {
                TextPhase::Typing(0)
            },
            TextPhase::Released => TextPhase::Typing(0),
            TextPhase::Typing(i) => {
                if ok && self.pieces.len() > 0 && i < self.pieces.len() - 1 {
                    TextPhase::Typing(i + 1)
                } else {
                    TextPhase::Restoring
                }
            },
            TextPhase::Restoring => {
                self.restored = ok;
                if self.held != 0 {
                    TextPhase::Reasserting
                } else if ok {
                    TextPhase::Flushing
                } else {
                    TextPhase::Done
                }
            },
            TextPhase::Reasserting => if self.restored {
                TextPhase::Flushing
            } else {
                TextPhase::Done
            },
            TextPhase::Flushing => TextPhase::Done,
            TextPhase::Done => TextPhase::Done,
        };
        self.phase = phase;
        match phase {
            TextPhase::Start => TextAction::Flush,
            TextPhase::Released => TextAction::SetModifiers(0),
            TextPhase::Typing(i) => TextAction::Type(i),
            TextPhase::Restoring => TextAction::RestoreKeymap,
            TextPhase::Reasserting => TextAction::SetModifiers(self.held),
            TextPhase::Flushing => TextAction::Flush,
            TextPhase::Done => match self.error.take() {
                Some(e) => TextAction::Finish(Err(e)),
                None => TextAction::Finish(Ok(())),
            },
        }
    }
}

/// Whether phases follow one another as actions go wrong or not.
pub open spec fn is_run(
    phases: Seq<TextPhase>,
    held: u32,
    pieces: nat,
    restored: Seq<bool>,
    failed: Seq<bool>,
) -> bool {
    forall|k: int|
        0 <= k < phases.len() - 1 ==> #[trigger] phases[k + 1] == text_next(
            phases[k],
            held,
            pieces,
            restored[k],
            failed[k],
        )
}

/// However the actions of a text go wrong: once a piece was being typed, the
/// end comes only after putting the standard keymap back was tried, and where
/// modifiers were let go, after they were pressed again.
pub proof fn the_keymap_is_always_restored(
    phases: Seq<TextPhase>,
    held: u32,
    pieces: nat,
    restored: Seq<bool>,
    failed: Seq<bool>,
    typing: int,
    end: int,
)
    requires
        is_run(phases, held, pieces, restored, failed),
        0 <= typing < end < phases.len(),
        phases[typing] is Typing,
        phases[end] is Done,
    ensures
        exists|k: int| typing < k < end && (#[trigger] phases[k]) is Restoring,
        held != 0 ==> exists|k: int| typing < k < end && (#[trigger] phases[k]) is Reasserting,
    decreases end - typing,
{
    let next = phases[typing + 1];
    assert(next == text_next(phases[typing], held, pieces, restored[typing], failed[typing]));
    if next is Typing {
        the_keymap_is_always_restored(phases, held, pieces, restored, failed, typing + 1, end);
    } else {
        assert(phases[typing + 1] is Restoring);
        let after = phases[typing + 1 + 1];
        assert(after == text_next(next, held, pieces, restored[typing + 1], failed[typing + 1]));
        assert(held != 0 ==> phases[typing + 2] is Reasserting);
    }
}

/// Every modifier key, the left and the right one alike, holds its own bit
/// while it is down: Shift, Control, Alt and Super. Pressed alone it reports
/// exactly that bit, let go it takes it away again, and it leaves the other
/// bits. No other key is a modifier.
pub proof fn modifier_keys_hold_their_bits()
    ensures
        forall|m: &mut Modifiers, scancode: u32, pressed: bool, r: Option<u32>| #[trigger]
            call_ensures(Modifiers::key, (m, scancode, pressed), r) ==> {
                let shift = scancode == 42 || scancode == 54;
                let control = scancode == 29 || scancode == 97;
                let alt = scancode == 56 || scancode == 100;
                let logo = scancode == 125 || scancode == 126;
                &&& r is Some <==> shift || control || alt || logo
                &&& r is None ==> final(m).depressed == m.depressed
                &&& r matches Some(bits) ==> bits == final(m).depressed
                &&& shift && pressed ==> final(m).depressed == m.depressed | 0x1
                &&& control && pressed ==> final(m).depressed == m.depressed | 0x4
                &&& alt && pressed ==> final(m).depressed == m.depressed | 0x8
                &&& logo && pressed ==> final(m).depressed == m.depressed | 0x40
                &&& shift && !pressed ==> final(m).depressed == m.depressed & !0x1
                &&& control && !pressed ==> final(m).depressed == m.depressed & !0x4
                &&& alt && !pressed ==> final(m).depressed == m.depressed & !0x8
                &&& logo && !pressed ==> final(m).depressed == m.depressed & !0x40
                &&& m.depressed == 0 && pressed ==> {
                    &&& shift ==> r == Some(0x1u32)
                    &&& control ==> r == Some(0x4u32)
                    &&& alt ==> r == Some(0x8u32)
                    &&& logo ==> r == Some(0x40u32)
                }
            },
        forall|m: Modifiers| #[trigger] call_ensures(Modifiers::new, (), m) ==> m.depressed == 0,
{
    assert(0u32 | 0x1 == 0x1 && 0u32 | 0x4 == 0x4 && 0u32 | 0x8 == 0x8 && 0u32 | 0x40 == 0x40)
        by (bit_vector);
}

/// A modifier key that is pressed and let go leaves what was held before, and
/// the two keys of a pair cannot be told apart by what they hold.
pub proof fn pressing_and_letting_go_leaves_nothing()
    ensures
        forall|
            m: &mut Modifiers,
            n: &mut Modifiers,
            scancode: u32,
            r: Option<u32>,
            s: Option<u32>,
        |
            #![trigger call_ensures(Modifiers::key, (m, scancode, true), r), call_ensures(Modifiers::key, (n, scancode, false), s)]
            call_ensures(Modifiers::key, (m, scancode, true), r) && *n == *final(m)
                && call_ensures(Modifiers::key, (n, scancode, false), s) && m.depressed == 0
                ==> final(n).depressed == 0,
{
    assert((0u32 | 0x1) & !0x1 == 0 && (0u32 | 0x4) & !0x4 == 0 && (0u32 | 0x8) & !0x8 == 0 && (0u32
        | 0x40) & !0x40 == 0) by (bit_vector);
}

/// The number that upper-case hexadecimal digits write.
pub open spec fn hex_number(s: Seq<char>) -> int
    decreases s.len(),
{
    if s.len() == 0 {
        0
    } else {
        let c = s.last();
        16 * hex_number(s.drop_last()) + (if '0' <= c <= '9' {
            c as int - '0' as int
        } else {
            c as int - 'A' as int + 10
        })
    }
}

proof fn upper_hex_reads_back(n: nat)
    ensures
        hex_number(upper_hex(n)) == n,
        upper_hex(n).len() > 0,
    decreases n,
{
    let h = upper_hex(n);
    if n < 16 {
        assert(h.drop_last() =~= Seq::empty());
        assert(hex_number(h.drop_last()) == 0);
    } else {
        upper_hex_reads_back(n / 16);
        assert(h.drop_last() =~= upper_hex(n / 16));
    }
}

proof fn leading_zeros_count_nothing(k: int, s: Seq<char>)
    requires
        0 <= k,
    ensures
        hex_number(text::repeated('0', k) + s) == hex_number(s),
    decreases k + s.len(),
{
    let t = text::repeated('0', k) + s;
    if s.len() > 0 {
        assert(t.drop_last() =~= text::repeated('0', k) + s.drop_last());
        leading_zeros_count_nothing(k, s.drop_last());
    } else if k > 0 {
        assert(t.drop_last() =~= text::repeated('0', k - 1) + s);
        leading_zeros_count_nothing(k - 1, s);
        assert(t.last() == '0');
    } else {
        assert(t =~= s);
    }
}

/// A character's key symbol says which character it is: a line break is
/// `Return`, a tab `Tab`, a control character has none, and every other is
/// named by its number. So characters that differ type differently.
pub proof fn keysyms_name_their_character(c: char, r: Option<String>)
    requires
        call_ensures(keysym_name, (c,), r),
    ensures
        c == '\n' || c == '\r' ==> (r matches Some(s) && s@ == "Return"@),
        c == '\t' ==> (r matches Some(s) && s@ == "Tab"@),
        c as u32 >= 0x20 && !(0x7f <= c as u32 <= 0x9f) ==> {
            &&& r matches Some(s)
            &&& s@.len() >= 5
            &&& s@[0] == 'U'
            &&& hex_number(s@.skip(1)) == c as int
        },
        r is None ==> (c as u32) < 0x20 || 0x7f <= c as u32 <= 0x9f,
        (c as u32) < 0x20 && c != '\n' && c != '\r' && c != '\t' ==> r is None,
        0x7f <= c as u32 <= 0x9f ==> r is None,
{
    reveal_strlit("U");
    let digits = upper_hex(c as nat);
    upper_hex_reads_back(c as nat);
    let zeros: int = if digits.len() < 4 {
        4 - digits.len()
    } else {
        0
    };
    assert(text::repeated('0', 4 - digits.len()) =~= text::repeated('0', zeros));
    leading_zeros_count_nothing(zeros, digits);
    assert(("U"@ + code_point(c)).skip(1) =~= code_point(c));
}

proof fn typable_text_is_kept(s: Seq<char>)
    requires
        forall|i: int| 0 <= i < s.len() ==> keysym(#[trigger] s[i]) is Some,
    ensures
        typable(s) == s,
    decreases s.len(),
{
    if s.len() > 0 {
        let t = s.drop_last();
        assert forall|i: int| 0 <= i < t.len() implies keysym(#[trigger] t[i]) is Some by {
            assert(t[i] == s[i]);
        }
        typable_text_is_kept(t);
        assert(s[s.len() - 1] == s.last());
        assert(t.push(s.last()) =~= s);
    }
}

/// A text is typed whole and in order: its pieces strung together are the text,
/// where every character of it has a key symbol. No piece is empty, and each
/// fits one keymap.
pub proof fn texts_are_typed_whole(s: &str, r: Vec<Vec<char>>)
    requires
        call_ensures(text_chunks, (s,), r),
    ensures
        (forall|i: int| 0 <= i < s@.len() ==> keysym(#[trigger] s@[i]) is Some) ==> strung(
            text::char_rows(r@),
        ) == s@,
        forall|i: int|
            0 <= i < r@.len() ==> (#[trigger] r@[i])@.len() > 0 && distinct(r@[i]@).len() <= 240,
        s@.len() == 0 ==> r@.len() == 0,
{
    chunks_make_the_text(typable(s@));
    if forall|i: int| 0 <= i < s@.len() ==> keysym(#[trigger] s@[i]) is Some {
        typable_text_is_kept(s@);
    }
    let rows = text::char_rows(r@);
    assert(rows.len() == r@.len());
    assert forall|i: int| 0 <= i < r@.len() implies (#[trigger] r@[i])@.len() > 0 && distinct(
        r@[i]@,
    ).len() <= 240 by {
        assert(rows[i] == r@[i]@);
        assert(fits(chunks(typable(s@))[i]));
    }
}

/// A piece of text gets one key for each of its characters: the same character
/// the same key, another character another key, and all of them within a
/// keymap.
pub proof fn characters_have_keys_of_their_own(chars: &[char], r: Result<TypePlan, InputError>)
    requires
        call_ensures(type_chunk, (chars,), r),
    ensures
        r matches Ok(p) ==> {
            &&& p.keys@.len() == chars@.len()
            &&& forall|i: int| 0 <= i < chars@.len() ==> 1 <= #[trigger] p.keys@[i] <= 240
            &&& forall|i: int, j: int|
                0 <= i < chars@.len() && 0 <= j < chars@.len() ==> (#[trigger] chars@[i]
                    == #[trigger] chars@[j] <==> p.keys@[i] == p.keys@[j])
        },
        r is Ok <==> distinct(chars@).len() <= 240 && first_untypable(distinct(chars@)) is None,
{
    if let Ok(p) = r {
        assert forall|i: int| 0 <= i < chars@.len() implies 1 <= #[trigger] p.keys@[i] <= 240 by {
            keys_type_their_characters(chars@, i);
        }
        assert forall|i: int, j: int|
            0 <= i < chars@.len() && 0 <= j < chars@.len() implies (#[trigger] chars@[i]
            == #[trigger] chars@[j] <==> p.keys@[i] == p.keys@[j]) by {
            keys_type_their_characters(chars@, i);
            keys_type_their_characters(chars@, j);
        }
    }
}

proof fn symbols_are_listed(d: Seq<char>, k: int) -> (at: int)
    requires
        0 <= k < d.len(),
    ensures
        ({
            let line = symbol_line((9 + k) as nat, keysym(d[k])->0);
            0 <= at && at + line.len() <= symbol_lines(d).len() && symbol_lines(d).subrange(
                at,
                at + line.len(),
            ) == line
        }),
    decreases d.len(),
{
    let line = symbol_line((9 + k) as nat, keysym(d[k])->0);
    let before = symbol_lines(d.drop_last());
    if k == d.len() - 1 {
        let at = before.len() as int;
        assert(symbol_lines(d).subrange(at, at + line.len()) =~= line);
        at
    } else {
        let at = symbols_are_listed(d.drop_last(), k);
        assert(d.drop_last()[k] == d[k]);
        assert(symbol_lines(d).subrange(at, at + line.len()) =~= before.subrange(
            at,
            at + line.len(),
        ));
        at
    }
}

/// The keymap of a piece says, of the key that each character gets, that it
/// types that character.
pub proof fn keymaps_name_each_character(
    chars: &[char],
    r: Result<TypePlan, InputError>,
    p: TypePlan,
    i: int,
)
    requires
        call_ensures(type_chunk, (chars,), r),
        r == Ok::<TypePlan, InputError>(p),
        0 <= i < chars@.len(),
    ensures
        ({
            let line = "        key <K"@ + text::decimal((p.keys@[i] + 8) as nat) + "> { [ "@
                + keysym(chars@[i])->0 + " ] };\n"@;
            exists|at: int|
                0 <= at && at + line.len() <= p.keymap@.len() && #[trigger] p.keymap@.subrange(
                    at,
                    at + line.len(),
                ) == line
        }),
{
    keys_type_their_characters(chars@, i);
    let d = distinct(chars@);
    let k = p.keys@[i] - 1;
    assert(d[k] == chars@[i]);
    assert(0 <= k < d.len()) by {
        distinct_facts(chars@);
        assert(d.contains(chars@[i]));
        assert(k == d.index_of(chars@[i]));
    }
    let at = symbols_are_listed(d, k);
    let line = symbol_line((9 + k) as nat, keysym(d[k])->0);
    let head =
        "xkb_keymap {\n    xkb_keycodes \"termland_text\" {\n        minimum = 8;\n        maximum = "@
        + text::decimal((FIRST_SYNTH_KEYCODE + d.len()) as nat) + ";\n"@ + keycode_lines(d.len())
        + "    };\n    xkb_types { include \"complete\" };\n    xkb_compat { include \"complete\" };\n    xkb_symbols \"termland_text\" {\n"@;
    let start = head.len() + at;
    let tail = "    };\n};"@;
    assert(p.keymap@ == head + symbol_lines(d) + tail);
    assert(p.keymap@.subrange(start, start + line.len()) =~= symbol_lines(d).subrange(
        at,
        at + line.len(),
    ));
    assert((p.keys@[i] + 8) as nat == (9 + k) as nat);
    let wanted = "        key <K"@ + text::decimal((p.keys@[i] + 8) as nat) + "> { [ "@ + keysym(
        chars@[i],
    )->0 + " ] };\n"@;
    assert(wanted == line);
    assert(0 <= start && start + wanted.len() <= p.keymap@.len() && p.keymap@.subrange(
        start,
        start + wanted.len(),
    ) == wanted);
}

/// Modifiers that are held are let go before a text is typed and held again
/// after it; the pieces are typed one after the other, the keymap is put back,
/// and the first thing that goes wrong is what is reported.
pub proof fn typing_leaves_the_keyboard_as_it_was()
    ensures
        forall|t: &mut TextInjection, failed: Option<InputError>, a: TextAction| #[trigger]
            call_ensures(TextInjection::next, (t, failed), a) ==> {
                let n = t.pieces@.len();
                &&& t.phase == TextPhase::Start && n > 0 && t.held != 0 ==> a
                    == TextAction::SetModifiers(0)
                &&& t.phase == TextPhase::Start && n > 0 && t.held == 0 ==> a
                    == TextAction::Type(0)
                &&& t.phase == TextPhase::Released ==> a == TextAction::Type(0)
                &&& t.phase matches TextPhase::Typing(i) ==> {
                    &&& failed is None && i + 1 < n ==> a == TextAction::Type((i + 1) as usize)
                    &&& failed is Some || i + 1 >= n ==> a == TextAction::RestoreKeymap
                }
                &&& t.phase == TextPhase::Restoring && t.held != 0 ==> a
                    == TextAction::SetModifiers(t.held)
                &&& t.phase == TextPhase::Restoring && t.held == 0 && failed is None ==> a
                    == TextAction::Flush
                &&& t.phase == TextPhase::Reasserting && t.restored ==> a == TextAction::Flush
                &&& final(t).pieces == t.pieces && final(t).held == t.held
                &&& a matches TextAction::Finish(Err(e)) ==> t.error == Some(e) || (t.error is None
                    && failed == Some(e))
                &&& a is Finish && t.error is Some ==> (a matches TextAction::Finish(Err(_)))
                &&& !(a is Finish) && t.error is Some ==> final(t).error == t.error
            },
        forall|s: &str, held: u32, t: TextInjection| #[trigger]
            call_ensures(TextInjection::new, (s, held), t) ==> {
                &&& t.held == held
                &&& t.phase == TextPhase::Start
                &&& t.error is None
                &&& text::char_rows(t.pieces@) == chunks(typable(s@))
            },
{
}

/// Input needs the first seat, the pointer's manager and the keyboard's, each
/// bound at a version that both sides know, and says which one is missing.
pub proof fn input_needs_all_of_its_globals(
    interface: &str,
    version: u32,
    have_seat: bool,
    r: Option<(InputGlobal, u32)>,
    seat: bool,
    pointer: bool,
    keyboard: bool,
    c: Result<(), InputError>,
)
    requires
        call_ensures(input_global, (interface, version, have_seat), r),
        call_ensures(check_input_globals, (seat, pointer, keyboard), c),
    ensures
        r matches Some((g, v)) ==> v <= version && (g == InputGlobal::Seat ==> v <= 8 && !have_seat
            && interface@ == "wl_seat"@) && (g == InputGlobal::PointerManager ==> v <= 2
            && interface@ == "zwlr_virtual_pointer_manager_v1"@) && (g
            == InputGlobal::KeyboardManager ==> v <= 1 && interface@
            == "zwp_virtual_keyboard_manager_v1"@),
        interface@ == "wl_seat"@ && !have_seat ==> r is Some,
        interface@ == "zwlr_virtual_pointer_manager_v1"@ ==> r is Some,
        interface@ == "zwp_virtual_keyboard_manager_v1"@ ==> r is Some,
        c is Ok <==> seat && pointer && keyboard,
        c matches Err(InputError::MissingGlobal(g)) ==> (g@ == "wl_seat"@ ==> !seat) && (g@
            == "zwlr_virtual_pointer_manager_v1"@ ==> !pointer) && (g@
            == "zwp_virtual_keyboard_manager_v1"@ ==> !keyboard),
{
    reveal_strlit("wl_seat");
    reveal_strlit("zwlr_virtual_pointer_manager_v1");
    reveal_strlit("zwp_virtual_keyboard_manager_v1");
    assert("zwlr_virtual_pointer_manager_v1"@[2] != "zwp_virtual_keyboard_manager_v1"@[2]);
    assert("wl_seat"@.len() == 7);
}

/// An error that has a reason says it at its end, and none is silent.
pub proof fn input_errors_say_why(e: &InputError, s: String)
    requires
        call_ensures(InputError::message, (e,), s),
    ensures
        e matches InputError::Connect(x) ==> text::has_suffix(s@, x@),
        e matches InputError::MissingGlobal(x) ==> text::has_suffix(s@, x@),
        e matches InputError::InjectFailed(x) ==> text::has_suffix(s@, x@),
        s@.len() > 0,
{
    reveal_strlit("wayland connect: ");
    reveal_strlit("missing global: ");
    reveal_strlit("failed to inject: ");
    match *e {
        InputError::Connect(x) => {
            assert(s@.skip(s@.len() - x@.len()) =~= x@);
        },
        InputError::MissingGlobal(x) => {
            assert(s@.skip(s@.len() - x@.len()) =~= x@);
        },
        InputError::InjectFailed(x) => {
            assert(s@.skip(s@.len() - x@.len()) =~= x@);
        },
    }
}

proof fn keycodes_are_listed(n: nat, k: int) -> (at: int)
    requires
        0 <= k < n,
    ensures
        ({
            let line = keycode_line((9 + k) as nat);
            0 <= at && at + line.len() <= keycode_lines(n).len() && keycode_lines(n).subrange(
                at,
                at + line.len(),
            ) == line
        }),
    decreases n,
{
    let line = keycode_line((9 + k) as nat);
    let before = keycode_lines((n - 1) as nat);
    if k == n - 1 {
        let at = before.len() as int;
        assert(keycode_lines(n).subrange(at, at + line.len()) =~= line);
        at
    } else {
        let at = keycodes_are_listed((n - 1) as nat, k);
        assert(keycode_lines(n).subrange(at, at + line.len()) =~= before.subrange(
            at,
            at + line.len(),
        ));
        at
    }
}

/// The keymap of a piece knows the code of each key that is pressed.
pub proof fn keymaps_know_their_keys(
    chars: &[char],
    r: Result<TypePlan, InputError>,
    p: TypePlan,
    i: int,
)
    requires
        call_ensures(type_chunk, (chars,), r),
        r == Ok::<TypePlan, InputError>(p),
        0 <= i < chars@.len(),
    ensures
        ({
            let code = text::decimal((p.keys@[i] + 8) as nat);
            let line = "        <K"@ + code + "> = "@ + code + ";\n"@;
            exists|at: int|
                0 <= at && at + line.len() <= p.keymap@.len() && #[trigger] p.keymap@.subrange(
                    at,
                    at + line.len(),
                ) == line
        }),
{
    keys_type_their_characters(chars@, i);
    let d = distinct(chars@);
    let k = p.keys@[i] - 1;
    assert(0 <= k < d.len()) by {
        distinct_facts(chars@);
        assert(d.contains(chars@[i]));
        assert(k == d.index_of(chars@[i]));
    }
    let at = keycodes_are_listed(d.len(), k);
    let line = keycode_line((9 + k) as nat);
    let head =
        "xkb_keymap {\n    xkb_keycodes \"termland_text\" {\n        minimum = 8;\n        maximum = "@
        + text::decimal((FIRST_SYNTH_KEYCODE + d.len()) as nat) + ";\n"@;
    let start = head.len() + at;
    let tail =
        "    };\n    xkb_types { include \"complete\" };\n    xkb_compat { include \"complete\" };\n    xkb_symbols \"termland_text\" {\n"@
        + symbol_lines(d) + "    };\n};"@;
    assert(p.keymap@ =~= head + keycode_lines(d.len()) + tail);
    assert(p.keymap@.subrange(start, start + line.len()) =~= keycode_lines(d.len()).subrange(
        at,
        at + line.len(),
    ));
    let code = text::decimal((p.keys@[i] + 8) as nat);
    let wanted = "        <K"@ + code + "> = "@ + code + ";\n"@;
    assert((p.keys@[i] + 8) as nat == (9 + k) as nat);
    assert(wanted == line);
    assert(0 <= start && start + wanted.len() <= p.keymap@.len() && p.keymap@.subrange(
        start,
        start + wanted.len(),
    ) == wanted);
}

} // verus!
