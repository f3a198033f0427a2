//! What a key of the keyboard sends: the evdev key, the modifier mask and the
//! XKB group, and the order of the events that carry them.
use vstd::prelude::*;

use crate::text::{ascii_lower, ascii_lowercase, chars_are, chars_of, string_of};

verus! {

pub const MOD_SHIFT: u32 = 1;

pub const MOD_CTRL: u32 = 4;

pub const MOD_ALT: u32 = 8;

pub const MOD_LOGO: u32 = 64;

pub const KEY_LEFT_CTRL: u32 = 29;

pub const KEY_LEFT_SHIFT: u32 = 42;

pub const KEY_LEFT_ALT: u32 = 56;

pub const KEY_LEFT_META: u32 = 125;

/// Modifier state of the on-screen keyboard.
#[derive(Clone, Copy, Debug, PartialEq, Eq, Structural)]
pub struct Modifiers {
    pub ctrl: bool,
    pub super_key: bool,
    pub alt: bool,
    pub shift: bool,
    pub caps_lock: bool,
}

impl Default for Modifiers {
    fn default() -> (r: Self)
        ensures
            r == no_modifiers(),
    {
        Modifiers { ctrl: false, super_key: false, alt: false, shift: false, caps_lock: false }
    }
}

/// No modifier and no caps lock.
pub open spec fn no_modifiers() -> Modifiers {
    Modifiers { ctrl: false, super_key: false, alt: false, shift: false, caps_lock: false }
}

/// Ctrl, Super or Alt is active: the key is a shortcut.
pub open spec fn is_shortcut(m: Modifiers) -> bool {
    m.ctrl || m.super_key || m.alt
}

/// A modifier that one key press consumes is active.
pub open spec fn is_one_shot(m: Modifiers) -> bool {
    m.ctrl || m.super_key || m.alt || m.shift
}

impl Modifiers {
    pub fn has_shortcut_modifier(self) -> (r: bool)
        ensures
            r == is_shortcut(self),
    {
        self.ctrl || self.super_key || self.alt
    }

    pub fn has_one_shot_modifier(self) -> (r: bool)
        ensures
            r == is_one_shot(self),
    {
        self.ctrl || self.super_key || self.alt || self.shift
    }
}

/// What an input key sends.
#[derive(Clone, Copy, Debug, PartialEq, Eq)]
pub enum KeyAction {
    /// A letter of a layout group, typed at the position of a physical key.
    Text { value: &'static str, physical_key: &'static str, group: u32 },
    /// A symbol of the first group, shifted or not.
    Symbol { value: &'static str, physical_key: &'static str, shifted: bool },
    /// A named key such as `Return`.
    Key(&'static str),
}

/// The physical key that an action presses.
pub open spec fn physical_key_of(a: KeyAction) -> &'static str {
    match a {
        KeyAction::Text { physical_key, .. } => physical_key,
        KeyAction::Symbol { physical_key, .. } => physical_key,
        KeyAction::Key(name) => name,
    }
}

/// The text that the action stands for, as used in error messages.
pub open spec fn display_value_of(a: KeyAction) -> &'static str {
    match a {
        KeyAction::Text { value, .. } => value,
        KeyAction::Symbol { value, .. } => value,
        KeyAction::Key(name) => name,
    }
}

/// Errors of the input backends.
#[derive(Clone, Debug, PartialEq, Eq)]
pub enum BackendError {
    /// The key has no evdev code.
    UnsupportedKey(UnsupportedKey),
    /// The input device or the compositor refused the event.
    Device(String),
}

/// A key that the virtual keyboard cannot press.
#[derive(Clone, Copy, Debug, PartialEq, Eq)]
pub struct UnsupportedKey {
    pub physical_key: &'static str,
    pub display_value: &'static str,
}

/// Appends the characters of `s`.
fn append_str(v: &mut Vec<char>, s: &str)
    ensures
        final(v)@ == old(v)@ + s@,
{
    let cs = chars_of(s);
    let mut i: usize = 0;
    while i < cs.len()
        invariant
            i <= cs@.len(),
            cs@ == s@,
            v@ == old(v)@ + cs@.take(i as int),
        decreases cs@.len() - i,
    {
        v.push(cs[i]);
        assert(old(v)@ + cs@.take(i + 1) =~= (old(v)@ + cs@.take(i as int)).push(cs@[i as int]));
        i = i + 1;
    }
    assert(cs@.take(cs@.len() as int) =~= cs@);
}

/// The message of an unsupported key.
pub open spec fn unsupported_message(physical_key: Seq<char>, display_value: Seq<char>) -> Seq<
    char,
> {
    "unsupported virtual keyboard key `"@ + physical_key + "` for `"@ + display_value + "`"@
}

impl UnsupportedKey {
    /// The error text, naming the key and the value it stands for.
    pub fn message(&self) -> (r: String)
        ensures
            r@ == unsupported_message(self.physical_key@, self.display_value@),
    {
        let mut v: Vec<char> = Vec::new();
        append_str(&mut v, "unsupported virtual keyboard key `");
        append_str(&mut v, self.physical_key);
        append_str(&mut v, "` for `");
        append_str(&mut v, self.display_value);
        append_str(&mut v, "`");
        string_of(&v)
    }
}

/// Something that types keys: the virtual keyboard, or a device for tests.
pub trait InputBackend: Clone + 'static {
    fn send(&self, action: &KeyAction, modifiers: Modifiers) -> Result<(), BackendError>;

    fn sync_modifiers(&self, modifiers: Modifiers) -> Result<(), BackendError>;
}

/// The evdev code of a key name (the name compared without ASCII case).
pub open spec fn evdev_code(name: Seq<char>) -> Option<u32> {
    let n = ascii_lower(name);
    if n == "escape"@ {
        Some(1)
    } else if n == "1"@ {
        Some(2)
    } else if n == "2"@ {
        Some(3)
    } else if n == "3"@ {
        Some(4)
    } else if n == "4"@ {
        Some(5)
    } else if n == "5"@ {
        Some(6)
    } else if n == "6"@ {
        Some(7)
    } else if n == "7"@ {
        Some(8)
    } else if n == "8"@ {
        Some(9)
    } else if n == "9"@ {
        Some(10)
    } else if n == "0"@ {
        Some(11)
    } else if n == "minus"@ {
        Some(12)
    } else if n == "equal"@ {
        Some(13)
    } else if n == "backspace"@ {
        Some(14)
    } else if n == "tab"@ {
        Some(15)
    } else if n == "q"@ {
        Some(16)
    } else if n == "w"@ {
        Some(17)
    } else if n == "e"@ {
        Some(18)
    } else if n == "r"@ {
        Some(19)
    } else if n == "t"@ {
        Some(20)
    } else if n == "y"@ {
        Some(21)
    } else if n == "u"@ {
        Some(22)
    } else if n == "i"@ {
        Some(23)
    } else if n == "o"@ {
        Some(24)
    } else if n == "p"@ {
        Some(25)
    } else if n == "bracketleft"@ {
        Some(26)
    } else if n == "bracketright"@ {
        Some(27)
    } else if n == "return"@ {
        Some(28)
    } else if n == "a"@ {
        Some(30)
    } else if n == "s"@ {
        Some(31)
    } else if n == "d"@ {
        Some(32)
    } else if n == "f"@ {
        Some(33)
    } else if n == "g"@ {
        Some(34)
    } else if n == "h"@ {
        Some(35)
    } else if n == "j"@ {
        Some(36)
    } else if n == "k"@ {
        Some(37)
    } else if n == "l"@ {
        Some(38)
    } else if n == "semicolon"@ {
        Some(39)
    } else if n == "apostrophe"@ {
        Some(40)
    } else if n == "grave"@ {
        Some(41)
    } else if n == "backslash"@ {
        Some(43)
    } else if n == "z"@ {
        Some(44)
    } else if n == "x"@ {
        Some(45)
    } else if n == "c"@ {
        Some(46)
    } else if n == "v"@ {
        Some(47)
    } else if n == "b"@ {
        Some(48)
    } else if n == "n"@ {
        Some(49)
    } else if n == "m"@ {
        Some(50)
    } else if n == "comma"@ {
        Some(51)
    } else if n == "period"@ {
        Some(52)
    } else if n == "slash"@ {
        Some(53)
    } else if n == "space"@ {
        Some(57)
    } else if n == "f1"@ {
        Some(59)
    } else if n == "f2"@ {
        Some(60)
    } else if n == "f3"@ {
        Some(61)
    } else if n == "f4"@ {
        Some(62)
    } else if n == "f5"@ {
        Some(63)
    } else if n == "f6"@ {
        Some(64)
    } else if n == "f7"@ {
        Some(65)
    } else if n == "f8"@ {
        Some(66)
    } else if n == "f9"@ {
        Some(67)
    } else if n == "f10"@ {
        Some(68)
    } else if n == "f11"@ {
        Some(87)
    } else if n == "f12"@ {
        Some(88)
    } else if n == "home"@ {
        Some(102)
    } else if n == "up"@ {
        Some(103)
    } else if n == "pageup"@ {
        Some(104)
    } else if n == "left"@ {
        Some(105)
    } else if n == "right"@ {
        Some(106)
    } else if n == "end"@ {
        Some(107)
    } else if n == "down"@ {
        Some(108)
    } else if n == "pagedown"@ {
        Some(109)
    } else if n == "insert"@ {
        Some(110)
    } else if n == "delete"@ {
        Some(111)
    } else {
        None
    }
}

/// The evdev code of a key name, ignoring ASCII case.
pub fn evdev_key_code(name: &str) -> (r: Option<u32>)
    ensures
        r == evdev_code(name@),
{
    let n = ascii_lowercase(&chars_of(name));
    if chars_are(&n, "escape") {
        return Some(1);
    }
    if chars_are(&n, "1") {
        return Some(2);
    }
    if chars_are(&n, "2") {
        return Some(3);
    }
    if chars_are(&n, "3") {
        return Some(4);
    }
    if chars_are(&n, "4") {
        return Some(5);
    }
    if chars_are(&n, "5") {
        return Some(6);
    }
    if chars_are(&n, "6") {
        return Some(7);
    }
    if chars_are(&n, "7") {
        return Some(8);
    }
    if chars_are(&n, "8") {
        return Some(9);
    }
    if chars_are(&n, "9") {
        return Some(10);
    }
    if chars_are(&n, "0") {
        return Some(11);
    }
    if chars_are(&n, "minus") {
        return Some(12);
    }
    if chars_are(&n, "equal") {
        return Some(13);
    }
    if chars_are(&n, "backspace") {
        return Some(14);
    }
    if chars_are(&n, "tab") {
        return Some(15);
    }
    if chars_are(&n, "q") {
        return Some(16);
    }
    if chars_are(&n, "w") {
        return Some(17);
    }
    if chars_are(&n, "e") {
        return Some(18);
    }
    if chars_are(&n, "r") {
        return Some(19);
    }
    if chars_are(&n, "t") {
        return Some(20);
    }
    if chars_are(&n, "y") {
        return Some(21);
    }
    if chars_are(&n, "u") {
        return Some(22);
    }
    if chars_are(&n, "i") {
        return Some(23);
    }
    if chars_are(&n, "o") {
        return Some(24);
    }
    if chars_are(&n, "p") {
        return Some(25);
    }
    if chars_are(&n, "bracketleft") {
        return Some(26);
    }
    if chars_are(&n, "bracketright") {
        return Some(27);
    }
    if chars_are(&n, "return") {
        return Some(28);
    }
    if chars_are(&n, "a") {
        return Some(30);
    }
    if chars_are(&n, "s") {
        return Some(31);
    }
    if chars_are(&n, "d") {
        return Some(32);
    }
    if chars_are(&n, "f") {
        return Some(33);
    }
    if chars_are(&n, "g") {
        return Some(34);
    }
    if chars_are(&n, "h") {
        return Some(35);
    }
    if chars_are(&n, "j") {
        return Some(36);
    }
    if chars_are(&n, "k") {
        return Some(37);
    }
    if chars_are(&n, "l") {
        return Some(38);
    }
    if chars_are(&n, "semicolon") {
        return Some(39);
    }
    if chars_are(&n, "apostrophe") {
        return Some(40);
    }
    if chars_are(&n, "grave") {
        return Some(41);
    }
    if chars_are(&n, "backslash") {
        return Some(43);
    }
    if chars_are(&n, "z") {
        return Some(44);
    }
    if chars_are(&n, "x") {
        return Some(45);
    }
    if chars_are(&n, "c") {
        return Some(46);
    }
    if chars_are(&n, "v") {
        return Some(47);
    }
    if chars_are(&n, "b") {
        return Some(48);
    }
    if chars_are(&n, "n") {
        return Some(49);
    }
    if chars_are(&n, "m") {
        return Some(50);
    }
    if chars_are(&n, "comma") {
        return Some(51);
    }
    if chars_are(&n, "period") {
        return Some(52);
    }
    if chars_are(&n, "slash") {
        return Some(53);
    }
    if chars_are(&n, "space") {
        return Some(57);
    }
    if chars_are(&n, "f1") {
        return Some(59);
    }
    if chars_are(&n, "f2") {
        return Some(60);
    }
    if chars_are(&n, "f3") {
        return Some(61);
    }
    if chars_are(&n, "f4") {
        return Some(62);
    }
    if chars_are(&n, "f5") {
        return Some(63);
    }
    if chars_are(&n, "f6") {
        return Some(64);
    }
    if chars_are(&n, "f7") {
        return Some(65);
    }
    if chars_are(&n, "f8") {
        return Some(66);
    }
    if chars_are(&n, "f9") {
        return Some(67);
    }
    if chars_are(&n, "f10") {
        return Some(68);
    }
    if chars_are(&n, "f11") {
        return Some(87);
    }
    if chars_are(&n, "f12") {
        return Some(88);
    }
    if chars_are(&n, "home") {
        return Some(102);
    }
    if chars_are(&n, "up") {
        return Some(103);
    }
    if chars_are(&n, "pageup") {
        return Some(104);
    }
    if chars_are(&n, "left") {
        return Some(105);
    }
    if chars_are(&n, "right") {
        return Some(106);
    }
    if chars_are(&n, "end") {
        return Some(107);
    }
    if chars_are(&n, "down") {
        return Some(108);
    }
    if chars_are(&n, "pagedown") {
        return Some(109);
    }
    if chars_are(&n, "insert") {
        return Some(110);
    }
    if chars_are(&n, "delete") {
        return Some(111);
    }
    None
}

/// A key press as the compositor receives it.
#[derive(Clone, Copy, Debug, PartialEq, Eq, Structural)]
pub struct KeyStroke {
    pub key_code: u32,
    pub depressed_modifiers: u32,
    pub group: u32,
}

/// The protocol modifier mask of the given modifier keys.
pub open spec fn modifier_mask(ctrl: bool, logo: bool, alt: bool, shift: bool) -> u32 {
    (if ctrl {
        MOD_CTRL
    } else {
        0u32
    }) | (if logo {
        MOD_LOGO
    } else {
        0u32
    }) | (if alt {
        MOD_ALT
    } else {
        0u32
    }) | (if shift {
        MOD_SHIFT
    } else {
        0u32
    })
}

/// Whether the stroke is shifted. Letters follow Shift xor Caps Lock unless a
/// shortcut modifier is active; shifted symbols are always shifted.
pub open spec fn effective_shift(a: KeyAction, m: Modifiers) -> bool {
    match a {
        KeyAction::Text { .. } => if !is_shortcut(m) {
            m.shift != m.caps_lock
        } else {
            m.shift
        },
        KeyAction::Symbol { shifted, .. } => shifted || m.shift,
        KeyAction::Key(_) => m.shift,
    }
}

/// The layout group of the stroke: shortcuts use the first (Latin) group so
/// that Ctrl with a Cyrillic letter still means the QWERTY shortcut.
pub open spec fn stroke_group(a: KeyAction, m: Modifiers) -> u32 {
    match a {
        KeyAction::Text { group, .. } => if is_shortcut(m) {
            0
        } else {
            group
        },
        _ => 0,
    }
}

/// The stroke of an action with the given modifiers.
pub open spec fn key_stroke(a: KeyAction, m: Modifiers) -> Result<KeyStroke, UnsupportedKey> {
    match evdev_code(physical_key_of(a)@) {
        Some(code) => Ok(
            KeyStroke {
                key_code: code,
                depressed_modifiers: modifier_mask(m.ctrl, m.super_key, m.alt, effective_shift(a, m)),
                group: stroke_group(a, m),
            },
        ),
        None => Err(
            UnsupportedKey { physical_key: physical_key_of(a), display_value: display_value_of(a) },
        ),
    }
}

/// Each modifier key appears in the mask exactly when it is pressed.
pub proof fn lemma_modifier_mask_bits(ctrl: bool, logo: bool, alt: bool, shift: bool)
    ensures
        (modifier_mask(ctrl, logo, alt, shift) & MOD_CTRL != 0) == ctrl,
        (modifier_mask(ctrl, logo, alt, shift) & MOD_LOGO != 0) == logo,
        (modifier_mask(ctrl, logo, alt, shift) & MOD_ALT != 0) == alt,
        (modifier_mask(ctrl, logo, alt, shift) & MOD_SHIFT != 0) == shift,
{
    let c: u32 = if ctrl {
        4
    } else {
        0
    };
    let l: u32 = if logo {
        64
    } else {
        0
    };
    let a: u32 = if alt {
        8
    } else {
        0
    };
    let s: u32 = if shift {
        1
    } else {
        0
    };
    assert((c | l | a | s) & 4 != 0 <==> c == 4) by (bit_vector)
        requires
            c == 0 || c == 4,
            l == 0 || l == 64,
            a == 0 || a == 8,
            s == 0 || s == 1,
    ;
    assert((c | l | a | s) & 64 != 0 <==> l == 64) by (bit_vector)
        requires
            c == 0 || c == 4,
            l == 0 || l == 64,
            a == 0 || a == 8,
            s == 0 || s == 1,
    ;
    assert((c | l | a | s) & 8 != 0 <==> a == 8) by (bit_vector)
        requires
            c == 0 || c == 4,
            l == 0 || l == 64,
            a == 0 || a == 8,
            s == 0 || s == 1,
    ;
    assert((c | l | a | s) & 1 != 0 <==> s == 1) by (bit_vector)
        requires
            c == 0 || c == 4,
            l == 0 || l == 64,
            a == 0 || a == 8,
            s == 0 || s == 1,
    ;
}

/// The modifier keys held down for a mask, in the order Ctrl, Shift, Alt, Super.
pub open spec fn held_key_codes(mask: u32) -> Seq<u32> {
    (if mask & MOD_CTRL != 0 {
        seq![KEY_LEFT_CTRL]
    } else {
        Seq::empty()
    }) + (if mask & MOD_SHIFT != 0 {
        seq![KEY_LEFT_SHIFT]
    } else {
        Seq::empty()
    }) + (if mask & MOD_ALT != 0 {
        seq![KEY_LEFT_ALT]
    } else {
        Seq::empty()
    }) + (if mask & MOD_LOGO != 0 {
        seq![KEY_LEFT_META]
    } else {
        Seq::empty()
    })
}

impl KeyStroke {
    /// The stroke of `action`. Fails on a key that has no evdev code.
    pub fn new(action: &KeyAction, modifiers: Modifiers) -> (r: Result<KeyStroke, UnsupportedKey>)
        ensures
            r == key_stroke(*action, modifiers),
            r matches Ok(s) ==> {
                &&& (s.depressed_modifiers & MOD_CTRL != 0) == modifiers.ctrl
                &&& (s.depressed_modifiers & MOD_LOGO != 0) == modifiers.super_key
                &&& (s.depressed_modifiers & MOD_ALT != 0) == modifiers.alt
                &&& (s.depressed_modifiers & MOD_SHIFT != 0) == effective_shift(*action, modifiers)
                &&& modifiers.shift && !modifiers.caps_lock ==> s.depressed_modifiers & MOD_SHIFT != 0
            },
    {
        let (physical_key, group, display_value) = match action {
            KeyAction::Text { value, physical_key, group } => (*physical_key, *group, *value),
            KeyAction::Symbol { value, physical_key, .. } => (*physical_key, 0, *value),
            KeyAction::Key(key) => (*key, 0, *key),
        };
        let key_code = match evdev_key_code(physical_key) {
            Some(code) => code,
            None => {
                return Err(UnsupportedKey { physical_key, display_value });
            },
        };
        let shortcut = modifiers.has_shortcut_modifier();
        let is_text = match action {
            KeyAction::Text { .. } => true,
            _ => false,
        };
        let group = if is_text && shortcut {
            0
        } else {
            group
        };
        let effective_shift = match action {
            KeyAction::Text { .. } => if !shortcut {
                modifiers.shift != modifiers.caps_lock
            } else {
                modifiers.shift
            },
            KeyAction::Symbol { shifted, .. } => *shifted || modifiers.shift,
            KeyAction::Key(_) => modifiers.shift,
        };
        let depressed_modifiers = (if modifiers.ctrl {
            MOD_CTRL
        } else {
            0
        }) | (if modifiers.super_key {
            MOD_LOGO
        } else {
            0
        }) | (if modifiers.alt {
            MOD_ALT
        } else {
            0
        }) | (if effective_shift {
            MOD_SHIFT
        } else {
            0
        });
        proof {
            lemma_modifier_mask_bits(
                modifiers.ctrl,
                modifiers.super_key,
                modifiers.alt,
                effective_shift,
            );
        }
        Ok(KeyStroke { key_code, depressed_modifiers, group })
    }

    /// The modifier keys to hold around the main key: Ctrl, Shift, Alt, Super.
    pub fn modifier_key_codes(self) -> (r: Vec<u32>)
        ensures
            r@ == held_key_codes(self.depressed_modifiers),
    {
        let mut codes: Vec<u32> = Vec::new();
        if self.depressed_modifiers & MOD_CTRL != 0 {
            codes.push(KEY_LEFT_CTRL);
        }
        if self.depressed_modifiers & MOD_SHIFT != 0 {
            codes.push(KEY_LEFT_SHIFT);
        }
        if self.depressed_modifiers & MOD_ALT != 0 {
            codes.push(KEY_LEFT_ALT);
        }
        if self.depressed_modifiers & MOD_LOGO != 0 {
            codes.push(KEY_LEFT_META);
        }
        proof {
            let d = self.depressed_modifiers;
            assert(codes@ =~= held_key_codes(d));
        }
        codes
    }
}

/// Whether a key goes through the shortcut device (the system keyboard
/// path), when there is one: shortcuts and named keys do, so that compositor
/// bindings and layout switching see them; plain text goes to the focused
/// application through the virtual keyboard.
pub fn uses_shortcut_device(action: &KeyAction, modifiers: Modifiers) -> (r: bool)
    ensures
        r == (is_shortcut(modifiers) || action is Key),
{
    modifiers.has_shortcut_modifier() || match action {
        KeyAction::Key(_) => true,
        _ => false,
    }
}

/// The modifier keys the shortcut device holds for the given modifier state
/// when no key is typed: Ctrl, Shift, Alt, Super as they are active.
pub fn held_modifier_codes(modifiers: Modifiers) -> (r: Vec<u32>)
    ensures
        r@ == held_key_codes(
            modifier_mask(modifiers.ctrl, modifiers.super_key, modifiers.alt, modifiers.shift),
        ),
{
    let mask = (if modifiers.ctrl {
        MOD_CTRL
    } else {
        0
    }) | (if modifiers.super_key {
        MOD_LOGO
    } else {
        0
    }) | (if modifiers.alt {
        MOD_ALT
    } else {
        0
    }) | (if modifiers.shift {
        MOD_SHIFT
    } else {
        0
    });
    KeyStroke { key_code: 57, depressed_modifiers: mask, group: 0 }.modifier_key_codes()
}

/// One request to the virtual keyboard: a key transition, or the modifier
/// mask and layout group that the compositor applies to the keys.
#[derive(Clone, Copy, Debug, PartialEq, Eq, Structural)]
pub enum VirtualKeyEvent {
    Key { code: u32, pressed: bool },
    Modifiers { depressed: u32, group: u32 },
}

/// The press (or release) of each of `codes`, in order.
pub open spec fn key_events(codes: Seq<u32>, pressed: bool) -> Seq<VirtualKeyEvent> {
    codes.map_values(|c: u32| VirtualKeyEvent::Key { code: c, pressed })
}

/// How a stroke is typed on the virtual keyboard: the modifier keys go down
/// (some clients only see shortcuts with physical modifier events), the mask
/// and group are set, the key is pressed and released, the modifier keys come
/// up in reverse order, and the mask is cleared.
pub open spec fn stroke_events(s: KeyStroke) -> Seq<VirtualKeyEvent> {
    let held = held_key_codes(s.depressed_modifiers);
    key_events(held, true) + seq![
        VirtualKeyEvent::Modifiers { depressed: s.depressed_modifiers, group: s.group },
        VirtualKeyEvent::Key { code: s.key_code, pressed: true },
        VirtualKeyEvent::Key { code: s.key_code, pressed: false },
    ] + key_events(held.reverse(), false) + seq![
        VirtualKeyEvent::Modifiers { depressed: 0, group: s.group },
    ]
}

/// The requests that type `stroke` on the virtual keyboard.
pub fn virtual_key_events(stroke: KeyStroke) -> (r: Vec<VirtualKeyEvent>)
    ensures
        r@ == stroke_events(stroke),
{
    let held = stroke.modifier_key_codes();
    let mut r: Vec<VirtualKeyEvent> = Vec::new();
    let mut i: usize = 0;
    while i < held.len()
        invariant
            i <= held@.len(),
            r@ == key_events(held@.take(i as int), true),
        decreases held@.len() - i,
    {
        r.push(VirtualKeyEvent::Key { code: held[i], pressed: true });
        assert(key_events(held@.take(i + 1), true) =~= key_events(held@.take(i as int), true).push(
            VirtualKeyEvent::Key { code: held@[i as int], pressed: true },
        ));
        i = i + 1;
    }
    assert(held@.take(held@.len() as int) =~= held@);
    r.push(VirtualKeyEvent::Modifiers { depressed: stroke.depressed_modifiers, group: stroke.group });
    r.push(VirtualKeyEvent::Key { code: stroke.key_code, pressed: true });
    r.push(VirtualKeyEvent::Key { code: stroke.key_code, pressed: false });
    let ghost front = r@;
    let mut j: usize = held.len();
    while j > 0
        invariant
            j <= held@.len(),
            r@ == front + key_events(held@.reverse().take(held@.len() - j), false),
        decreases j,
    {
        j = j - 1;
        r.push(VirtualKeyEvent::Key { code: held[j], pressed: false });
        assert(held@.reverse()[held@.len() - j - 1] == held@[j as int]);
        assert(key_events(held@.reverse().take(held@.len() - j), false) =~= key_events(
            held@.reverse().take(held@.len() - j - 1),
            false,
        ).push(VirtualKeyEvent::Key { code: held@[j as int], pressed: false }));
    }
    assert(held@.reverse().take(held@.len() as int) =~= held@.reverse());
    r.push(VirtualKeyEvent::Modifiers { depressed: 0, group: stroke.group });
    assert(r@ =~= stroke_events(stroke));
    r
}

/// Every modifier key that typing a stroke presses is released afterwards,
/// the main key is released after it is pressed, and the mask ends cleared.
pub proof fn lemma_stroke_leaves_no_key_down(s: KeyStroke)
    ensures
        ({
            let e = stroke_events(s);
            let n = held_key_codes(s.depressed_modifiers).len() as int;
            &&& e.len() == 2 * n + 4
            &&& forall|i: int|
                0 <= i < n ==> e[i] == VirtualKeyEvent::Key {
                    code: held_key_codes(s.depressed_modifiers)[i],
                    pressed: true,
                } && e[2 * n + 2 - i] == VirtualKeyEvent::Key {
                    code: held_key_codes(s.depressed_modifiers)[i],
                    pressed: false,
                }
            &&& e[n + 1] == VirtualKeyEvent::Key { code: s.key_code, pressed: true }
            &&& e[n + 2] == VirtualKeyEvent::Key { code: s.key_code, pressed: false }
            &&& e.last() == VirtualKeyEvent::Modifiers { depressed: 0, group: s.group }
        }),
{
    let held = held_key_codes(s.depressed_modifiers);
    let n = held.len() as int;
    let e = stroke_events(s);
    assert forall|i: int| 0 <= i < n implies e[2 * n + 2 - i] == VirtualKeyEvent::Key {
        code: held[i],
        pressed: false,
    } by {
        assert(held.reverse()[n - 1 - i] == held[i]);
    }
}

/// What a stroke carries, in terms of the action and the modifiers: Ctrl,
/// Super and Alt are sent as they are active. A text key types in the case
/// that Shift and Caps Lock give together (Shift xor Caps Lock: either one
/// alone gives a capital, both a small letter) and in its own layout group,
/// unless Ctrl, Super or Alt is active: then it is a shortcut, Shift is sent
/// as it is, Caps Lock is ignored and the first (Latin) group is used. A
/// symbol is shifted when it needs Shift or Shift is active; a named key gets
/// Shift as it is. Both use the first group.
pub proof fn lemma_stroke_follows_modifiers(a: KeyAction, m: Modifiers)
    ensures
        match key_stroke(a, m) {
            Ok(s) => {
                let shortcut = m.ctrl || m.super_key || m.alt;
                &&& (s.depressed_modifiers & MOD_CTRL != 0) == m.ctrl
                &&& (s.depressed_modifiers & MOD_LOGO != 0) == m.super_key
                &&& (s.depressed_modifiers & MOD_ALT != 0) == m.alt
                &&& (s.depressed_modifiers & MOD_SHIFT != 0) == match a {
                    KeyAction::Text { .. } => if shortcut {
                        m.shift
                    } else {
                        m.shift != m.caps_lock
                    },
                    KeyAction::Symbol { shifted, .. } => shifted || m.shift,
                    KeyAction::Key(_) => m.shift,
                }
                &&& s.group == match a {
                    KeyAction::Text { group, .. } => if shortcut {
                        0
                    } else {
                        group
                    },
                    _ => 0,
                }
                &&& evdev_code(physical_key_of(a)@) == Some(s.key_code)
            },
            Err(e) => evdev_code(physical_key_of(a)@) is None && e.physical_key == physical_key_of(a),
        },
{
    lemma_modifier_mask_bits(m.ctrl, m.super_key, m.alt, effective_shift(a, m));
}

} // verus!
