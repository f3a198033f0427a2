//! The keyboard's modifier state machine and the press tracking of its keys.
//! Times are milliseconds of a monotonic clock.
use vstd::prelude::*;

use crate::backend::{is_one_shot, KeyAction, Modifiers};
use crate::layout::{Action, Key, Language, LayoutPage, Modifier};

verus! {

/// A second Shift tap within this many milliseconds locks capitals.
pub const SHIFT_DOUBLE_TAP_MS: u64 = 350;

/// Delay before a held key starts to repeat.
pub const KEY_REPEAT_DELAY_MS: u64 = 450;

/// Interval between repeats of a held key.
pub const KEY_REPEAT_INTERVAL_MS: u64 = 65;

/// One value per modifier.
#[derive(Clone, Copy, Debug, PartialEq, Eq, Structural)]
pub struct PerModifier<T> {
    pub ctrl: T,
    pub super_key: T,
    pub alt: T,
    pub shift: T,
}

impl<T: Copy> PerModifier<T> {
    pub open spec fn at(self, m: Modifier) -> T {
        match m {
            Modifier::Ctrl => self.ctrl,
            Modifier::Super => self.super_key,
            Modifier::Alt => self.alt,
            Modifier::Shift => self.shift,
        }
    }

    pub open spec fn with(self, m: Modifier, v: T) -> Self {
        match m {
            Modifier::Ctrl => PerModifier { ctrl: v, ..self },
            Modifier::Super => PerModifier { super_key: v, ..self },
            Modifier::Alt => PerModifier { alt: v, ..self },
            Modifier::Shift => PerModifier { shift: v, ..self },
        }
    }

    pub fn get(&self, m: Modifier) -> (r: T)
        ensures
            r == self.at(m),
    {
        match m {
            Modifier::Ctrl => self.ctrl,
            Modifier::Super => self.super_key,
            Modifier::Alt => self.alt,
            Modifier::Shift => self.shift,
        }
    }

    pub fn set(&mut self, m: Modifier, v: T)
        ensures
            *final(self) == old(self).with(m, v),
    {
        match m {
            Modifier::Ctrl => self.ctrl = v,
            Modifier::Super => self.super_key = v,
            Modifier::Alt => self.alt = v,
            Modifier::Shift => self.shift = v,
        }
    }

    pub fn filled(v: T) -> (r: Self)
        ensures
            r == (PerModifier { ctrl: v, super_key: v, alt: v, shift: v }),
    {
        PerModifier { ctrl: v, super_key: v, alt: v, shift: v }
    }
}

/// What the keyboard shows and which modifiers are latched, locked or held.
#[derive(Clone, Copy, Debug, PartialEq, Eq)]
pub struct KeyboardState {
    pub language: Language,
    pub page: LayoutPage,
    /// Latched modifiers (one tap) and Caps Lock.
    pub modifiers: Modifiers,
    /// Time of the last Shift tap that latched Shift.
    pub last_shift_tap: Option<u64>,
    /// How many buttons of each modifier are held down.
    pub held: PerModifier<u8>,
    /// Whether the current hold of each modifier was used by a key.
    pub used: PerModifier<bool>,
}

/// The latched modifiers combined with the held ones.
pub open spec fn effective(s: KeyboardState) -> Modifiers {
    Modifiers {
        ctrl: s.modifiers.ctrl || s.held.ctrl > 0,
        super_key: s.modifiers.super_key || s.held.super_key > 0,
        alt: s.modifiers.alt || s.held.alt > 0,
        shift: s.modifiers.shift || s.held.shift > 0,
        caps_lock: s.modifiers.caps_lock,
    }
}

/// Whether the modifier's button shows as active.
pub open spec fn is_active(s: KeyboardState, m: Modifier) -> bool {
    let e = effective(s);
    match m {
        Modifier::Ctrl => e.ctrl,
        Modifier::Super => e.super_key,
        Modifier::Alt => e.alt,
        Modifier::Shift => e.shift || e.caps_lock,
    }
}

/// Whether a Shift tap at `now` follows the previous one closely enough.
pub open spec fn is_double_tap(last: Option<u64>, now: u64) -> bool {
    match last {
        Some(t) => (if now >= t {
            now - t
        } else {
            0
        }) <= SHIFT_DOUBLE_TAP_MS,
        None => false,
    }
}

/// The state after a tap of a modifier: Ctrl, Super and Alt flip their latch;
/// Shift flips its latch, locks capitals on a double tap, and unlocks them.
pub open spec fn toggled(s: KeyboardState, m: Modifier, now: u64) -> KeyboardState {
    match m {
        Modifier::Ctrl => KeyboardState {
            modifiers: Modifiers { ctrl: !s.modifiers.ctrl, ..s.modifiers },
            ..s
        },
        Modifier::Super => KeyboardState {
            modifiers: Modifiers { super_key: !s.modifiers.super_key, ..s.modifiers },
            ..s
        },
        Modifier::Alt => KeyboardState {
            modifiers: Modifiers { alt: !s.modifiers.alt, ..s.modifiers },
            ..s
        },
        Modifier::Shift => if s.modifiers.caps_lock {
            KeyboardState {
                modifiers: Modifiers { caps_lock: false, shift: false, ..s.modifiers },
                last_shift_tap: None,
                ..s
            }
        } else if is_double_tap(s.last_shift_tap, now) {
            KeyboardState {
                modifiers: Modifiers { caps_lock: true, shift: false, ..s.modifiers },
                last_shift_tap: None,
                ..s
            }
        } else {
            KeyboardState {
                modifiers: Modifiers { shift: !s.modifiers.shift, ..s.modifiers },
                last_shift_tap: Some(now),
                ..s
            }
        },
    }
}

/// The state after a modifier button goes down.
pub open spec fn pressed(s: KeyboardState, m: Modifier) -> KeyboardState {
    let n = s.held.at(m);
    KeyboardState {
        held: s.held.with(m, (n + 1) as u8),
        used: if n == 0 {
            s.used.with(m, false)
        } else {
            s.used
        },
        ..s
    }
}

/// The state after a modifier button goes up. The last release of a hold that
/// no key used (and that was not cancelled) is a tap.
pub open spec fn released(s: KeyboardState, m: Modifier, cancelled: bool, now: u64) -> KeyboardState {
    let n = s.held.at(m);
    if n == 0 {
        s
    } else {
        let held = s.held.with(m, (n - 1) as u8);
        let used = if cancelled {
            s.used.with(m, true)
        } else {
            s.used
        };
        let t = KeyboardState { held, used, ..s };
        if n - 1 == 0 && !used.at(m) {
            toggled(t, m, now)
        } else {
            t
        }
    }
}

/// The state after a key used the held modifiers.
pub open spec fn with_holds_used(s: KeyboardState) -> KeyboardState {
    KeyboardState {
        used: PerModifier {
            ctrl: s.used.ctrl || s.held.ctrl > 0,
            super_key: s.used.super_key || s.held.super_key > 0,
            alt: s.used.alt || s.held.alt > 0,
            shift: s.used.shift || s.held.shift > 0,
        },
        ..s
    }
}

/// The state after a key consumed the latched one-shot modifiers.
pub open spec fn consumed(s: KeyboardState) -> KeyboardState {
    KeyboardState {
        modifiers: Modifiers {
            ctrl: false,
            super_key: false,
            alt: false,
            shift: false,
            caps_lock: s.modifiers.caps_lock,
        },
        last_shift_tap: None,
        ..s
    }
}

impl KeyboardState {
    pub fn new(language: Language) -> (r: Self)
        ensures
            r.language == language,
            r.page == LayoutPage::Letters,
            r.modifiers == crate::backend::no_modifiers(),
            r.last_shift_tap is None,
            r.held == (PerModifier { ctrl: 0u8, super_key: 0u8, alt: 0u8, shift: 0u8 }),
            r.used == (PerModifier {
                ctrl: false,
                super_key: false,
                alt: false,
                shift: false,
            }),
    {
        KeyboardState {
            language,
            page: LayoutPage::Letters,
            modifiers: Modifiers::default(),
            last_shift_tap: None,
            held: PerModifier::filled(0),
            used: PerModifier::filled(false),
        }
    }

    /// Whether the modifier's button shows as active.
    pub fn modifier_active(&self, modifier: Modifier) -> (r: bool)
        ensures
            r == is_active(*self, modifier),
    {
        let modifiers = self.effective_modifiers();
        match modifier {
            Modifier::Ctrl => modifiers.ctrl,
            Modifier::Super => modifiers.super_key,
            Modifier::Alt => modifiers.alt,
            Modifier::Shift => modifiers.shift || modifiers.caps_lock,
        }
    }

    /// The modifiers a key sends now: latched or held.
    pub fn effective_modifiers(&self) -> (r: Modifiers)
        ensures
            r == effective(*self),
    {
        Modifiers {
            ctrl: self.modifiers.ctrl || self.held.ctrl > 0,
            super_key: self.modifiers.super_key || self.held.super_key > 0,
            alt: self.modifiers.alt || self.held.alt > 0,
            shift: self.modifiers.shift || self.held.shift > 0,
            caps_lock: self.modifiers.caps_lock,
        }
    }

    /// A modifier button goes down.
    pub fn press_modifier(&mut self, modifier: Modifier)
        requires
            old(self).held.at(modifier) < 255,
        ensures
            *final(self) == pressed(*old(self), modifier),
    {
        let n = self.held.get(modifier);
        if n == 0 {
            self.used.set(modifier, false);
        }
        self.held.set(modifier, n + 1);
    }

    /// A modifier button goes up; `cancelled` when the touch was taken away.
    pub fn release_modifier(&mut self, modifier: Modifier, cancelled: bool, now: u64)
        ensures
            *final(self) == released(*old(self), modifier, cancelled, now),
    {
        let n = self.held.get(modifier);
        if n == 0 {
            return ;
        }
        self.held.set(modifier, n - 1);
        if cancelled {
            self.used.set(modifier, true);
        }
        if n - 1 == 0 && !self.used.get(modifier) {
            self.toggle_modifier(modifier, now);
        }
    }

    /// A key uses the held modifiers; returns the modifiers it sends.
    pub fn use_modifiers(&mut self) -> (r: Modifiers)
        ensures
            *final(self) == with_holds_used(*old(self)),
            r == effective(*old(self)),
    {
        if self.held.ctrl > 0 {
            self.used.ctrl = true;
        }
        if self.held.super_key > 0 {
            self.used.super_key = true;
        }
        if self.held.alt > 0 {
            self.used.alt = true;
        }
        if self.held.shift > 0 {
            self.used.shift = true;
        }
        self.effective_modifiers()
    }

    /// A tap of a modifier.
    pub fn toggle_modifier(&mut self, modifier: Modifier, now: u64)
        ensures
            *final(self) == toggled(*old(self), modifier, now),
    {
        match modifier {
            Modifier::Ctrl => self.modifiers.ctrl = !self.modifiers.ctrl,
            Modifier::Super => self.modifiers.super_key = !self.modifiers.super_key,
            Modifier::Alt => self.modifiers.alt = !self.modifiers.alt,
            Modifier::Shift => {
                if self.modifiers.caps_lock {
                    self.modifiers.caps_lock = false;
                    self.modifiers.shift = false;
                    self.last_shift_tap = None;
                } else {
                    let is_double_tap = match self.last_shift_tap {
                        Some(last) => {
                            let elapsed = if now >= last {
                                now - last
                            } else {
                                0
                            };
                            elapsed <= SHIFT_DOUBLE_TAP_MS
                        },
                        None => false,
                    };
                    if is_double_tap {
                        self.modifiers.caps_lock = true;
                        self.modifiers.shift = false;
                        self.last_shift_tap = None;
                    } else {
                        self.modifiers.shift = !self.modifiers.shift;
                        self.last_shift_tap = Some(now);
                    }
                }
            },
        }
    }

    /// A key consumed the latched Ctrl, Super, Alt and Shift; Caps Lock stays.
    /// Returns whether any of them was latched.
    pub fn consume_one_shot_modifiers(&mut self) -> (r: bool)
        ensures
            *final(self) == consumed(*old(self)),
            r == is_one_shot(old(self).modifiers),
    {
        let changed = self.modifiers.has_one_shot_modifier();
        self.modifiers.ctrl = false;
        self.modifiers.super_key = false;
        self.modifiers.alt = false;
        self.modifiers.shift = false;
        self.last_shift_tap = None;
        changed
    }

    /// All touches end at once (the keyboard is redrawn or hidden).
    pub fn release_all_held(&mut self)
        ensures
            *final(self) == (KeyboardState {
                held: PerModifier { ctrl: 0u8, super_key: 0u8, alt: 0u8, shift: 0u8 },
                ..*old(self)
            }),
    {
        self.held = PerModifier::filled(0);
    }

    /// The system layout changed; returns whether the language differs.
    pub fn set_language(&mut self, language: Language) -> (r: bool)
        ensures
            r == (old(self).language != language),
            *final(self) == (KeyboardState { language, ..*old(self) }),
    {
        let changed = self.language != language;
        self.language = language;
        changed
    }
}

/// The press state of one key button.
#[derive(Clone, Copy, Debug, PartialEq, Eq)]
pub struct KeyPressTracker {
    pub held: bool,
    pub repeating: bool,
    pub modifiers: Modifiers,
    pub generation: u64,
}

impl Default for KeyPressTracker {
    fn default() -> (r: Self)
        ensures
            !r.held,
            !r.repeating,
            r.modifiers == crate::backend::no_modifiers(),
            r.generation == 0,
    {
        KeyPressTracker {
            held: false,
            repeating: false,
            modifiers: Modifiers::default(),
            generation: 0,
        }
    }
}

/// How a touch of a key ended.
#[derive(Clone, Copy, Debug, PartialEq, Eq, Structural)]
pub struct KeyPressFinish {
    /// The key was pressed and did not repeat: it counts as a tap.
    pub emit_tap: bool,
    /// The key was pressed at all.
    pub was_held: bool,
}

impl KeyPressTracker {
    /// The key goes down; returns the generation of this press.
    pub fn press(&mut self, modifiers: Modifiers) -> (r: u64)
        requires
            old(self).generation < u64::MAX,
        ensures
            r == old(self).generation + 1,
            *final(self) == pressed_tracker(*old(self), modifiers),
    {
        self.generation = self.generation + 1;
        self.held = true;
        self.repeating = false;
        self.modifiers = modifiers;
        self.generation
    }

    /// The repeat delay of press `generation` ran out: repeat only if that
    /// press is still the current one and still held.
    pub fn begin_repeat(&mut self, generation: u64) -> (r: Option<Modifiers>)
        ensures
            (*final(self), r) == repeat_started(*old(self), generation),
    {
        if !self.held || generation != self.generation {
            return None;
        }
        self.repeating = true;
        Some(self.modifiers)
    }

    /// The modifiers of a repeat of press `generation`, while it is held.
    pub fn repeat_modifiers(&self, generation: u64) -> (r: Option<Modifiers>)
        ensures
            r == (if self.held && self.generation == generation {
                Some(self.modifiers)
            } else {
                None
            }),
    {
        if self.held && self.generation == generation {
            Some(self.modifiers)
        } else {
            None
        }
    }

    /// The touch ends.
    pub fn finish(&mut self) -> (r: KeyPressFinish)
        ensures
            (*final(self), r) == finished(*old(self)),
    {
        let result = KeyPressFinish { emit_tap: self.held && !self.repeating, was_held: self.held };
        self.held = false;
        self.repeating = false;
        result
    }
}

/// What a key press asks of the user interface.
#[derive(Clone, Copy, Debug, PartialEq, Eq)]
pub enum PressEffect {
    Nothing,
    /// A modifier changed: redraw the modifier buttons and sync the device.
    RefreshModifiers,
    /// Send the input now and repeat it while press `generation` is held.
    SendInput { action: KeyAction, modifiers: Modifiers, generation: u64 },
}

/// What a release or a tap asks of the user interface.
#[derive(Clone, Copy, Debug, PartialEq, Eq)]
pub enum ReleaseEffect {
    Nothing,
    RefreshModifiers,
    /// Send the input, then refresh the modifiers.
    SendInput { action: KeyAction, modifiers: Modifiers },
    /// The page changed: rebuild the rows.
    Render,
    HideKeyboard,
}

/// A key button goes down.
pub fn key_pressed(state: &mut KeyboardState, tracker: &mut KeyPressTracker, action: Action) -> (r:
    PressEffect)
    requires
        old(tracker).generation < u64::MAX,
        action matches Action::Modifier(m) ==> old(state).held.at(m) < 255,
    ensures
        *final(tracker) == pressed_tracker(*old(tracker), effective(*old(state))),
        match action {
            Action::Input(a) => *final(state) == with_holds_used(*old(state)) && r
                == PressEffect::SendInput {
                action: a,
                modifiers: effective(*old(state)),
                generation: (old(tracker).generation + 1) as u64,
            },
            Action::Modifier(m) => *final(state) == pressed(*old(state), m) && r
                == PressEffect::RefreshModifiers,
            _ => *final(state) == *old(state) && r == PressEffect::Nothing,
        },
{
    let modifiers = match action {
        Action::Input(_) => state.use_modifiers(),
        _ => state.effective_modifiers(),
    };
    let generation = tracker.press(modifiers);
    match action {
        Action::Modifier(m) => {
            state.press_modifier(m);
            PressEffect::RefreshModifiers
        },
        Action::Input(a) => PressEffect::SendInput { action: a, modifiers, generation },
        _ => PressEffect::Nothing,
    }
}

/// The effect of activating a key by a tap.
pub open spec fn activation(s: KeyboardState, action: Action, now: u64) -> (KeyboardState, ReleaseEffect) {
    match action {
        Action::Input(a) => (
            consumed(with_holds_used(s)),
            ReleaseEffect::SendInput { action: a, modifiers: effective(s) },
        ),
        Action::Modifier(m) => (toggled(s, m, now), ReleaseEffect::RefreshModifiers),
        Action::SwitchPage(p) => (KeyboardState { page: p, ..s }, ReleaseEffect::Render),
        Action::Hide => (s, ReleaseEffect::HideKeyboard),
    }
}

/// A key is tapped.
pub fn activate_action(state: &mut KeyboardState, action: Action, now: u64) -> (r: ReleaseEffect)
    ensures
        (*final(state), r) == activation(*old(state), action, now),
{
    match action {
        Action::Input(a) => {
            let modifiers = state.use_modifiers();
            state.consume_one_shot_modifiers();
            ReleaseEffect::SendInput { action: a, modifiers }
        },
        Action::Modifier(m) => {
            state.toggle_modifier(m, now);
            ReleaseEffect::RefreshModifiers
        },
        Action::SwitchPage(page) => {
            state.page = page;
            ReleaseEffect::Render
        },
        Action::Hide => ReleaseEffect::HideKeyboard,
    }
}

/// The effect of a key button going up after a touch that ended as `finish`.
pub open spec fn release(s: KeyboardState, finish: KeyPressFinish, action: Action, now: u64) -> (
    KeyboardState,
    ReleaseEffect,
) {
    match action {
        Action::Input(_) if finish.was_held => (consumed(s), ReleaseEffect::RefreshModifiers),
        Action::Modifier(m) if finish.was_held => (
            released(s, m, false, now),
            ReleaseEffect::RefreshModifiers,
        ),
        _ => if finish.emit_tap {
            activation(s, action, now)
        } else {
            (s, ReleaseEffect::Nothing)
        },
    }
}

/// A key button goes up: input keys consume the one-shot modifiers (they were
/// sent on press), modifier buttons end their hold, other keys act on a tap.
pub fn key_released(state: &mut KeyboardState, finish: KeyPressFinish, action: Action, now: u64) -> (r:
    ReleaseEffect)
    ensures
        (*final(state), r) == release(*old(state), finish, action, now),
{
    match action {
        Action::Input(_) if finish.was_held => {
            state.consume_one_shot_modifiers();
            ReleaseEffect::RefreshModifiers
        },
        Action::Modifier(m) if finish.was_held => {
            state.release_modifier(m, false, now);
            ReleaseEffect::RefreshModifiers
        },
        _ => if finish.emit_tap {
            activate_action(state, action, now)
        } else {
            ReleaseEffect::Nothing
        },
    }
}

/// The touch of a key button was cancelled; returns whether to refresh the
/// modifiers. A cancelled modifier hold never latches.
pub fn key_cancelled(state: &mut KeyboardState, finish: KeyPressFinish, action: Action, now: u64) -> (r:
    bool)
    ensures
        r == finish.was_held,
        *final(state) == (if !finish.was_held {
            *old(state)
        } else {
            match action {
                Action::Input(_) => consumed(*old(state)),
                Action::Modifier(m) => released(*old(state), m, true, now),
                _ => *old(state),
            }
        }),
{
    if !finish.was_held {
        return false;
    }
    match action {
        Action::Input(_) => {
            state.consume_one_shot_modifiers();
        },
        Action::Modifier(m) => {
            state.release_modifier(m, true, now);
        },
        _ => {},
    }
    true
}

/// The label of a key: Shift reads "Caps" while capitals are locked, and the
/// switch to letters reads "АБВ" on the Russian layout.
pub open spec fn label_of(key: Key, s: KeyboardState) -> &'static str {
    match key.action {
        Action::Modifier(Modifier::Shift) if s.modifiers.caps_lock => "Caps",
        Action::SwitchPage(LayoutPage::Letters) if s.language == Language::Russian => "АБВ",
        _ => key.label,
    }
}

pub fn key_label(key: &Key, state: &KeyboardState) -> (r: &'static str)
    ensures
        r == label_of(*key, *state),
{
    match key.action {
        Action::Modifier(Modifier::Shift) if state.modifiers.caps_lock => "Caps",
        Action::SwitchPage(LayoutPage::Letters) if state.language == Language::Russian => "АБВ",
        _ => key.label,
    }
}

/// The style class of an active modifier button: "locked" for locked
/// capitals, "latched" otherwise; none when inactive.
pub open spec fn style_of(s: KeyboardState, m: Modifier) -> Option<&'static str> {
    if is_active(s, m) {
        if s.modifiers.caps_lock && m == Modifier::Shift {
            Some("locked")
        } else {
            Some("latched")
        }
    } else {
        None
    }
}

pub fn modifier_style(state: &KeyboardState, modifier: Modifier) -> (r: Option<&'static str>)
    ensures
        r == style_of(*state, modifier),
{
    if state.modifier_active(modifier) {
        if state.modifiers.caps_lock && modifier == Modifier::Shift {
            Some("locked")
        } else {
            Some("latched")
        }
    } else {
        None
    }
}

/// The label of the Shift button.
pub fn shift_label(state: &KeyboardState) -> (r: &'static str)
    ensures
        r == (if state.modifiers.caps_lock {
            "Caps"
        } else {
            "Shift"
        }),
{
    if state.modifiers.caps_lock {
        "Caps"
    } else {
        "Shift"
    }
}

/// The size request of a key button in pixels.
pub fn key_size(key: &Key) -> (r: (i32, i32))
    requires
        i32::MIN <= 44 * key.width <= i32::MAX,
    ensures
        r == (if key.action == Action::Hide {
            (30i32, 30i32)
        } else {
            ((44 * key.width) as i32, 40i32)
        }),
{
    match key.action {
        Action::Hide => (30, 30),
        _ => (44 * key.width, 40),
    }
}

/// A tap of a modifier (a press and a release that no key used) flips its latch.
pub proof fn lemma_tap_latches_modifier(s: KeyboardState, m: Modifier, now: u64)
    requires
        s.held.at(m) == 0,
    ensures
        released(pressed(s, m), m, false, now) == toggled(
            KeyboardState { used: s.used.with(m, false), ..s },
            m,
            now,
        ),
{
    let t = KeyboardState { used: s.used.with(m, false), ..s };
    assert(pressed(s, m).held.with(m, 0u8) == s.held) by {
        assert(pressed(s, m).held.with(m, 0u8) =~= s.held);
    }
}

/// A cancelled touch of a modifier leaves the latches as they were.
pub proof fn lemma_cancelled_modifier_does_not_latch(s: KeyboardState, m: Modifier, now: u64)
    requires
        s.held.at(m) == 0,
    ensures
        released(pressed(s, m), m, true, now).modifiers == s.modifiers,
        released(pressed(s, m), m, true, now).held == s.held,
{
}

/// A modifier held while a key was typed applies to that key and does not
/// latch when it is released.
pub proof fn lemma_used_hold_does_not_latch(s: KeyboardState, m: Modifier, now: u64)
    requires
        s.held.at(m) == 0,
    ensures
        is_active(pressed(s, m), m),
        released(with_holds_used(pressed(s, m)), m, false, now).modifiers == s.modifiers,
        released(with_holds_used(pressed(s, m)), m, false, now).held == s.held,
{
}

/// With two buttons of one modifier held, releasing one keeps it active.
pub proof fn lemma_second_hold_keeps_modifier(s: KeyboardState, m: Modifier, now: u64)
    requires
        s.held.at(m) == 0,
    ensures
        is_active(released(with_holds_used(pressed(pressed(s, m), m)), m, false, now), m),
        released(released(with_holds_used(pressed(pressed(s, m), m)), m, false, now), m, false, now).held
            == s.held,
        !is_active(
            released(released(with_holds_used(pressed(pressed(s, m), m)), m, false, now), m, false, now),
            m,
        ) <== !is_active(s, m),
{
}

/// Two Shift taps within the double-tap time lock capitals; the lock
/// survives keys that consume the one-shot modifiers.
pub proof fn lemma_double_tap_locks_capitals(s: KeyboardState, first: u64, second: u64)
    requires
        !s.modifiers.caps_lock,
        s.last_shift_tap is None,
        first <= second,
        second - first <= SHIFT_DOUBLE_TAP_MS,
    ensures
        toggled(toggled(s, Modifier::Shift, first), Modifier::Shift, second).modifiers.caps_lock,
        !toggled(toggled(s, Modifier::Shift, first), Modifier::Shift, second).modifiers.shift,
        consumed(toggled(toggled(s, Modifier::Shift, first), Modifier::Shift, second)).modifiers.caps_lock,
{
}

/// A Shift tap while capitals are locked unlocks them and leaves Shift off.
pub proof fn lemma_shift_tap_unlocks_capitals(s: KeyboardState, now: u64)
    requires
        s.modifiers.caps_lock,
    ensures
        !toggled(s, Modifier::Shift, now).modifiers.caps_lock,
        !toggled(s, Modifier::Shift, now).modifiers.shift,
{
}

/// A latched Shift is one-shot: the next key consumes it.
pub proof fn lemma_latched_shift_is_one_shot(s: KeyboardState, now: u64)
    requires
        !s.modifiers.caps_lock,
        !s.modifiers.shift,
        s.last_shift_tap is None,
    ensures
        toggled(s, Modifier::Shift, now).modifiers.shift,
        is_one_shot(toggled(s, Modifier::Shift, now).modifiers),
        !consumed(toggled(s, Modifier::Shift, now)).modifiers.shift,
{
}

/// The tracker after a press with the given modifiers.
pub open spec fn pressed_tracker(t: KeyPressTracker, modifiers: Modifiers) -> KeyPressTracker {
    KeyPressTracker { held: true, repeating: false, modifiers, generation: (t.generation + 1) as u64 }
}

/// The tracker after the repeat timer of press `generation` fired.
pub open spec fn repeat_started(t: KeyPressTracker, generation: u64) -> (KeyPressTracker, Option<
    Modifiers,
>) {
    if t.held && generation == t.generation {
        (KeyPressTracker { repeating: true, ..t }, Some(t.modifiers))
    } else {
        (t, None)
    }
}

/// How the touch ends, and the tracker afterwards.
pub open spec fn finished(t: KeyPressTracker) -> (KeyPressTracker, KeyPressFinish) {
    (
        KeyPressTracker { held: false, repeating: false, ..t },
        KeyPressFinish { emit_tap: t.held && !t.repeating, was_held: t.held },
    )
}

/// Only the current press of a key can start repeating: the timer of any
/// earlier press, whether or not that press has ended, finds a newer press.
pub proof fn lemma_stale_timer_never_repeats(t: KeyPressTracker, m: Modifiers, earlier: u64)
    requires
        earlier <= t.generation,
        t.generation < u64::MAX,
    ensures
        repeat_started(pressed_tracker(t, m), earlier).1 is None,
        repeat_started(pressed_tracker(finished(t).0, m), earlier).1 is None,
        repeat_started(pressed_tracker(t, m), (t.generation + 1) as u64).1 == Some(m),
{
}

/// A short press is a tap; a press that started repeating is not, and after
/// the touch ends no timer of it can repeat.
pub proof fn lemma_repeat_suppresses_tap(t: KeyPressTracker, m: Modifiers)
    requires
        t.generation < u64::MAX,
    ensures
        finished(pressed_tracker(t, m)).1 == (KeyPressFinish { emit_tap: true, was_held: true }),
        finished(repeat_started(pressed_tracker(t, m), (t.generation + 1) as u64).0).1 == (
        KeyPressFinish { emit_tap: false, was_held: true }),
        repeat_started(finished(pressed_tracker(t, m)).0, (t.generation + 1) as u64).1 is None,
{
}

/// A tap of Ctrl, Super or Alt flips that modifier's latch and changes
/// nothing else: the other latches, Caps Lock, the held buttons, the page and
/// the Shift timing stay. A second tap of the same modifier restores the
/// latches.
pub proof fn lemma_tap_flips_only_its_latch(s: KeyboardState, m: Modifier, t1: u64, t2: u64)
    requires
        m != Modifier::Shift,
    ensures
        ({
            let t = toggled(s, m, t1);
            &&& t.modifiers.ctrl == (if m == Modifier::Ctrl {
                !s.modifiers.ctrl
            } else {
                s.modifiers.ctrl
            })
            &&& t.modifiers.super_key == (if m == Modifier::Super {
                !s.modifiers.super_key
            } else {
                s.modifiers.super_key
            })
            &&& t.modifiers.alt == (if m == Modifier::Alt {
                !s.modifiers.alt
            } else {
                s.modifiers.alt
            })
            &&& t.modifiers.shift == s.modifiers.shift
            &&& t.modifiers.caps_lock == s.modifiers.caps_lock
            &&& t.held == s.held
            &&& t.used == s.used
            &&& t.language == s.language
            &&& t.page == s.page
            &&& t.last_shift_tap == s.last_shift_tap
            &&& toggled(t, m, t2).modifiers == s.modifiers
        }),
{
}

/// A Shift tap without Caps Lock and without a recent first tap flips the
/// Shift latch and leaves Ctrl, Super and Alt as they were.
pub proof fn lemma_single_shift_tap_flips_shift(s: KeyboardState, now: u64)
    requires
        !s.modifiers.caps_lock,
        s.last_shift_tap is None,
    ensures
        toggled(s, Modifier::Shift, now).modifiers.shift == !s.modifiers.shift,
        !toggled(s, Modifier::Shift, now).modifiers.caps_lock,
        toggled(s, Modifier::Shift, now).modifiers.ctrl == s.modifiers.ctrl,
        toggled(s, Modifier::Shift, now).modifiers.super_key == s.modifiers.super_key,
        toggled(s, Modifier::Shift, now).modifiers.alt == s.modifiers.alt,
{
}

} // verus!
