use waylandkb::backend::{KeyAction, Modifiers};
use waylandkb::keyboard::{
    activate_action, key_cancelled, key_label, key_pressed, key_released, modifier_style,
    shift_label, KeyPressTracker, KeyboardState, PressEffect, ReleaseEffect,
    SHIFT_DOUBLE_TAP_MS,
};
use waylandkb::layout::{Action, Key, Language, LayoutPage, Modifier};

const NOW: u64 = 10_000;

#[test]
fn shift_is_one_shot() {
    let now = NOW;
    let mut state = KeyboardState::new(Language::English);
    state.toggle_modifier(Modifier::Shift, now);
    assert!(state.modifiers.shift);
    assert!(state.consume_one_shot_modifiers());
    assert!(!state.modifiers.shift);
}

#[test]
fn double_tap_shift_enables_persistent_caps_lock() {
    let now = NOW;
    let mut state = KeyboardState::new(Language::English);
    state.toggle_modifier(Modifier::Shift, now);
    state.toggle_modifier(Modifier::Shift, now + 200);
    assert!(state.modifiers.caps_lock);
    assert!(!state.modifiers.shift);
    assert!(!state.consume_one_shot_modifiers());
    assert!(state.modifiers.caps_lock);
}

#[test]
fn pressing_shift_turns_caps_lock_off() {
    let now = NOW;
    let mut state = KeyboardState::new(Language::Russian);
    state.toggle_modifier(Modifier::Shift, now);
    state.toggle_modifier(Modifier::Shift, now + 100);
    state.toggle_modifier(Modifier::Shift, now + 200);
    assert_eq!(state.modifiers, Modifiers::default());
}

#[test]
fn short_press_emits_one_tap() {
    let mut tracker = KeyPressTracker::default();
    tracker.press(Modifiers::default());
    let finish = tracker.finish();
    assert!(finish.emit_tap);
    assert!(finish.was_held);
    assert!(tracker.repeat_modifiers(tracker.generation).is_none());
}

#[test]
fn long_press_enters_repeat_until_release() {
    let modifiers = Modifiers {
        shift: true,
        ..Modifiers::default()
    };
    let mut tracker = KeyPressTracker::default();
    let generation = tracker.press(modifiers);
    assert_eq!(tracker.begin_repeat(generation), Some(modifiers));
    assert_eq!(tracker.repeat_modifiers(generation), Some(modifiers));
    let finish = tracker.finish();
    assert!(!finish.emit_tap);
    assert!(tracker.repeat_modifiers(generation).is_none());
}

#[test]
fn held_ctrl_applies_before_release_and_does_not_latch_after_use() {
    let mut state = KeyboardState::new(Language::English);
    state.press_modifier(Modifier::Ctrl);
    assert!(state.use_modifiers().ctrl);
    state.consume_one_shot_modifiers();
    assert!(state.effective_modifiers().ctrl);
    state.release_modifier(Modifier::Ctrl, false, NOW);
    assert!(!state.effective_modifiers().ctrl);
}

#[test]
fn tapped_ctrl_and_shift_accumulate_for_one_chord() {
    let mut state = KeyboardState::new(Language::Russian);
    for modifier in [Modifier::Ctrl, Modifier::Shift] {
        state.press_modifier(modifier);
        state.release_modifier(modifier, false, NOW);
    }
    let mods = state.use_modifiers();
    assert!(mods.ctrl && mods.shift);
    state.consume_one_shot_modifiers();
    assert_eq!(state.effective_modifiers(), Modifiers::default());
}

#[test]
fn cancelling_modifier_does_not_latch_it() {
    let mut state = KeyboardState::new(Language::English);
    state.press_modifier(Modifier::Super);
    state.release_modifier(Modifier::Super, true, NOW);
    assert!(!state.effective_modifiers().super_key);
}

#[test]
fn releasing_one_of_two_ctrl_buttons_keeps_the_other_held() {
    let mut state = KeyboardState::new(Language::English);
    state.press_modifier(Modifier::Ctrl);
    state.press_modifier(Modifier::Ctrl);
    state.use_modifiers();
    state.release_modifier(Modifier::Ctrl, false, NOW);
    assert!(state.effective_modifiers().ctrl);
    state.release_modifier(Modifier::Ctrl, false, NOW);
    assert!(!state.effective_modifiers().ctrl);
}

#[test]
fn previous_tap_timer_cannot_repeat_a_new_press() {
    let mut tracker = KeyPressTracker::default();
    let old = tracker.press(Modifiers::default());
    tracker.finish();
    let current = tracker.press(Modifiers::default());
    assert!(tracker.begin_repeat(old).is_none());
    assert!(tracker.begin_repeat(current).is_some());
}

#[test]
fn slow_second_shift_tap_does_not_lock_capitals() {
    let mut state = KeyboardState::new(Language::English);
    state.toggle_modifier(Modifier::Shift, NOW);
    state.toggle_modifier(Modifier::Shift, NOW + SHIFT_DOUBLE_TAP_MS + 1);
    assert!(!state.modifiers.caps_lock);
    assert!(!state.modifiers.shift);
}

#[test]
fn shift_taps_exactly_at_the_limit_lock_capitals() {
    let mut state = KeyboardState::new(Language::English);
    state.toggle_modifier(Modifier::Shift, NOW);
    state.toggle_modifier(Modifier::Shift, NOW + SHIFT_DOUBLE_TAP_MS);
    assert!(state.modifiers.caps_lock);
}

#[test]
fn pressed_text_key_is_sent_with_the_active_modifiers() {
    let mut state = KeyboardState::new(Language::English);
    let mut tracker = KeyPressTracker::default();
    state.toggle_modifier(Modifier::Ctrl, NOW);
    let action = KeyAction::Text {
        value: "c",
        physical_key: "c",
        group: 0,
    };
    let effect = key_pressed(&mut state, &mut tracker, Action::Input(action));
    let ctrl = Modifiers {
        ctrl: true,
        ..Modifiers::default()
    };
    assert_eq!(
        effect,
        PressEffect::SendInput {
            action,
            modifiers: ctrl,
            generation: 1
        }
    );
    let finish = tracker.finish();
    assert_eq!(
        key_released(&mut state, finish, Action::Input(action), NOW),
        ReleaseEffect::RefreshModifiers
    );
    assert_eq!(state.effective_modifiers(), Modifiers::default());
}

#[test]
fn tapping_a_modifier_button_latches_it() {
    let mut state = KeyboardState::new(Language::English);
    let mut tracker = KeyPressTracker::default();
    let action = Action::Modifier(Modifier::Alt);
    assert_eq!(
        key_pressed(&mut state, &mut tracker, action),
        PressEffect::RefreshModifiers
    );
    let finish = tracker.finish();
    assert_eq!(
        key_released(&mut state, finish, action, NOW),
        ReleaseEffect::RefreshModifiers
    );
    assert!(state.modifiers.alt);
    assert_eq!(modifier_style(&state, Modifier::Alt), Some("latched"));
}

#[test]
fn cancelled_modifier_touch_does_not_latch() {
    let mut state = KeyboardState::new(Language::English);
    let mut tracker = KeyPressTracker::default();
    let action = Action::Modifier(Modifier::Ctrl);
    key_pressed(&mut state, &mut tracker, action);
    let finish = tracker.finish();
    assert!(key_cancelled(&mut state, finish, action, NOW));
    assert!(!state.effective_modifiers().ctrl);
}

#[test]
fn page_keys_and_hide_act_on_tap() {
    let mut state = KeyboardState::new(Language::Russian);
    assert_eq!(
        activate_action(&mut state, Action::SwitchPage(LayoutPage::Symbols), NOW),
        ReleaseEffect::Render
    );
    assert_eq!(state.page, LayoutPage::Symbols);
    assert_eq!(
        activate_action(&mut state, Action::Hide, NOW),
        ReleaseEffect::HideKeyboard
    );
}

#[test]
fn labels_follow_caps_lock_and_language() {
    let mut state = KeyboardState::new(Language::Russian);
    let letters = Key {
        label: "ABC",
        action: Action::SwitchPage(LayoutPage::Letters),
        width: 1,
    };
    assert_eq!(key_label(&letters, &state), "АБВ");
    assert_eq!(shift_label(&state), "Shift");
    state.toggle_modifier(Modifier::Shift, NOW);
    state.toggle_modifier(Modifier::Shift, NOW + 10);
    assert_eq!(shift_label(&state), "Caps");
    assert_eq!(modifier_style(&state, Modifier::Shift), Some("locked"));
    assert_eq!(modifier_style(&state, Modifier::Ctrl), None);
}

#[test]
fn switching_language_keeps_the_page() {
    let mut state = KeyboardState::new(Language::English);
    state.page = LayoutPage::Functions;
    assert!(state.set_language(Language::Russian));
    assert_eq!(state.language, Language::Russian);
    assert_eq!(state.page, LayoutPage::Functions);
    assert!(!state.set_language(Language::Russian));
}
