use waylandkb::backend::{
    held_modifier_codes, uses_shortcut_device, virtual_key_events, KeyAction, KeyStroke,
    Modifiers, VirtualKeyEvent, KEY_LEFT_ALT, KEY_LEFT_CTRL, KEY_LEFT_META, KEY_LEFT_SHIFT,
    MOD_ALT, MOD_CTRL, MOD_LOGO, MOD_SHIFT,
};
use waylandkb::backend::evdev_key_code;
use waylandkb::layout::{Action, Language, LayoutPage};

const CYRILLIC_C: KeyAction = KeyAction::Text {
    value: "с",
    physical_key: "c",
    group: 1,
};

#[test]
fn russian_character_uses_physical_key_and_russian_group() {
    assert_eq!(
        KeyStroke::new(&CYRILLIC_C, Modifiers::default()).unwrap(),
        KeyStroke {
            key_code: 46,
            depressed_modifiers: 0,
            group: 1,
        }
    );
}

#[test]
fn russian_ctrl_shortcut_uses_latin_group_and_physical_position() {
    assert_eq!(
        KeyStroke::new(
            &CYRILLIC_C,
            Modifiers {
                ctrl: true,
                ..Modifiers::default()
            }
        )
        .unwrap(),
        KeyStroke {
            key_code: 46,
            depressed_modifiers: MOD_CTRL,
            group: 0,
        }
    );
}

#[test]
fn modifier_key_events_form_a_complete_physical_chord() {
    let stroke = KeyStroke::new(
        &CYRILLIC_C,
        Modifiers {
            ctrl: true,
            super_key: true,
            alt: true,
            shift: true,
            ..Modifiers::default()
        },
    )
    .unwrap();

    assert_eq!(
        stroke.modifier_key_codes(),
        vec![KEY_LEFT_CTRL, KEY_LEFT_SHIFT, KEY_LEFT_ALT, KEY_LEFT_META]
    );
}

#[test]
fn shift_uppercases_text_with_a_real_modifier() {
    let stroke = KeyStroke::new(
        &CYRILLIC_C,
        Modifiers {
            shift: true,
            ..Modifiers::default()
        },
    )
    .unwrap();
    assert_eq!(stroke.depressed_modifiers, MOD_SHIFT);
}

#[test]
fn caps_lock_and_shift_cancel_for_text_case() {
    let stroke = KeyStroke::new(
        &CYRILLIC_C,
        Modifiers {
            shift: true,
            caps_lock: true,
            ..Modifiers::default()
        },
    )
    .unwrap();
    assert_eq!(stroke.depressed_modifiers, 0);
}

#[test]
fn named_key_receives_active_modifiers() {
    let stroke = KeyStroke::new(
        &KeyAction::Key("Tab"),
        Modifiers {
            alt: true,
            shift: true,
            ..Modifiers::default()
        },
    )
    .unwrap();
    assert_eq!(stroke.key_code, 15);
    assert_eq!(stroke.depressed_modifiers, MOD_ALT | MOD_SHIFT);
}

#[test]
fn super_space_is_a_complete_physical_chord() {
    let space = KeyAction::Text {
        value: " ",
        physical_key: "space",
        group: 0,
    };
    let stroke = KeyStroke::new(
        &space,
        Modifiers {
            super_key: true,
            ..Modifiers::default()
        },
    )
    .unwrap();
    assert_eq!(stroke.key_code, 57);
    assert_eq!(stroke.depressed_modifiers, MOD_LOGO);
}

#[test]
fn unknown_key_is_rejected() {
    let error = KeyStroke::new(&KeyAction::Key("not-a-key"), Modifiers::default())
        .unwrap_err()
        .message();
    assert!(error.contains("not-a-key"));
}

#[test]
fn shifted_symbol_ignores_caps_lock() {
    let symbol = KeyAction::Symbol {
        value: "?",
        physical_key: "slash",
        shifted: true,
    };
    let stroke = KeyStroke::new(
        &symbol,
        Modifiers {
            caps_lock: true,
            ..Modifiers::default()
        },
    )
    .unwrap();

    assert_eq!(stroke.key_code, 53);
    assert_eq!(stroke.depressed_modifiers, MOD_SHIFT);
    assert_eq!(stroke.group, 0);
}

#[test]
fn all_visible_keys_support_every_modifier_combination() {
    for language in [Language::English, Language::Russian] {
        for page in [
            LayoutPage::Letters,
            LayoutPage::Symbols,
            LayoutPage::Functions,
        ] {
            for row in language.rows(page) {
                for key in row.left.iter().chain(&row.right) {
                    let Action::Input(action) = key.action else {
                        continue;
                    };
                    for bits in 0..16 {
                        let mods = Modifiers {
                            ctrl: bits & 1 != 0,
                            super_key: bits & 2 != 0,
                            alt: bits & 4 != 0,
                            shift: bits & 8 != 0,
                            caps_lock: false,
                        };
                        let stroke = KeyStroke::new(&action, mods).unwrap();
                        if mods.ctrl {
                            assert_ne!(stroke.depressed_modifiers & MOD_CTRL, 0);
                        }
                        if mods.super_key {
                            assert_ne!(stroke.depressed_modifiers & MOD_LOGO, 0);
                        }
                        if mods.alt {
                            assert_ne!(stroke.depressed_modifiers & MOD_ALT, 0);
                        }
                        if mods.shift {
                            assert_ne!(stroke.depressed_modifiers & MOD_SHIFT, 0);
                        }
                    }
                }
            }
        }
    }
}

#[test]
fn unknown_key_message_names_key_and_value() {
    let error = KeyStroke::new(
        &KeyAction::Symbol {
            value: "€",
            physical_key: "euro",
            shifted: false,
        },
        Modifiers::default(),
    )
    .unwrap_err();
    assert_eq!(
        error.message(),
        "unsupported virtual keyboard key `euro` for `€`"
    );
}

#[test]
fn key_names_are_matched_without_regard_to_ascii_case() {
    assert_eq!(evdev_key_code("BackSpace"), Some(14));
    assert_eq!(evdev_key_code("RETURN"), Some(28));
    assert_eq!(evdev_key_code("f12"), Some(88));
    assert_eq!(evdev_key_code("PageDown"), Some(109));
    assert_eq!(evdev_key_code("Ⅻ"), None);
}

#[test]
fn modifier_flags_have_distinct_protocol_bits() {
    assert_eq!(
        MOD_CTRL | MOD_LOGO | MOD_ALT | MOD_SHIFT,
        MOD_CTRL + MOD_LOGO + MOD_ALT + MOD_SHIFT
    );
}

#[test]
fn shortcuts_and_named_keys_use_the_shortcut_device() {
    let ctrl = Modifiers {
        ctrl: true,
        ..Modifiers::default()
    };
    let shift = Modifiers {
        shift: true,
        ..Modifiers::default()
    };
    assert!(uses_shortcut_device(&CYRILLIC_C, ctrl));
    assert!(!uses_shortcut_device(&CYRILLIC_C, shift));
    assert!(uses_shortcut_device(&KeyAction::Key("Tab"), Modifiers::default()));
}

#[test]
fn synced_modifiers_hold_keys_in_chord_order() {
    let all = Modifiers {
        ctrl: true,
        super_key: true,
        alt: true,
        shift: true,
        caps_lock: true,
    };
    assert_eq!(
        held_modifier_codes(all),
        vec![KEY_LEFT_CTRL, KEY_LEFT_SHIFT, KEY_LEFT_ALT, KEY_LEFT_META]
    );
    assert!(held_modifier_codes(Modifiers {
        caps_lock: true,
        ..Modifiers::default()
    })
    .is_empty());
}

#[test]
fn virtual_keyboard_chord_releases_modifiers_in_reverse() {
    let stroke = KeyStroke::new(
        &CYRILLIC_C,
        Modifiers {
            ctrl: true,
            shift: true,
            ..Modifiers::default()
        },
    )
    .unwrap();
    assert_eq!(
        virtual_key_events(stroke),
        vec![
            VirtualKeyEvent::Key { code: KEY_LEFT_CTRL, pressed: true },
            VirtualKeyEvent::Key { code: KEY_LEFT_SHIFT, pressed: true },
            VirtualKeyEvent::Modifiers { depressed: MOD_CTRL | MOD_SHIFT, group: 0 },
            VirtualKeyEvent::Key { code: 46, pressed: true },
            VirtualKeyEvent::Key { code: 46, pressed: false },
            VirtualKeyEvent::Key { code: KEY_LEFT_SHIFT, pressed: false },
            VirtualKeyEvent::Key { code: KEY_LEFT_CTRL, pressed: false },
            VirtualKeyEvent::Modifiers { depressed: 0, group: 0 },
        ]
    );
}

#[test]
fn plain_text_is_a_single_key_with_its_group() {
    let stroke = KeyStroke::new(&CYRILLIC_C, Modifiers::default()).unwrap();
    assert_eq!(
        virtual_key_events(stroke),
        vec![
            VirtualKeyEvent::Modifiers { depressed: 0, group: 1 },
            VirtualKeyEvent::Key { code: 46, pressed: true },
            VirtualKeyEvent::Key { code: 46, pressed: false },
            VirtualKeyEvent::Modifiers { depressed: 0, group: 1 },
        ]
    );
}

#[test]
fn one_shot_and_shortcut_modifiers() {
    let shift = Modifiers {
        shift: true,
        ..Modifiers::default()
    };
    assert!(shift.has_one_shot_modifier());
    assert!(!shift.has_shortcut_modifier());
    let alt = Modifiers {
        alt: true,
        ..Modifiers::default()
    };
    assert!(alt.has_shortcut_modifier());
    let caps = Modifiers {
        caps_lock: true,
        ..Modifiers::default()
    };
    assert!(!caps.has_one_shot_modifier());
}
