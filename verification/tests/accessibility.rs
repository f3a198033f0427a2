use waylandkb::accessibility::{
    accepts_input, executable_name, is_terminal_entry, FocusEvent, FocusState, TerminalApps,
    ROLE_TERMINAL, STATE_DEFUNCT, STATE_EDITABLE, STATE_READ_ONLY,
};
use waylandkb::input_method::TextInputVisibility;

#[test]
fn editable_web_fields_and_terminals_are_inputs() {
    assert!(accepts_input(79, &[1 << STATE_EDITABLE, 0], false));
    assert!(accepts_input(40, &[1 << STATE_EDITABLE, 0], false));
    assert!(accepts_input(ROLE_TERMINAL, &[0, 0], false));
}

#[test]
fn read_only_text_buttons_and_dead_widgets_are_not_inputs() {
    assert!(!accepts_input(61, &[0, 0], false));
    assert!(!accepts_input(43, &[0, 0], false));
    assert!(!accepts_input(
        79,
        &[1 << STATE_EDITABLE, 1 << (STATE_READ_ONLY - 32)],
        false
    ));
    assert!(!accepts_input(
        ROLE_TERMINAL,
        &[1 << STATE_DEFUNCT, 0],
        false
    ));
}

#[test]
fn terminal_canvas_fallback_does_not_match_other_apps_or_toolbar_buttons() {
    assert!(accepts_input(39, &[1124075520, 0], true));
    assert!(!accepts_input(39, &[1124075520, 0], false));
    assert!(!accepts_input(43, &[1124075520, 0], true));
    assert!(accepts_input(
        ROLE_TERMINAL,
        &[0, 1 << (STATE_READ_ONLY - 32)],
        false
    ));
}

#[test]
fn executable_wrappers_match_desktop_metadata() {
    assert_eq!(executable_name("/pkg/bin/.ghostty-wrapped"), "ghostty");
    assert_eq!(executable_name("/usr/bin/foot"), "foot");
}

#[test]
fn delayed_blur_of_old_field_does_not_hide_new_focus() {
    let mut focus = FocusState::default();
    let old = ("app".to_string(), "/old".to_string());
    let new = ("app".to_string(), "/new".to_string());
    focus.update(old.clone(), true, true);
    focus.update(new.clone(), true, true);
    assert_eq!(focus.update(old, false, false), None);
    assert_eq!(
        focus.update(new, false, false),
        Some(TextInputVisibility::Hide)
    );
}

#[test]
fn missing_state_words_have_no_bits() {
    assert!(!accepts_input(79, &[], false));
    assert!(accepts_input(79, &[1 << STATE_EDITABLE], false));
}

#[test]
fn executable_names_without_a_file_name_are_empty() {
    assert_eq!(executable_name("/"), "");
    assert_eq!(executable_name("/usr/bin/.."), "");
    assert_eq!(executable_name("kitty"), "kitty");
    assert_eq!(executable_name("/opt/x/..wezterm-wrapped-wrapped"), "wezterm");
    assert_eq!(executable_name("/usr/bin/alacritty/"), "alacritty");
}

#[test]
fn terminal_entries_need_the_category_and_the_same_program() {
    assert!(is_terminal_entry(
        Some("System;TerminalEmulator;"),
        "/usr/bin/foot",
        "/nix/store/abc/bin/.foot-wrapped"
    ));
    assert!(!is_terminal_entry(
        Some("System;Terminal"),
        "/usr/bin/foot",
        "/usr/bin/foot"
    ));
    assert!(!is_terminal_entry(
        Some("TerminalEmulator"),
        "/usr/bin/kitty",
        "/usr/bin/foot"
    ));
    assert!(!is_terminal_entry(None, "/usr/bin/foot", "/usr/bin/foot"));
}

#[test]
fn focus_on_a_non_input_widget_hides() {
    let mut focus = FocusState::default();
    assert_eq!(
        focus.update(("app".into(), "/button".into()), true, false),
        Some(TextInputVisibility::Hide)
    );
}

#[test]
fn deactivating_the_focused_application_hides() {
    let mut focus = FocusState::default();
    focus.update((":1.5".into(), "/field".into()), true, true);
    assert!(!focus.deactivate(":1.6"));
    assert!(focus.deactivate(":1.5"));
    assert!(!focus.deactivate(":1.5"));
}

#[test]
fn terminal_window_activation_shows_and_own_events_are_ignored() {
    let mut focus = FocusState::default();
    assert_eq!(
        focus.handle(FocusEvent::WindowActivated {
            bus: ":1.9".into(),
            path: "/win".into(),
            terminal_app: true,
            from_self: false,
        }),
        Some(TextInputVisibility::Show)
    );
    assert_eq!(
        focus.handle(FocusEvent::WindowActivated {
            bus: ":1.9".into(),
            path: "/win".into(),
            terminal_app: false,
            from_self: false,
        }),
        None
    );
    assert_eq!(
        focus.handle(FocusEvent::FocusChanged {
            bus: ":1.2".into(),
            path: "/own".into(),
            focused: true,
            takes_input: false,
            from_self: true,
        }),
        None
    );
    assert_eq!(
        focus.handle(FocusEvent::OwnerChanged {
            name: ":1.9".into(),
            new_owner: ":1.10".into(),
        }),
        None
    );
    assert_eq!(
        focus.handle(FocusEvent::OwnerChanged {
            name: ":1.9".into(),
            new_owner: String::new(),
        }),
        Some(TextInputVisibility::Hide)
    );
    assert_eq!(
        focus.handle(FocusEvent::WindowDeactivated { bus: ":1.9".into() }),
        None
    );
}

#[test]
fn focus_changes_show_only_for_inputs() {
    let mut focus = FocusState::default();
    assert_eq!(
        focus.handle(FocusEvent::FocusChanged {
            bus: ":1.3".into(),
            path: "/entry".into(),
            focused: true,
            takes_input: true,
            from_self: false,
        }),
        Some(TextInputVisibility::Show)
    );
    assert_eq!(
        focus.handle(FocusEvent::FocusChanged {
            bus: ":1.3".into(),
            path: "/entry".into(),
            focused: false,
            takes_input: true,
            from_self: false,
        }),
        Some(TextInputVisibility::Hide)
    );
}

#[test]
fn terminal_answers_are_remembered_once_per_application() {
    let mut apps = TerminalApps::new();
    assert_eq!(apps.lookup(":1.4"), None);
    assert!(apps.remember(":1.4", true));
    assert_eq!(apps.lookup(":1.4"), Some(true));
    assert!(apps.remember(":1.4", false));
    assert_eq!(apps.lookup(":1.5"), None);
    assert!(!apps.remember(":1.5", false));
    assert_eq!(apps.lookup(":1.5"), Some(false));
}
