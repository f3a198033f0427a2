use waylandkb::control::{parse_command, visible_after, VisibilityCommand};
use waylandkb::input_method::TextInputVisibility;
use waylandkb::visibility::{AutoVisibility, HIDE_DELAY_MS};

const NOW: u64 = 5_000;

#[test]
fn wayland_deactivation_does_not_override_accessible_input() {
    let mut state = AutoVisibility::default();
    let now = NOW;
    state.update(0, TextInputVisibility::Show, now);
    assert_eq!(state.poll(now), Some(true));
    state.update(1, TextInputVisibility::Show, now);
    state.update(0, TextInputVisibility::Hide, now);
    assert_eq!(state.poll(now + 1000), None);
}

#[test]
fn focus_transition_does_not_flicker_and_focus_loss_hides() {
    let mut state = AutoVisibility::default();
    let now = NOW;
    state.update(0, TextInputVisibility::Show, now);
    state.poll(now);
    state.update(0, TextInputVisibility::Hide, now);
    assert_eq!(state.poll(now), None);
    state.update(1, TextInputVisibility::Show, now + 60);
    assert_eq!(state.poll(now + 200), None);
    state.update(1, TextInputVisibility::Hide, now + 300);
    assert_eq!(state.poll(now + 500), Some(false));
}

#[test]
fn focus_loss_hides_exactly_after_the_delay() {
    let mut state = AutoVisibility::default();
    state.update(0, TextInputVisibility::Show, NOW);
    assert_eq!(state.poll(NOW), Some(true));
    state.update(0, TextInputVisibility::Hide, NOW);
    assert_eq!(state.poll(NOW + HIDE_DELAY_MS - 1), None);
    assert_eq!(state.poll(NOW + HIDE_DELAY_MS), Some(false));
    assert_eq!(state.poll(NOW + HIDE_DELAY_MS + 1), None);
}

#[test]
fn showing_twice_reports_once() {
    let mut state = AutoVisibility::default();
    state.update(1, TextInputVisibility::Show, NOW);
    assert_eq!(state.poll(NOW), Some(true));
    state.update(0, TextInputVisibility::Show, NOW);
    assert_eq!(state.poll(NOW), None);
}

#[test]
fn control_messages_are_trimmed_commands() {
    assert_eq!(parse_command("show\n"), Some(VisibilityCommand::Show));
    assert_eq!(parse_command("  hide "), Some(VisibilityCommand::Hide));
    assert_eq!(parse_command("toggle"), Some(VisibilityCommand::Toggle));
    assert_eq!(parse_command("Show"), None);
    assert_eq!(parse_command(""), None);
}

#[test]
fn toggle_flips_visibility_and_others_set_it() {
    assert!(visible_after(VisibilityCommand::Toggle, false));
    assert!(!visible_after(VisibilityCommand::Toggle, true));
    assert!(visible_after(VisibilityCommand::Show, true));
    assert!(!visible_after(VisibilityCommand::Hide, true));
}
