use std::sync::mpsc::{self, Sender};

use waylandkb::input_method::{InputMethodEvent, InputMethodState, TextInputVisibility};

/// Sends what a transaction publishes, as the monitor thread does.
fn publish(sender: &Sender<TextInputVisibility>, visibility: Option<TextInputVisibility>) {
    if let Some(visibility) = visibility {
        sender.send(visibility).unwrap();
    }
}

#[test]
fn activation_is_published_only_when_transaction_is_done() {
    let (sender, receiver) = mpsc::channel();
    let mut state = InputMethodState::new();

    state.set_pending(true);
    assert!(receiver.try_recv().is_err());
    publish(&sender, state.apply_pending());

    assert_eq!(receiver.try_recv(), Ok(TextInputVisibility::Show));
}

#[test]
fn deactivation_hides_the_keyboard() {
    let (sender, receiver) = mpsc::channel();
    let mut state = InputMethodState::new();

    state.set_pending(false);
    publish(&sender, state.apply_pending());

    assert_eq!(receiver.try_recv(), Ok(TextInputVisibility::Hide));
}

#[test]
fn done_without_a_pending_change_publishes_nothing() {
    let mut state = InputMethodState::new();
    assert_eq!(state.apply_pending(), None);
}

#[test]
fn last_change_in_a_transaction_wins_and_is_published_once() {
    let mut state = InputMethodState::new();
    assert_eq!(state.handle(InputMethodEvent::Activate), None);
    assert_eq!(state.handle(InputMethodEvent::Deactivate), None);
    assert_eq!(
        state.handle(InputMethodEvent::Done),
        Some(TextInputVisibility::Hide)
    );
    assert_eq!(state.handle(InputMethodEvent::Done), None);
}

#[test]
fn unavailable_input_method_is_recorded() {
    let mut state = InputMethodState::new();
    assert!(!state.unavailable);
    state.handle(InputMethodEvent::Unavailable);
    assert!(state.unavailable);
}
