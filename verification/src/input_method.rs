//! Visibility from the Wayland input-method protocol: the compositor reports
//! text-field activation in transactions that end with `done`. The state
//! says what to publish at each `done`; sending it is left to the caller.
use vstd::prelude::*;

verus! {

#[derive(Clone, Copy, Debug, PartialEq, Eq, Structural)]
pub enum TextInputVisibility {
    Show,
    Hide,
}

/// The events of an input method that matter for visibility.
#[derive(Clone, Copy, Debug, PartialEq, Eq, Structural)]
pub enum InputMethodEvent {
    Activate,
    Deactivate,
    Done,
    Unavailable,
    Other,
}

pub struct InputMethodState {
    /// The activation of the transaction in progress, if it changed.
    pub pending_active: Option<bool>,
    /// Another input method already serves the seat.
    pub unavailable: bool,
}

/// The visibility that a transaction with the given pending activation publishes.
pub open spec fn published(pending: Option<bool>) -> Option<TextInputVisibility> {
    match pending {
        Some(true) => Some(TextInputVisibility::Show),
        Some(false) => Some(TextInputVisibility::Hide),
        None => None,
    }
}

impl InputMethodState {
    pub fn new() -> (r: Self)
        ensures
            r.pending_active is None,
            !r.unavailable,
    {
        InputMethodState { pending_active: None, unavailable: false }
    }

    /// An activation or deactivation arrives; it takes effect at `done`.
    pub fn set_pending(&mut self, active: bool)
        ensures
            final(self).pending_active == Some(active),
            final(self).unavailable == old(self).unavailable,
    {
        self.pending_active = Some(active);
    }

    /// The transaction is done: returns the visibility to publish, if the
    /// activation changed in it, and starts the next transaction.
    pub fn apply_pending(&mut self) -> (r: Option<TextInputVisibility>)
        ensures
            r == published(old(self).pending_active),
            final(self).pending_active is None,
            final(self).unavailable == old(self).unavailable,
    {
        let active = match self.pending_active.take() {
            Some(active) => active,
            None => {
                return None;
            },
        };
        let visibility = if active {
            TextInputVisibility::Show
        } else {
            TextInputVisibility::Hide
        };
        Some(visibility)
    }

    /// One event of the input method; returns the visibility to publish.
    pub fn handle(&mut self, event: InputMethodEvent) -> (r: Option<TextInputVisibility>)
        ensures
            match event {
                InputMethodEvent::Activate => r is None && final(self).pending_active == Some(true)
                    && final(self).unavailable == old(self).unavailable,
                InputMethodEvent::Deactivate => r is None && final(self).pending_active == Some(
                    false,
                ) && final(self).unavailable == old(self).unavailable,
                InputMethodEvent::Done => r == published(old(self).pending_active)
                    && final(self).pending_active is None && final(self).unavailable == old(
                    self,
                ).unavailable,
                InputMethodEvent::Unavailable => r is None && final(self).unavailable
                    && final(self).pending_active == old(self).pending_active,
                InputMethodEvent::Other => r is None && final(self).pending_active == old(
                    self,
                ).pending_active && final(self).unavailable == old(self).unavailable,
            },
    {
        match event {
            InputMethodEvent::Activate => {
                self.set_pending(true);
                None
            },
            InputMethodEvent::Deactivate => {
                self.set_pending(false);
                None
            },
            InputMethodEvent::Done => self.apply_pending(),
            InputMethodEvent::Unavailable => {
                self.unavailable = true;
                None
            },
            InputMethodEvent::Other => None,
        }
    }
}

} // verus!
