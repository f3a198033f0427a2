//! A split on-screen keyboard for Wayland: its layouts, modifier state
//! machine, key strokes, automatic visibility, layout detection and tray
//! menu, verified with Verus.
pub mod accessibility;
pub mod backend;
pub mod blur;
pub mod control;
pub mod input_method;
pub mod json;
pub mod keyboard;
pub mod layout;
pub mod system_layout;
pub mod text;
pub mod tray;
pub mod uinput;
pub mod visibility;
