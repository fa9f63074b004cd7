//! The decisions next to the Win32 boundary: strings as NUL-terminated
//! UTF-16, and which windows are managed.
pub mod events;
pub mod focus_border;
pub mod monitor;
pub mod msg_window;
pub mod overlay;
pub mod placement;
pub mod registry;
pub mod window;
