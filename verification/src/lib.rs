//! Verified core of the Prime Video Discord Presence native host, its
//! installer and its uninstaller.
pub mod text;
pub mod utf8;
pub mod clock;
pub mod frame;
pub mod presence;
pub mod log_sink;
pub mod session;
pub mod installer;
pub mod uninstaller;
pub mod setup;
