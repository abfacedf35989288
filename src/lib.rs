//! Deciding when a "now playing" change deserves a desktop notification.
//!
//! The library holds the decisions of a media notifier: which snapshots of the
//! platform's media sessions are new, which sources are muted, what a
//! notification shows, how the tray menu is laid out, and how the event loop
//! reacts to each event. Platform calls, timers and files stay with the caller.
pub mod detect;
pub mod enumerate;
pub mod notification;
pub mod notifier;
pub mod registry;
pub mod snapshot;
pub mod toast;
pub mod tray;
