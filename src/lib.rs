//! Window-focus watcher core: the framing used on the compositor's IPC
//! channel and the state machine that turns focus notifications into
//! heartbeats for an activity-tracking service.

pub mod codec;
pub mod payload;
pub mod tracker;
