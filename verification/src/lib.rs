//! The state that a scripting plugin shares between its host and the
//! scripts it runs: the host functions registered for scripts, the events
//! queued for them, the call a script waits on, and the log the host drains;
//! with the text the plugin builds around scripts (the prelude that
//! announces the host functions, console lines, working-copy paths).
//!
//! Each part is a plain value; the host keeps one of each, behind whatever
//! synchronisation it needs.

pub mod text;
pub mod registry;
pub mod events;
pub mod endian;
pub mod log;
pub mod invocation;
pub mod console;
pub mod laws;
