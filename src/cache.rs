//! Keyed counters with per-key expiry.
pub mod entry;
pub mod in_memory;
