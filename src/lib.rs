//! Request admission control: a fixed-window limiter over a keyed counter
//! store, and a continuously refilling token bucket.
pub mod cache;
pub mod clock;
pub mod limiter;
pub mod token_bucket;
