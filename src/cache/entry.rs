//! One counter of the store and the rules that read and update it.
use vstd::prelude::*;

verus! {

/// A counter with the instant (in milliseconds) at which it stops being live.
#[derive(Clone, Copy, Debug, PartialEq, Eq, Structural)]
pub struct CounterEntry {
    pub value: u32,
    pub expires_at: u64,
}

/// The count an entry shows at `now`: its value while it is live, else none.
pub open spec fn live_value(entry: Option<CounterEntry>, now: u64) -> Option<u32> {
    match entry {
        Some(e) => if e.expires_at > now { Some(e.value) } else { None },
        None => None,
    }
}

/// `value + amount`, held at `u32::MAX` rather than wrapping.
pub open spec fn saturated_sum(value: u32, amount: u32) -> u32 {
    if value + amount > u32::MAX { u32::MAX } else { (value + amount) as u32 }
}

/// The entry after an increment at `now`. A live entry grows by `amount`
/// and keeps its expiry; an absent or expired one starts over at `amount`,
/// expiring at `now` until a window is set on it.
pub open spec fn incremented(prior: Option<CounterEntry>, amount: u32, now: u64) -> CounterEntry {
    match live_value(prior, now) {
        Some(v) => CounterEntry { value: saturated_sum(v, amount), expires_at: prior.unwrap().expires_at },
        None => CounterEntry { value: amount, expires_at: now },
    }
}

/// The instant `ttl` milliseconds after `now`, held at `u64::MAX`.
pub open spec fn window_end(now: u64, ttl: u64) -> u64 {
    if now + ttl > u64::MAX { u64::MAX } else { (now + ttl) as u64 }
}

impl CounterEntry {
    /// Whether the entry is still live at `now`.
    pub fn is_live(&self, now: u64) -> (r: bool)
        ensures
            r == (self.expires_at > now),
    {
        self.expires_at > now
    }

    /// An entry holding `value` for `ttl` milliseconds from `now`.
    pub fn with_window(value: u32, ttl: u64, now: u64) -> (r: CounterEntry)
        ensures
            r == (CounterEntry { value, expires_at: window_end(now, ttl) }),
    {
        CounterEntry { value, expires_at: now.saturating_add(ttl) }
    }

    /// A live entry grown by `amount`, or an expired one started over.
    pub fn bumped(&self, amount: u32, now: u64) -> (r: CounterEntry)
        ensures
            r == incremented(Some(*self), amount, now),
    {
        if self.is_live(now) {
            CounterEntry { value: self.value.saturating_add(amount), expires_at: self.expires_at }
        } else {
            CounterEntry { value: amount, expires_at: now }
        }
    }
}

/// The count that `entry` shows at `now`.
pub fn read_live(entry: Option<CounterEntry>, now: u64) -> (r: Option<u32>)
    ensures
        r == live_value(entry, now),
{
    match entry {
        Some(e) => if e.is_live(now) { Some(e.value) } else { None },
        None => None,
    }
}

/// The entry that an increment of an absent counter creates.
pub fn fresh_counter(amount: u32, now: u64) -> (r: CounterEntry)
    ensures
        r == incremented(None, amount, now),
{
    CounterEntry { value: amount, expires_at: now }
}

} // verus!
