//! The fixed-window limiter, which counts each identity's requests in a store.
use std::sync::Arc;
use vstd::prelude::*;
use vstd::string::StringExecFns;
use crate::cache::entry::{CounterEntry, incremented, live_value, window_end};
use crate::cache::in_memory::InMemoryCache;

verus! {

/// A store of keyed counters with expiry, such as the in-memory one or a
/// networked cache.
pub trait CacheBackend: Send + Sync {
    /// The current count under `key`, if a live entry holds one.
    fn get(&self, key: &str) -> Option<u32>;

    /// Writes `value` under `key`, live for `ttl` milliseconds.
    fn set(&self, key: &str, value: u32, ttl: u64) -> Result<(), String>;

    /// Adds `amount` to the count under `key` and returns the new count.
    fn incr(&self, key: &str, amount: u32) -> Result<u32, String>;
}

impl CacheBackend for InMemoryCache {
    fn get(&self, key: &str) -> Option<u32> {
        let now = self.now();
        self.get_at(key, now)
    }

    fn set(&self, key: &str, value: u32, ttl: u64) -> Result<(), String> {
        let now = self.now();
        self.set_at(key, value, ttl, now)
    }

    fn incr(&self, key: &str, amount: u32) -> Result<u32, String> {
        let now = self.now();
        self.incr_at(key, amount, now)
    }
}

/// The prefix of every store key that the limiter writes.
pub open spec fn key_prefix() -> Seq<char> {
    "rate_limit:"@
}

/// The store key under which `ip`'s requests are counted.
pub fn window_key(ip: &str) -> (r: String)
    ensures
        r@ == key_prefix() + ip@,
{
    proof { reveal_strlit("rate_limit:"); }
    String::from_str("rate_limit:").concat(ip)
}

/// Whether a request is let through to the counter: the count found, or 0
/// where none was found, is below `limit`.
pub fn admits(limit: u32, current: Option<u32>) -> (r: bool)
    ensures
        r == (current.unwrap_or(0) < limit),
{
    match current {
        Some(c) => c < limit,
        None => 0 < limit,
    }
}

/// Whether an increment opened a new window, so that its length must be set:
/// it succeeded with the count 1.
pub fn opens_window(incremented: &Result<u32, String>) -> (r: bool)
    ensures
        r == (incremented matches Ok(c) && c == 1),
{
    match incremented {
        Ok(c) => *c == 1,
        Err(_) => false,
    }
}

/// Admits at most `limit` requests per identity in each window of `ttl`
/// milliseconds, counting them in a shared store.
pub struct RateLimiter<B: CacheBackend> {
    /// The store of counters.
    pub cache: Arc<B>,
    /// The most requests admitted in one window.
    pub limit: u32,
    /// The length of a window, in milliseconds.
    pub ttl: u64,
}

impl<B: CacheBackend> RateLimiter<B> {
    /// A limiter over `cache` that admits `limit` requests per `ttl` milliseconds.
    pub fn new(cache: Arc<B>, limit: u32, ttl: u64) -> (r: Self)
        ensures
            r.cache == cache,
            r.limit == limit,
            r.ttl == ttl,
    {
        RateLimiter { cache, limit, ttl }
    }

    /// Whether a request from `ip` is admitted. The count is read; at or above
    /// the limit the request is refused with nothing written. Otherwise the
    /// count is incremented, a failed increment refuses the request, and an
    /// increment that opens a window sets the window's length.
    pub fn allow(&self, ip: &str) -> (r: bool)
        ensures
            self.limit == 0 ==> !r,
    {
        let key = window_key(ip);
        let current = self.cache.get(key.as_str());
        if !admits(self.limit, current) {
            return false;
        }
        let counted = self.cache.incr(key.as_str(), 1);
        if opens_window(&counted) {
            let _ = self.cache.set(key.as_str(), 1, self.ttl);
        }
        counted.is_ok()
    }
}


/// What one call of `allow` does to the counter under its key when no other
/// call touches that key meanwhile: the count is read (an expired entry is
/// dropped), compared with `limit`, and on admission incremented, with a new
/// window of `ttl` set where the count became 1.
pub open spec fn window_call(entry: Option<CounterEntry>, limit: u32, ttl: u64, now: u64) -> (Option<CounterEntry>, bool) {
    let current = live_value(entry, now);
    let kept = if current is Some { entry } else { None };
    if current.unwrap_or(0) >= limit {
        (kept, false)
    } else {
        let counted = incremented(kept, 1, now);
        if counted.value == 1 {
            (Some(CounterEntry { value: 1, expires_at: window_end(now, ttl) }), true)
        } else {
            (Some(counted), true)
        }
    }
}

/// The answers to `n` calls in a row at the instant `now`, from `entry`.
pub open spec fn window_run(entry: Option<CounterEntry>, limit: u32, ttl: u64, now: u64, n: nat) -> Seq<bool>
    decreases n,
{
    if n == 0 {
        Seq::empty()
    } else {
        let (next, r) = window_call(entry, limit, ttl, now);
        seq![r] + window_run(next, limit, ttl, now, (n - 1) as nat)
    }
}

proof fn lemma_open_window_run(k: u32, end: u64, limit: u32, ttl: u64, now: u64, n: nat)
    requires
        1 <= k <= limit,
        end > now,
    ensures
        window_run(Some(CounterEntry { value: k, expires_at: end }), limit, ttl, now, n)
            == Seq::new(n, |i: int| k + i < limit),
    decreases n,
{
    let e = Some(CounterEntry { value: k, expires_at: end });
    if n > 0 {
        let (next, r) = window_call(e, limit, ttl, now);
        if k < limit {
            assert(next == Some(CounterEntry { value: (k + 1) as u32, expires_at: end }));
            lemma_open_window_run((k + 1) as u32, end, limit, ttl, now, (n - 1) as nat);
        } else {
            assert(next == e);
            lemma_open_window_run(k, end, limit, ttl, now, (n - 1) as nat);
        }
        assert(window_run(e, limit, ttl, now, n) =~= Seq::new(n, |i: int| k + i < limit));
    }
}

proof fn lemma_closed_run(entry: Option<CounterEntry>, ttl: u64, now: u64, n: nat)
    requires
        live_value(entry, now) is None,
    ensures
        window_run(entry, 0, ttl, now, n) == Seq::new(n, |i: int| false),
    decreases n,
{
    if n > 0 {
        lemma_closed_run(None, ttl, now, (n - 1) as nat);
        assert(window_run(entry, 0, ttl, now, n) =~= Seq::new(n, |i: int| false));
    }
}

/// A fresh identity's first `limit` calls within one window are admitted
/// and the next one is refused.
pub proof fn lemma_fresh_identity_gets_limit(limit: u32, ttl: u64, now: u64)
    requires
        0 < ttl,
        now + ttl <= u64::MAX,
    ensures
        window_run(None, limit, ttl, now, (limit + 1) as nat) == Seq::new((limit + 1) as nat, |i: int| i < limit),
{
    let n = (limit + 1) as nat;
    if limit == 0 {
        lemma_closed_run(None, ttl, now, n);
        assert(Seq::new(n, |i: int| false) =~= Seq::new(n, |i: int| i < limit));
    } else {
        let (next, r) = window_call(None, limit, ttl, now);
        assert(next == Some(CounterEntry { value: 1, expires_at: (now + ttl) as u64 }));
        lemma_open_window_run(1, (now + ttl) as u64, limit, ttl, now, (n - 1) as nat);
        assert(window_run(None, limit, ttl, now, n) =~= Seq::new(n, |i: int| i < limit));
    }
}

/// Once an identity's window has run out, its next call is admitted and its
/// count starts over at 1 in a new window.
pub proof fn lemma_elapsed_window_restarts(entry: CounterEntry, limit: u32, ttl: u64, now: u64)
    requires
        entry.expires_at <= now,
        0 < limit,
    ensures
        window_call(Some(entry), limit, ttl, now)
            == (Some(CounterEntry { value: 1, expires_at: window_end(now, ttl) }), true),
{
}

/// With a limit of 0 every call is refused and nothing is stored, whatever
/// the identity's counter held.
pub proof fn lemma_zero_limit_refuses(entry: Option<CounterEntry>, ttl: u64, now: u64)
    ensures
        !window_call(entry, 0, ttl, now).1,
        live_value(window_call(entry, 0, ttl, now).0, now) == live_value(entry, now),
{
}

} // verus!
