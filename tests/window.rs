use api_rate_limiter::cache::entry::{fresh_counter, read_live, CounterEntry};
use api_rate_limiter::cache::in_memory::InMemoryCache;
use api_rate_limiter::limiter::{admits, opens_window, window_key, CacheBackend, RateLimiter};
use std::sync::Arc;
use std::time::{Duration, Instant};

#[test]
fn window_key_prefixes_identity() {
    assert_eq!(window_key("127.0.0.1"), "rate_limit:127.0.0.1");
    assert_eq!(window_key(""), "rate_limit:");
}

#[test]
fn admits_below_limit_only() {
    assert!(admits(5, None));
    assert!(admits(5, Some(4)));
    assert!(!admits(5, Some(5)));
    assert!(!admits(5, Some(9)));
    assert!(!admits(0, None));
}

#[test]
fn opens_window_on_first_count() {
    assert!(opens_window(&Ok(1)));
    assert!(!opens_window(&Ok(2)));
    assert!(!opens_window(&Err("unavailable".to_string())));
}

#[test]
fn entry_liveness_and_increment() {
    let e = CounterEntry { value: 3, expires_at: 100 };
    assert_eq!(read_live(Some(e), 99), Some(3));
    assert_eq!(read_live(Some(e), 100), None);
    assert_eq!(read_live(None, 0), None);
    assert_eq!(e.bumped(2, 50), CounterEntry { value: 5, expires_at: 100 });
    assert_eq!(e.bumped(2, 100), CounterEntry { value: 2, expires_at: 100 });
    let full = CounterEntry { value: u32::MAX - 1, expires_at: 100 };
    assert_eq!(full.bumped(5, 0).value, u32::MAX);
    assert_eq!(fresh_counter(1, 7), CounterEntry { value: 1, expires_at: 7 });
    assert_eq!(CounterEntry::with_window(1, 1000, 20), CounterEntry { value: 1, expires_at: 1020 });
    assert_eq!(CounterEntry::with_window(1, u64::MAX, 20).expires_at, u64::MAX);
}

#[test]
fn store_get_set_incr_at() {
    let cache = InMemoryCache::new();
    assert_eq!(cache.get_at("k", 0), None);
    assert_eq!(cache.incr_at("k", 1, 0), Ok(1));
    // A fresh counter has no window yet: it is already expired.
    assert_eq!(cache.get_at("k", 0), None);
    assert_eq!(cache.set_at("k", 1, 1000, 0), Ok(()));
    assert_eq!(cache.get_at("k", 999), Some(1));
    assert_eq!(cache.incr_at("k", 4, 10), Ok(5));
    assert_eq!(cache.get_at("k", 10), Some(5));
    assert_eq!(cache.get_at("k", 1000), None);
    // The expired entry was removed, so counting starts over.
    assert_eq!(cache.incr_at("k", 2, 1000), Ok(2));
    assert_eq!(cache.get_at("other", 0), None);
}

#[test]
fn store_incr_restarts_expired_entry() {
    let cache = InMemoryCache::new();
    assert_eq!(cache.set_at("k", 7, 10, 0), Ok(()));
    assert_eq!(cache.incr_at("k", 3, 10), Ok(3));
}

#[test]
fn store_through_backend_trait() {
    let cache = InMemoryCache::new();
    assert_eq!(cache.get("k"), None);
    assert_eq!(cache.incr("k", 1), Ok(1));
    assert_eq!(cache.set("k", 1, 60_000), Ok(()));
    assert_eq!(cache.get("k"), Some(1));
    assert_eq!(cache.incr("k", 1), Ok(2));
    assert_eq!(cache.get("k"), Some(2));
}

#[test]
fn fixed_window_scenario_five_per_second() {
    let cache = Arc::new(InMemoryCache::new());
    let limiter = RateLimiter::new(cache.clone(), 5, 1000);
    for _ in 0..5 {
        assert!(limiter.allow("127.0.0.1"));
    }
    assert!(!limiter.allow("127.0.0.1"));
    let start = Instant::now();
    while start.elapsed() < Duration::from_secs(1) {
        std::hint::spin_loop();
    }
    assert!(limiter.allow("127.0.0.1"));
    // The count started over rather than carrying on.
    assert_eq!(cache.get("rate_limit:127.0.0.1"), Some(1));
}

#[test]
fn fixed_window_limit_then_refuse() {
    let limiter = RateLimiter::new(Arc::new(InMemoryCache::new()), 7, 60_000);
    for _ in 0..7 {
        assert!(limiter.allow("10.0.0.1"));
    }
    assert!(!limiter.allow("10.0.0.1"));
    // Another identity has its own window.
    assert!(limiter.allow("10.0.0.2"));
}

#[test]
fn fixed_window_zero_limit_never_admits() {
    let cache = Arc::new(InMemoryCache::new());
    let limiter = RateLimiter::new(cache.clone(), 0, 1000);
    for _ in 0..5 {
        assert!(!limiter.allow("127.0.0.1"));
    }
    assert!(!limiter.allow(""));
    assert_eq!(cache.get("rate_limit:127.0.0.1"), None);
}

#[test]
fn rate_limiter_new_keeps_settings() {
    let limiter = RateLimiter::new(Arc::new(InMemoryCache::new()), 4, 250);
    assert_eq!(limiter.limit, 4);
    assert_eq!(limiter.ttl, 250);
    for _ in 0..4 {
        assert!(limiter.allow("a"));
    }
    assert!(!limiter.allow("a"));
    assert!(limiter.allow("b"));
}
