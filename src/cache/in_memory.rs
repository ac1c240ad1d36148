//! A store of keyed counters held in memory, shared between threads.
use vstd::prelude::*;
use crate::cache::entry::{CounterEntry, incremented, read_live, fresh_counter};
use crate::clock::millis_since;

verus! {

#[verifier::external_type_specification]
#[verifier::external_body]
#[verifier::reject_recursive_types(K)]
#[verifier::reject_recursive_types(V)]
#[verifier::reject_recursive_types(S)]
pub struct ExDashMap<K, V, S>(dashmap::DashMap<K, V, S>);

/// Relies on `dashmap::DashMap::new`: an empty map.
#[verifier::external_body]
fn empty_table() -> (r: dashmap::DashMap<String, CounterEntry>) {
    dashmap::DashMap::new()
}

/// Relies on `dashmap::DashMap::get`: a copy of the entry under `key`, if any.
/// The map is shared, so nothing is promised of what is found.
#[verifier::external_body]
fn table_get(table: &dashmap::DashMap<String, CounterEntry>, key: &str) -> (r: Option<CounterEntry>) {
    table.get(key).map(|e| *e)
}

/// Relies on `dashmap::DashMap::remove_if`: the entry under `key` is taken out
/// only where it is no longer live at `now`, and is then returned.
#[verifier::external_body]
fn table_remove_expired(table: &dashmap::DashMap<String, CounterEntry>, key: &str, now: u64) -> (r: Option<CounterEntry>)
    ensures
        r matches Some(e) ==> e.expires_at <= now,
{
    table.remove_if(key, |_, e| !e.is_live(now)).map(|(_, e)| e)
}

/// Relies on `dashmap::DashMap::insert`: `entry` replaces whatever `key` held.
#[verifier::external_body]
fn table_insert(table: &dashmap::DashMap<String, CounterEntry>, key: &str, entry: CounterEntry) {
    table.insert(key.to_string(), entry);
}

/// Relies on `dashmap::Entry::and_modify` and `dashmap::Entry::or_insert`,
/// which hold the key's shard locked throughout: a present entry is updated in
/// place by `CounterEntry::bumped`, an absent key gets `fresh`, and the stored
/// result is returned.
#[verifier::external_body]
fn table_bump(table: &dashmap::DashMap<String, CounterEntry>, key: &str, amount: u32, now: u64, fresh: CounterEntry) -> (r: CounterEntry)
    ensures
        r == fresh || exists|prior: CounterEntry| r == incremented(Some(prior), amount, now),
{
    *table.entry(key.to_string()).and_modify(|e| *e = e.bumped(amount, now)).or_insert(fresh)
}

/// Counters held in memory, with expiry measured from the store's creation.
/// The map is shared between threads, so a call finds whatever other callers
/// left; what each call does with the entry it finds follows the rules of
/// `crate::cache::entry`.
pub struct InMemoryCache {
    store: dashmap::DashMap<String, CounterEntry>,
    origin: std::time::Instant,
}

impl InMemoryCache {
    /// Creates an empty store.
    pub fn new() -> InMemoryCache {
        InMemoryCache { store: empty_table(), origin: std::time::Instant::now() }
    }

    /// Milliseconds since the store was created.
    pub fn now(&self) -> u64 {
        millis_since(&self.origin)
    }

    /// The live count under `key` at `now`; an entry found expired is
    /// removed before none is returned.
    pub fn get_at(&self, key: &str, now: u64) -> Option<u32> {
        let found = table_get(&self.store, key);
        let live = read_live(found, now);
        if live.is_none() && found.is_some() {
            let _ = table_remove_expired(&self.store, key, now);
        }
        live
    }

    /// Writes `value` under `key`, live for `ttl` milliseconds from `now`.
    pub fn set_at(&self, key: &str, value: u32, ttl: u64, now: u64) -> (r: Result<(), String>)
        ensures
            r is Ok,
    {
        table_insert(&self.store, key, CounterEntry::with_window(value, ttl, now));
        Ok(())
    }

    /// Adds `amount` to the live count under `key` at `now`, or starts it over
    /// at `amount`, and returns the new count.
    pub fn incr_at(&self, key: &str, amount: u32, now: u64) -> (r: Result<u32, String>)
        ensures
            r matches Ok(v) && exists|prior: Option<CounterEntry>| v == incremented(prior, amount, now).value,
    {
        let fresh = fresh_counter(amount, now);
        let e = table_bump(&self.store, key, amount, now, fresh);
        Ok(e.value)
    }
}

} // verus!
