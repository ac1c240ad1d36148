//! A token bucket that refills continuously, at `capacity` tokens per
//! `refill_period` milliseconds, truncating what accrues to whole tokens.
use vstd::prelude::*;
use crate::clock::millis_since;

verus! {

/// The state of a bucket at its last call.
#[derive(Clone, Copy, Debug, PartialEq, Eq, Structural)]
pub struct BucketState {
    /// The most tokens the bucket holds.
    pub capacity: u32,
    /// The tokens it holds now.
    pub tokens: u32,
    /// When the tokens were last refilled, in milliseconds.
    pub last_refill: u64,
    /// The milliseconds over which an empty bucket fills up.
    pub refill_period: u64,
}

impl BucketState {
    /// The bucket never holds more than its capacity.
    pub open spec fn wf(self) -> bool {
        self.tokens <= self.capacity
    }

    /// The milliseconds from the last refill to `now`, or 0 for an earlier `now`.
    pub open spec fn elapsed(self, now: u64) -> int {
        if now > self.last_refill { now - self.last_refill } else { 0 }
    }

    /// The tokens held at `now`: those held plus `elapsed * capacity / refill_period`,
    /// truncated and capped at `capacity`. With no time elapsed nothing accrues;
    /// with a zero period any elapsed time fills the bucket.
    pub open spec fn refilled(self, now: u64) -> u32 {
        let elapsed = self.elapsed(now);
        if elapsed == 0 {
            self.tokens
        } else if self.refill_period == 0 {
            self.capacity
        } else {
            let total = self.tokens + elapsed * self.capacity / (self.refill_period as int);
            if total >= self.capacity { self.capacity } else { total as u32 }
        }
    }

    /// The state after a call at `now` and the call's answer: the bucket is
    /// refilled, its clock set to `now`, and one token taken if there is one.
    pub open spec fn after_call(self, now: u64) -> (BucketState, bool) {
        let t = self.refilled(now);
        if t > 0 {
            (BucketState { tokens: (t - 1) as u32, last_refill: now, ..self }, true)
        } else {
            (BucketState { tokens: 0, last_refill: now, ..self }, false)
        }
    }

    /// The answers to `n` calls in a row at the instant `now`.
    pub open spec fn run_at(self, now: u64, n: nat) -> Seq<bool>
        decreases n,
    {
        if n == 0 {
            Seq::empty()
        } else {
            let (next, r) = self.after_call(now);
            seq![r] + next.run_at(now, (n - 1) as nat)
        }
    }

    /// A full bucket whose clock starts at `now`.
    pub fn full(capacity: u32, refill_period: u64, now: u64) -> (r: BucketState)
        ensures
            r == (BucketState { capacity, tokens: capacity, last_refill: now, refill_period }),
            r.wf(),
    {
        BucketState { capacity, tokens: capacity, last_refill: now, refill_period }
    }

    /// The tokens held at `now`.
    pub fn tokens_at(&self, now: u64) -> (r: u32)
        ensures
            r == self.refilled(now),
    {
        if now <= self.last_refill {
            return self.tokens;
        }
        if self.refill_period == 0 {
            return self.capacity;
        }
        let elapsed: u64 = now - self.last_refill;
        let cap: u64 = self.capacity as u64;
        assert(elapsed * cap <= 0xffff_ffff_ffff_ffffu64 * 0xffff_ffffu64) by (nonlinear_arith)
            requires elapsed <= 0xffff_ffff_ffff_ffffu64, cap <= 0xffff_ffffu64;
        let product: u128 = (elapsed as u128) * (cap as u128);
        let accrued: u128 = product / (self.refill_period as u128);
        let total: u128 = self.tokens as u128 + accrued;
        if total >= self.capacity as u128 {
            self.capacity
        } else {
            total as u32
        }
    }

    /// Refills the bucket at `now` and takes a token if there is one;
    /// returns whether one was taken.
    pub fn allow_at(&mut self, now: u64) -> (r: bool)
        ensures
            (*final(self), r) == old(self).after_call(now),
            old(self).wf() ==> final(self).wf(),
    {
        let t = self.tokens_at(now);
        self.last_refill = now;
        if t > 0 {
            self.tokens = t - 1;
            true
        } else {
            self.tokens = 0;
            false
        }
    }
}


/// A token bucket on the monotonic clock, measured from its creation.
pub struct TokenBucketLimiter {
    /// The bucket's tokens and refill clock.
    pub state: BucketState,
    /// The instant from which the bucket's milliseconds are counted.
    pub origin: std::time::Instant,
}

impl TokenBucketLimiter {
    /// A full bucket of `capacity` tokens that refills over `refill_period`
    /// milliseconds.
    pub fn new(capacity: u32, refill_period: u64) -> (r: TokenBucketLimiter)
        ensures
            r.state == (BucketState { capacity, tokens: capacity, last_refill: 0, refill_period }),
    {
        TokenBucketLimiter { state: BucketState::full(capacity, refill_period, 0), origin: std::time::Instant::now() }
    }

    /// Milliseconds since the bucket was created.
    pub fn now(&self) -> u64 {
        millis_since(&self.origin)
    }

    /// Whether a request is admitted at `now`, measured from the bucket's
    /// creation: the bucket is refilled and one token taken if there is one.
    pub fn allow_at(&mut self, now: u64) -> (r: bool)
        ensures
            (final(self).state, r) == old(self).state.after_call(now),
    {
        self.state.allow_at(now)
    }

    /// Whether a request is admitted now.
    pub fn allow(&mut self) -> (r: bool)
        ensures
            exists|now: u64| (final(self).state, r) == old(self).state.after_call(now),
    {
        let now = self.now();
        self.allow_at(now)
    }
}

proof fn lemma_same_instant_run(b: BucketState, now: u64, n: nat)
    requires
        now <= b.last_refill,
    ensures
        b.run_at(now, n) == Seq::new(n, |i: int| i < b.tokens),
    decreases n,
{
    if n > 0 {
        let (next, r) = b.after_call(now);
        lemma_same_instant_run(next, now, (n - 1) as nat);
        assert(b.run_at(now, n) =~= Seq::new(n, |i: int| i < b.tokens));
    }
}

/// A full bucket admits `capacity` calls at one instant and refuses the next.
pub proof fn lemma_full_bucket_grants_capacity(capacity: u32, refill_period: u64, now: u64)
    ensures
        (BucketState { capacity, tokens: capacity, last_refill: now, refill_period }).run_at(now, (capacity + 1) as nat)
            == Seq::new((capacity + 1) as nat, |i: int| i < capacity),
{
    let b = BucketState { capacity, tokens: capacity, last_refill: now, refill_period };
    lemma_same_instant_run(b, now, (capacity + 1) as nat);
}

proof fn lemma_whole_period_fills(b: BucketState, now: u64)
    requires
        b.wf(),
        b.last_refill < now,
        b.last_refill + b.refill_period <= now,
    ensures
        b.refilled(now) == b.capacity,
{
    if b.refill_period > 0 {
        let e = b.elapsed(now);
        let p = b.refill_period as int;
        let c = b.capacity as int;
        assert(e * c / p >= c) by (nonlinear_arith)
            requires e >= p, p > 0, c >= 0;
    }
}

/// After a whole refill period without calls the bucket is full again, and
/// no fuller: it admits `capacity` calls at one instant and refuses the next,
/// however long it waited.
pub proof fn lemma_waited_bucket_grants_capacity(b: BucketState, now: u64)
    requires
        b.wf(),
        b.last_refill < now,
        b.last_refill + b.refill_period <= now,
    ensures
        b.run_at(now, (b.capacity + 1) as nat) == Seq::new((b.capacity + 1) as nat, |i: int| i < b.capacity),
{
    let n = (b.capacity + 1) as nat;
    lemma_whole_period_fills(b, now);
    let (next, r) = b.after_call(now);
    lemma_same_instant_run(next, now, (n - 1) as nat);
    assert(b.run_at(now, n) =~= Seq::new(n, |i: int| i < b.capacity));
}

/// Waiting half a refill period adds at most half the capacity, truncated.
pub proof fn lemma_half_period_refill(b: BucketState, now: u64)
    requires
        2 * b.elapsed(now) <= b.refill_period,
    ensures
        b.refilled(now) <= b.tokens + b.capacity / 2,
{
    let e = b.elapsed(now);
    if e > 0 {
        let p = b.refill_period as int;
        let c = b.capacity as int;
        assert(e * c / p <= c / 2) by (nonlinear_arith)
            requires 2 * e <= p, p > 0, c >= 0, e > 0;
    }
}

/// Refill never takes tokens away: a later call finds at least as many.
pub proof fn lemma_refill_monotonic(b: BucketState, t1: u64, t2: u64)
    requires
        b.wf(),
        t1 <= t2,
    ensures
        b.refilled(t1) <= b.refilled(t2),
{
    let e1 = b.elapsed(t1);
    let e2 = b.elapsed(t2);
    if e1 > 0 && b.refill_period > 0 {
        let p = b.refill_period as int;
        let c = b.capacity as int;
        assert(e1 * c / p <= e2 * c / p) by (nonlinear_arith)
            requires e1 <= e2, p > 0, c >= 0, e1 >= 0;
    }
}

} // verus!
