//! Token-bucket rate limiting for outbound sends.
//!
//! The bucket refills `frequency` tokens per second up to `capacity`, the
//! maximum burst.  Acquiring consumes one token when one is available;
//! otherwise the caller is told the earliest time a token will exist, and the
//! background send unit — never the enqueuing caller — sleeps until then.
//! Time is a nanosecond counter supplied by the caller.

use vstd::prelude::*;
use vstd::arithmetic::div_mod::{
    lemma_div_non_zero, lemma_div_nonincreasing, lemma_div_of0, lemma_fundamental_div_mod,
    lemma_mod_division_less_than_divisor,
};

verus! {

/// Nanoseconds per second.
pub const NANOS_PER_SEC: u64 = 1_000_000_000;

/// Token-bucket state: refill rate, burst capacity, current tokens, and the
/// time refilling was last accounted for.
pub struct TokenBucket {
    /// Tokens refilled per second; between 1 and `NANOS_PER_SEC`.
    pub frequency: u64,
    /// Maximum number of tokens the bucket holds; at least 1.
    pub capacity: u64,
    /// Tokens now in the bucket; at most `capacity`.
    pub tokens: u64,
    /// Nanosecond timestamp up to which refilling has been accounted.
    pub last_refill: u64,
}

/// Outcome of one acquire attempt.
#[derive(Clone, Copy, PartialEq, Eq, Structural, Debug)]
pub enum Acquire {
    /// A token was taken; the send may proceed now.
    Ready,
    /// No token: one becomes available at this nanosecond timestamp.
    WaitUntil(u64),
}

impl TokenBucket {
    /// Structural bounds every bucket satisfies.
    pub open spec fn wf(self) -> bool {
        &&& 1 <= self.frequency <= NANOS_PER_SEC
        &&& 1 <= self.capacity
        &&& self.tokens <= self.capacity
    }

    /// Nanoseconds per refilled token.
    pub open spec fn interval(self) -> int {
        NANOS_PER_SEC as int / self.frequency as int
    }

    /// The bucket after accounting the refills earned by `now`.
    pub open spec fn spec_refill(self, now: u64) -> TokenBucket {
        let steps = (now - self.last_refill) / self.interval();
        if steps >= self.capacity - self.tokens {
            TokenBucket { tokens: self.capacity, last_refill: now, ..self }
        } else {
            TokenBucket {
                tokens: (self.tokens + steps) as u64,
                last_refill: (self.last_refill + steps * self.interval()) as u64,
                ..self
            }
        }
    }

    /// The bucket after one acquire attempt at `now`.
    pub open spec fn spec_acquire_state(self, now: u64) -> TokenBucket {
        let b = self.spec_refill(now);
        if b.tokens > 0 {
            TokenBucket { tokens: (b.tokens - 1) as u64, ..b }
        } else {
            b
        }
    }

    /// The outcome of one acquire attempt at `now`.
    pub open spec fn spec_acquire_result(self, now: u64) -> Acquire {
        let b = self.spec_refill(now);
        if b.tokens > 0 {
            Acquire::Ready
        } else {
            Acquire::WaitUntil((b.last_refill + b.interval()) as u64)
        }
    }

    /// A full bucket.
    pub fn new(frequency: u64, capacity: u64, now: u64) -> (r: TokenBucket)
        requires
            1 <= frequency <= NANOS_PER_SEC,
            1 <= capacity,
        ensures
            r.wf(),
            r == (TokenBucket { frequency, capacity, tokens: capacity, last_refill: now }),
    {
        TokenBucket { frequency, capacity, tokens: capacity, last_refill: now }
    }

    /// Account refills up to `now`, then take a token if one is there;
    /// otherwise report when the next token arrives.
    pub fn acquire(&mut self, now: u64) -> (r: Acquire)
        requires
            old(self).wf(),
            old(self).last_refill <= now,
            now <= u64::MAX - NANOS_PER_SEC,
        ensures
            final(self).wf(),
            *final(self) == old(self).spec_acquire_state(now),
            r == old(self).spec_acquire_result(now),
            final(self).last_refill <= now,
            r is Ready <==> old(self).spec_refill(now).tokens > 0,
    {
        let interval = NANOS_PER_SEC / self.frequency;
        proof {
            lemma_interval_bounds(*self);
            assert(interval == self.interval());
        }
        let elapsed = now - self.last_refill;
        let steps = elapsed / interval;
        proof {
            lemma_fundamental_div_mod(elapsed as int, interval as int);
            lemma_mod_division_less_than_divisor(elapsed as int, interval as int);
            assert(interval as int * (steps as int) <= elapsed as int);
            assert(steps as int * (interval as int) == interval as int * (steps as int))
                by (nonlinear_arith);
            assert(steps * interval <= elapsed);
        }
        if steps >= self.capacity - self.tokens {
            self.tokens = self.capacity;
            self.last_refill = now;
        } else {
            self.tokens = self.tokens + steps;
            self.last_refill = self.last_refill + steps * interval;
        }
        if self.tokens > 0 {
            self.tokens = self.tokens - 1;
            Acquire::Ready
        } else {
            Acquire::WaitUntil(self.last_refill + interval)
        }
    }
}

/// A well-formed bucket's refill interval lies between one nanosecond and
/// one second.
proof fn lemma_interval_bounds(b: TokenBucket)
    requires
        b.wf(),
    ensures
        1 <= b.interval() <= NANOS_PER_SEC,
        NANOS_PER_SEC as int / b.frequency as int == b.interval(),
{
    lemma_div_non_zero(NANOS_PER_SEC as int, b.frequency as int);
    lemma_div_nonincreasing(NANOS_PER_SEC as int, b.frequency as int);
}

/// The bucket after `k` acquire attempts, all at the same instant `now`.
pub open spec fn drained(b: TokenBucket, now: u64, k: nat) -> TokenBucket
    decreases k,
{
    if k == 0 {
        b
    } else {
        drained(b, now, (k - 1) as nat).spec_acquire_state(now)
    }
}

/// From a full bucket, a burst of up to `capacity` immediate acquires all
/// succeed: the `k`-th attempt (counting from zero) still finds
/// `capacity - k` tokens.
pub proof fn lemma_burst_within_capacity(b: TokenBucket, now: u64, k: nat)
    requires
        b.wf(),
        b.tokens == b.capacity,
        b.last_refill == now,
        k <= b.capacity,
    ensures
        drained(b, now, k).wf(),
        drained(b, now, k).tokens == b.capacity - k,
        drained(b, now, k).last_refill == now,
        drained(b, now, k).frequency == b.frequency,
        drained(b, now, k).capacity == b.capacity,
        k < b.capacity ==> drained(b, now, k).spec_acquire_result(now) is Ready,
    decreases k,
{
    if k > 0 {
        lemma_burst_within_capacity(b, now, (k - 1) as nat);
        let d = drained(b, now, (k - 1) as nat);
        lemma_interval_bounds(d);
        lemma_div_of0(d.interval());
        assert((now - d.last_refill) / d.interval() == 0);
    } else {
        let d = drained(b, now, k);
        if k < b.capacity {
            lemma_interval_bounds(d);
            lemma_div_of0(d.interval());
            assert((now - d.last_refill) / d.interval() == 0);
        }
    }
}

/// From a full bucket, once a burst has consumed all `capacity` tokens, the
/// next acquire at the same instant must wait at least one refill interval:
/// `NANOS_PER_SEC / frequency` nanoseconds past `now`.
pub proof fn lemma_burst_exhausted(b: TokenBucket, now: u64)
    requires
        b.wf(),
        b.tokens == b.capacity,
        b.last_refill == now,
        now <= u64::MAX - NANOS_PER_SEC,
    ensures
        drained(b, now, b.capacity as nat).spec_acquire_result(now) == Acquire::WaitUntil(
            (now + NANOS_PER_SEC as int / b.frequency as int) as u64,
        ),
        NANOS_PER_SEC as int / b.frequency as int >= 1,
{
    lemma_burst_within_capacity(b, now, b.capacity as nat);
    let d = drained(b, now, b.capacity as nat);
    lemma_interval_bounds(d);
    lemma_div_of0(d.interval());
    assert((now - d.last_refill) / d.interval() == 0);
}

} // verus!
