//! Token-bucket rate limiting on top of the `governor` crate.
//!
//! A bucket of `rate` cells refills at `rate` cells per second. A new bucket
//! is full, so a run that started on it would see twice the rate in its first
//! second: a dispatcher takes the first full bucket out in one piece before it
//! asks for single cells.

use vstd::prelude::*;

verus! {

/// The `governor` direct rate limiter. Its state moves with the wall clock, so
/// nothing about its decisions is visible to the verifier.
#[verifier::external_body]
pub struct TokenBucket {
    inner: governor::DefaultDirectRateLimiter,
}

/// The number of cells that a bucket was made to hold, which is also the
/// number that it refills in a second.
pub uninterp spec fn bucket_rate(bucket: TokenBucket) -> u16;

/// `governor::RateLimiter::direct` over `governor::Quota::per_second`: a bucket
/// that refills `rate` cells per second and holds at most `rate` cells.
/// A zero rate has no quota, so it is excluded.
#[verifier::external_body]
fn bucket_per_second(rate: u16) -> (bucket: TokenBucket)
    requires
        rate > 0,
    ensures
        bucket_rate(bucket) == rate,
{
    let burst = core::num::NonZeroU32::new(rate as u32).unwrap();
    TokenBucket { inner: governor::RateLimiter::direct(governor::Quota::per_second(burst)) }
}

/// `governor::RateLimiter::check`: tries to take one cell and reports whether
/// it was taken. The answer depends on the clock, so it is left unspecified.
#[verifier::external_body]
fn bucket_check(bucket: &TokenBucket) -> bool {
    bucket.inner.check().is_ok()
}

/// `governor::RateLimiter::check_n`: tries to take `n` cells at once and
/// reports whether all of them were taken. A batch of more cells than the
/// bucket holds is beyond its capacity, which the crate refuses whatever the
/// clock says; for any other batch the answer depends on the clock and is
/// left unspecified.
#[verifier::external_body]
fn bucket_check_n(bucket: &TokenBucket, n: u32) -> (taken: bool)
    requires
        n > 0,
    ensures
        n > bucket_rate(*bucket) ==> !taken,
{
    matches!(bucket.inner.check_n(core::num::NonZeroU32::new(n).unwrap()), Ok(Ok(_)))
}

/// Limits admissions to a fixed number per second.
pub struct Limiter {
    rate: u16,
    bucket: TokenBucket,
}

impl View for Limiter {
    type V = u16;

    /// The configured number of admissions per second.
    closed spec fn view(&self) -> u16 {
        self.rate
    }
}

impl Limiter {
    #[verifier::type_invariant]
    spec fn positive_rate(self) -> bool {
        self.rate > 0 && bucket_rate(self.bucket) == self.rate
    }

    /// A limiter that admits `rate` requests per second. Its bucket is full.
    pub fn new(rate: u16) -> (limiter: Limiter)
        requires
            rate > 0,
        ensures
            limiter@ == rate,
    {
        Limiter { rate, bucket: bucket_per_second(rate) }
    }

    /// The configured number of admissions per second.
    pub fn rate(&self) -> (rate: u16)
        ensures
            rate == self@,
            rate > 0,
    {
        proof {
            use_type_invariant(self);
        }
        self.rate
    }

    /// Tries to take one cell, without waiting. Whether a cell is there
    /// depends on the clock.
    pub fn allow_fast(&self) -> bool {
        bucket_check(&self.bucket)
    }

    /// Tries once to take `n` cells together, without waiting. More cells
    /// than the bucket holds, which is the rate, are never there. Whether
    /// fewer are there depends on the clock; a caller that needs them tries
    /// again after a pause.
    pub fn allow_n(&self, n: usize) -> (allowed: bool)
        requires
            0 < n <= u32::MAX,
        ensures
            n > self@ ==> !allowed,
    {
        proof {
            use_type_invariant(self);
        }
        bucket_check_n(&self.bucket, n as u32)
    }
}

} // verus!
