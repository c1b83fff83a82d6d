//! The token bucket that admits requests: a `leaky_bucket::RateLimiter`, made
//! from the settings of a configuration.

use leaky_bucket::RateLimiter;
use std::time::Duration;
use vstd::prelude::*;

verus! {

/// `leaky_bucket::RateLimiter`, taken as it is: nothing inside it is seen
/// here.
#[verifier::external_type_specification]
#[verifier::external_body]
pub struct ExRateLimiter(RateLimiter);

/// What `RateLimiter::max` returns for `limiter`: the capacity of the bucket.
pub uninterp spec fn limiter_max(limiter: RateLimiter) -> nat;

/// What `RateLimiter::refill` returns for `limiter`: the credits added at each
/// interval.
pub uninterp spec fn limiter_refill(limiter: RateLimiter) -> nat;

/// What `RateLimiter::interval` returns for `limiter`, in milliseconds.
pub uninterp spec fn limiter_interval_ms(limiter: RateLimiter) -> nat;

/// What `RateLimiter::is_fair` returns for `limiter`: whether waiters are
/// served in the order in which they came.
pub uninterp spec fn limiter_is_fair(limiter: RateLimiter) -> bool;

/// The longest refill interval that a bucket is made with here, in
/// milliseconds.
pub const MAX_INTERVAL_MS: u64 = 0xFFFF_FFFF;

/// The greatest balance that a `RateLimiter` keeps.
pub open spec fn max_balance() -> nat {
    isize::MAX as nat
}

/// `n`, but `max_balance()` at most.
pub open spec fn capped(n: usize) -> nat {
    if n <= max_balance() {
        n as nat
    } else {
        max_balance()
    }
}

/// `RateLimiter::builder()`, its setters `initial`, `refill`, `interval`,
/// `fair` and `max`, and `build`. The builder refuses a refill of zero and an
/// interval of zero with a panic; the bound on the interval keeps the first
/// deadline, which is the time of the call and the interval, within what a
/// clock can hold. The limiter made returns through its getters what the
/// setters were given, capacity and refill capped at `isize::MAX`. Nothing is
/// claimed of its balance, which starts at `initial`, capped by the capacity,
/// and changes with time and use.
#[verifier::external_body]
pub(crate) fn build_limiter(
    initial: usize,
    refill: usize,
    interval_ms: u64,
    fair: bool,
    max: usize,
) -> (limiter: RateLimiter)
    requires
        refill > 0,
        0 < interval_ms <= MAX_INTERVAL_MS,
    ensures
        limiter_max(limiter) == capped(max),
        limiter_refill(limiter) == capped(refill),
        limiter_interval_ms(limiter) == interval_ms,
        limiter_is_fair(limiter) == fair,
{
    RateLimiter::builder()
        .initial(initial)
        .refill(refill)
        .interval(Duration::from_millis(interval_ms))
        .fair(fair)
        .max(max)
        .build()
}

} // verus!
