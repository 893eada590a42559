//! When a transaction that failed is tried again, and after how long.

use vstd::prelude::*;
use crate::errors::PaymentGatewayError;
use crate::errors::PaymentGatewayErrorView;

verus! {

/// How often a transaction is tried unless the configuration says
/// otherwise.
pub const DEFAULT_ATTEMPTS: u32 = 5;

/// What to do after a failed attempt.
#[derive(Clone, Copy, Debug, PartialEq, Eq, Structural)]
pub enum Retry {
    /// Try again after so many milliseconds.
    After(u64),
    /// Hand the error to the caller.
    GiveUp,
}

/// `base` doubled `times` times.
pub open spec fn doubled(base: nat, times: nat) -> nat
    decreases times,
{
    if times == 0 {
        base
    } else {
        2 * doubled(base, (times - 1) as nat)
    }
}

/// The delay before the attempt that follows `failed` failed ones: the
/// base delay doubled for each failure after the first, and no more than
/// fits.
pub open spec fn delay_after(base_ms: u64, failed: nat) -> u64 {
    if failed == 0 {
        0
    } else if doubled(base_ms as nat, (failed - 1) as nat) > u64::MAX {
        u64::MAX
    } else {
        doubled(base_ms as nat, (failed - 1) as nat) as u64
    }
}

/// Only a failure of the database is worth another attempt: every other
/// error would come again.
pub open spec fn is_transient(e: PaymentGatewayErrorView) -> bool {
    e is DatabaseError
}

/// What to do after `failed` attempts have failed, the last with `error`.
pub open spec fn retry_decision(
    e: PaymentGatewayErrorView,
    failed: u32,
    max_attempts: u32,
    base_ms: u64,
) -> Retry {
    if is_transient(e) && failed < max_attempts {
        Retry::After(delay_after(base_ms, failed as nat))
    } else {
        Retry::GiveUp
    }
}

proof fn doubled_grows(base: nat, times: nat)
    ensures
        doubled(base, times) >= base,
        doubled(base, times + 1) == 2 * doubled(base, times),
    decreases times,
{
    if times > 0 {
        doubled_grows(base, (times - 1) as nat);
    }
}

proof fn doubled_is_monotone(base: nat, a: nat, b: nat)
    requires
        a <= b,
    ensures
        doubled(base, a) <= doubled(base, b),
    decreases b,
{
    if a < b {
        doubled_is_monotone(base, a, (b - 1) as nat);
    }
}

/// Decides whether a failed transaction is tried again, and when.
pub fn next_attempt(error: &PaymentGatewayError, failed: u32, max_attempts: u32, base_ms: u64) -> (r:
    Retry)
    ensures
        r == retry_decision(error@, failed, max_attempts, base_ms),
{
    let transient = match error {
        PaymentGatewayError::DatabaseError(_) => true,
        _ => false,
    };
    if !transient || failed >= max_attempts {
        return Retry::GiveUp;
    }
    if failed == 0 {
        return Retry::After(0);
    }
    let mut delay: u64 = base_ms;
    let mut k: u32 = 1;
    while k < failed
        invariant
            is_transient(error@),
            failed < max_attempts,
            1 <= k <= failed,
            delay == doubled(base_ms as nat, (k - 1) as nat),
        decreases failed - k,
    {
        if delay > u64::MAX / 2 {
            proof {
                doubled_grows(base_ms as nat, (k - 1) as nat);
                doubled_is_monotone(base_ms as nat, k as nat, (failed - 1) as nat);
            }
            return Retry::After(u64::MAX);
        }
        proof {
            doubled_grows(base_ms as nat, (k - 1) as nat);
        }
        delay = delay * 2;
        k = k + 1;
    }
    Retry::After(delay)
}

} // verus!
