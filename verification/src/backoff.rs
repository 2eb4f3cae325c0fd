//! Exponential backoff for retrying a domain after a recoverable provider
//! failure: the delay is seeded by the provider's hint (or a default floor),
//! doubles with each consecutive failure, and is capped by a small multiple
//! of the polling period.

use vstd::prelude::*;
use vstd::arithmetic::power2::{pow2, lemma_pow2_pos, lemma_pow2_unfold, lemma_pow2_strictly_increases};
use vstd::arithmetic::mul::{lemma_mul_nonnegative, lemma_mul_inequality};

verus! {

/// Delay used after the first failure when the provider gave no hint, in seconds.
pub const DEFAULT_BACKOFF_FLOOR: u64 = 30;

/// The backoff delay never exceeds this many polling periods.
pub const BACKOFF_CAP_FACTOR: u64 = 4;

/// Largest backoff delay allowed for a given polling period, in seconds.
pub open spec fn spec_backoff_cap(period: u32) -> int {
    period * BACKOFF_CAP_FACTOR
}

/// Seed of the exponential delay: the provider's hint, or the default floor.
pub open spec fn spec_backoff_base(hint: Option<u64>) -> int {
    match hint {
        Some(h) => h as int,
        None => DEFAULT_BACKOFF_FLOOR as int,
    }
}

/// `raw`, unless it reaches `cap`.
pub open spec fn clamp_to(raw: int, cap: int) -> int {
    if raw < cap {
        raw
    } else {
        cap
    }
}

/// Delay before the retry that follows `failures` consecutive failures:
/// the seed doubled once per failure after the first, clamped to the cap.
pub open spec fn spec_backoff_delay(failures: u32, hint: Option<u64>, period: u32) -> int {
    let e = if failures == 0 { 0nat } else { (failures - 1) as nat };
    clamp_to(spec_backoff_base(hint) * pow2(e), spec_backoff_cap(period))
}

/// Computes the backoff delay in seconds for a domain that has just reached
/// `failures` consecutive failures.
pub fn backoff_delay(failures: u32, hint: Option<u64>, period: u32) -> (d: u64)
    requires
        1 <= failures,
    ensures
        d == spec_backoff_delay(failures, hint, period),
{
    let cap: u64 = (period as u64) * BACKOFF_CAP_FACTOR;
    let base: u64 = match hint {
        Some(h) => h,
        None => DEFAULT_BACKOFF_FLOOR,
    };
    proof {
        lemma_pow2_pos(0);
        assert(pow2(0) == 1) by {
            vstd::arithmetic::power2::lemma2_to64();
        }
    }
    let mut d: u64 = if base >= cap { cap } else { base };
    let mut k: u32 = 0;
    while k < failures - 1
        invariant
            1 <= failures,
            k <= failures - 1,
            cap == spec_backoff_cap(period),
            cap < 0x400000000,
            base == spec_backoff_base(hint),
            d == clamp_to(base * pow2(k as nat), cap as int),
        decreases failures - 1 - k,
    {
        proof {
            lemma_pow2_unfold((k + 1) as nat);
            lemma_pow2_pos(k as nat);
            lemma_mul_nonnegative(base as int, pow2(k as nat) as int);
        }
        if d >= cap {
            proof {
                assert(base * pow2((k + 1) as nat) >= base * pow2(k as nat)) by {
                    lemma_pow2_strictly_increases(k as nat, (k + 1) as nat);
                    lemma_mul_inequality(pow2(k as nat) as int, pow2((k + 1) as nat) as int, base as int);
                    vstd::arithmetic::mul::lemma_mul_is_commutative(pow2(k as nat) as int, base as int);
                    vstd::arithmetic::mul::lemma_mul_is_commutative(pow2((k + 1) as nat) as int, base as int);
                }
            }
            d = cap;
        } else {
            assert(d == base * pow2(k as nat));
            assert(base * pow2((k + 1) as nat) == 2 * (base * pow2(k as nat))) by {
                lemma_factor_out_double(base as int, pow2(k as nat) as int);
            }
            let nd = d * 2;
            d = if nd >= cap { cap } else { nd };
        }
        k = k + 1;
    }
    d
}

proof fn lemma_factor_out_double(b: int, p: int)
    ensures
        b * (2 * p) == 2 * (b * p),
{
    vstd::arithmetic::mul::lemma_mul_is_associative(b, 2, p);
    vstd::arithmetic::mul::lemma_mul_is_commutative(b, 2);
    vstd::arithmetic::mul::lemma_mul_is_associative(2, b, p);
}

/// Backoff delays never decrease as the consecutive-failure count grows,
/// as long as the seed (hint) and period stay the same.
pub proof fn lemma_backoff_monotone(f1: u32, f2: u32, hint: Option<u64>, period: u32)
    requires
        f1 <= f2,
    ensures
        spec_backoff_delay(f1, hint, period) <= spec_backoff_delay(f2, hint, period),
{
    let e1 = if f1 == 0 { 0nat } else { (f1 - 1) as nat };
    let e2 = if f2 == 0 { 0nat } else { (f2 - 1) as nat };
    let base = spec_backoff_base(hint);
    if e1 < e2 {
        lemma_pow2_strictly_increases(e1, e2);
    }
    lemma_mul_inequality(pow2(e1) as int, pow2(e2) as int, base);
    vstd::arithmetic::mul::lemma_mul_is_commutative(pow2(e1) as int, base);
    vstd::arithmetic::mul::lemma_mul_is_commutative(pow2(e2) as int, base);
}

/// Every backoff delay is bounded above by the configured cap and is never negative.
pub proof fn lemma_backoff_bounded(failures: u32, hint: Option<u64>, period: u32)
    ensures
        0 <= spec_backoff_delay(failures, hint, period) <= spec_backoff_cap(period),
{
    let e = if failures == 0 { 0nat } else { (failures - 1) as nat };
    lemma_mul_nonnegative(spec_backoff_base(hint), pow2(e) as int);
}

} // verus!
