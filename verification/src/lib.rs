//! Sum of squares below a bound, with an explicit overflow policy.
//!
//! The one computation offered here is `Σ i²` for `i` in `[0, n)`.  It is
//! available with two accumulation policies — wrapping (the result is the
//! true sum reduced modulo the accumulator's range) and checked (an
//! `Overflow` error whenever the true sum does not fit) — and in two
//! accumulator widths, 128 and 64 bits.

use vstd::prelude::*;
use vstd::arithmetic::div_mod::{
    lemma_add_mod_noop, lemma_div_multiples_vanish, lemma_mod_sub_multiples_vanish,
    lemma_small_mod,
};

verus! {

/// The mathematical sum `Σ_{i=0}^{n-1} i²`, the value every executable
/// variant is measured against.
pub open spec fn sum_sq(n: nat) -> nat
    decreases n,
{
    if n == 0 {
        0
    } else {
        sum_sq((n - 1) as nat) + ((n - 1) as nat) * ((n - 1) as nat)
    }
}

/// The single failure the checked policy can report: the true sum exceeds
/// the accumulator's representable range.
#[derive(Clone, Copy, Debug, PartialEq, Eq, Structural)]
pub enum SumError {
    Overflow,
}

/// A larger bound never shrinks the sum: `sum_sq` is monotone in its bound.
pub proof fn lemma_sum_sq_monotone(a: nat, b: nat)
    requires
        a <= b,
    ensures
        sum_sq(a) <= sum_sq(b),
    decreases b,
{
    if a < b {
        lemma_sum_sq_monotone(a, (b - 1) as nat);
    }
}

/// How accumulation treats an intermediate result that exceeds the
/// accumulator's range.
#[derive(Clone, Copy, Debug, PartialEq, Eq, Structural)]
pub enum OverflowPolicy {
    /// Accumulate modulo the accumulator's range; never fails.
    Wrapping,
    /// Validate every addition; fail with `Overflow` rather than produce a
    /// wrapped or truncated value.
    Checked,
}

/// The sum below `n` has the closed form `n·(n−1)·(2n−1)/6`.  The first
/// clause states it multiplied out, free of any rounding concern; the
/// second gives the quotient form, whose division is exact.
pub proof fn lemma_sum_sq_closed_form(n: nat)
    ensures
        6 * sum_sq(n) == n * (n - 1) * (2 * n - 1),
        sum_sq(n) == n * (n - 1) * (2 * n - 1) / 6,
    decreases n,
{
    if n > 0 {
        let m = (n - 1) as nat;
        lemma_sum_sq_closed_form(m);
        assert(sum_sq(n) == sum_sq(m) + m * m);
        assert(6 * (sum_sq(m) + m * m) == n * (n - 1) * (2 * n - 1)) by (nonlinear_arith)
            requires
                6 * sum_sq(m) == m * (m - 1) * (2 * m - 1),
                m == n - 1,
                n >= 1,
        {
        }
    }
    lemma_div_multiples_vanish(sum_sq(n) as int, 6);
}

/// The size of `u128`'s value range: wrapping accumulation reduces modulo this.
pub open spec fn u128_modulus() -> nat {
    u128::MAX as nat + 1
}

/// Sum of squares below `n` with wrapping accumulation: the result is the
/// true sum reduced modulo 2^128.  This variant never fails; when the true
/// sum fits in the accumulator it is returned exactly.
pub fn sum_of_squares_wrapping(n: u128) -> (r: u128)
    ensures
        r as nat == sum_sq(n as nat) % u128_modulus(),
{
    let mut total: u128 = 0;
    let mut i: u128 = 0;
    proof {
        lemma_small_mod(0, u128_modulus());
    }
    while i < n
        invariant
            i <= n,
            total as nat == sum_sq(i as nat) % u128_modulus(),
        decreases n - i,
    {
        let sq = i.wrapping_mul(i);
        proof {
            let m = u128_modulus() as int;
            let s = sum_sq(i as nat) as int;
            let q = (i as int) * (i as int);
            assert(sum_sq((i + 1) as nat) == s + q);
            lemma_add_mod_noop(s, q, m);
            if total + sq > u128::MAX {
                lemma_mod_sub_multiples_vanish(total + sq, m);
                lemma_small_mod((total + sq - m) as nat, m as nat);
            } else {
                lemma_small_mod((total + sq) as nat, m as nat);
            }
        }
        total = total.wrapping_add(sq);
        i = i + 1;
    }
    total
}

/// Sum of squares below `n` with checked accumulation: the exact sum when it
/// fits in the accumulator, and `Overflow` — never a wrapped or truncated
/// value — exactly when it does not.
pub fn sum_of_squares_checked(n: u128) -> (r: Result<u128, SumError>)
    ensures
        match r {
            Ok(v) => sum_sq(n as nat) <= u128::MAX && v as nat == sum_sq(n as nat),
            Err(e) => sum_sq(n as nat) > u128::MAX && e == SumError::Overflow,
        },
{
    let mut total: u128 = 0;
    let mut i: u128 = 0;
    while i < n
        invariant
            i <= n,
            total as nat == sum_sq(i as nat),
        decreases n - i,
    {
        proof {
            assert(sum_sq((i + 1) as nat) == sum_sq(i as nat) + (i as int) * (i as int));
            lemma_sum_sq_monotone((i + 1) as nat, n as nat);
        }
        let sq = match i.checked_mul(i) {
            Some(sq) => sq,
            None => {
                return Err(SumError::Overflow);
            },
        };
        total = match total.checked_add(sq) {
            Some(t) => t,
            None => {
                return Err(SumError::Overflow);
            },
        };
        i = i + 1;
    }
    Ok(total)
}

/// The size of `u64`'s value range: the modulus of the narrower variants.
pub open spec fn u64_modulus() -> nat {
    u64::MAX as nat + 1
}

/// Sum of squares below `n` with a 64-bit wrapping accumulator: the result
/// is the true sum reduced modulo 2^64.  This variant never fails; when the
/// true sum fits in the accumulator it is returned exactly.
pub fn sum_of_squares_wrapping_u64(n: u64) -> (r: u64)
    ensures
        r as nat == sum_sq(n as nat) % u64_modulus(),
{
    let mut total: u64 = 0;
    let mut i: u64 = 0;
    proof {
        lemma_small_mod(0, u64_modulus());
    }
    while i < n
        invariant
            i <= n,
            total as nat == sum_sq(i as nat) % u64_modulus(),
        decreases n - i,
    {
        let sq = i.wrapping_mul(i);
        proof {
            let m = u64_modulus() as int;
            let s = sum_sq(i as nat) as int;
            let q = (i as int) * (i as int);
            assert(sum_sq((i + 1) as nat) == s + q);
            lemma_add_mod_noop(s, q, m);
            if total + sq > u64::MAX {
                lemma_mod_sub_multiples_vanish(total + sq, m);
                lemma_small_mod((total + sq - m) as nat, m as nat);
            } else {
                lemma_small_mod((total + sq) as nat, m as nat);
            }
        }
        total = total.wrapping_add(sq);
        i = i + 1;
    }
    total
}

/// Sum of squares below `n` with a 64-bit checked accumulator: the exact
/// sum when it fits, and `Overflow` exactly when it does not.
pub fn sum_of_squares_checked_u64(n: u64) -> (r: Result<u64, SumError>)
    ensures
        match r {
            Ok(v) => sum_sq(n as nat) <= u64::MAX && v as nat == sum_sq(n as nat),
            Err(e) => sum_sq(n as nat) > u64::MAX && e == SumError::Overflow,
        },
{
    let mut total: u64 = 0;
    let mut i: u64 = 0;
    while i < n
        invariant
            i <= n,
            total as nat == sum_sq(i as nat),
        decreases n - i,
    {
        proof {
            assert(sum_sq((i + 1) as nat) == sum_sq(i as nat) + (i as int) * (i as int));
            lemma_sum_sq_monotone((i + 1) as nat, n as nat);
        }
        let sq = match i.checked_mul(i) {
            Some(sq) => sq,
            None => {
                return Err(SumError::Overflow);
            },
        };
        total = match total.checked_add(sq) {
            Some(t) => t,
            None => {
                return Err(SumError::Overflow);
            },
        };
        i = i + 1;
    }
    Ok(total)
}

/// What `sum_of_squares` promises of a result `r` for bound `n` under
/// `policy`.  Under `Wrapping` the call always succeeds with the true sum
/// reduced modulo 2^128; under `Checked` it succeeds with the exact sum
/// precisely when that sum fits in the accumulator, and reports `Overflow`
/// precisely when it does not.
pub open spec fn sum_of_squares_post(n: u128, policy: OverflowPolicy, r: Result<
    u128,
    SumError,
>) -> bool {
    match policy {
        OverflowPolicy::Wrapping => (r matches Ok(v) && v as nat == sum_sq(n as nat)
            % u128_modulus()),
        OverflowPolicy::Checked => match r {
            Ok(v) => sum_sq(n as nat) <= u128::MAX && v as nat == sum_sq(n as nat),
            Err(e) => sum_sq(n as nat) > u128::MAX && e == SumError::Overflow,
        },
    }
}

/// Sum of squares below `n` under an explicit overflow policy: the single
/// entry point that the wrapping and checked variants specialise.
pub fn sum_of_squares(n: u128, policy: OverflowPolicy) -> (r: Result<u128, SumError>)
    ensures
        sum_of_squares_post(n, policy, r),
{
    match policy {
        OverflowPolicy::Wrapping => Ok(sum_of_squares_wrapping(n)),
        OverflowPolicy::Checked => sum_of_squares_checked(n),
    }
}

/// The computation is pure: any two results that `sum_of_squares` can
/// return for the same bound and policy are equal, so repeated calls with
/// the same arguments always return the same value.
pub proof fn lemma_sum_of_squares_deterministic(
    n: u128,
    policy: OverflowPolicy,
    r1: Result<u128, SumError>,
    r2: Result<u128, SumError>,
)
    requires
        sum_of_squares_post(n, policy, r1),
        sum_of_squares_post(n, policy, r2),
    ensures
        r1 == r2,
{
}

/// When the true sum fits in the accumulator, both policies succeed with
/// the closed-form value: `6·v == n·(n−1)·(2n−1)` for the returned `v`.
pub proof fn lemma_result_is_closed_form(n: u128, policy: OverflowPolicy, r: Result<
    u128,
    SumError,
>)
    requires
        sum_of_squares_post(n, policy, r),
        sum_sq(n as nat) <= u128::MAX,
    ensures
        r matches Ok(v) && 6 * v == n * (n - 1) * (2 * n - 1),
{
    lemma_small_mod(sum_sq(n as nat), u128_modulus());
    lemma_sum_sq_closed_form(n as nat);
}

} // verus!
