//! Continuous compounding in fixed point.
//!
//! A balance `b` that has stood for `dt` seconds at the per-second rate `r`
//! grows to `b * e^(r * dt)`. Rates are counted in parts of [`RATE_SCALE`],
//! growth factors in the finer parts of [`FACTOR_SCALE`]; the exponential is
//! its power series, each term rounded down. The factor is held as wide as
//! any balance can need, and only a balance that no longer fits 64 bits
//! stays at the largest value that does.

use vstd::prelude::*;
use crate::error::ErrorCode;
use crate::math::{lemma_split_fraction, RATE_SCALE};

verus! {

/// The number of terms of the power series that are added up.
pub const GROWTH_TERMS: u64 = 160;

/// One whole, in the unit of growth factors.
pub const FACTOR_SCALE: u128 = 1_000_000_000_000_000_000;

/// The least factor under which every balance but zero passes 64 bits:
/// `2^64` wholes. A factor is computed exactly up to here.
pub const FACTOR_CAP: u128 = 18_446_744_073_709_551_616_000_000_000_000_000_000;

/// From this exponent on the growth factor is beyond `FACTOR_CAP`.
pub const EXPONENT_CAP: u128 = 9_223_372_036_854_775_808;

/// Term `k` of the series of `e^x`, in fixed point: `x^k / k!`, each
/// division rounded down. `x` counts parts in `RATE_SCALE`, the term parts
/// in `FACTOR_SCALE`.
pub open spec fn growth_term(x: nat, k: nat) -> nat
    decreases k,
{
    if k == 0 {
        FACTOR_SCALE as nat
    } else {
        (growth_term(x, (k - 1) as nat) * x) / (k * (RATE_SCALE as nat))
    }
}

/// The sum of the first `n` terms of the series.
pub open spec fn growth_series(x: nat, n: nat) -> nat
    decreases n,
{
    if n == 0 {
        0
    } else {
        growth_series(x, (n - 1) as nat) + growth_term(x, (n - 1) as nat)
    }
}

/// The factor by which a balance grows over the exponent `x = r * dt`, in
/// fixed point: the series of `e^x`, however large.
pub open spec fn growth_factor_spec(x: nat) -> nat {
    growth_series(x, GROWTH_TERMS as nat)
}

/// The growth factor as far as it is computed: the factor itself up to
/// `FACTOR_CAP`, and `FACTOR_CAP` beyond. Every balance grows by the one
/// as by the other.
pub open spec fn capped_factor(x: nat) -> nat {
    if growth_factor_spec(x) > FACTOR_CAP as nat {
        FACTOR_CAP as nat
    } else {
        growth_factor_spec(x)
    }
}

/// A balance after it grew by `factor`, rounded down and capped at the
/// largest 64-bit value.
pub open spec fn accrued(balance: nat, factor: nat) -> nat {
    let grown = (balance * factor) / (FACTOR_SCALE as nat);
    if grown > u64::MAX as nat {
        u64::MAX as nat
    } else {
        grown
    }
}

/// A balance after `elapsed` seconds at `rate`.
pub open spec fn accrued_balance(balance: nat, rate: nat, elapsed: nat) -> nat {
    accrued(balance, growth_factor_spec(rate * elapsed))
}

/// With a zero exponent every term after the first is zero.
pub proof fn lemma_term_at_zero(k: nat)
    ensures
        growth_term(0, k) == if k == 0 {
            FACTOR_SCALE as nat
        } else {
            0
        },
    decreases k,
{
    if k > 0 {
        lemma_term_at_zero((k - 1) as nat);
        let prev = growth_term(0, (k - 1) as nat);
        assert(prev * 0 == 0) by (nonlinear_arith);
        assert(k * (RATE_SCALE as nat) > 0) by (nonlinear_arith)
            requires
                k > 0,
                RATE_SCALE > 0,
        ;
        assert(0nat / (k * (RATE_SCALE as nat)) == 0) by (nonlinear_arith)
            requires
                k * (RATE_SCALE as nat) > 0,
        ;
    }
}

/// With a zero exponent the series is one whole from its first term on.
pub proof fn lemma_series_at_zero(n: nat)
    ensures
        growth_series(0, n) == if n == 0 {
            0
        } else {
            FACTOR_SCALE as nat
        },
    decreases n,
{
    if n > 0 {
        lemma_series_at_zero((n - 1) as nat);
        lemma_term_at_zero((n - 1) as nat);
    }
}

/// A term does not shrink when the exponent grows.
pub proof fn lemma_term_monotone(x: nat, y: nat, k: nat)
    requires
        x <= y,
    ensures
        growth_term(x, k) <= growth_term(y, k),
    decreases k,
{
    if k > 0 {
        lemma_term_monotone(x, y, (k - 1) as nat);
        let a = growth_term(x, (k - 1) as nat);
        let b = growth_term(y, (k - 1) as nat);
        let d = k * (RATE_SCALE as nat);
        assert(d > 0) by (nonlinear_arith)
            requires
                d == k * (RATE_SCALE as nat),
                k > 0,
                RATE_SCALE > 0,
        ;
        assert(a * x <= b * y) by (nonlinear_arith)
            requires
                a <= b,
                x <= y,
        ;
        vstd::arithmetic::div_mod::lemma_div_is_ordered((a * x) as int, (b * y) as int, d as int);
    }
}

/// The series does not shrink when the exponent grows.
pub proof fn lemma_series_monotone(x: nat, y: nat, n: nat)
    requires
        x <= y,
    ensures
        growth_series(x, n) <= growth_series(y, n),
    decreases n,
{
    if n > 0 {
        lemma_series_monotone(x, y, (n - 1) as nat);
        lemma_term_monotone(x, y, (n - 1) as nat);
    }
}

/// The series does not shrink when terms are added.
pub proof fn lemma_series_grows(x: nat, m: nat, n: nat)
    requires
        m <= n,
    ensures
        growth_series(x, m) <= growth_series(x, n),
    decreases n,
{
    if m < n {
        lemma_series_grows(x, m, (n - 1) as nat);
    }
}

/// Once a term is zero, every later term is zero.
pub proof fn lemma_terms_stay_zero(x: nat, j: nat, k: nat)
    requires
        j <= k,
        growth_term(x, j) == 0,
    ensures
        growth_term(x, k) == 0,
    decreases k,
{
    if j < k {
        lemma_terms_stay_zero(x, j, (k - 1) as nat);
        let prev = growth_term(x, (k - 1) as nat);
        assert(prev * x == 0) by (nonlinear_arith)
            requires
                prev == 0,
        ;
        assert(0nat / (k * (RATE_SCALE as nat)) == 0) by (nonlinear_arith)
            requires
                k > 0,
                RATE_SCALE > 0,
        ;
    }
}

/// Once a term is zero, the series has stopped growing.
pub proof fn lemma_series_settled(x: nat, j: nat, n: nat)
    requires
        j < n,
        growth_term(x, j) == 0,
    ensures
        growth_series(x, n) == growth_series(x, j + 1),
    decreases n,
{
    if j + 1 < n {
        lemma_series_settled(x, j, (n - 1) as nat);
        lemma_terms_stay_zero(x, j, (n - 1) as nat);
    }
}

/// The growth factor is at least one whole: a balance never shrinks.
pub proof fn lemma_growth_at_least_one(x: nat)
    ensures
        growth_factor_spec(x) >= FACTOR_SCALE,
{
    lemma_series_grows(x, 1, GROWTH_TERMS as nat);
    assert(growth_series(x, 1) == growth_series(x, 0) + growth_term(x, 0));
}

/// One part of a rate is this many parts of a factor.
pub open spec fn factor_parts(x: nat) -> nat {
    1_000_000 * x
}

/// Compound growth is at least simple growth: the factor is at least one
/// whole and the exponent.
pub proof fn lemma_growth_at_least_simple(x: nat)
    ensures
        growth_factor_spec(x) >= FACTOR_SCALE + factor_parts(x),
{
    let s = RATE_SCALE as nat;
    let f = FACTOR_SCALE as nat;
    assert(growth_term(x, 0) == f);
    assert(growth_term(x, 1) == (growth_term(x, 0) * x) / (1 * s));
    assert((f * x) / (1 * s) == 1_000_000 * x) by (nonlinear_arith)
        requires
            s == 1_000_000_000_000,
            f == 1_000_000_000_000_000_000,
    ;
    assert(growth_series(x, 1) == growth_series(x, 0) + growth_term(x, 0));
    assert(growth_series(x, 2) == growth_series(x, 1) + growth_term(x, 1));
    lemma_series_grows(x, 2, GROWTH_TERMS as nat);
}

/// The growth factor does not shrink when the exponent grows.
pub proof fn lemma_growth_monotone(x: nat, y: nat)
    requires
        x <= y,
    ensures
        growth_factor_spec(x) <= growth_factor_spec(y),
{
    lemma_series_monotone(x, y, GROWTH_TERMS as nat);
}

/// What `accrued` does to a balance: it keeps order, never shrinks a
/// balance under a factor of at least one whole, and keeps zero at zero.
pub proof fn lemma_accrued_properties(small: nat, large: nat, factor: nat)
    requires
        small <= large,
        large <= u64::MAX,
        factor >= FACTOR_SCALE,
    ensures
        accrued(small, factor) <= accrued(large, factor),
        accrued(large, factor) >= large,
        accrued(large, factor) <= u64::MAX,
        accrued(0, factor) == 0,
{
    let d = FACTOR_SCALE as nat;
    assert(small * factor <= large * factor) by (nonlinear_arith)
        requires
            small <= large,
    ;
    vstd::arithmetic::div_mod::lemma_div_is_ordered(
        (small * factor) as int,
        (large * factor) as int,
        d as int,
    );
    assert(large * d <= large * factor) by (nonlinear_arith)
        requires
            d <= factor,
    ;
    vstd::arithmetic::div_mod::lemma_div_is_ordered(
        (large * d) as int,
        (large * factor) as int,
        d as int,
    );
    assert((large * d) / d == large) by (nonlinear_arith)
        requires
            d > 0,
    ;
    assert(0 * factor == 0) by (nonlinear_arith);
}

/// A factor of exactly one whole leaves a balance as it is.
pub proof fn lemma_accrued_by_one(balance: nat)
    requires
        balance <= u64::MAX,
    ensures
        accrued(balance, FACTOR_SCALE as nat) == balance,
{
    let d = FACTOR_SCALE as nat;
    assert((balance * d) / d == balance) by (nonlinear_arith)
        requires
            d > 0,
    ;
}

/// Over no time a balance stays as it is, whatever the rate.
pub proof fn lemma_no_time_no_growth(balance: nat, rate: nat)
    requires
        balance <= u64::MAX,
    ensures
        accrued_balance(balance, rate, 0) == balance,
{
    assert(rate * 0 == 0) by (nonlinear_arith);
    lemma_series_at_zero(GROWTH_TERMS as nat);
    lemma_accrued_by_one(balance);
}

/// A larger factor never gives a smaller balance.
pub proof fn lemma_accrued_monotone_in_factor(balance: nat, f: nat, g: nat)
    requires
        f <= g,
    ensures
        accrued(balance, f) <= accrued(balance, g),
{
    assert(balance * f <= balance * g) by (nonlinear_arith)
        requires
            f <= g,
    ;
    vstd::arithmetic::div_mod::lemma_div_is_ordered(
        (balance * f) as int,
        (balance * g) as int,
        FACTOR_SCALE as int,
    );
}

/// The seconds from `last_updated` to `now`.
///
/// A clock that reads earlier than the last update is refused.
pub fn elapsed_seconds(last_updated: i64, now: i64) -> (r: Result<u64, ErrorCode>)
    ensures
        now < last_updated ==> r == Err::<u64, ErrorCode>(ErrorCode::InvalidTimestamp),
        now >= last_updated ==> r == Ok::<u64, ErrorCode>((now - last_updated) as u64),
        now >= last_updated ==> now - last_updated <= u64::MAX,
{
    if now < last_updated {
        Err(ErrorCode::InvalidTimestamp)
    } else {
        let wide: i128 = now as i128 - last_updated as i128;
        Ok(wide as u64)
    }
}

/// A factor beyond `FACTOR_CAP` does to a balance what `FACTOR_CAP` does.
pub proof fn lemma_cap_changes_nothing(balance: nat, x: nat)
    ensures
        accrued(balance, capped_factor(x)) == accrued(balance, growth_factor_spec(x)),
{
    let g = growth_factor_spec(x);
    let s = FACTOR_SCALE as nat;
    let cap = FACTOR_CAP as nat;
    if g > cap {
        if balance == 0 {
            assert(0 * g == 0) by (nonlinear_arith);
            assert(0 * cap == 0) by (nonlinear_arith);
        } else {
            assert(balance * cap >= cap && balance * g >= cap) by (nonlinear_arith)
                requires
                    balance >= 1,
                    g > cap,
            ;
            vstd::arithmetic::div_mod::lemma_div_is_ordered(
                cap as int,
                (balance * cap) as int,
                s as int,
            );
            vstd::arithmetic::div_mod::lemma_div_is_ordered(
                cap as int,
                (balance * g) as int,
                s as int,
            );
            assert(cap / s > u64::MAX) by (nonlinear_arith)
                requires
                    cap == 18_446_744_073_709_551_616_000_000_000_000_000_000,
                    s == 1_000_000_000_000_000_000,
            ;
        }
    }
}

/// From `EXPONENT_CAP` on, the fourth term alone is beyond `FACTOR_CAP`.
proof fn lemma_series_saturates(x: nat)
    requires
        x >= EXPONENT_CAP,
    ensures
        growth_series(x, GROWTH_TERMS as nat) > FACTOR_CAP,
{
    let s = RATE_SCALE as int;
    let f = FACTOR_SCALE as int;
    let cap = EXPONENT_CAP as int;
    let t0 = growth_term(x, 0);
    let t1 = growth_term(x, 1);
    let t2 = growth_term(x, 2);
    let t3 = growth_term(x, 3);
    let low: int = 40_000_000_000_000_000_000_000_000_000_000;
    assert(t0 == f);
    assert(t1 == (t0 * x) / (1 * (s as nat)));
    assert((f * x) / (1 * s) == 1_000_000 * x) by (nonlinear_arith)
        requires
            s == 1_000_000_000_000,
            f == 1_000_000_000_000_000_000,
    ;
    assert(t1 == 1_000_000 * x);
    assert(t2 == (t1 * x) / (2 * (s as nat)));
    assert(t1 * x >= 1_000_000 * cap * cap) by (nonlinear_arith)
        requires
            t1 == 1_000_000 * x,
            x >= cap,
            cap >= 0,
    ;
    vstd::arithmetic::div_mod::lemma_div_is_ordered(
        1_000_000 * cap * cap,
        (t1 * x) as int,
        2 * s,
    );
    assert((1_000_000 * cap * cap) / (2 * s) >= low) by (nonlinear_arith)
        requires
            cap == 9_223_372_036_854_775_808,
            s == 1_000_000_000_000,
            low == 40_000_000_000_000_000_000_000_000_000_000,
    ;
    assert(t2 >= low);
    assert(t3 == (t2 * x) / (3 * (s as nat)));
    assert(t2 * x >= low * cap) by (nonlinear_arith)
        requires
            t2 >= low,
            x >= cap,
            low >= 0,
            cap >= 0,
    ;
    vstd::arithmetic::div_mod::lemma_div_is_ordered(low * cap, (t2 * x) as int, 3 * s);
    assert((low * cap) / (3 * s) > FACTOR_CAP) by (nonlinear_arith)
        requires
            cap == 9_223_372_036_854_775_808,
            s == 1_000_000_000_000,
            low == 40_000_000_000_000_000_000_000_000_000_000,
    ;
    assert(t3 > FACTOR_CAP);
    assert(growth_series(x, 1) == growth_series(x, 0) + t0);
    assert(growth_series(x, 2) == growth_series(x, 1) + t1);
    assert(growth_series(x, 3) == growth_series(x, 2) + t2);
    assert(growth_series(x, 4) == growth_series(x, 3) + t3);
    lemma_series_grows(x, 4, GROWTH_TERMS as nat);
}

/// The factor by which a balance grows in `elapsed` seconds at `rate`:
/// `e^(rate * elapsed)` in fixed point, exactly up to `FACTOR_CAP`, and
/// `FACTOR_CAP` where it is beyond.
pub fn growth_factor(rate: u64, elapsed: u64) -> (factor: u128)
    ensures
        factor == capped_factor(rate as nat * elapsed as nat),
        FACTOR_SCALE <= factor <= FACTOR_CAP,
{
    assert(rate * elapsed <= u128::MAX) by (nonlinear_arith)
        requires
            rate <= u64::MAX,
            elapsed <= u64::MAX,
    ;
    let x: u128 = (rate as u128) * (elapsed as u128);
    proof {
        lemma_growth_at_least_one(x as nat);
    }
    if x >= EXPONENT_CAP {
        proof {
            lemma_series_saturates(x as nat);
        }
        return FACTOR_CAP;
    }
    let scale: u128 = RATE_SCALE as u128;
    let mut term: u128 = FACTOR_SCALE;
    let mut sum: u128 = FACTOR_SCALE;
    let mut k: u64 = 1;
    proof {
        assert(growth_series(x as nat, 1) == growth_series(x as nat, 0) + growth_term(
            x as nat,
            0,
        ));
    }
    while k < GROWTH_TERMS
        invariant
            1 <= k <= GROWTH_TERMS,
            scale == RATE_SCALE,
            x < EXPONENT_CAP,
            x == rate as nat * elapsed as nat,
            growth_factor_spec(x as nat) >= FACTOR_SCALE,
            term == growth_term(x as nat, (k - 1) as nat),
            sum == growth_series(x as nat, k as nat),
            term <= sum,
            FACTOR_SCALE <= sum <= FACTOR_CAP,
        decreases GROWTH_TERMS - k,
    {
        if term == 0 {
            proof {
                lemma_series_settled(x as nat, (k - 1) as nat, GROWTH_TERMS as nat);
            }
            return sum;
        }
        assert(0 < k * scale <= 160_000_000_000_000) by (nonlinear_arith)
            requires
                1 <= k <= 160,
                scale == 1_000_000_000_000,
        ;
        // term * x / d, without forming term * x
        let d: u128 = (k as u128) * scale;
        let whole: u128 = term / d;
        let rest: u128 = term % d;
        proof {
            lemma_split_fraction(term as nat, x as nat, d as nat);
            assert(growth_term(x as nat, k as nat) == (term as nat * x as nat) / (d as nat));
            assert(growth_series(x as nat, (k + 1) as nat) == sum + growth_term(
                x as nat,
                k as nat,
            ));
            lemma_series_grows(x as nat, (k + 1) as nat, GROWTH_TERMS as nat);
        }
        assert(rest * x <= u128::MAX) by (nonlinear_arith)
            requires
                rest < d,
                d <= 160_000_000_000_000,
                x < 9_223_372_036_854_775_808,
        ;
        let low: u128 = (rest * x) / d;
        let high: u128 = match whole.checked_mul(x) {
            None => {
                return FACTOR_CAP;
            },
            Some(h) => h,
        };
        let next: u128 = match high.checked_add(low) {
            None => {
                return FACTOR_CAP;
            },
            Some(n) => n,
        };
        assert(next == growth_term(x as nat, k as nat));
        if next > FACTOR_CAP - sum {
            return FACTOR_CAP;
        }
        term = next;
        sum = sum + next;
        k = k + 1;
    }
    sum
}

/// A balance after it grew by `factor`, rounded down and capped at the
/// largest 64-bit value.
pub fn accrue(balance: u64, factor: u128) -> (grown: u64)
    ensures
        grown == accrued(balance as nat, factor as nat),
{
    let scale: u128 = FACTOR_SCALE;
    // balance * factor / scale, without forming balance * factor
    let whole: u128 = factor / scale;
    let rest: u128 = factor % scale;
    proof {
        lemma_split_fraction(factor as nat, balance as nat, scale as nat);
        assert(balance as nat * factor as nat == factor as nat * balance as nat)
            by (nonlinear_arith);
    }
    let high: u128 = match whole.checked_mul(balance as u128) {
        None => {
            return u64::MAX;
        },
        Some(h) => h,
    };
    if high > u64::MAX as u128 {
        return u64::MAX;
    }
    assert(rest * balance <= u128::MAX) by (nonlinear_arith)
        requires
            rest < 1_000_000_000_000_000_000,
            balance <= u64::MAX,
    ;
    let low: u128 = (rest * (balance as u128)) / scale;
    assert(low <= u64::MAX) by (nonlinear_arith)
        requires
            low == (rest * balance) / (scale as int),
            rest < scale,
            scale == 1_000_000_000_000_000_000,
            balance <= u64::MAX,
    {
        assert(rest * balance <= scale * balance);
        assert((scale * balance) / (scale as int) == balance);
    }
    let total: u128 = high + low;
    if total > u64::MAX as u128 {
        u64::MAX
    } else {
        total as u64
    }
}

/// A balance after `elapsed` seconds at `rate`, rounded down and capped at
/// the largest 64-bit value. It is never less than the balance.
pub fn accrue_over(balance: u64, rate: u64, elapsed: u64) -> (grown: u64)
    ensures
        grown == accrued_balance(balance as nat, rate as nat, elapsed as nat),
        grown >= balance,
{
    let factor: u128 = growth_factor(rate, elapsed);
    proof {
        lemma_cap_changes_nothing(balance as nat, rate as nat * elapsed as nat);
        lemma_accrued_properties(balance as nat, balance as nat, factor as nat);
    }
    accrue(balance, factor)
}

/// The balance that `deposited` has grown to at `now`, having compounded
/// at `interest_rate` since `last_updated`: the whole balance, not the
/// interest alone.
///
/// Fails with `InvalidTimestamp` exactly when `now` is earlier than
/// `last_updated`. A balance beyond 64 bits stays at the largest value
/// that fits.
pub fn calculate_accrued_interest(
    deposited: u64,
    interest_rate: u64,
    last_updated: i64,
    now: i64,
) -> (r: Result<u64, ErrorCode>)
    ensures
        now < last_updated ==> r == Err::<u64, ErrorCode>(ErrorCode::InvalidTimestamp),
        now >= last_updated ==> r == Ok::<u64, ErrorCode>(
            accrued_balance(
                deposited as nat,
                interest_rate as nat,
                (now - last_updated) as nat,
            ) as u64,
        ),
        r matches Ok(grown) ==> grown >= deposited,
{
    match elapsed_seconds(last_updated, now) {
        Err(e) => Err(e),
        Ok(elapsed) => Ok(accrue_over(deposited, interest_rate, elapsed)),
    }
}

} // verus!
