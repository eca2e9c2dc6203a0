//! Fixed-point units and proportional division.

use vstd::prelude::*;

verus! {

/// One whole, in basis points: the unit of thresholds, bonuses and close factors.
pub const BPS: u64 = 10_000;

/// One whole, in the unit of interest rates and of exponents.
pub const RATE_SCALE: u64 = 1_000_000_000_000;

/// `a * b / d` rounded down, over the natural numbers; 0 where `d` is 0.
pub open spec fn mul_div(a: nat, b: nat, d: nat) -> nat {
    if d == 0 {
        0
    } else {
        (a * b) / d
    }
}

/// The part of `whole` that `bps` basis points make, rounded down.
pub open spec fn fraction_of(whole: nat, bps: nat) -> nat {
    mul_div(whole, bps, BPS as nat)
}

/// `a * b / d` rounded down, multiplying before dividing; 0 where `d` is 0.
pub fn mul_div_u64(a: u64, b: u64, d: u64) -> (q: u128)
    ensures
        q == mul_div(a as nat, b as nat, d as nat),
{
    if d == 0 {
        return 0;
    }
    assert(a * b <= u128::MAX) by (nonlinear_arith)
        requires
            a <= u64::MAX,
            b <= u64::MAX,
    ;
    let wide: u128 = (a as u128) * (b as u128);
    wide / (d as u128)
}

/// The part of `whole` that `bps` basis points make, rounded down, for a
/// fraction of at most one whole. Computed without a product wider than
/// 128 bits.
pub fn fraction_of_u128(whole: u128, bps: u64) -> (part: u128)
    requires
        bps <= BPS,
    ensures
        part == fraction_of(whole as nat, bps as nat),
        part <= whole,
{
    let quotient: u128 = whole / (BPS as u128);
    let rest: u128 = whole % (BPS as u128);
    proof {
        lemma_split_fraction(whole as nat, bps as nat, BPS as nat);
        assert(quotient * bps <= quotient * BPS) by (nonlinear_arith)
            requires
                bps <= BPS,
                quotient >= 0,
        ;
        assert(rest * bps <= rest * BPS) by (nonlinear_arith)
            requires
                bps <= BPS,
                rest >= 0,
        ;
        assert((rest * bps) / (BPS as int) <= rest) by (nonlinear_arith)
            requires
                rest * bps <= rest * BPS,
                BPS > 0,
                rest >= 0,
        ;
    }
    quotient * (bps as u128) + (rest * (bps as u128)) / (BPS as u128)
}

/// Splitting `a` by `d` before multiplying loses nothing:
/// `a * b / d == (a / d) * b + (a % d) * b / d`.
pub proof fn lemma_split_fraction(a: nat, b: nat, d: nat)
    requires
        d > 0,
    ensures
        (a * b) / d == (a / d) * b + ((a % d) * b) / d,
{
    let q = a / d;
    let r = a % d;
    let rq = (r * b) / d;
    let rr = (r * b) % d;
    vstd::arithmetic::div_mod::lemma_fundamental_div_mod(a as int, d as int);
    vstd::arithmetic::div_mod::lemma_fundamental_div_mod((r * b) as int, d as int);
    vstd::arithmetic::div_mod::lemma_mod_pos_bound((r * b) as int, d as int);
    assert(a * b == (q * b + rq) * d + rr) by (nonlinear_arith)
        requires
            a == d * q + r,
            r * b == d * rq + rr,
    ;
    vstd::arithmetic::div_mod::lemma_fundamental_div_mod_converse(
        (a * b) as int,
        d as int,
        (q * b + rq) as int,
        rr as int,
    );
}

/// A fraction of basis points compares with a whole number as the product
/// compares with that number of wholes: `whole * bps / BPS < other` exactly
/// when `whole * bps < other * BPS`.
pub proof fn lemma_fraction_below(whole: nat, bps: nat, other: nat)
    ensures
        fraction_of(whole, bps) < other <==> whole * bps < other * BPS,
{
    let p = whole * bps;
    let d = BPS as nat;
    vstd::arithmetic::div_mod::lemma_fundamental_div_mod(p as int, d as int);
    vstd::arithmetic::div_mod::lemma_mod_pos_bound(p as int, d as int);
    let q = p / d;
    let r = p % d;
    assert(q < other <==> p < other * d) by (nonlinear_arith)
        requires
            p == d * q + r,
            0 <= r < d,
    ;
}

/// Proportional division stays within its bounds: a part of `t` maps to a
/// part of `s`, the whole of `t` to the whole of `s`, and a proper part to
/// a proper part.
pub proof fn lemma_share_bounds(a: nat, s: nat, t: nat)
    requires
        t > 0,
        a <= t,
    ensures
        mul_div(a, s, t) <= s,
        a == t ==> mul_div(a, s, t) == s,
        a < t && s > 0 ==> mul_div(a, s, t) < s,
{
    assert((a * s) / t <= s) by (nonlinear_arith)
        requires
            t > 0,
            a <= t,
    {
        assert(a * s <= t * s);
        assert((t * s) / t == s);
        assert((a * s) / t <= (t * s) / t);
    }
    if a == t {
        assert((t * s) / t == s) by (nonlinear_arith)
            requires
                t > 0,
        ;
    }
    if a < t && s > 0 {
        assert((a * s) / t < s) by (nonlinear_arith)
            requires
                t > 0,
                a < t,
                s > 0,
        {
            assert(a * s < t * s);
            assert(((a * s) / t) * t <= a * s);
        }
    }
}

/// Minting for `a` and then burning for `a` burns what was minted: with
/// `m == a * s / t`, `a * (s + m) / (t + a) == m`.
pub proof fn lemma_mint_then_burn(a: nat, s: nat, t: nat)
    requires
        t > 0,
    ensures
        mul_div(a, s + mul_div(a, s, t), t + a) == mul_div(a, s, t),
{
    let m = (a * s) / t;
    vstd::arithmetic::div_mod::lemma_fundamental_div_mod((a * s) as int, t as int);
    vstd::arithmetic::div_mod::lemma_mod_pos_bound((a * s) as int, t as int);
    let r = (a * s) % t;
    assert(a * s == t * m + r);
    // a * (s + m) == m * (t + a) + r, with 0 <= r < t <= t + a
    assert(a * (s + m) == m * (t + a) + r) by (nonlinear_arith)
        requires
            a * s == t * m + r,
    ;
    vstd::arithmetic::div_mod::lemma_fundamental_div_mod_converse(
        (a * (s + m)) as int,
        (t + a) as int,
        m as int,
        r as int,
    );
}

} // verus!
