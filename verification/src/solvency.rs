//! Valuing a position and judging whether its collateral backs its debt.
//!
//! The health factor of a position is
//! `collateral_value * liquidation_threshold / debt_value`. It is never
//! formed as a quotient: it is below one exactly when
//! `collateral_value * threshold < debt_value * BPS`, which is how it is
//! compared here.

use vstd::prelude::*;
use crate::asset::Asset;
use crate::math::{fraction_of, fraction_of_u128, lemma_fraction_below, BPS};

verus! {

/// What the oracle says one unit of an asset is worth, and as of when.
#[derive(Clone, Copy, Debug, PartialEq, Eq, Structural)]
pub struct Price {
    pub value: u64,
    pub as_of: i64,
}

impl Price {
    /// The price is at most `max_age` seconds old at `now`.
    pub open spec fn fresh(self, now: i64, max_age: u64) -> bool {
        now - self.as_of <= max_age
    }

    /// Whether the price is at most `max_age` seconds old at `now`.
    pub fn is_fresh(&self, now: i64, max_age: u64) -> (b: bool)
        ensures
            b == self.fresh(now, max_age),
    {
        let age: i128 = now as i128 - self.as_of as i128;
        age <= max_age as i128
    }
}

/// The prices of both assets, and how old a price may be.
#[derive(Clone, Copy, Debug, PartialEq, Eq, Structural)]
pub struct Prices {
    pub usdc: Price,
    pub sol: Price,
    /// The oldest that a price may be, in seconds.
    pub max_age: u64,
}

impl Prices {
    /// The price of `asset`.
    pub open spec fn price_of_spec(self, asset: Asset) -> Price {
        match asset {
            Asset::Usdc => self.usdc,
            Asset::Sol => self.sol,
        }
    }

    /// Both prices are fresh at `now`.
    pub open spec fn fresh(self, now: i64) -> bool {
        self.usdc.fresh(now, self.max_age) && self.sol.fresh(now, self.max_age)
    }

    /// The price of `asset`.
    pub fn price_of(&self, asset: Asset) -> (p: Price)
        ensures
            p == self.price_of_spec(asset),
    {
        match asset {
            Asset::Usdc => self.usdc,
            Asset::Sol => self.sol,
        }
    }

    /// Whether both prices are fresh at `now`.
    pub fn is_fresh(&self, now: i64) -> (b: bool)
        ensures
            b == self.fresh(now),
    {
        self.usdc.is_fresh(now, self.max_age) && self.sol.is_fresh(now, self.max_age)
    }
}

/// What `amount` units are worth at `price`.
pub open spec fn value_of(price: nat, amount: nat) -> nat {
    price * amount
}

/// The health factor is below one: the collateral, counted at
/// `threshold` basis points of its value, does not back the debt.
pub open spec fn undercollateralized(
    collateral_value: nat,
    threshold: nat,
    debt_value: nat,
) -> bool {
    collateral_value * threshold < debt_value * BPS
}

/// A health factor as a quotient of two values: the collateral counted at
/// its threshold, over the debt.
#[derive(Clone, Copy, Debug, PartialEq, Eq, Structural)]
pub struct HealthFactor {
    /// The collateral's value at its threshold, rounded down.
    pub backing: u128,
    /// The debt's value.
    pub debt: u128,
}

impl HealthFactor {
    /// The factor is below one.
    pub open spec fn below_one(self) -> bool {
        self.backing < self.debt
    }

    /// Whether the factor is below one.
    pub fn is_below_one(&self) -> (b: bool)
        ensures
            b == self.below_one(),
    {
        self.backing < self.debt
    }
}

/// What `amount` units are worth at `price`.
pub fn value(price: u64, amount: u64) -> (v: u128)
    ensures
        v == value_of(price as nat, amount as nat),
{
    assert(price * amount <= u128::MAX) by (nonlinear_arith)
        requires
            price <= u64::MAX,
            amount <= u64::MAX,
    ;
    (price as u128) * (amount as u128)
}

/// The health factor of collateral worth `collateral_value`, counted at
/// `threshold` basis points, against debt worth `debt_value`.
///
/// It is below one exactly when the position is undercollateralized.
pub fn health_factor(
    collateral_value: u128,
    threshold: u64,
    debt_value: u128,
) -> (hf: HealthFactor)
    requires
        threshold <= BPS,
    ensures
        hf.backing == fraction_of(collateral_value as nat, threshold as nat),
        hf.debt == debt_value,
        hf.below_one() <==> undercollateralized(
            collateral_value as nat,
            threshold as nat,
            debt_value as nat,
        ),
{
    proof {
        lemma_fraction_below(collateral_value as nat, threshold as nat, debt_value as nat);
    }
    HealthFactor { backing: fraction_of_u128(collateral_value, threshold), debt: debt_value }
}

/// Whether collateral worth `collateral_value`, counted at `threshold`
/// basis points, fails to back debt worth `debt_value`.
pub fn is_undercollateralized(
    collateral_value: u128,
    threshold: u64,
    debt_value: u128,
) -> (b: bool)
    requires
        threshold <= BPS,
    ensures
        b == undercollateralized(collateral_value as nat, threshold as nat, debt_value as nat),
{
    health_factor(collateral_value, threshold, debt_value).is_below_one()
}

} // verus!
