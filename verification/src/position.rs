//! A position: what one user has deposited and borrowed of each asset.

use vstd::prelude::*;
use crate::accrual::{accrue_over, accrued_balance, elapsed_seconds};
use crate::asset::Asset;
use crate::error::ErrorCode;
use crate::pool::PoolState;

verus! {

/// A user's balances in one asset, with the times at which each side last
/// compounded.
#[derive(Clone, Copy, Debug, PartialEq, Eq, Structural)]
pub struct Holding {
    /// Underlying units deposited, interest included.
    pub deposited_amount: u64,
    /// Shares of the pool's deposits.
    pub deposited_shares: u64,
    /// Underlying units owed, interest included.
    pub borrowed_amount: u64,
    /// Shares of the pool's loans.
    pub borrowed_shares: u64,
    /// When interest was last applied to the deposit.
    pub last_updated_deposit: i64,
    /// When interest was last applied to the debt.
    pub last_updated_borrow: i64,
}

impl Holding {
    /// The holding with nothing deposited and nothing owed, as of `now`.
    pub open spec fn empty_spec(now: i64) -> Holding {
        Holding {
            deposited_amount: 0,
            deposited_shares: 0,
            borrowed_amount: 0,
            borrowed_shares: 0,
            last_updated_deposit: now,
            last_updated_borrow: now,
        }
    }

    /// The holding with nothing deposited and nothing owed, as of `now`.
    pub fn empty(now: i64) -> (h: Holding)
        ensures
            h == Holding::empty_spec(now),
    {
        Holding {
            deposited_amount: 0,
            deposited_shares: 0,
            borrowed_amount: 0,
            borrowed_shares: 0,
            last_updated_deposit: now,
            last_updated_borrow: now,
        }
    }

    /// The holding's shares do not exceed the pool's.
    pub open spec fn within(self, pool: PoolState) -> bool {
        &&& self.deposited_shares <= pool.total_deposited_shares
        &&& self.borrowed_shares <= pool.total_borrowed_shares
    }

    /// The holding with interest applied to the deposit up to `now`.
    pub open spec fn deposit_accrued_to(self, rate: u64, now: i64) -> Holding {
        Holding {
            deposited_amount: accrued_balance(
                self.deposited_amount as nat,
                rate as nat,
                (now - self.last_updated_deposit) as nat,
            ) as u64,
            last_updated_deposit: now,
            ..self
        }
    }

    /// The holding with interest applied to the debt up to `now`.
    pub open spec fn borrow_accrued_to(self, rate: u64, now: i64) -> Holding {
        Holding {
            borrowed_amount: accrued_balance(
                self.borrowed_amount as nat,
                rate as nat,
                (now - self.last_updated_borrow) as nat,
            ) as u64,
            last_updated_borrow: now,
            ..self
        }
    }

    /// Applies interest to the deposit up to `now`, at the pool's `rate`.
    ///
    /// Fails with `InvalidTimestamp` exactly when `now` is earlier than the
    /// deposit's last update.
    pub fn accrue_deposit(self, rate: u64, now: i64) -> (r: Result<Holding, ErrorCode>)
        ensures
            now < self.last_updated_deposit ==> r == Err::<Holding, ErrorCode>(
                ErrorCode::InvalidTimestamp,
            ),
            now >= self.last_updated_deposit ==> r == Ok::<Holding, ErrorCode>(
                self.deposit_accrued_to(rate, now),
            ),
    {
        match elapsed_seconds(self.last_updated_deposit, now) {
            Err(e) => Err(e),
            Ok(elapsed) => Ok(
                Holding {
                    deposited_amount: accrue_over(self.deposited_amount, rate, elapsed),
                    last_updated_deposit: now,
                    ..self
                },
            ),
        }
    }

    /// Applies interest to the debt up to `now`, at the pool's `rate`.
    ///
    /// Fails with `InvalidTimestamp` exactly when `now` is earlier than the
    /// debt's last update.
    pub fn accrue_borrow(self, rate: u64, now: i64) -> (r: Result<Holding, ErrorCode>)
        ensures
            now < self.last_updated_borrow ==> r == Err::<Holding, ErrorCode>(
                ErrorCode::InvalidTimestamp,
            ),
            now >= self.last_updated_borrow ==> r == Ok::<Holding, ErrorCode>(
                self.borrow_accrued_to(rate, now),
            ),
    {
        match elapsed_seconds(self.last_updated_borrow, now) {
            Err(e) => Err(e),
            Ok(elapsed) => Ok(
                Holding {
                    borrowed_amount: accrue_over(self.borrowed_amount, rate, elapsed),
                    last_updated_borrow: now,
                    ..self
                },
            ),
        }
    }
}

/// A user's holdings, one for each asset.
#[derive(Clone, Copy, Debug, PartialEq, Eq, Structural)]
pub struct Position {
    pub usdc: Holding,
    pub sol: Holding,
}

impl Position {
    /// The position's holding of `asset`.
    pub open spec fn holding_spec(self, asset: Asset) -> Holding {
        match asset {
            Asset::Usdc => self.usdc,
            Asset::Sol => self.sol,
        }
    }

    /// The position with its holding of `asset` replaced.
    pub open spec fn with_holding(self, asset: Asset, holding: Holding) -> Position {
        match asset {
            Asset::Usdc => Position { usdc: holding, ..self },
            Asset::Sol => Position { sol: holding, ..self },
        }
    }

    /// The position with interest applied to its deposit of `asset`.
    pub open spec fn deposit_accrued(self, asset: Asset, rate: u64, now: i64) -> Position {
        self.with_holding(asset, self.holding_spec(asset).deposit_accrued_to(rate, now))
    }

    /// The position with interest applied to its debt in `asset`.
    pub open spec fn borrow_accrued(self, asset: Asset, rate: u64, now: i64) -> Position {
        self.with_holding(asset, self.holding_spec(asset).borrow_accrued_to(rate, now))
    }

    /// A position with nothing deposited and nothing owed, as of `now`.
    pub fn empty(now: i64) -> (p: Position)
        ensures
            p.usdc == Holding::empty_spec(now),
            p.sol == Holding::empty_spec(now),
    {
        Position { usdc: Holding::empty(now), sol: Holding::empty(now) }
    }

    /// The position's holding of `asset`.
    pub fn holding(&self, asset: Asset) -> (h: Holding)
        ensures
            h == self.holding_spec(asset),
    {
        match asset {
            Asset::Usdc => self.usdc,
            Asset::Sol => self.sol,
        }
    }

    /// Replaces the position's holding of `asset`.
    pub fn set_holding(&mut self, asset: Asset, holding: Holding)
        ensures
            *final(self) == old(self).with_holding(asset, holding),
    {
        match asset {
            Asset::Usdc => {
                self.usdc = holding;
            },
            Asset::Sol => {
                self.sol = holding;
            },
        }
    }

    /// Applies interest to the deposit of `asset` up to `now`.
    ///
    /// Fails with `InvalidTimestamp` exactly when `now` is earlier than that
    /// deposit's last update.
    pub fn accrue_deposit(
        self,
        asset: Asset,
        rate: u64,
        now: i64,
    ) -> (r: Result<Position, ErrorCode>)
        ensures
            now < self.holding_spec(asset).last_updated_deposit ==> r == Err::<
                Position,
                ErrorCode,
            >(ErrorCode::InvalidTimestamp),
            now >= self.holding_spec(asset).last_updated_deposit ==> r == Ok::<
                Position,
                ErrorCode,
            >(self.deposit_accrued(asset, rate, now)),
    {
        let held: Holding = self.holding(asset).accrue_deposit(rate, now)?;
        let mut after: Position = self;
        after.set_holding(asset, held);
        Ok(after)
    }

    /// Applies interest to the debt in `asset` up to `now`.
    ///
    /// Fails with `InvalidTimestamp` exactly when `now` is earlier than that
    /// debt's last update.
    pub fn accrue_borrow(
        self,
        asset: Asset,
        rate: u64,
        now: i64,
    ) -> (r: Result<Position, ErrorCode>)
        ensures
            now < self.holding_spec(asset).last_updated_borrow ==> r == Err::<
                Position,
                ErrorCode,
            >(ErrorCode::InvalidTimestamp),
            now >= self.holding_spec(asset).last_updated_borrow ==> r == Ok::<
                Position,
                ErrorCode,
            >(self.borrow_accrued(asset, rate, now)),
    {
        let held: Holding = self.holding(asset).accrue_borrow(rate, now)?;
        let mut after: Position = self;
        after.set_holding(asset, held);
        Ok(after)
    }
}

} // verus!
