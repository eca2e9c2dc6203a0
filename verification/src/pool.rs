//! A pool: the protocol's reserve of one asset.

use vstd::prelude::*;
use crate::accrual::{
    accrue_over, accrued_balance, elapsed_seconds, lemma_accrued_properties,
    lemma_growth_at_least_one,
};
use crate::asset::Asset;
use crate::error::ErrorCode;
use crate::math::BPS;

verus! {

/// The record of a pool: what is deposited and lent, in underlying units and
/// in shares, and the pool's rate and risk parameters.
#[derive(Clone, Copy, Debug, PartialEq, Eq, Structural)]
pub struct PoolState {
    /// The token that the pool holds.
    pub asset_id: Asset,
    /// Underlying units owed to depositors.
    pub total_deposited: u64,
    /// Shares outstanding for depositors.
    pub total_deposited_shares: u64,
    /// Underlying units owed by borrowers.
    pub total_borrowed: u64,
    /// Shares outstanding for borrowers.
    pub total_borrowed_shares: u64,
    /// Continuously compounding rate per second, in parts of `RATE_SCALE`.
    pub interest_rate: u64,
    /// When interest was last applied.
    pub last_updated: i64,
    /// The fraction of collateral value that counts as backing, in basis points.
    pub liquidation_threshold: u64,
    /// The bonus paid on seized collateral, in basis points.
    pub liquidation_bonus: u64,
    /// The largest fraction of a debt that one liquidation repays, in basis points.
    pub liquidation_close_factor: u64,
}

impl PoolState {
    /// What holds of every pool: shares and amounts are zero together, the
    /// pool lends no more than it holds, and its threshold and close factor
    /// are at most one whole.
    pub open spec fn wf(self) -> bool {
        &&& (self.total_deposited_shares == 0 <==> self.total_deposited == 0)
        &&& (self.total_borrowed_shares == 0 <==> self.total_borrowed == 0)
        &&& self.total_borrowed <= self.total_deposited
        &&& self.liquidation_threshold <= BPS
        &&& self.liquidation_close_factor <= BPS
    }

    /// What the pool holds and has not lent.
    pub open spec fn reserve(self) -> nat {
        if self.total_borrowed <= self.total_deposited {
            (self.total_deposited - self.total_borrowed) as nat
        } else {
            0
        }
    }

    /// What the pool is owed at `now`: the borrowed total compounded at the
    /// pool's rate, but no more than the pool holds. Interest that would
    /// take the borrowed total past the deposits is not booked.
    pub open spec fn owed_at(self, now: i64) -> nat {
        let grown = accrued_balance(
            self.total_borrowed as nat,
            self.interest_rate as nat,
            (now - self.last_updated) as nat,
        );
        if grown > self.total_deposited {
            self.total_deposited as nat
        } else {
            grown
        }
    }

    /// The pool with interest applied up to `now`: the borrowed total is
    /// what the pool is owed at `now`; the deposited total and both share
    /// totals stay as they are.
    pub open spec fn accrued_to(self, now: i64) -> PoolState {
        PoolState { total_borrowed: self.owed_at(now) as u64, last_updated: now, ..self }
    }

    /// Whether the record is well formed.
    pub fn is_valid(&self) -> (b: bool)
        ensures
            b == self.wf(),
    {
        (self.total_deposited_shares == 0) == (self.total_deposited == 0) && (
        self.total_borrowed_shares == 0) == (self.total_borrowed == 0) && self.total_borrowed
            <= self.total_deposited && self.liquidation_threshold <= BPS
            && self.liquidation_close_factor <= BPS
    }

    /// What the pool holds and has not lent.
    pub fn available(&self) -> (r: u64)
        ensures
            r == self.reserve(),
    {
        if self.total_borrowed <= self.total_deposited {
            self.total_deposited - self.total_borrowed
        } else {
            0
        }
    }

    /// Applies interest up to `now`: the borrowed total compounds, up to what
    /// the pool holds; the deposited total and the shares stay.
    ///
    /// Fails with `InvalidTimestamp` exactly when `now` is earlier than the
    /// last update. A well-formed pool stays well formed.
    pub fn accrue(self, now: i64) -> (r: Result<PoolState, ErrorCode>)
        ensures
            now < self.last_updated ==> r == Err::<PoolState, ErrorCode>(
                ErrorCode::InvalidTimestamp,
            ),
            now >= self.last_updated ==> r == Ok::<PoolState, ErrorCode>(self.accrued_to(now)),
            self.wf() && now >= self.last_updated ==> self.accrued_to(now).wf(),
    {
        match elapsed_seconds(self.last_updated, now) {
            Err(e) => Err(e),
            Ok(elapsed) => {
                let grown: u64 = accrue_over(self.total_borrowed, self.interest_rate, elapsed);
                let owed: u64 = if grown > self.total_deposited {
                    self.total_deposited
                } else {
                    grown
                };
                proof {
                    lemma_accrual_keeps_wf(self, now);
                }
                Ok(PoolState { total_borrowed: owed, last_updated: now, ..self })
            },
        }
    }
}

/// Applying interest keeps a pool well formed. It leaves the deposited
/// total and the shares as they are, and in a well-formed pool it never
/// lowers the borrowed total.
pub proof fn lemma_accrual_keeps_wf(pool: PoolState, now: i64)
    requires
        now >= pool.last_updated,
    ensures
        pool.wf() ==> pool.accrued_to(now).wf(),
        pool.wf() ==> pool.accrued_to(now).total_borrowed >= pool.total_borrowed,
        pool.accrued_to(now).total_borrowed <= pool.total_deposited,
        pool.accrued_to(now).total_borrowed == pool.owed_at(now),
        pool.accrued_to(now).total_deposited == pool.total_deposited,
        pool.accrued_to(now).total_deposited_shares == pool.total_deposited_shares,
        pool.accrued_to(now).total_borrowed_shares == pool.total_borrowed_shares,
{
    let x = (pool.interest_rate as nat) * ((now - pool.last_updated) as nat);
    let g = crate::accrual::growth_factor_spec(x);
    lemma_growth_at_least_one(x);
    lemma_accrued_properties(pool.total_borrowed as nat, pool.total_borrowed as nat, g);
}

/// A pool that is well formed for as long as it exists.
pub struct Pool {
    state: PoolState,
}

impl View for Pool {
    type V = PoolState;

    closed spec fn view(&self) -> PoolState {
        self.state
    }
}

impl Pool {
    #[verifier::type_invariant]
    spec fn well_formed(self) -> bool {
        self.state.wf()
    }

    /// A pool with the given record, if the record is well formed.
    pub fn new(state: PoolState) -> (r: Option<Pool>)
        ensures
            r is Some <==> state.wf(),
            r matches Some(pool) ==> pool@ == state,
    {
        if state.is_valid() {
            Some(Pool { state })
        } else {
            None
        }
    }

    /// The pool's record. It is well formed, whatever was done to the pool.
    pub fn state(&self) -> (s: PoolState)
        ensures
            s == self@,
            s.wf(),
    {
        proof {
            use_type_invariant(self);
        }
        self.state
    }

    /// Replaces the pool's record by a well-formed one.
    pub(crate) fn set(&mut self, next: PoolState)
        requires
            next.wf(),
        ensures
            final(self)@ == next,
    {
        self.state = next;
    }

    /// Applies interest up to `now`: the borrowed total compounds, up to what
    /// the pool holds; the deposited total and the shares stay.
    ///
    /// Fails with `InvalidTimestamp`, leaving the pool as it was, exactly
    /// when `now` is earlier than the last update.
    pub fn accrue(&mut self, now: i64) -> (r: Result<(), ErrorCode>)
        ensures
            now < old(self)@.last_updated ==> r == Err::<(), ErrorCode>(
                ErrorCode::InvalidTimestamp,
            ) && final(self)@ == old(self)@,
            now >= old(self)@.last_updated ==> r == Ok::<(), ErrorCode>(()) && final(self)@
                == old(self)@.accrued_to(now),
    {
        let current: PoolState = self.state();
        match current.accrue(now) {
            Err(e) => Err(e),
            Ok(next) => {
                self.set(next);
                Ok(())
            },
        }
    }
}

} // verus!
