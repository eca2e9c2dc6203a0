//! The share ledger: deposit, withdraw, borrow and repay.
//!
//! Shares are proportional ownership of a pool's deposits or loans. Every
//! operation first applies interest to the pool and to the side of the
//! position that it touches, then converts the amount to shares, multiplying
//! before dividing, and moves amount and shares in pool and position alike.
//! An operation that fails changes nothing.

use vstd::prelude::*;
use crate::error::ErrorCode;
use crate::math::{lemma_share_bounds, mul_div, mul_div_u64};
use crate::pool::{Pool, PoolState};
use crate::position::{Holding, Position};
use crate::solvency::{is_undercollateralized, undercollateralized, value, value_of, Prices};

verus! {

/// What an operation leaves behind: the pool, the position, and the shares
/// that it minted or burned.
#[derive(Clone, Copy, Debug, PartialEq, Eq, Structural)]
pub struct Step {
    pub pool: PoolState,
    pub position: Position,
    pub shares: u64,
}

/// The shares minted for `amount` in a pool of `total` units and `shares`
/// shares: one for one in an empty pool, in proportion otherwise.
pub open spec fn minted_shares(amount: nat, total: nat, shares: nat) -> nat {
    if shares == 0 {
        amount
    } else {
        mul_div(amount, shares, total)
    }
}

/// The shares burned for `amount` in a pool of `total` units and `shares`
/// shares.
pub open spec fn burned_shares(amount: nat, total: nat, shares: nat) -> nat {
    mul_div(amount, shares, total)
}

/// An operation has done what `outcome` says: on success pool and position
/// are those of the outcome and the shares are returned; on failure the
/// error is returned and pool and position are as before.
pub open spec fn committed(
    r: Result<u64, ErrorCode>,
    pool_before: PoolState,
    position_before: Position,
    pool_after: PoolState,
    position_after: Position,
    outcome: Result<Step, ErrorCode>,
) -> bool {
    match outcome {
        Ok(step) => r == Ok::<u64, ErrorCode>(step.shares) && pool_after == step.pool
            && position_after == step.position,
        Err(e) => r == Err::<u64, ErrorCode>(e) && pool_after == pool_before && position_after
            == position_before,
    }
}

/// The shares minted for `amount`.
fn mint(amount: u64, total: u64, shares: u64) -> (m: u128)
    ensures
        m == minted_shares(amount as nat, total as nat, shares as nat),
{
    if shares == 0 {
        amount as u128
    } else {
        mul_div_u64(amount, shares, total)
    }
}

/// The shares burned for `amount`.
fn burn(amount: u64, total: u64, shares: u64) -> (b: u128)
    ensures
        b == burned_shares(amount as nat, total as nat, shares as nat),
{
    mul_div_u64(amount, shares, total)
}

/// What taking an amount from one side of a pool and a holding leaves
/// behind, and the shares burned with it.
#[derive(Clone, Copy, Debug, PartialEq, Eq, Structural)]
pub struct Moved {
    pub pool: PoolState,
    pub holding: Holding,
    pub shares: u64,
}

/// Takes `amount` and its shares from what `holding` owes to `pool`.
///
/// Refused with `OverRepay` when the amount exceeds what the holding owes
/// or what the pool is owed, or when its shares exceed the holding's.
pub open spec fn debt_settled(
    pool: PoolState,
    holding: Holding,
    amount: nat,
) -> Result<Moved, ErrorCode> {
    let burned = burned_shares(
        amount,
        pool.total_borrowed as nat,
        pool.total_borrowed_shares as nat,
    );
    if amount > holding.borrowed_amount || amount > pool.total_borrowed || burned
        > holding.borrowed_shares {
        Err(ErrorCode::OverRepay)
    } else {
        Ok(
            Moved {
                pool: PoolState {
                    total_borrowed: (pool.total_borrowed - amount) as u64,
                    total_borrowed_shares: (pool.total_borrowed_shares - burned) as u64,
                    ..pool
                },
                holding: Holding {
                    borrowed_amount: (holding.borrowed_amount - amount) as u64,
                    borrowed_shares: (holding.borrowed_shares - burned) as u64,
                    ..holding
                },
                shares: burned as u64,
            },
        )
    }
}

/// Takes `amount` and its shares from what `holding` has deposited in
/// `pool`.
///
/// Refused with `InsufficientFunds` when the amount exceeds what the
/// holding has deposited or what the pool has not lent, or when its shares
/// exceed the holding's.
pub open spec fn deposit_taken(
    pool: PoolState,
    holding: Holding,
    amount: nat,
) -> Result<Moved, ErrorCode> {
    let burned = burned_shares(
        amount,
        pool.total_deposited as nat,
        pool.total_deposited_shares as nat,
    );
    if amount > holding.deposited_amount || amount > pool.reserve() || burned
        > holding.deposited_shares {
        Err(ErrorCode::InsufficientFunds)
    } else {
        Ok(
            Moved {
                pool: PoolState {
                    total_deposited: (pool.total_deposited - amount) as u64,
                    total_deposited_shares: (pool.total_deposited_shares - burned) as u64,
                    ..pool
                },
                holding: Holding {
                    deposited_amount: (holding.deposited_amount - amount) as u64,
                    deposited_shares: (holding.deposited_shares - burned) as u64,
                    ..holding
                },
                shares: burned as u64,
            },
        )
    }
}

/// Takes `amount` and its shares from what `holding` owes to `pool`.
pub fn settle_debt(
    pool: &PoolState,
    holding: &Holding,
    amount: u64,
) -> (r: Result<Moved, ErrorCode>)
    ensures
        r == debt_settled(*pool, *holding, amount as nat),
        pool.wf() ==> (r matches Ok(moved) ==> moved.pool.wf()),
{
    let burned: u128 = burn(amount, pool.total_borrowed, pool.total_borrowed_shares);
    if amount > holding.borrowed_amount || amount > pool.total_borrowed || burned
        > holding.borrowed_shares as u128 {
        return Err(ErrorCode::OverRepay);
    }
    let burned: u64 = burned as u64;
    proof {
        if pool.total_borrowed > 0 {
            lemma_share_bounds(
                amount as nat,
                pool.total_borrowed_shares as nat,
                pool.total_borrowed as nat,
            );
        }
    }
    Ok(
        Moved {
            pool: PoolState {
                total_borrowed: pool.total_borrowed - amount,
                total_borrowed_shares: pool.total_borrowed_shares - burned,
                ..*pool
            },
            holding: Holding {
                borrowed_amount: holding.borrowed_amount - amount,
                borrowed_shares: holding.borrowed_shares - burned,
                ..*holding
            },
            shares: burned,
        },
    )
}

/// Takes `amount` and its shares from what `holding` has deposited in
/// `pool`.
pub fn take_deposit(
    pool: &PoolState,
    holding: &Holding,
    amount: u64,
) -> (r: Result<Moved, ErrorCode>)
    ensures
        r == deposit_taken(*pool, *holding, amount as nat),
        pool.wf() ==> (r matches Ok(moved) ==> moved.pool.wf()),
{
    let burned: u128 = burn(amount, pool.total_deposited, pool.total_deposited_shares);
    if amount > holding.deposited_amount || amount > pool.available() || burned
        > holding.deposited_shares as u128 {
        return Err(ErrorCode::InsufficientFunds);
    }
    let burned: u64 = burned as u64;
    proof {
        if pool.total_deposited > 0 {
            lemma_share_bounds(
                amount as nat,
                pool.total_deposited_shares as nat,
                pool.total_deposited as nat,
            );
        }
    }
    Ok(
        Moved {
            pool: PoolState {
                total_deposited: pool.total_deposited - amount,
                total_deposited_shares: pool.total_deposited_shares - burned,
                ..*pool
            },
            holding: Holding {
                deposited_amount: holding.deposited_amount - amount,
                deposited_shares: holding.deposited_shares - burned,
                ..*holding
            },
            shares: burned,
        },
    )
}

// ---------------------------------------------------------------- deposit

/// A deposit of `amount` into `pool` for `position`, at `now`.
///
/// Interest is applied to the pool and to the position's deposit. Then
/// shares are minted for the amount, and amount and shares are added to
/// pool and position. Fails with `InvalidTimestamp` when `now` is earlier
/// than the last update of either.
pub open spec fn deposit_spec(
    pool: PoolState,
    position: Position,
    amount: u64,
    now: i64,
) -> Result<Step, ErrorCode> {
    let held = position.holding_spec(pool.asset_id);
    if now < pool.last_updated || now < held.last_updated_deposit {
        Err(ErrorCode::InvalidTimestamp)
    } else {
        let p = pool.accrued_to(now);
        let h = held.deposit_accrued_to(pool.interest_rate, now);
        let minted = minted_shares(
            amount as nat,
            p.total_deposited as nat,
            p.total_deposited_shares as nat,
        );
        Ok(
            Step {
                pool: PoolState {
                    total_deposited: (p.total_deposited + amount) as u64,
                    total_deposited_shares: (p.total_deposited_shares + minted) as u64,
                    ..p
                },
                position: position.with_holding(
                    pool.asset_id,
                    Holding {
                        deposited_amount: (h.deposited_amount + amount) as u64,
                        deposited_shares: (h.deposited_shares + minted) as u64,
                        ..h
                    },
                ),
                shares: minted as u64,
            },
        )
    }
}

/// The totals and balances that a deposit adds to stay within 64 bits.
pub open spec fn deposit_fits(pool: PoolState, position: Position, amount: u64, now: i64) -> bool {
    let held = position.holding_spec(pool.asset_id);
    now >= pool.last_updated && now >= held.last_updated_deposit ==> {
        let p = pool.accrued_to(now);
        let h = held.deposit_accrued_to(pool.interest_rate, now);
        let minted = minted_shares(
            amount as nat,
            p.total_deposited as nat,
            p.total_deposited_shares as nat,
        );
        &&& p.total_deposited + amount <= u64::MAX
        &&& p.total_deposited_shares + minted <= u64::MAX
        &&& h.deposited_amount + amount <= u64::MAX
        &&& h.deposited_shares + minted <= u64::MAX
    }
}

/// The deposit, or `None` where it does not fit.
fn deposit_step(
    pool: PoolState,
    position: Position,
    amount: u64,
    now: i64,
) -> (r: Option<Result<Step, ErrorCode>>)
    requires
        pool.wf(),
    ensures
        r is Some <==> deposit_fits(pool, position, amount, now),
        r matches Some(outcome) ==> outcome == deposit_spec(pool, position, amount, now),
        r matches Some(Ok(step)) ==> step.pool.wf(),
{
    let held: Holding = position.holding(pool.asset_id);
    let p: PoolState = match pool.accrue(now) {
        Err(e) => {
            return Some(Err(e));
        },
        Ok(p) => p,
    };
    let h: Holding = match held.accrue_deposit(pool.interest_rate, now) {
        Err(e) => {
            return Some(Err(e));
        },
        Ok(h) => h,
    };
    let minted: u128 = mint(amount, p.total_deposited, p.total_deposited_shares);
    if minted > u64::MAX as u128 {
        return None;
    }
    let minted: u64 = minted as u64;
    let total: u64 = match p.total_deposited.checked_add(amount) {
        None => {
            return None;
        },
        Some(t) => t,
    };
    let total_shares: u64 = match p.total_deposited_shares.checked_add(minted) {
        None => {
            return None;
        },
        Some(t) => t,
    };
    let held_amount: u64 = match h.deposited_amount.checked_add(amount) {
        None => {
            return None;
        },
        Some(t) => t,
    };
    let held_shares: u64 = match h.deposited_shares.checked_add(minted) {
        None => {
            return None;
        },
        Some(t) => t,
    };
    let mut after: Position = position;
    after.set_holding(
        pool.asset_id,
        Holding { deposited_amount: held_amount, deposited_shares: held_shares, ..h },
    );
    Some(
        Ok(
            Step {
                pool: PoolState {
                    total_deposited: total,
                    total_deposited_shares: total_shares,
                    ..p
                },
                position: after,
                shares: minted,
            },
        ),
    )
}

/// Whether a deposit of `amount` at `now` keeps every total and balance
/// within 64 bits.
pub fn can_deposit(pool: &Pool, position: &Position, amount: u64, now: i64) -> (b: bool)
    ensures
        b == deposit_fits(pool@, *position, amount, now),
{
    deposit_step(pool.state(), *position, amount, now).is_some()
}

/// Deposits `amount` into `pool` for `position` and returns the shares
/// minted.
///
/// Fails with `InvalidTimestamp`, changing nothing, exactly when `now` is
/// earlier than the last update of the pool or of the position's deposit.
/// The totals and balances that grow must stay within 64 bits, which
/// [`can_deposit`] tells.
pub fn deposit(
    pool: &mut Pool,
    position: &mut Position,
    amount: u64,
    now: i64,
) -> (r: Result<u64, ErrorCode>)
    requires
        deposit_fits(old(pool)@, *old(position), amount, now),
    ensures
        committed(
            r,
            old(pool)@,
            *old(position),
            final(pool)@,
            *final(position),
            deposit_spec(old(pool)@, *old(position), amount, now),
        ),
{
    match deposit_step(pool.state(), *position, amount, now) {
        // Excluded by the precondition: the deposit fits.
        None => Err(ErrorCode::InvalidTimestamp),
        Some(Err(e)) => Err(e),
        Some(Ok(step)) => {
            pool.set(step.pool);
            *position = step.position;
            Ok(step.shares)
        },
    }
}

// ------------------------------------------------------------------ repay

/// A repayment of `amount` to `pool` for `position`, at `now`.
///
/// Interest is applied to the pool and to the position's debt; then the
/// debt is settled. Fails with `InvalidTimestamp` when `now` is earlier
/// than the last update of either, and with `OverRepay` as the settlement
/// does.
pub open spec fn repay_spec(
    pool: PoolState,
    position: Position,
    amount: u64,
    now: i64,
) -> Result<Step, ErrorCode> {
    let asset = pool.asset_id;
    if now < pool.last_updated || now < position.holding_spec(asset).last_updated_borrow {
        Err(ErrorCode::InvalidTimestamp)
    } else {
        let accrued = position.borrow_accrued(asset, pool.interest_rate, now);
        match debt_settled(pool.accrued_to(now), accrued.holding_spec(asset), amount as nat) {
            Err(e) => Err(e),
            Ok(moved) => Ok(
                Step {
                    pool: moved.pool,
                    position: accrued.with_holding(asset, moved.holding),
                    shares: moved.shares,
                },
            ),
        }
    }
}

/// The repayment.
fn repay_step(
    pool: PoolState,
    position: Position,
    amount: u64,
    now: i64,
) -> (r: Result<Step, ErrorCode>)
    requires
        pool.wf(),
    ensures
        r == repay_spec(pool, position, amount, now),
        r matches Ok(step) ==> step.pool.wf(),
{
    let asset = pool.asset_id;
    let p: PoolState = pool.accrue(now)?;
    let mut after: Position = position.accrue_borrow(asset, pool.interest_rate, now)?;
    let moved: Moved = settle_debt(&p, &after.holding(asset), amount)?;
    after.set_holding(asset, moved.holding);
    Ok(Step { pool: moved.pool, position: after, shares: moved.shares })
}

/// Repays `amount` of what `position` owes to `pool` and returns the shares
/// burned.
///
/// Fails, changing nothing: with `InvalidTimestamp` exactly when `now` is
/// earlier than the last update of the pool or of the position's debt;
/// otherwise with `OverRepay` exactly when, after interest, the amount
/// exceeds what the position owes or what the pool is owed, or the shares
/// to burn exceed the position's.
pub fn repay(
    pool: &mut Pool,
    position: &mut Position,
    amount: u64,
    now: i64,
) -> (r: Result<u64, ErrorCode>)
    ensures
        committed(
            r,
            old(pool)@,
            *old(position),
            final(pool)@,
            *final(position),
            repay_spec(old(pool)@, *old(position), amount, now),
        ),
{
    match repay_step(pool.state(), *position, amount, now) {
        Err(e) => Err(e),
        Ok(step) => {
            pool.set(step.pool);
            *position = step.position;
            Ok(step.shares)
        },
    }
}

// --------------------------------------------------------------- withdraw

/// A withdrawal of `amount` from `pool` for `position`, at `now`, the
/// position's debt being in the asset of `debt_pool`.
///
/// Interest is applied to the pool, to the position's deposit and to its
/// debt. Then the amount is taken from the deposit, and the position as it
/// would stand is valued. Fails with `InvalidTimestamp` when `now` is
/// earlier than a last update, with `StaleOrMissing` when a price is too
/// old, with `InsufficientFunds` as taking from the deposit does, and with
/// `OverBorrowableAmount` when what is left would not back the debt.
pub open spec fn withdraw_spec(
    pool: PoolState,
    debt_pool: PoolState,
    position: Position,
    amount: u64,
    now: i64,
    prices: Prices,
) -> Result<Step, ErrorCode> {
    let asset = pool.asset_id;
    let debt_asset = debt_pool.asset_id;
    if now < pool.last_updated || now < position.holding_spec(asset).last_updated_deposit || now
        < position.holding_spec(debt_asset).last_updated_borrow {
        Err(ErrorCode::InvalidTimestamp)
    } else if !prices.fresh(now) {
        Err(ErrorCode::StaleOrMissing)
    } else {
        let accrued = position.deposit_accrued(asset, pool.interest_rate, now).borrow_accrued(
            debt_asset,
            debt_pool.interest_rate,
            now,
        );
        match deposit_taken(pool.accrued_to(now), accrued.holding_spec(asset), amount as nat) {
            Err(e) => Err(e),
            Ok(moved) => {
                let after = accrued.with_holding(asset, moved.holding);
                if undercollateralized(
                    value_of(
                        prices.price_of_spec(asset).value as nat,
                        after.holding_spec(asset).deposited_amount as nat,
                    ),
                    pool.liquidation_threshold as nat,
                    value_of(
                        prices.price_of_spec(debt_asset).value as nat,
                        after.holding_spec(debt_asset).borrowed_amount as nat,
                    ),
                ) {
                    Err(ErrorCode::OverBorrowableAmount)
                } else {
                    Ok(Step { pool: moved.pool, position: after, shares: moved.shares })
                }
            },
        }
    }
}

/// The withdrawal.
fn withdraw_step(
    pool: PoolState,
    debt_pool: PoolState,
    position: Position,
    amount: u64,
    now: i64,
    prices: &Prices,
) -> (r: Result<Step, ErrorCode>)
    requires
        pool.wf(),
    ensures
        r == withdraw_spec(pool, debt_pool, position, amount, now, *prices),
        r matches Ok(step) ==> step.pool.wf(),
{
    let asset = pool.asset_id;
    let debt_asset = debt_pool.asset_id;
    let p: PoolState = pool.accrue(now)?;
    let accrued: Position = position.accrue_deposit(asset, pool.interest_rate, now)?;
    let mut after: Position = accrued.accrue_borrow(debt_asset, debt_pool.interest_rate, now)?;
    if !prices.is_fresh(now) {
        return Err(ErrorCode::StaleOrMissing);
    }
    let moved: Moved = take_deposit(&p, &after.holding(asset), amount)?;
    after.set_holding(asset, moved.holding);
    let collateral: u128 = value(
        prices.price_of(asset).value,
        after.holding(asset).deposited_amount,
    );
    let debt: u128 = value(
        prices.price_of(debt_asset).value,
        after.holding(debt_asset).borrowed_amount,
    );
    if is_undercollateralized(collateral, pool.liquidation_threshold, debt) {
        return Err(ErrorCode::OverBorrowableAmount);
    }
    Ok(Step { pool: moved.pool, position: after, shares: moved.shares })
}

/// Withdraws `amount` of what `position` has deposited in `pool` and
/// returns the shares burned. The position's debt is in the asset of
/// `debt_pool`, whose rate it compounds at.
///
/// Fails, changing nothing, with the first of these that applies:
/// `InvalidTimestamp` when `now` is earlier than the last update of the
/// pool, of the deposit or of the debt; `StaleOrMissing` when a price is
/// older than allowed; `InsufficientFunds` when, after interest, the amount
/// exceeds the deposit or what the pool has not lent, or its shares exceed
/// the position's; `OverBorrowableAmount` when the deposit that is left, at
/// the pool's threshold, is worth less than the debt. Otherwise it
/// succeeds.
pub fn withdraw(
    pool: &mut Pool,
    debt_pool: &Pool,
    position: &mut Position,
    amount: u64,
    now: i64,
    prices: &Prices,
) -> (r: Result<u64, ErrorCode>)
    ensures
        committed(
            r,
            old(pool)@,
            *old(position),
            final(pool)@,
            *final(position),
            withdraw_spec(old(pool)@, debt_pool@, *old(position), amount, now, *prices),
        ),
{
    match withdraw_step(pool.state(), debt_pool.state(), *position, amount, now, prices) {
        Err(e) => Err(e),
        Ok(step) => {
            pool.set(step.pool);
            *position = step.position;
            Ok(step.shares)
        },
    }
}

// ----------------------------------------------------------------- borrow

/// A loan of `amount` from `pool` to `position`, at `now`, backed by the
/// position's deposit in the asset of `collateral_pool`.
///
/// Interest is applied to the pool, to the position's debt and to its
/// collateral. Fails with `InvalidTimestamp` when `now` is earlier than a
/// last update, with `StaleOrMissing` when a price is too old, with
/// `InsufficientFunds` when the amount exceeds what the pool has not lent,
/// and with `OverBorrowableAmount` when the collateral would not back the
/// debt as it would stand. Otherwise shares are minted for the amount, and
/// amount and shares are added to pool and position.
pub open spec fn borrow_spec(
    pool: PoolState,
    collateral_pool: PoolState,
    position: Position,
    amount: u64,
    now: i64,
    prices: Prices,
) -> Result<Step, ErrorCode> {
    let asset = pool.asset_id;
    let collateral_asset = collateral_pool.asset_id;
    if now < pool.last_updated || now < position.holding_spec(asset).last_updated_borrow || now
        < position.holding_spec(collateral_asset).last_updated_deposit {
        Err(ErrorCode::InvalidTimestamp)
    } else if !prices.fresh(now) {
        Err(ErrorCode::StaleOrMissing)
    } else {
        let p = pool.accrued_to(now);
        let accrued = position.borrow_accrued(asset, pool.interest_rate, now).deposit_accrued(
            collateral_asset,
            collateral_pool.interest_rate,
            now,
        );
        let h = accrued.holding_spec(asset);
        let minted = minted_shares(
            amount as nat,
            p.total_borrowed as nat,
            p.total_borrowed_shares as nat,
        );
        if amount > p.reserve() {
            Err(ErrorCode::InsufficientFunds)
        } else if undercollateralized(
            value_of(
                prices.price_of_spec(collateral_asset).value as nat,
                accrued.holding_spec(collateral_asset).deposited_amount as nat,
            ),
            collateral_pool.liquidation_threshold as nat,
            value_of(prices.price_of_spec(asset).value as nat, (h.borrowed_amount + amount) as nat),
        ) {
            Err(ErrorCode::OverBorrowableAmount)
        } else {
            Ok(
                Step {
                    pool: PoolState {
                        total_borrowed: (p.total_borrowed + amount) as u64,
                        total_borrowed_shares: (p.total_borrowed_shares + minted) as u64,
                        ..p
                    },
                    position: accrued.with_holding(
                        asset,
                        Holding {
                            borrowed_amount: (h.borrowed_amount + amount) as u64,
                            borrowed_shares: (h.borrowed_shares + minted) as u64,
                            ..h
                        },
                    ),
                    shares: minted as u64,
                },
            )
        }
    }
}

/// The debt and the shares that a loan adds to stay within 64 bits.
pub open spec fn borrow_fits(pool: PoolState, position: Position, amount: u64, now: i64) -> bool {
    let held = position.holding_spec(pool.asset_id);
    now >= pool.last_updated && now >= held.last_updated_borrow ==> {
        let p = pool.accrued_to(now);
        let h = held.borrow_accrued_to(pool.interest_rate, now);
        let minted = minted_shares(
            amount as nat,
            p.total_borrowed as nat,
            p.total_borrowed_shares as nat,
        );
        &&& p.total_borrowed_shares + minted <= u64::MAX
        &&& h.borrowed_amount + amount <= u64::MAX
        &&& h.borrowed_shares + minted <= u64::MAX
    }
}

/// The loan, or `None` where it does not fit.
fn borrow_step(
    pool: PoolState,
    collateral_pool: PoolState,
    position: Position,
    amount: u64,
    now: i64,
    prices: &Prices,
) -> (r: Option<Result<Step, ErrorCode>>)
    requires
        pool.wf(),
        collateral_pool.wf(),
    ensures
        r is Some <==> borrow_fits(pool, position, amount, now),
        r matches Some(outcome) ==> outcome == borrow_spec(
            pool,
            collateral_pool,
            position,
            amount,
            now,
            *prices,
        ),
        r matches Some(Ok(step)) ==> step.pool.wf(),
{
    let asset = pool.asset_id;
    let collateral_asset = collateral_pool.asset_id;
    let p: PoolState = match pool.accrue(now) {
        Err(e) => {
            return Some(Err(e));
        },
        Ok(p) => p,
    };
    let owing: Position = match position.accrue_borrow(asset, pool.interest_rate, now) {
        Err(e) => {
            return Some(Err(e));
        },
        Ok(q) => q,
    };
    let h: Holding = owing.holding(asset);
    let minted: u128 = mint(amount, p.total_borrowed, p.total_borrowed_shares);
    if minted > u64::MAX as u128 {
        return None;
    }
    let minted: u64 = minted as u64;
    let total_shares: u64 = match p.total_borrowed_shares.checked_add(minted) {
        None => {
            return None;
        },
        Some(t) => t,
    };
    let owed: u64 = match h.borrowed_amount.checked_add(amount) {
        None => {
            return None;
        },
        Some(t) => t,
    };
    let owed_shares: u64 = match h.borrowed_shares.checked_add(minted) {
        None => {
            return None;
        },
        Some(t) => t,
    };
    let accrued: Position = match owing.accrue_deposit(
        collateral_asset,
        collateral_pool.interest_rate,
        now,
    ) {
        Err(e) => {
            return Some(Err(e));
        },
        Ok(q) => q,
    };
    if !prices.is_fresh(now) {
        return Some(Err(ErrorCode::StaleOrMissing));
    }
    if amount > p.available() {
        return Some(Err(ErrorCode::InsufficientFunds));
    }
    let collateral: u128 = value(
        prices.price_of(collateral_asset).value,
        accrued.holding(collateral_asset).deposited_amount,
    );
    let debt: u128 = value(prices.price_of(asset).value, owed);
    if is_undercollateralized(collateral, collateral_pool.liquidation_threshold, debt) {
        return Some(Err(ErrorCode::OverBorrowableAmount));
    }
    let held: Holding = accrued.holding(asset);
    let mut after: Position = accrued;
    after.set_holding(
        asset,
        Holding { borrowed_amount: owed, borrowed_shares: owed_shares, ..held },
    );
    Some(
        Ok(
            Step {
                pool: PoolState {
                    total_borrowed: p.total_borrowed + amount,
                    total_borrowed_shares: total_shares,
                    ..p
                },
                position: after,
                shares: minted,
            },
        ),
    )
}

/// Whether a loan of `amount` at `now` keeps the debt and the shares
/// within 64 bits.
pub fn can_borrow(
    pool: &Pool,
    collateral_pool: &Pool,
    position: &Position,
    amount: u64,
    now: i64,
    prices: &Prices,
) -> (b: bool)
    ensures
        b == borrow_fits(pool@, *position, amount, now),
{
    borrow_step(pool.state(), collateral_pool.state(), *position, amount, now, prices).is_some()
}

/// Lends `amount` from `pool` to `position` and returns the shares minted.
/// The position's collateral is its deposit in the asset of
/// `collateral_pool`, whose rate it compounds at and whose threshold it is
/// counted at.
///
/// Fails, changing nothing, with the first of these that applies:
/// `InvalidTimestamp` when `now` is earlier than the last update of the
/// pool, of the debt or of the collateral; `StaleOrMissing` when a price is
/// older than allowed; `InsufficientFunds` when, after interest, the amount
/// exceeds what the pool has not lent; `OverBorrowableAmount` when the
/// collateral, at its threshold, is worth less than the debt with the
/// amount added. Otherwise it succeeds. The debt and the shares that grow
/// must stay within 64 bits, which [`can_borrow`] tells.
pub fn borrow(
    pool: &mut Pool,
    collateral_pool: &Pool,
    position: &mut Position,
    amount: u64,
    now: i64,
    prices: &Prices,
) -> (r: Result<u64, ErrorCode>)
    requires
        borrow_fits(old(pool)@, *old(position), amount, now),
    ensures
        committed(
            r,
            old(pool)@,
            *old(position),
            final(pool)@,
            *final(position),
            borrow_spec(old(pool)@, collateral_pool@, *old(position), amount, now, *prices),
        ),
{
    match borrow_step(pool.state(), collateral_pool.state(), *position, amount, now, prices) {
        // Excluded by the precondition: the loan fits.
        None => Err(ErrorCode::InvalidTimestamp),
        Some(Err(e)) => Err(e),
        Some(Ok(step)) => {
            pool.set(step.pool);
            *position = step.position;
            Ok(step.shares)
        },
    }
}

} // verus!
