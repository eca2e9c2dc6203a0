//! The liquidation engine.
//!
//! Anyone may liquidate a position whose health factor is below one. The
//! liquidator repays a fraction of the debt, the debt pool's close factor,
//! and receives that amount and the collateral pool's bonus out of the
//! position's collateral. Both legs are applied together or not at all.

use vstd::prelude::*;
use crate::error::ErrorCode;
use crate::ledger::{deposit_taken, debt_settled, settle_debt, take_deposit, Moved};
use crate::math::{fraction_of, fraction_of_u128, mul_div_u64, BPS};
use crate::pool::{Pool, PoolState};
use crate::position::Position;
use crate::solvency::{is_undercollateralized, undercollateralized, value, value_of, Prices};

verus! {

/// What the liquidator pays and receives.
#[derive(Clone, Copy, Debug, PartialEq, Eq, Structural)]
pub struct Settlement {
    /// Units of the debt asset that the liquidator pays into the debt pool.
    pub repay_amount: u64,
    /// Units of the collateral asset that the liquidator receives from the
    /// collateral pool.
    pub seize_amount: u64,
    /// Shares of the debt pool's loans that were burned.
    pub repaid_shares: u64,
    /// Shares of the collateral pool's deposits that were burned.
    pub seized_shares: u64,
}

/// What a liquidation leaves behind.
#[derive(Clone, Copy, Debug, PartialEq, Eq, Structural)]
pub struct Liquidation {
    pub collateral_pool: PoolState,
    pub debt_pool: PoolState,
    pub position: Position,
    pub settlement: Settlement,
}

/// What one liquidation repays of a debt worth `debt_value`.
pub open spec fn repay_amount_spec(debt_value: nat, close_factor: nat) -> nat {
    fraction_of(debt_value, close_factor)
}

/// What the liquidator receives for repaying `repay`: the amount and the
/// bonus on it.
pub open spec fn seize_amount_spec(repay: nat, bonus: nat) -> nat {
    repay + fraction_of(repay, bonus)
}

/// The collateral's value in a position that is up to date.
pub open spec fn collateral_value(position: Position, pool: PoolState, prices: Prices) -> nat {
    value_of(
        prices.price_of_spec(pool.asset_id).value as nat,
        position.holding_spec(pool.asset_id).deposited_amount as nat,
    )
}

/// The debt's value in a position that is up to date.
pub open spec fn debt_value(position: Position, pool: PoolState, prices: Prices) -> nat {
    value_of(
        prices.price_of_spec(pool.asset_id).value as nat,
        position.holding_spec(pool.asset_id).borrowed_amount as nat,
    )
}

/// The position with interest applied, up to `now`, to its collateral and
/// to its debt.
pub open spec fn brought_up_to_date(
    collateral_pool: PoolState,
    debt_pool: PoolState,
    position: Position,
    now: i64,
) -> Position {
    position.deposit_accrued(
        collateral_pool.asset_id,
        collateral_pool.interest_rate,
        now,
    ).borrow_accrued(debt_pool.asset_id, debt_pool.interest_rate, now)
}

/// No clock reading of pool or position is later than `now`.
pub open spec fn liquidation_timely(
    collateral_pool: PoolState,
    debt_pool: PoolState,
    position: Position,
    now: i64,
) -> bool {
    &&& now >= collateral_pool.last_updated
    &&& now >= debt_pool.last_updated
    &&& now >= position.holding_spec(collateral_pool.asset_id).last_updated_deposit
    &&& now >= position.holding_spec(debt_pool.asset_id).last_updated_borrow
}

/// The liquidation of `position` at `now`, its collateral being what it
/// has deposited in `collateral_pool` and its debt what it owes to
/// `debt_pool`.
///
/// Interest is applied to both pools, to the collateral and to the debt.
/// Fails with `InvalidTimestamp` when `now` is earlier than a last update,
/// with `StaleOrMissing` when a price is too old, and with
/// `NotUnderCollaterized` when the health factor is at least one. Then the
/// debt pool's close factor of the debt's value is repaid, which fails with
/// `OverRepay` as settling a debt does, and that amount with the collateral
/// pool's bonus is seized, which fails with `InsufficientFunds` as taking
/// from a deposit does.
pub open spec fn liquidate_spec(
    collateral_pool: PoolState,
    debt_pool: PoolState,
    position: Position,
    now: i64,
    prices: Prices,
) -> Result<Liquidation, ErrorCode> {
    if !liquidation_timely(collateral_pool, debt_pool, position, now) {
        Err(ErrorCode::InvalidTimestamp)
    } else if !prices.fresh(now) {
        Err(ErrorCode::StaleOrMissing)
    } else {
        let accrued = brought_up_to_date(collateral_pool, debt_pool, position, now);
        let owed = debt_value(accrued, debt_pool, prices);
        if !undercollateralized(
            collateral_value(accrued, collateral_pool, prices),
            collateral_pool.liquidation_threshold as nat,
            owed,
        ) {
            Err(ErrorCode::NotUnderCollaterized)
        } else {
            let repay = repay_amount_spec(owed, debt_pool.liquidation_close_factor as nat);
            match debt_settled(
                debt_pool.accrued_to(now),
                accrued.holding_spec(debt_pool.asset_id),
                repay,
            ) {
                Err(e) => Err(e),
                Ok(repaid) => {
                    let relieved = accrued.with_holding(debt_pool.asset_id, repaid.holding);
                    let seize = seize_amount_spec(
                        repay,
                        collateral_pool.liquidation_bonus as nat,
                    );
                    match deposit_taken(
                        collateral_pool.accrued_to(now),
                        relieved.holding_spec(collateral_pool.asset_id),
                        seize,
                    ) {
                        Err(e) => Err(e),
                        Ok(seized) => Ok(
                            Liquidation {
                                collateral_pool: seized.pool,
                                debt_pool: repaid.pool,
                                position: relieved.with_holding(
                                    collateral_pool.asset_id,
                                    seized.holding,
                                ),
                                settlement: Settlement {
                                    repay_amount: repay as u64,
                                    seize_amount: seize as u64,
                                    repaid_shares: repaid.shares,
                                    seized_shares: seized.shares,
                                },
                            },
                        ),
                    }
                },
            }
        }
    }
}

/// The liquidation.
fn liquidate_step(
    collateral_pool: PoolState,
    debt_pool: PoolState,
    position: Position,
    now: i64,
    prices: &Prices,
) -> (r: Result<Liquidation, ErrorCode>)
    requires
        collateral_pool.wf(),
        debt_pool.wf(),
    ensures
        r == liquidate_spec(collateral_pool, debt_pool, position, now, *prices),
        r matches Ok(done) ==> done.collateral_pool.wf() && done.debt_pool.wf(),
{
    let collateral_asset = collateral_pool.asset_id;
    let debt_asset = debt_pool.asset_id;
    let cp: PoolState = collateral_pool.accrue(now)?;
    let dp: PoolState = debt_pool.accrue(now)?;
    let secured: Position = position.accrue_deposit(
        collateral_asset,
        collateral_pool.interest_rate,
        now,
    )?;
    let mut after: Position = secured.accrue_borrow(debt_asset, debt_pool.interest_rate, now)?;
    if !prices.is_fresh(now) {
        return Err(ErrorCode::StaleOrMissing);
    }
    let backing: u128 = value(
        prices.price_of(collateral_asset).value,
        after.holding(collateral_asset).deposited_amount,
    );
    let owed: u128 = value(
        prices.price_of(debt_asset).value,
        after.holding(debt_asset).borrowed_amount,
    );
    if !is_undercollateralized(backing, collateral_pool.liquidation_threshold, owed) {
        return Err(ErrorCode::NotUnderCollaterized);
    }
    let repay: u128 = fraction_of_u128(owed, debt_pool.liquidation_close_factor);
    if repay > after.holding(debt_asset).borrowed_amount as u128 {
        return Err(ErrorCode::OverRepay);
    }
    let repay: u64 = repay as u64;
    let repaid: Moved = settle_debt(&dp, &after.holding(debt_asset), repay)?;
    after.set_holding(debt_asset, repaid.holding);
    let bonus: u128 = mul_div_u64(repay, collateral_pool.liquidation_bonus, BPS);
    assert(bonus + repay <= u128::MAX) by (nonlinear_arith)
        requires
            bonus == (repay as nat * collateral_pool.liquidation_bonus as nat) / (BPS as nat),
            BPS == 10_000,
            repay <= u64::MAX,
            collateral_pool.liquidation_bonus <= u64::MAX,
    ;
    let seize: u128 = repay as u128 + bonus;
    if seize > after.holding(collateral_asset).deposited_amount as u128 {
        return Err(ErrorCode::InsufficientFunds);
    }
    let seize: u64 = seize as u64;
    let seized: Moved = take_deposit(&cp, &after.holding(collateral_asset), seize)?;
    after.set_holding(collateral_asset, seized.holding);
    Ok(
        Liquidation {
            collateral_pool: seized.pool,
            debt_pool: repaid.pool,
            position: after,
            settlement: Settlement {
                repay_amount: repay,
                seize_amount: seize,
                repaid_shares: repaid.shares,
                seized_shares: seized.shares,
            },
        },
    )
}

/// Liquidates `position`: repays part of what it owes to `debt_pool` and
/// seizes, with a bonus, from what it has deposited in `collateral_pool`.
/// Returns what the liquidator is to pay and to receive.
///
/// Fails, changing nothing, with the first of these that applies:
/// `InvalidTimestamp` when `now` is earlier than the last update of a pool,
/// of the collateral or of the debt; `StaleOrMissing` when a price is older
/// than allowed; `NotUnderCollaterized` when the health factor is at least
/// one; `OverRepay` when the amount to repay exceeds what the position owes
/// or the debt pool is owed, or its shares exceed the position's;
/// `InsufficientFunds` when the amount to seize exceeds the collateral or
/// what the collateral pool has not lent, or its shares exceed the
/// position's. Otherwise it succeeds, and both legs are applied.
pub fn liquidate(
    collateral_pool: &mut Pool,
    debt_pool: &mut Pool,
    position: &mut Position,
    now: i64,
    prices: &Prices,
) -> (r: Result<Settlement, ErrorCode>)
    ensures
        match liquidate_spec(old(collateral_pool)@, old(debt_pool)@, *old(position), now, *prices) {
            Ok(done) => {
                &&& r == Ok::<Settlement, ErrorCode>(done.settlement)
                &&& final(collateral_pool)@ == done.collateral_pool
                &&& final(debt_pool)@ == done.debt_pool
                &&& *final(position) == done.position
            },
            Err(e) => {
                &&& r == Err::<Settlement, ErrorCode>(e)
                &&& final(collateral_pool)@ == old(collateral_pool)@
                &&& final(debt_pool)@ == old(debt_pool)@
                &&& *final(position) == *old(position)
            },
        },
{
    match liquidate_step(collateral_pool.state(), debt_pool.state(), *position, now, prices) {
        Err(e) => Err(e),
        Ok(done) => {
            collateral_pool.set(done.collateral_pool);
            debt_pool.set(done.debt_pool);
            *position = done.position;
            Ok(done.settlement)
        },
    }
}

} // verus!
