//! What holds of the protocol as a whole.
//!
//! Each law is stated over the functions that the contracts of the
//! operations are stated over, and proved from their definitions.

use vstd::prelude::*;
use crate::accrual::{
    accrued, accrued_balance, factor_parts, growth_factor_spec,
    lemma_accrued_monotone_in_factor, lemma_accrued_properties, lemma_growth_at_least_one,
    lemma_growth_at_least_simple, lemma_growth_monotone, lemma_no_time_no_growth, FACTOR_SCALE,
};
use crate::error::ErrorCode;
use crate::ledger::{
    borrow_fits, borrow_spec, burned_shares, debt_settled, deposit_fits, deposit_spec,
    deposit_taken, minted_shares, repay_spec, withdraw_spec, Moved,
};
use crate::liquidation::{
    brought_up_to_date, collateral_value, debt_value, liquidate_spec, liquidation_timely,
    repay_amount_spec, seize_amount_spec,
};
use crate::math::{lemma_mint_then_burn, lemma_share_bounds};
use crate::pool::{lemma_accrual_keeps_wf, PoolState};
use crate::position::{Holding, Position};
use crate::solvency::{undercollateralized, Prices};

verus! {

// ------------------------------------------------- how amounts and shares move

/// Between `before` and `after`, pool and holding gained or lost the same
/// shares on each side.
pub open spec fn moved_together(
    before: Holding,
    pool_before: PoolState,
    after: Holding,
    pool_after: PoolState,
) -> bool {
    &&& pool_after.total_deposited_shares - pool_before.total_deposited_shares
        == after.deposited_shares - before.deposited_shares
    &&& pool_after.total_borrowed_shares - pool_before.total_borrowed_shares
        == after.borrowed_shares - before.borrowed_shares
}

/// `moved` is `pool` and `holding` with `amount` and its shares taken from
/// the debt and nothing else touched, and its pool is well formed.
pub open spec fn debt_in_order(
    pool: PoolState,
    holding: Holding,
    amount: nat,
    moved: Moved,
) -> bool {
    &&& moved.pool.wf()
    &&& moved_together(holding, pool, moved.holding, moved.pool)
    &&& moved.pool.total_borrowed == pool.total_borrowed - amount
    &&& moved.holding.borrowed_amount == holding.borrowed_amount - amount
    &&& moved.pool.total_borrowed_shares == pool.total_borrowed_shares - moved.shares
    &&& moved.pool.total_deposited == pool.total_deposited
    &&& moved.pool.total_deposited_shares == pool.total_deposited_shares
}

/// `moved` is `pool` and `holding` with `amount` and its shares taken from
/// the deposit and nothing else touched, and its pool is well formed.
pub open spec fn deposit_in_order(
    pool: PoolState,
    holding: Holding,
    amount: nat,
    moved: Moved,
) -> bool {
    &&& moved.pool.wf()
    &&& moved_together(holding, pool, moved.holding, moved.pool)
    &&& moved.pool.total_deposited == pool.total_deposited - amount
    &&& moved.holding.deposited_amount == holding.deposited_amount - amount
    &&& moved.pool.total_deposited_shares == pool.total_deposited_shares - moved.shares
    &&& moved.pool.total_borrowed == pool.total_borrowed
    &&& moved.pool.total_borrowed_shares == pool.total_borrowed_shares
}

/// Settling a debt takes amount and shares from pool and holding alike
/// and keeps the pool well formed.
pub proof fn lemma_debt_settled_keeps_order(pool: PoolState, holding: Holding, amount: nat)
    requires
        pool.wf(),
    ensures
        debt_settled(pool, holding, amount) matches Ok(moved) ==> debt_in_order(
            pool,
            holding,
            amount,
            moved,
        ),
{
    if pool.total_borrowed > 0 && amount <= pool.total_borrowed {
        lemma_share_bounds(amount, pool.total_borrowed_shares as nat, pool.total_borrowed as nat);
    }
}

/// Taking from a deposit takes amount and shares from pool and holding
/// alike and keeps the pool well formed.
pub proof fn lemma_deposit_taken_keeps_order(pool: PoolState, holding: Holding, amount: nat)
    requires
        pool.wf(),
    ensures
        deposit_taken(pool, holding, amount) matches Ok(moved) ==> deposit_in_order(
            pool,
            holding,
            amount,
            moved,
        ),
{
    if pool.total_deposited > 0 && amount <= pool.total_deposited {
        lemma_share_bounds(
            amount,
            pool.total_deposited_shares as nat,
            pool.total_deposited as nat,
        );
    }
}

/// The two legs of a liquidation, each in order: the debt is settled
/// against the debt pool as interest left it, and the collateral is taken
/// from the collateral pool as interest left it.
pub proof fn lemma_liquidation_legs(
    collateral_pool: PoolState,
    debt_pool: PoolState,
    position: Position,
    now: i64,
    prices: Prices,
)
    requires
        collateral_pool.wf(),
        debt_pool.wf(),
        now >= collateral_pool.last_updated,
        now >= debt_pool.last_updated,
    ensures
        ({
            let accrued = brought_up_to_date(collateral_pool, debt_pool, position, now);
            let repay = repay_amount_spec(
                debt_value(accrued, debt_pool, prices),
                debt_pool.liquidation_close_factor as nat,
            );
            let seize = seize_amount_spec(repay, collateral_pool.liquidation_bonus as nat);
            let owing = accrued.holding_spec(debt_pool.asset_id);
            debt_settled(debt_pool.accrued_to(now), owing, repay) matches Ok(repaid) ==> {
                let secured = accrued.with_holding(
                    debt_pool.asset_id,
                    repaid.holding,
                ).holding_spec(collateral_pool.asset_id);
                &&& debt_in_order(debt_pool.accrued_to(now), owing, repay, repaid)
                &&& deposit_taken(collateral_pool.accrued_to(now), secured, seize) matches Ok(
                    seized,
                ) ==> deposit_in_order(collateral_pool.accrued_to(now), secured, seize, seized)
            }
        }),
{
    let accrued = brought_up_to_date(collateral_pool, debt_pool, position, now);
    let repay = repay_amount_spec(
        debt_value(accrued, debt_pool, prices),
        debt_pool.liquidation_close_factor as nat,
    );
    let seize = seize_amount_spec(repay, collateral_pool.liquidation_bonus as nat);
    let owing = accrued.holding_spec(debt_pool.asset_id);
    lemma_accrual_keeps_wf(collateral_pool, now);
    lemma_accrual_keeps_wf(debt_pool, now);
    lemma_debt_settled_keeps_order(debt_pool.accrued_to(now), owing, repay);
    match debt_settled(debt_pool.accrued_to(now), owing, repay) {
        Ok(repaid) => {
            lemma_deposit_taken_keeps_order(
                collateral_pool.accrued_to(now),
                accrued.with_holding(debt_pool.asset_id, repaid.holding).holding_spec(
                    collateral_pool.asset_id,
                ),
                seize,
            );
        },
        Err(_) => {},
    }
}

/// Every operation that succeeds on well-formed pools leaves them well
/// formed, and moves shares in pool and holding alike.
pub proof fn lemma_operations_keep_order(
    pool: PoolState,
    other: PoolState,
    position: Position,
    amount: u64,
    now: i64,
    prices: Prices,
)
    requires
        pool.wf(),
        other.wf(),
    ensures
        now >= pool.last_updated ==> pool.accrued_to(now).wf(),
        deposit_fits(pool, position, amount, now) ==> (deposit_spec(
            pool,
            position,
            amount,
            now,
        ) matches Ok(step) ==> step.pool.wf() && moved_together(
            position.holding_spec(pool.asset_id),
            pool,
            step.position.holding_spec(pool.asset_id),
            step.pool,
        )),
        withdraw_spec(pool, other, position, amount, now, prices) matches Ok(step)
            ==> step.pool.wf() && moved_together(
            position.holding_spec(pool.asset_id),
            pool,
            step.position.holding_spec(pool.asset_id),
            step.pool,
        ),
        borrow_fits(pool, position, amount, now) ==> (borrow_spec(
            pool,
            other,
            position,
            amount,
            now,
            prices,
        ) matches Ok(step) ==> step.pool.wf() && moved_together(
            position.holding_spec(pool.asset_id),
            pool,
            step.position.holding_spec(pool.asset_id),
            step.pool,
        )),
        repay_spec(pool, position, amount, now) matches Ok(step) ==> step.pool.wf()
            && moved_together(
            position.holding_spec(pool.asset_id),
            pool,
            step.position.holding_spec(pool.asset_id),
            step.pool,
        ),
        liquidate_spec(pool, other, position, now, prices) matches Ok(done) ==> {
            &&& done.collateral_pool.wf()
            &&& done.debt_pool.wf()
            &&& pool.asset_id != other.asset_id ==> moved_together(
                position.holding_spec(pool.asset_id),
                pool,
                done.position.holding_spec(pool.asset_id),
                done.collateral_pool,
            ) && moved_together(
                position.holding_spec(other.asset_id),
                other,
                done.position.holding_spec(other.asset_id),
                done.debt_pool,
            )
        },
{
    if now >= pool.last_updated {
        let asset = pool.asset_id;
        lemma_accrual_keeps_wf(pool, now);
        lemma_debt_settled_keeps_order(
            pool.accrued_to(now),
            position.borrow_accrued(asset, pool.interest_rate, now).holding_spec(asset),
            amount as nat,
        );
        lemma_deposit_taken_keeps_order(
            pool.accrued_to(now),
            position.deposit_accrued(asset, pool.interest_rate, now).borrow_accrued(
                other.asset_id,
                other.interest_rate,
                now,
            ).holding_spec(asset),
            amount as nat,
        );
        if now >= other.last_updated {
            lemma_liquidation_legs(pool, other, position, now, prices);
        }
    }
}

// ------------------------------------------------------ the pool invariant

/// In every pool, at all times, shares and amounts are zero together and
/// no more is lent than is held: each operation that succeeds on a
/// well-formed pool leaves a well-formed pool.
pub proof fn law_pools_stay_well_formed(
    pool: PoolState,
    other: PoolState,
    position: Position,
    amount: u64,
    now: i64,
    prices: Prices,
)
    requires
        pool.wf(),
        other.wf(),
    ensures
        now >= pool.last_updated ==> pool.accrued_to(now).wf(),
        deposit_fits(pool, position, amount, now) ==> (deposit_spec(
            pool,
            position,
            amount,
            now,
        ) matches Ok(step) ==> step.pool.wf()),
        withdraw_spec(pool, other, position, amount, now, prices) matches Ok(step)
            ==> step.pool.wf(),
        borrow_fits(pool, position, amount, now) ==> (borrow_spec(
            pool,
            other,
            position,
            amount,
            now,
            prices,
        ) matches Ok(step) ==> step.pool.wf()),
        repay_spec(pool, position, amount, now) matches Ok(step) ==> step.pool.wf(),
        liquidate_spec(pool, other, position, now, prices) matches Ok(done)
            ==> done.collateral_pool.wf() && done.debt_pool.wf(),
{
    lemma_operations_keep_order(pool, other, position, amount, now, prices);
}

/// Deposits move by what is deposited, withdrawn or seized, and by nothing
/// else. Applying interest leaves a pool's deposited total and its shares
/// as they are, and so do repaying and borrowing. A deposit adds its
/// amount, a withdrawal takes its amount, and a liquidation takes the
/// seized amount from the collateral pool's deposits and leaves the debt
/// pool's deposits as they are.
pub proof fn law_deposits_move_by_amounts_only(
    pool: PoolState,
    other: PoolState,
    position: Position,
    amount: u64,
    now: i64,
    prices: Prices,
)
    requires
        pool.wf(),
        other.wf(),
    ensures
        pool.accrued_to(now).total_deposited == pool.total_deposited,
        pool.accrued_to(now).total_deposited_shares == pool.total_deposited_shares,
        pool.accrued_to(now).total_borrowed_shares == pool.total_borrowed_shares,
        repay_spec(pool, position, amount, now) matches Ok(step) ==> {
            &&& step.pool.total_deposited == pool.total_deposited
            &&& step.pool.total_deposited_shares == pool.total_deposited_shares
        },
        borrow_fits(pool, position, amount, now) ==> (borrow_spec(
            pool,
            other,
            position,
            amount,
            now,
            prices,
        ) matches Ok(step) ==> {
            &&& step.pool.total_deposited == pool.total_deposited
            &&& step.pool.total_deposited_shares == pool.total_deposited_shares
        }),
        deposit_fits(pool, position, amount, now) ==> (deposit_spec(
            pool,
            position,
            amount,
            now,
        ) matches Ok(step) ==> step.pool.total_deposited == pool.total_deposited + amount),
        withdraw_spec(pool, other, position, amount, now, prices) matches Ok(step)
            ==> step.pool.total_deposited == pool.total_deposited - amount,
        liquidate_spec(pool, other, position, now, prices) matches Ok(done) ==> {
            &&& done.collateral_pool.total_deposited == pool.total_deposited
                - done.settlement.seize_amount
            &&& done.collateral_pool.total_deposited_shares == pool.total_deposited_shares
                - done.settlement.seized_shares
            &&& done.debt_pool.total_deposited == other.total_deposited
            &&& done.debt_pool.total_deposited_shares == other.total_deposited_shares
        },
{
    if now >= pool.last_updated {
        let asset = pool.asset_id;
        lemma_accrual_keeps_wf(pool, now);
        lemma_debt_settled_keeps_order(
            pool.accrued_to(now),
            position.borrow_accrued(asset, pool.interest_rate, now).holding_spec(asset),
            amount as nat,
        );
        lemma_deposit_taken_keeps_order(
            pool.accrued_to(now),
            position.deposit_accrued(asset, pool.interest_rate, now).borrow_accrued(
                other.asset_id,
                other.interest_rate,
                now,
            ).holding_spec(asset),
            amount as nat,
        );
        if now >= other.last_updated {
            lemma_accrual_keeps_wf(other, now);
            lemma_liquidation_legs(pool, other, position, now, prices);
        }
    }
}

/// A position's shares never exceed the pool's: each operation that
/// succeeds on a holding whose shares are within the pool's leaves them
/// within the pool's.
pub proof fn law_shares_stay_within(
    pool: PoolState,
    other: PoolState,
    position: Position,
    amount: u64,
    now: i64,
    prices: Prices,
)
    requires
        pool.wf(),
        other.wf(),
        position.holding_spec(pool.asset_id).within(pool),
    ensures
        deposit_fits(pool, position, amount, now) ==> (deposit_spec(
            pool,
            position,
            amount,
            now,
        ) matches Ok(step) ==> step.position.holding_spec(pool.asset_id).within(step.pool)),
        withdraw_spec(pool, other, position, amount, now, prices) matches Ok(step)
            ==> step.position.holding_spec(pool.asset_id).within(step.pool),
        borrow_fits(pool, position, amount, now) ==> (borrow_spec(
            pool,
            other,
            position,
            amount,
            now,
            prices,
        ) matches Ok(step) ==> step.position.holding_spec(pool.asset_id).within(step.pool)),
        repay_spec(pool, position, amount, now) matches Ok(step) ==> step.position.holding_spec(
            pool.asset_id,
        ).within(step.pool),
        pool.asset_id != other.asset_id && position.holding_spec(other.asset_id).within(other)
            ==> (liquidate_spec(pool, other, position, now, prices) matches Ok(done) ==> {
            &&& done.position.holding_spec(pool.asset_id).within(done.collateral_pool)
            &&& done.position.holding_spec(other.asset_id).within(done.debt_pool)
        }),
{
    lemma_operations_keep_order(pool, other, position, amount, now, prices);
}

/// Two holdings of one asset hold, together, no more shares than the pool
/// has issued.
pub open spec fn share_within(holding: Holding, bystander: Holding, pool: PoolState) -> bool {
    &&& holding.deposited_shares + bystander.deposited_shares <= pool.total_deposited_shares
    &&& holding.borrowed_shares + bystander.borrowed_shares <= pool.total_borrowed_shares
}

/// What one user does takes nothing from another: where the holding that
/// an operation touches and any other holding of that asset were, together,
/// within the pool's shares, they still are after the operation.
pub proof fn law_bystanders_keep_their_shares(
    pool: PoolState,
    other: PoolState,
    position: Position,
    bystander: Holding,
    other_bystander: Holding,
    amount: u64,
    now: i64,
    prices: Prices,
)
    requires
        pool.wf(),
        other.wf(),
        share_within(position.holding_spec(pool.asset_id), bystander, pool),
    ensures
        deposit_fits(pool, position, amount, now) ==> (deposit_spec(
            pool,
            position,
            amount,
            now,
        ) matches Ok(step) ==> share_within(
            step.position.holding_spec(pool.asset_id),
            bystander,
            step.pool,
        )),
        withdraw_spec(pool, other, position, amount, now, prices) matches Ok(step)
            ==> share_within(step.position.holding_spec(pool.asset_id), bystander, step.pool),
        borrow_fits(pool, position, amount, now) ==> (borrow_spec(
            pool,
            other,
            position,
            amount,
            now,
            prices,
        ) matches Ok(step) ==> share_within(
            step.position.holding_spec(pool.asset_id),
            bystander,
            step.pool,
        )),
        repay_spec(pool, position, amount, now) matches Ok(step) ==> share_within(
            step.position.holding_spec(pool.asset_id),
            bystander,
            step.pool,
        ),
        pool.asset_id != other.asset_id && share_within(
            position.holding_spec(other.asset_id),
            other_bystander,
            other,
        ) ==> (liquidate_spec(pool, other, position, now, prices) matches Ok(done) ==> {
            &&& share_within(
                done.position.holding_spec(pool.asset_id),
                bystander,
                done.collateral_pool,
            )
            &&& share_within(
                done.position.holding_spec(other.asset_id),
                other_bystander,
                done.debt_pool,
            )
        }),
{
    lemma_operations_keep_order(pool, other, position, amount, now, prices);
}

// ------------------------------------------------------------- round trip

/// Depositing `amount` and at once withdrawing it burns the shares that
/// were minted and leaves the pool as interest had left it before the
/// deposit. The withdrawal never fails for lack of funds, and it returns
/// to the position's deposit what interest had made of it.
pub proof fn law_deposit_then_withdraw(
    pool: PoolState,
    debt_pool: PoolState,
    position: Position,
    amount: u64,
    now: i64,
    prices: Prices,
)
    requires
        pool.wf(),
        deposit_fits(pool, position, amount, now),
        deposit_spec(pool, position, amount, now) is Ok,
    ensures
        ({
            let deposited = deposit_spec(pool, position, amount, now).unwrap();
            let back = withdraw_spec(
                deposited.pool,
                debt_pool,
                deposited.position,
                amount,
                now,
                prices,
            );
            let before = position.holding_spec(pool.asset_id).deposit_accrued_to(
                pool.interest_rate,
                now,
            );
            &&& back != Err::<crate::ledger::Step, ErrorCode>(ErrorCode::InsufficientFunds)
            &&& back matches Ok(step) ==> {
                &&& step.shares == deposited.shares
                &&& step.pool == pool.accrued_to(now)
                &&& step.position.holding_spec(pool.asset_id).deposited_amount
                    == before.deposited_amount
                &&& step.position.holding_spec(pool.asset_id).deposited_shares
                    == before.deposited_shares
            }
        }),
{
    let asset = pool.asset_id;
    let p = pool.accrued_to(now);
    let h = position.holding_spec(asset).deposit_accrued_to(pool.interest_rate, now);
    let deposited = deposit_spec(pool, position, amount, now).unwrap();
    let t = p.total_deposited as nat;
    let s = p.total_deposited_shares as nat;
    let m = minted_shares(amount as nat, t, s);
    lemma_accrual_keeps_wf(pool, now);
    // Over no time nothing grows.
    lemma_no_time_no_growth(deposited.pool.total_borrowed as nat, pool.interest_rate as nat);
    lemma_no_time_no_growth((h.deposited_amount + amount) as nat, pool.interest_rate as nat);
    assert(deposited.pool.accrued_to(now) == deposited.pool);
    // What is burned is what was minted.
    if s == 0 {
        if amount > 0 {
            assert((amount as nat * amount as nat) / (amount as nat) == amount as nat)
                by (nonlinear_arith)
                requires
                    amount > 0,
            ;
        }
    } else {
        lemma_mint_then_burn(amount as nat, s, t);
    }
    assert(burned_shares(amount as nat, (t + amount) as nat, (s + m) as nat) == m);
}

// ---------------------------------------------------------------- accrual

/// Applying interest twice at the same time is applying it once.
pub proof fn law_accrual_is_idempotent(pool: PoolState, holding: Holding, rate: u64, now: i64)
    ensures
        pool.accrued_to(now).accrued_to(now) == pool.accrued_to(now),
        holding.deposit_accrued_to(rate, now).deposit_accrued_to(rate, now)
            == holding.deposit_accrued_to(rate, now),
        holding.borrow_accrued_to(rate, now).borrow_accrued_to(rate, now)
            == holding.borrow_accrued_to(rate, now),
{
    let p = pool.accrued_to(now);
    lemma_no_time_no_growth(p.total_borrowed as nat, pool.interest_rate as nat);
    lemma_no_time_no_growth(
        holding.deposit_accrued_to(rate, now).deposited_amount as nat,
        rate as nat,
    );
    lemma_no_time_no_growth(
        holding.borrow_accrued_to(rate, now).borrowed_amount as nat,
        rate as nat,
    );
}

/// A balance never shrinks, and the longer it stands the larger it is:
/// the accrued balance does not decrease as the elapsed time grows.
pub proof fn law_accrual_is_monotone(balance: u64, rate: u64, earlier: nat, later: nat)
    requires
        earlier <= later,
    ensures
        balance <= accrued_balance(balance as nat, rate as nat, earlier),
        accrued_balance(balance as nat, rate as nat, earlier) <= accrued_balance(
            balance as nat,
            rate as nat,
            later,
        ),
{
    let x = rate as nat * earlier;
    let y = rate as nat * later;
    assert(x <= y) by (nonlinear_arith)
        requires
            x == rate as nat * earlier,
            y == rate as nat * later,
            earlier <= later,
    ;
    lemma_growth_monotone(x, y);
    lemma_growth_at_least_one(x);
    lemma_accrued_properties(balance as nat, balance as nat, growth_factor_spec(x));
    lemma_accrued_monotone_in_factor(
        balance as nat,
        growth_factor_spec(x),
        growth_factor_spec(y),
    );
}

/// Compounding never yields less than simple interest: a balance grows at
/// least by the factor `1 + rate * elapsed`.
pub proof fn law_compound_at_least_simple(balance: u64, rate: u64, elapsed: nat)
    ensures
        accrued_balance(balance as nat, rate as nat, elapsed) >= accrued(
            balance as nat,
            FACTOR_SCALE as nat + factor_parts(rate as nat * elapsed),
        ),
{
    let x = rate as nat * elapsed;
    lemma_growth_at_least_simple(x);
    lemma_accrued_monotone_in_factor(
        balance as nat,
        FACTOR_SCALE as nat + factor_parts(x),
        growth_factor_spec(x),
    );
}

// ------------------------------------------------------------ liquidation

/// The liquidation gate. With clocks and prices in order, a position whose
/// health factor is at least one is never liquidated: the attempt fails
/// with `NotUnderCollaterized`. A position whose health factor is below
/// one is liquidated, both legs applied, whenever the amount to repay can
/// be settled against the debt and the amount to seize can be taken from
/// the collateral and the collateral pool's reserve. Then the debt pool is
/// owed less by the amount repaid, and the collateral pool's deposits are
/// what they were before the liquidation, less the amount seized.
pub proof fn law_liquidation_gate(
    collateral_pool: PoolState,
    debt_pool: PoolState,
    position: Position,
    now: i64,
    prices: Prices,
)
    requires
        collateral_pool.wf(),
        debt_pool.wf(),
        liquidation_timely(collateral_pool, debt_pool, position, now),
        prices.fresh(now),
    ensures
        ({
            let accrued = brought_up_to_date(collateral_pool, debt_pool, position, now);
            let owed = debt_value(accrued, debt_pool, prices);
            let unhealthy = undercollateralized(
                collateral_value(accrued, collateral_pool, prices),
                collateral_pool.liquidation_threshold as nat,
                owed,
            );
            let repay = repay_amount_spec(owed, debt_pool.liquidation_close_factor as nat);
            let seize = seize_amount_spec(repay, collateral_pool.liquidation_bonus as nat);
            let outcome = liquidate_spec(collateral_pool, debt_pool, position, now, prices);
            &&& !unhealthy <==> outcome == Err::<crate::liquidation::Liquidation, ErrorCode>(
                ErrorCode::NotUnderCollaterized,
            )
            &&& unhealthy ==> (debt_settled(
                debt_pool.accrued_to(now),
                accrued.holding_spec(debt_pool.asset_id),
                repay,
            ) matches Ok(repaid) ==> (deposit_taken(
                collateral_pool.accrued_to(now),
                accrued.with_holding(debt_pool.asset_id, repaid.holding).holding_spec(
                    collateral_pool.asset_id,
                ),
                seize,
            ) matches Ok(seized) ==> {
                &&& outcome matches Ok(done)
                &&& done.settlement.repay_amount == repay
                &&& done.settlement.seize_amount == seize
                &&& done.debt_pool.total_borrowed == debt_pool.owed_at(now) - repay
                &&& done.debt_pool.total_deposited == debt_pool.total_deposited
                &&& done.collateral_pool.total_deposited == collateral_pool.total_deposited
                    - seize
                &&& done.collateral_pool.wf()
                &&& done.debt_pool.wf()
            }))
        }),
{
    lemma_accrual_keeps_wf(collateral_pool, now);
    lemma_accrual_keeps_wf(debt_pool, now);
    lemma_liquidation_legs(collateral_pool, debt_pool, position, now, prices);
}

} // verus!
