//! The protocol's instructions, each on the accounts that it touches.
//!
//! An instruction takes the state that it reads and writes, decides, and
//! either changes that state and says which tokens are to move, or fails
//! and changes nothing. Moving the tokens is left to the caller.

use vstd::prelude::*;
use crate::error::ErrorCode;
use crate::ledger::{committed, repay, repay_spec};
use crate::liquidation::{liquidate, liquidate_spec, Liquidation, Settlement};
use crate::oracle::{read_both, read_prices, PriceUpdate, MAX_AGE};
use crate::pool::Pool;
use crate::position::Position;
use crate::solvency::Prices;

verus! {

/// The accounts of a repayment: the bank of the asset that is repaid, and
/// the user who repays.
pub struct Repay {
    pub bank_account: Pool,
    pub user_account: Position,
}

/// The accounts of a liquidation: the borrower, the bank that holds the
/// borrower's collateral, the bank that the borrower owes, and the price
/// update of each asset.
pub struct Liquidate {
    pub borrower: Position,
    pub collateral_vault: Pool,
    pub debt_vault: Pool,
    pub usdc_price_update: PriceUpdate,
    pub sol_price_update: PriceUpdate,
}

/// Repays `amount` of what the user owes to the bank, at `now`, and
/// returns the shares burned. The caller moves `amount` from the user to
/// the bank.
///
/// Fails, changing nothing: with `InvalidTimestamp` exactly when `now` is
/// earlier than the last update of the bank or of the user's debt;
/// otherwise with `OverRepay` exactly when, after interest, the amount
/// exceeds what the user owes or what the bank is owed, or the shares to
/// burn exceed the user's.
pub fn process_repay(ctx: &mut Repay, amount: u64, now: i64) -> (r: Result<u64, ErrorCode>)
    ensures
        committed(
            r,
            old(ctx).bank_account@,
            old(ctx).user_account,
            final(ctx).bank_account@,
            final(ctx).user_account,
            repay_spec(old(ctx).bank_account@, old(ctx).user_account, amount, now),
        ),
{
    repay(&mut ctx.bank_account, &mut ctx.user_account, amount, now)
}

/// What a liquidation does on its accounts at `now`: the prices are read
/// from the updates, then the borrower is liquidated at those prices.
pub open spec fn process_liquidate_spec(
    ctx: Liquidate,
    now: i64,
) -> Result<Liquidation, ErrorCode> {
    match read_both(ctx.usdc_price_update, ctx.sol_price_update, MAX_AGE, now) {
        Err(e) => Err(e),
        Ok(prices) => liquidate_spec(
            ctx.collateral_vault@,
            ctx.debt_vault@,
            ctx.borrower,
            now,
            prices,
        ),
    }
}

/// Liquidates the borrower at `now` and returns what the liquidator is to
/// pay into the debt vault and to receive from the collateral vault. The
/// caller moves both amounts.
///
/// Fails, changing nothing, with the first of these that applies:
/// `StaleOrMissing` when a price update is not fully verified, is for
/// another feed, is older than `MAX_AGE` or holds a negative price; then as
/// [`liquidate`] does.
pub fn process_liquidate(ctx: &mut Liquidate, now: i64) -> (r: Result<Settlement, ErrorCode>)
    ensures
        match process_liquidate_spec(*old(ctx), now) {
            Ok(done) => {
                &&& r == Ok::<Settlement, ErrorCode>(done.settlement)
                &&& final(ctx).collateral_vault@ == done.collateral_pool
                &&& final(ctx).debt_vault@ == done.debt_pool
                &&& final(ctx).borrower == done.position
            },
            Err(e) => {
                &&& r == Err::<Settlement, ErrorCode>(e)
                &&& final(ctx).collateral_vault@ == old(ctx).collateral_vault@
                &&& final(ctx).debt_vault@ == old(ctx).debt_vault@
                &&& final(ctx).borrower == old(ctx).borrower
            },
        },
        final(ctx).usdc_price_update == old(ctx).usdc_price_update,
        final(ctx).sol_price_update == old(ctx).sol_price_update,
{
    let prices: Prices = read_prices(&ctx.usdc_price_update, &ctx.sol_price_update, MAX_AGE, now)?;
    liquidate(&mut ctx.collateral_vault, &mut ctx.debt_vault, &mut ctx.borrower, now, &prices)
}

} // verus!
