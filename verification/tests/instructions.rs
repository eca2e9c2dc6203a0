use lending::asset::Asset;
use lending::error::ErrorCode;
use lending::instructions::{process_liquidate, process_repay, Liquidate, Repay};
use lending::liquidation::Settlement;
use lending::oracle::{PriceUpdate, Verification, MAX_AGE};
use lending::pool::{Pool, PoolState};
use lending::position::Position;

const SOL_FEED_ID: [u8; 32] = [
    0xef, 0x0d, 0x8b, 0x6f, 0xda, 0x2c, 0xeb, 0xa4, 0x1d, 0xa1, 0x5d, 0x40, 0x95, 0xd1, 0xda, 0x39,
    0x2a, 0x0d, 0x2f, 0x8e, 0xd0, 0xc6, 0xc7, 0xbc, 0x0f, 0x4c, 0xfa, 0xc8, 0xc2, 0x80, 0xb5, 0x6d,
];

const USDC_FEED_ID: [u8; 32] = [
    0xea, 0xa0, 0x20, 0xc6, 0x1c, 0xc4, 0x79, 0x71, 0x28, 0x13, 0x46, 0x1c, 0xe1, 0x53, 0x89, 0x4a,
    0x96, 0xa6, 0xc0, 0x0b, 0x21, 0xed, 0x0c, 0xfc, 0x27, 0x98, 0xd1, 0xf9, 0xa9, 0xe9, 0xc9, 0x4a,
];

fn account(asset: Asset, deposited: u64, borrowed: u64) -> PoolState {
    PoolState {
        asset_id: asset,
        total_deposited: deposited,
        total_deposited_shares: deposited,
        total_borrowed: borrowed,
        total_borrowed_shares: borrowed,
        interest_rate: 0,
        last_updated: 0,
        liquidation_threshold: 8_000,
        liquidation_bonus: 1_000,
        liquidation_close_factor: 5_000,
    }
}

fn posted(feed_id: [u8; 32], price: i64, publish_time: i64) -> PriceUpdate {
    PriceUpdate { verification: Verification::Full, feed_id, price, publish_time }
}

fn user(deposited_sol: u64, borrowed_usdc: u64) -> Position {
    let mut position = Position::empty(0);
    position.sol.deposited_amount = deposited_sol;
    position.sol.deposited_shares = deposited_sol;
    position.usdc.borrowed_amount = borrowed_usdc;
    position.usdc.borrowed_shares = borrowed_usdc;
    position
}

fn accounts(borrower: Position, usdc_time: i64, sol_price: i64) -> Liquidate {
    Liquidate {
        borrower,
        collateral_vault: Pool::new(account(Asset::Sol, 1_000, 0)).unwrap(),
        debt_vault: Pool::new(account(Asset::Usdc, 100_000, 50_000)).unwrap(),
        usdc_price_update: posted(USDC_FEED_ID, 1, usdc_time),
        sol_price_update: posted(SOL_FEED_ID, sol_price, 1_000),
    }
}

#[test]
fn process_repay_settles_the_users_debt() {
    let mut ctx = Repay {
        bank_account: Pool::new(account(Asset::Usdc, 2_000, 1_000)).unwrap(),
        user_account: user(0, 200),
    };
    assert_eq!(process_repay(&mut ctx, 50, 0), Ok(50));
    assert_eq!(ctx.user_account.usdc.borrowed_amount, 150);
    assert_eq!(ctx.user_account.usdc.borrowed_shares, 150);
    assert_eq!(ctx.bank_account.state().total_borrowed, 950);
    assert_eq!(ctx.bank_account.state().total_borrowed_shares, 950);
}

#[test]
fn process_repay_refuses_more_than_is_owed() {
    let mut ctx = Repay {
        bank_account: Pool::new(account(Asset::Usdc, 2_000, 1_000)).unwrap(),
        user_account: user(0, 200),
    };
    assert_eq!(process_repay(&mut ctx, 201, 0), Err(ErrorCode::OverRepay));
    assert_eq!(process_repay(&mut ctx, 1, -1), Err(ErrorCode::InvalidTimestamp));
    assert_eq!(ctx.user_account, user(0, 200));
    assert_eq!(ctx.bank_account.state(), account(Asset::Usdc, 2_000, 1_000));
}

#[test]
fn process_liquidate_settles_at_the_posted_prices() {
    // 10 SOL at 100 back 900 USDC: 1000 * 0.8 = 800 < 900
    let mut ctx = accounts(user(10, 900), 1_000, 100);
    let done = process_liquidate(&mut ctx, 1_010);
    // half the debt's value is repaid, and that with a tenth added is seized
    assert_eq!(done, Err(ErrorCode::InsufficientFunds));
    assert_eq!(ctx.borrower, user(10, 900));
    // with both assets at a price of one the amounts are token amounts
    let mut par = accounts(user(1_000, 900), 1_000, 1);
    assert_eq!(
        process_liquidate(&mut par, 1_010),
        Ok(Settlement {
            repay_amount: 450,
            seize_amount: 495,
            repaid_shares: 450,
            seized_shares: 495
        })
    );
    assert_eq!(par.borrower.usdc.borrowed_amount, 450);
    assert_eq!(par.borrower.sol.deposited_amount, 505);
    assert_eq!(par.debt_vault.state().total_borrowed, 49_550);
    assert_eq!(par.collateral_vault.state().total_deposited, 505);
}

#[test]
fn process_liquidate_refuses_a_healthy_borrower() {
    let mut ctx = accounts(user(10, 800), 1_000, 100);
    assert_eq!(process_liquidate(&mut ctx, 1_010), Err(ErrorCode::NotUnderCollaterized));
    assert_eq!(ctx.borrower, user(10, 800));
}

#[test]
fn process_liquidate_needs_usable_price_updates() {
    // a stale update comes before anything else
    let mut stale = accounts(user(1_000, 900), 1_000 - MAX_AGE as i64 - 1, 1);
    assert_eq!(process_liquidate(&mut stale, 1_000), Err(ErrorCode::StaleOrMissing));
    assert_eq!(stale.borrower, user(1_000, 900));
    let mut in_time = accounts(user(1_000, 900), 1_000 - MAX_AGE as i64, 1);
    assert!(process_liquidate(&mut in_time, 1_000).is_ok());
    // updates for the wrong feeds
    let mut swapped = accounts(user(1_000, 900), 1_000, 1);
    swapped.usdc_price_update = posted(SOL_FEED_ID, 1, 1_000);
    assert_eq!(process_liquidate(&mut swapped, 1_000), Err(ErrorCode::StaleOrMissing));
    // a price that is not fully verified
    let mut unverified = accounts(user(1_000, 900), 1_000, 1);
    unverified.sol_price_update.verification = Verification::Partial { num_signatures: 3 };
    assert_eq!(process_liquidate(&mut unverified, 1_000), Err(ErrorCode::StaleOrMissing));
}
