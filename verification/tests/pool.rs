use lending::asset::Asset;
use lending::error::ErrorCode;
use lending::ledger::{deposit, repay, withdraw};
use lending::math::RATE_SCALE;
use lending::pool::{Pool, PoolState};
use lending::position::{Holding, Position};
use lending::solvency::{Price, Prices};

fn record(deposited: u64, deposited_shares: u64, borrowed: u64, borrowed_shares: u64) -> PoolState {
    PoolState {
        asset_id: Asset::Usdc,
        total_deposited: deposited,
        total_deposited_shares: deposited_shares,
        total_borrowed: borrowed,
        total_borrowed_shares: borrowed_shares,
        interest_rate: RATE_SCALE / 10,
        last_updated: 0,
        liquidation_threshold: 8_000,
        liquidation_bonus: 1_000,
        liquidation_close_factor: 5_000,
    }
}

fn par(now: i64) -> Prices {
    Prices {
        usdc: Price { value: 1, as_of: now },
        sol: Price { value: 1, as_of: now },
        max_age: 100,
    }
}

#[test]
fn pool_is_made_of_well_formed_records_only() {
    assert!(Pool::new(record(0, 0, 0, 0)).is_some());
    assert!(Pool::new(record(1_000, 700, 400, 900)).is_some());
    // shares without amount, amount without shares
    assert!(Pool::new(record(0, 1, 0, 0)).is_none());
    assert!(Pool::new(record(1, 0, 0, 0)).is_none());
    assert!(Pool::new(record(10, 10, 0, 1)).is_none());
    assert!(Pool::new(record(10, 10, 1, 0)).is_none());
    // more lent than held
    assert!(Pool::new(record(10, 10, 11, 11)).is_none());
    // a threshold or a close factor above one whole
    let mut loose = record(10, 10, 0, 0);
    loose.liquidation_threshold = 10_001;
    assert!(Pool::new(loose).is_none());
    assert!(!loose.is_valid());
    let mut eager = record(10, 10, 0, 0);
    eager.liquidation_close_factor = 10_001;
    assert!(Pool::new(eager).is_none());
    let mut generous = record(10, 10, 0, 0);
    generous.liquidation_bonus = u64::MAX;
    assert!(Pool::new(generous).is_some());
}

#[test]
fn pool_reports_what_it_has_not_lent() {
    assert_eq!(record(1_000, 1_000, 400, 400).available(), 600);
    assert_eq!(record(1_000, 1_000, 1_000, 1).available(), 0);
    assert_eq!(record(5, 5, 9, 9).available(), 0);
}

#[test]
fn pool_stays_well_formed_through_operations() {
    let mut pool = Pool::new(record(1_000, 700, 400, 300)).unwrap();
    let debt_pool = Pool::new(record(0, 0, 0, 0)).unwrap();
    let mut position = Position::empty(0);
    position.usdc.borrowed_amount = 400;
    position.usdc.borrowed_shares = 300;
    let mut now: i64 = 0;
    for amount in [1u64, 999, 3, 250, 77] {
        now += 1;
        assert!(deposit(&mut pool, &mut position, amount, now).is_ok());
        assert!(pool.state().is_valid());
        let _ = repay(&mut pool, &mut position, amount / 3, now);
        assert!(pool.state().is_valid());
        let _ = withdraw(&mut pool, &debt_pool, &mut position, amount / 2, now, &par(now));
        assert!(pool.state().is_valid());
        let state = pool.state();
        assert!(state.total_borrowed <= state.total_deposited);
        assert_eq!(state.total_deposited == 0, state.total_deposited_shares == 0);
        assert_eq!(state.total_borrowed == 0, state.total_borrowed_shares == 0);
        assert!(position.usdc.deposited_shares <= state.total_deposited_shares);
        assert!(position.usdc.borrowed_shares <= state.total_borrowed_shares);
    }
}

#[test]
fn accrual_grows_what_is_owed_and_leaves_deposits_and_shares() {
    let mut pool = Pool::new(record(1_000, 700, 400, 300)).unwrap();
    assert_eq!(pool.accrue(1), Ok(()));
    let state = pool.state();
    assert_eq!(state.total_deposited, 1_000);
    assert_eq!(state.total_borrowed, 442);
    assert_eq!(state.total_deposited_shares, 700);
    assert_eq!(state.total_borrowed_shares, 300);
    assert_eq!(state.last_updated, 1);
    assert_eq!(record(1_000, 700, 400, 300).accrue(1), Ok(state));
}

#[test]
fn accrual_twice_at_the_same_time_is_accrual_once() {
    let mut pool = Pool::new(record(1_000, 700, 400, 300)).unwrap();
    assert_eq!(pool.accrue(5), Ok(()));
    let once = pool.state();
    assert_eq!(pool.accrue(5), Ok(()));
    assert_eq!(pool.state(), once);
    let mut holding = Holding::empty(0);
    holding.deposited_amount = 1_000;
    holding.borrowed_amount = 400;
    let h1 = holding.accrue_deposit(RATE_SCALE / 10, 5).unwrap();
    assert_eq!(h1.accrue_deposit(RATE_SCALE / 10, 5), Ok(h1));
    let h2 = h1.accrue_borrow(RATE_SCALE / 10, 5).unwrap();
    assert_eq!(h2.accrue_borrow(RATE_SCALE / 10, 5), Ok(h2));
    assert_eq!(h2.deposited_amount, 1_648);
    assert_eq!(h2.borrowed_amount, 659);
}

#[test]
fn accrual_rejects_a_clock_that_went_back() {
    let mut state = record(1_000, 700, 400, 300);
    state.last_updated = 100;
    let mut pool = Pool::new(state).unwrap();
    assert_eq!(pool.accrue(99), Err(ErrorCode::InvalidTimestamp));
    assert_eq!(pool.state(), state);
    assert_eq!(state.accrue(99), Err(ErrorCode::InvalidTimestamp));
    let holding = Holding::empty(100);
    assert_eq!(holding.accrue_deposit(1, 99), Err(ErrorCode::InvalidTimestamp));
    assert_eq!(holding.accrue_borrow(1, 99), Err(ErrorCode::InvalidTimestamp));
    let position = Position::empty(100);
    assert_eq!(position.accrue_deposit(Asset::Sol, 1, 99), Err(ErrorCode::InvalidTimestamp));
    assert_eq!(position.accrue_borrow(Asset::Usdc, 1, 99), Err(ErrorCode::InvalidTimestamp));
}

#[test]
fn accrual_books_no_more_than_the_pool_holds() {
    // after 5 seconds 900 would be 1483
    let mut pool = Pool::new(record(1_000, 1_000, 900, 900)).unwrap();
    assert_eq!(pool.accrue(5), Ok(()));
    assert_eq!(pool.state().total_borrowed, 1_000);
    assert_eq!(pool.state().total_deposited, 1_000);
    assert_eq!(pool.state().available(), 0);
    assert!(pool.state().is_valid());
    // after 1 second 900 is 994
    let mut early = Pool::new(record(1_000, 1_000, 900, 900)).unwrap();
    assert_eq!(early.accrue(1), Ok(()));
    assert_eq!(early.state().total_borrowed, 994);
    assert_eq!(early.state().available(), 6);
    let mut large = Pool::new(record(u64::MAX, 1, u64::MAX / 2, 1)).unwrap();
    assert_eq!(large.accrue(10), Ok(()));
    assert_eq!(large.state().total_deposited, u64::MAX);
    assert_eq!(large.state().total_borrowed, u64::MAX);
    assert!(large.state().is_valid());
}

#[test]
fn reserve_does_not_grow_with_time() {
    let mut pool = Pool::new(record(1_000, 1_000, 100, 100)).unwrap();
    let mut last = pool.state().available();
    for now in [1i64, 2, 5, 10, 20, 1_000] {
        assert_eq!(pool.accrue(now), Ok(()));
        assert!(pool.state().available() <= last);
        assert_eq!(pool.state().total_deposited, 1_000);
        last = pool.state().available();
    }
    assert_eq!(last, 0);
}

#[test]
fn position_accrues_the_side_and_the_asset_that_is_asked() {
    let mut position = Position::empty(0);
    position.sol.deposited_amount = 1_000;
    position.sol.borrowed_amount = 1_000;
    position.usdc.deposited_amount = 1_000;
    let grown = position.accrue_deposit(Asset::Sol, RATE_SCALE / 10, 1).unwrap();
    assert_eq!(grown.sol.deposited_amount, 1_105);
    assert_eq!(grown.sol.borrowed_amount, 1_000);
    assert_eq!(grown.sol.last_updated_deposit, 1);
    assert_eq!(grown.sol.last_updated_borrow, 0);
    assert_eq!(grown.usdc, position.usdc);
    assert_eq!(grown.holding(Asset::Sol), grown.sol);
    assert_eq!(Asset::Sol.other(), Asset::Usdc);
    assert_eq!(Asset::Usdc.other(), Asset::Sol);
}

#[test]
fn deposit_then_withdraw_returns_the_amount_and_restores_the_pool() {
    for (deposited, shares, amount) in
        [(1_000u64, 700u64, 333u64), (0, 0, 5), (7, 3, 1), (1_000_000, 999_999, 123_456), (10, 10, 0)]
    {
        let state = record(deposited, shares, 0, 0);
        let mut pool = Pool::new(state).unwrap();
        let debt_pool = Pool::new(record(0, 0, 0, 0)).unwrap();
        let mut position = Position::empty(0);
        let minted = deposit(&mut pool, &mut position, amount, 0).unwrap();
        assert_eq!(position.usdc.deposited_amount, amount);
        let burned = withdraw(&mut pool, &debt_pool, &mut position, amount, 0, &par(0)).unwrap();
        assert_eq!(burned, minted);
        assert_eq!(pool.state(), state);
        assert_eq!(position.usdc.deposited_amount, 0);
        assert_eq!(position.usdc.deposited_shares, 0);
    }
}

#[test]
fn error_messages() {
    assert_eq!(ErrorCode::InsufficientFunds.message(), "Insufficient Funds");
    assert_eq!(ErrorCode::OverBorrowableAmount.message(), "Over Borrowable Amount");
    assert_eq!(ErrorCode::OverRepay.message(), "Over Repay");
    assert_eq!(ErrorCode::NotUnderCollaterized.message(), "User is not under collaterized");
    assert_eq!(ErrorCode::InvalidTimestamp.message(), "Invalid Timestamp");
    assert_eq!(ErrorCode::StaleOrMissing.message(), "Stale Or Missing Price");
}

#[test]
fn one_users_operations_leave_anothers_shares_covered() {
    let mut pool = Pool::new(record(3_000, 2_000, 900, 600)).unwrap();
    let debt_pool = Pool::new(record(0, 0, 0, 0)).unwrap();
    let mut bystander = Holding::empty(0);
    bystander.deposited_shares = 1_500;
    bystander.borrowed_shares = 200;
    let mut position = Position::empty(0);
    position.usdc.deposited_amount = 750;
    position.usdc.deposited_shares = 500;
    position.usdc.borrowed_amount = 600;
    position.usdc.borrowed_shares = 400;
    let mut now: i64 = 0;
    for amount in [10u64, 333, 1, 75, 200] {
        now += 2;
        let _ = deposit(&mut pool, &mut position, amount, now);
        let _ = repay(&mut pool, &mut position, amount, now);
        let _ = withdraw(&mut pool, &debt_pool, &mut position, amount / 4, now, &par(now));
        let state = pool.state();
        assert!(
            position.usdc.deposited_shares + bystander.deposited_shares
                <= state.total_deposited_shares
        );
        assert!(
            position.usdc.borrowed_shares + bystander.borrowed_shares
                <= state.total_borrowed_shares
        );
    }
    assert!(position.usdc.borrowed_shares < 400);
}
