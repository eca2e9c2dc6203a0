use lending::accrual::{
    accrue, accrue_over, calculate_accrued_interest, elapsed_seconds, growth_factor, FACTOR_CAP,
    FACTOR_SCALE,
};
use lending::error::ErrorCode;
use lending::math::{fraction_of_u128, mul_div_u64, BPS, RATE_SCALE};

#[test]
fn growth_over_no_time_is_one() {
    assert_eq!(growth_factor(0, 0), FACTOR_SCALE);
    assert_eq!(growth_factor(1_585, 0), FACTOR_SCALE);
    assert_eq!(growth_factor(u64::MAX, 0), FACTOR_SCALE);
}

#[test]
fn growth_at_rate_zero_is_one() {
    assert_eq!(growth_factor(0, 5), FACTOR_SCALE);
    assert_eq!(growth_factor(0, u64::MAX), FACTOR_SCALE);
}

#[test]
fn growth_factor_exact_values() {
    // e^1, e^2 and e^0.1, each term of the series rounded down
    assert_eq!(growth_factor(RATE_SCALE, 1), 2_718_281_828_459_045_226);
    assert_eq!(growth_factor(RATE_SCALE, 2), 7_389_056_098_930_650_216);
    assert_eq!(growth_factor(RATE_SCALE / 10, 1), 1_105_170_918_075_647_619);
    // one hour and one year at five percent a year
    assert_eq!(growth_factor(1_585, 3_600), 1_000_005_706_016_279_248);
    assert_eq!(growth_factor(1_585, 31_536_000), 1_051_254_864_875_603_496);
    // beyond what 64 bits hold of the factor itself
    assert_eq!(growth_factor(RATE_SCALE, 16), 8_886_110_520_507_872_636_753_324);
    assert_eq!(growth_factor(RATE_SCALE, 20), 485_165_195_409_790_277_968_979_804);
    assert_eq!(growth_factor(RATE_SCALE, 40), 235_385_266_837_019_985_407_885_178_892_247_075);
    assert_eq!(
        growth_factor(RATE_SCALE, 44),
        12_851_600_114_359_308_275_808_993_666_217_999_905
    );
}

#[test]
fn growth_factor_is_close_to_the_exponential() {
    let cases: [(u64, u64); 8] = [
        (RATE_SCALE, 1),
        (RATE_SCALE / 10, 1),
        (1_585, 31_536_000),
        (RATE_SCALE / 2, 3),
        (RATE_SCALE, 10),
        (RATE_SCALE, 20),
        (RATE_SCALE, 40),
        (RATE_SCALE, 44),
    ];
    for (rate, elapsed) in cases {
        let exact = ((rate as f64) * (elapsed as f64) / (RATE_SCALE as f64)).exp();
        let got = growth_factor(rate, elapsed) as f64 / FACTOR_SCALE as f64;
        assert!(((got - exact) / exact).abs() < 1e-14);
    }
}

#[test]
fn growth_factor_is_exact_as_far_as_a_balance_can_need() {
    // 2^64 wholes: under this factor no balance but zero fits 64 bits
    assert_eq!(FACTOR_CAP, (1u128 << 64) * FACTOR_SCALE);
    assert!(growth_factor(RATE_SCALE, 44) < FACTOR_CAP);
    assert_eq!(growth_factor(RATE_SCALE, 45), FACTOR_CAP);
    assert_eq!(growth_factor(u64::MAX, u64::MAX), FACTOR_CAP);
    assert_eq!(growth_factor(1 << 32, 1 << 31), FACTOR_CAP);
    // the cap on the factor changes no balance
    assert_eq!(accrue(1, FACTOR_CAP), u64::MAX);
    assert_eq!(accrue(0, FACTOR_CAP), 0);
    assert_eq!(accrue(1, FACTOR_CAP - 1), u64::MAX);
    assert_eq!(accrue_over(1, RATE_SCALE, 45), u64::MAX);
    assert_eq!(accrue_over(0, RATE_SCALE, 45), 0);
}

#[test]
fn only_the_balance_is_capped() {
    // one unit over an exponent of 40: e^40 fits 64 bits
    assert_eq!(calculate_accrued_interest(1, RATE_SCALE, 0, 40), Ok(235_385_266_837_019_985));
    assert_eq!(calculate_accrued_interest(1, RATE_SCALE, 0, 44), Ok(12_851_600_114_359_308_275));
    assert_eq!(calculate_accrued_interest(1, RATE_SCALE, 0, 45), Ok(u64::MAX));
    assert_eq!(calculate_accrued_interest(3, RATE_SCALE, 0, 43), Ok(14_183_518_404_688_039_684));
    assert_eq!(calculate_accrued_interest(4, RATE_SCALE, 0, 43), Ok(u64::MAX));
    // a large balance keeps its digits
    assert_eq!(
        calculate_accrued_interest(1_000_000_000_000_000_000, RATE_SCALE, 0, 1),
        Ok(2_718_281_828_459_045_226)
    );
    let exact = 40f64.exp();
    let got = calculate_accrued_interest(1, RATE_SCALE, 0, 40).unwrap() as f64;
    assert!(((got - exact) / exact).abs() < 1e-15);
}

#[test]
fn accruing_in_two_steps_reconciles_with_accruing_once() {
    let first = calculate_accrued_interest(1, RATE_SCALE, 0, 20).unwrap();
    let second = calculate_accrued_interest(first, RATE_SCALE, 20, 40).unwrap();
    let once = calculate_accrued_interest(1, RATE_SCALE, 0, 40).unwrap();
    assert_eq!(first, 485_165_195);
    assert_eq!(second, 235_385_266_638_204_005);
    assert_eq!(once, 235_385_266_837_019_985);
    // what the first step rounded away is all that the two steps lose
    assert!(second <= once);
    assert!(((once - second) as f64) < 20f64.exp() + 1.0);
}

#[test]
fn accrue_multiplies_and_rounds_down() {
    let one = FACTOR_SCALE;
    assert_eq!(accrue(1_000, one), 1_000);
    assert_eq!(accrue(1_000, one + one / 2), 1_500);
    assert_eq!(accrue(1_000, 1_105_170_918_075_647_619), 1_105);
    assert_eq!(accrue(3, one + one / 2), 4);
    assert_eq!(accrue(0, u128::MAX), 0);
    assert_eq!(accrue(7, 0), 0);
    assert_eq!(accrue(u64::MAX, one), u64::MAX);
    assert_eq!(accrue(u64::MAX, one - 1), u64::MAX - 19);
}

#[test]
fn accrue_is_capped() {
    assert_eq!(accrue(u64::MAX, 2 * FACTOR_SCALE), u64::MAX);
    assert_eq!(accrue(1_000_000_000_000_000_000, 20_085_536_923_187_667_740), u64::MAX);
    assert_eq!(accrue(1, u128::MAX), u64::MAX);
    assert_eq!(accrue(2, (u64::MAX as u128 - 1) * FACTOR_SCALE / 2), u64::MAX - 1);
}

#[test]
fn accrued_interest_exact_values() {
    assert_eq!(calculate_accrued_interest(1_000, RATE_SCALE / 10, 0, 1), Ok(1_105));
    assert_eq!(calculate_accrued_interest(1_000_000, 1_585, 0, 31_536_000), Ok(1_051_254));
    assert_eq!(calculate_accrued_interest(1_000_000, 1_000_000, 100, 1_100), Ok(1_001_000));
    assert_eq!(calculate_accrued_interest(200, 0, 0, 1_000_000), Ok(200));
}

#[test]
fn accrued_interest_over_no_time_is_the_balance() {
    assert_eq!(calculate_accrued_interest(12_345, 999_999, 77, 77), Ok(12_345));
    assert_eq!(calculate_accrued_interest(u64::MAX, u64::MAX, -5, -5), Ok(u64::MAX));
}

#[test]
fn accrued_interest_rejects_a_clock_that_went_back() {
    assert_eq!(
        calculate_accrued_interest(1_000, 1_585, 100, 99),
        Err(ErrorCode::InvalidTimestamp)
    );
    assert_eq!(
        calculate_accrued_interest(1_000, 0, i64::MAX, i64::MIN),
        Err(ErrorCode::InvalidTimestamp)
    );
}

#[test]
fn accrued_balance_does_not_decrease_with_time() {
    let mut last: u64 = 0;
    for now in [0i64, 1, 10, 100, 1_000, 1_000_000, 1_000_000_000, i64::MAX] {
        let grown = calculate_accrued_interest(1_000_000, 1_000_000, 0, now).unwrap();
        assert!(grown >= last);
        assert!(grown >= 1_000_000);
        last = grown;
    }
    assert_eq!(calculate_accrued_interest(1_000_000, 1_000_000, 0, 1_000_000), Ok(2_718_281));
}

#[test]
fn elapsed_seconds_spans_the_whole_range() {
    assert_eq!(elapsed_seconds(5, 5), Ok(0));
    assert_eq!(elapsed_seconds(-3, 4), Ok(7));
    assert_eq!(elapsed_seconds(i64::MIN, i64::MAX), Ok(u64::MAX));
    assert_eq!(elapsed_seconds(1, 0), Err(ErrorCode::InvalidTimestamp));
}

#[test]
fn mul_div_multiplies_before_dividing() {
    assert_eq!(mul_div_u64(1, 1_000_000, 1_000_000), 1);
    assert_eq!(mul_div_u64(50, 1_000, 1_000), 50);
    assert_eq!(mul_div_u64(7, 3, 2), 10);
    assert_eq!(mul_div_u64(u64::MAX, u64::MAX, 1), (u64::MAX as u128) * (u64::MAX as u128));
    assert_eq!(mul_div_u64(5, 5, 0), 0);
}

#[test]
fn fraction_of_takes_basis_points() {
    assert_eq!(fraction_of_u128(900, 5_000), 450);
    assert_eq!(fraction_of_u128(1_000, 8_000), 800);
    assert_eq!(fraction_of_u128(999, 1), 0);
    assert_eq!(fraction_of_u128(u128::MAX, BPS), u128::MAX);
    assert_eq!(fraction_of_u128(u128::MAX, 0), 0);
    assert_eq!(fraction_of_u128(12_345, 3_333), 4_114);
}

#[test]
fn compound_growth_is_at_least_simple_growth() {
    for (rate, elapsed) in [(0u64, 9u64), (1, 1), (1_585, 3_600), (RATE_SCALE / 10, 7), (RATE_SCALE, 3)] {
        let factor = growth_factor(rate, elapsed);
        assert!(factor >= FACTOR_SCALE + 1_000_000 * rate as u128 * elapsed as u128);
    }
    assert_eq!(growth_factor(1, 1), FACTOR_SCALE + 1_000_000);
}
