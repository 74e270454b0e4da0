use marginfi::drift::{drift_deposit_rate_from_parts, MinimalSpotMarket};
use marginfi::fixed_point::I80F48;

fn approx(actual: I80F48, expected: f64) {
    let a = fixed::types::I80F48::from_bits(actual.bits).to_num::<f64>();
    assert!((a - expected).abs() < 1e-5, "got {a}, expected {expected}");
}

#[test]
fn deposit_rate_below_optimal() {
    // util 0.5 (< optimal 0.8): borrow = 0.5 * (0.10 / 0.8) = 0.0625;
    // supply = 0.0625 * 0.5 * (1 - 0.10) = 0.028125.
    let r = drift_deposit_rate_from_parts(1000, 500, 800_000, 100_000, 1_000_000, 100_000);
    approx(r.unwrap(), 0.028125);
}

#[test]
fn deposit_rate_above_optimal_uses_segments() {
    // util 0.9 (> optimal 0.8) walks the weighted segments to borrow = 0.235;
    // supply = 0.235 * 0.9 * (1 - 0) = 0.2115.
    let r = drift_deposit_rate_from_parts(1000, 900, 800_000, 100_000, 1_000_000, 0);
    approx(r.unwrap(), 0.2115);
}

#[test]
fn deposit_rate_zero_optimal_utilization_is_none() {
    assert!(drift_deposit_rate_from_parts(1000, 0, 0, 100_000, 1_000_000, 0).is_none());
}

#[test]
fn deposit_rate_method_matches_from_parts() {
    // decimals=6 -> token amounts divide by 10^(19-6)=1e13.
    // deposit: 1e9 * 1e10 / 1e13 = 1e6 ; borrow: 5e8 * 1e10 / 1e13 = 5e5.
    let mut m = MinimalSpotMarket::default();
    m.deposit_balance = 1_000_000_000u128;
    m.borrow_balance = 500_000_000u128;
    m.cumulative_deposit_interest = 10_000_000_000u128;
    m.cumulative_borrow_interest = 10_000_000_000u128;
    m.decimals = 6;
    m.optimal_utilization = 800_000;
    m.optimal_borrow_rate = 100_000;
    m.max_borrow_rate = 1_000_000;
    m.insurance_fund.total_factor = 100_000;
    assert_eq!(
        m.deposit_rate(),
        drift_deposit_rate_from_parts(1_000_000, 500_000, 800_000, 100_000, 1_000_000, 100_000)
    );
}
