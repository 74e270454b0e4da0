use marginfi::drift::{
    calculate_borrow_rate, calculate_deposit_rate, calculate_utilization, drift_withdraw_all_amounts,
    drift_withdraw_amounts, get_precision_increase, DriftError, DriftWithdrawError,
    MinimalSpotMarket, MinimalUser, SpotBalanceType, SpotPosition, UserStatus,
};
use marginfi::fixed_point::I80F48;
use marginfi::kamino::{from_bps, get_borrow_rate_from_points, u68f60_to_i80f48, CurvePoint, MinimalReserve};

const ONE: i128 = 1 << 48;

fn market() -> MinimalSpotMarket {
    let mut m = MinimalSpotMarket::default();
    m.decimals = 6;
    m.cumulative_deposit_interest = 10_000_000_000;
    m.last_interest_ts = 100;
    m
}

fn empty_position() -> SpotPosition {
    SpotPosition {
        scaled_balance: 0,
        open_bids: 0,
        open_asks: 0,
        cumulative_deposits: 0,
        market_index: 0,
        balance_type: SpotBalanceType::Deposit,
        open_orders: 0,
    }
}

fn deposit(market_index: u16, scaled_balance: u64) -> SpotPosition {
    SpotPosition {
        scaled_balance,
        cumulative_deposits: scaled_balance as i64,
        market_index,
        ..empty_position()
    }
}

fn user(positions: [SpotPosition; 8]) -> MinimalUser {
    MinimalUser {
        spot_positions: positions,
        sub_account_id: 0,
        status: UserStatus::Active,
    }
}

#[test]
fn drift_precision_and_scaled_balances() {
    assert_eq!(get_precision_increase(6), Ok(10_000_000_000_000));
    assert_eq!(get_precision_increase(19), Ok(1));
    assert_eq!(get_precision_increase(20), Err(DriftError::MathError));
    let m = market();
    assert_eq!(m.get_scaled_balance_increment(1_000_000), Ok(1_000_000_000));
    assert_eq!(m.get_scaled_balance_decrement(1_000_000), Ok(1_000_000_001));
    // A zero quotient is not rounded up.
    let mut tiny = m;
    tiny.decimals = 19;
    assert_eq!(tiny.get_scaled_balance_decrement(1), Ok(0));
    assert_eq!(m.get_withdraw_token_amount(1_000_000_000), Ok(1_000_000));
    let mut broken = m;
    broken.cumulative_deposit_interest = 0;
    assert_eq!(broken.get_scaled_balance_increment(5), Err(DriftError::MathError));
    assert!(m.is_stale(101));
    assert!(!m.is_stale(100));
    assert!(!m.is_stale(99));
}

#[test]
fn drift_rate_curve_pieces() {
    assert_eq!(calculate_utilization(0, 0), 0);
    assert_eq!(calculate_utilization(0, 5), 1_000_000);
    assert_eq!(calculate_utilization(1_000, 500), 500_000);
    assert_eq!(calculate_borrow_rate(500_000, 800_000, 100_000, 1_000_000), Some(62_500));
    assert_eq!(calculate_borrow_rate(900_000, 800_000, 100_000, 1_000_000), Some(235_000));
    assert_eq!(calculate_borrow_rate(0, 0, 100_000, 1_000_000), None);
    // Past the last segment the rate is the maximum.
    assert_eq!(
        calculate_borrow_rate(1_000_000, 800_000, 100_000, 1_000_000),
        Some(1_000_000)
    );
    assert_eq!(calculate_deposit_rate(62_500, 500_000, 100_000), Some(28_125));
    assert_eq!(calculate_deposit_rate(u128::MAX, 2, 0), None);
}

#[test]
fn drift_withdraw_amounts_clamp_to_the_position() {
    let m = market();
    // Withdrawing everything lowers the token amount by one so the rounded-up decrement fits.
    assert_eq!(drift_withdraw_all_amounts(&m, 1_000_000_000), Ok((999_999, 999_999_001)));
    assert_eq!(
        drift_withdraw_amounts(&m, 1_000_000_000, 500_000),
        Ok((500_000, 500_000_001))
    );
    // One scaled unit over: clamped to the whole position.
    assert_eq!(
        drift_withdraw_amounts(&m, 1_000_000_000, 1_000_000),
        Ok((1_000_000, 1_000_000_001))
    );
    assert_eq!(
        drift_withdraw_amounts(&m, 1_000_000_000, 2_000_000),
        Err(DriftWithdrawError::OperationWithdrawOnly)
    );
    let mut broken = m;
    broken.decimals = 25;
    assert_eq!(
        drift_withdraw_amounts(&broken, 10, 1),
        Err(DriftWithdrawError::Market(DriftError::MathError))
    );
}

#[test]
fn drift_user_checks() {
    let mut positions = [empty_position(); 8];
    positions[1] = deposit(5, 1_000);
    let u = user(positions);
    assert_eq!(u.validate_spot_position(5), Ok(()));
    assert_eq!(u.get_scaled_balance(5), 1_000);
    assert_eq!(u.count_active_deposits(), 1);
    assert_eq!(u.get_active_deposit_markets(), vec![5]);
    assert_eq!(u.validate_reward_accounts(true, true), Ok(()));
    assert_eq!(u.validate_not_bricked_by_admin_deposits(), Ok(()));
    assert_eq!(u.has_admin_deposit(7), Err(DriftError::NoAdminDeposit));
    assert!(!u.is_being_liquidated());
    // Another market in the expected slot.
    assert_eq!(u.validate_spot_position(6), Err(DriftError::InvalidPositionIndex));
    let mut borrow = positions;
    borrow[1].balance_type = SpotBalanceType::Borrow;
    assert_eq!(user(borrow).validate_spot_position(5), Err(DriftError::InvalidBalanceType));
    let mut stale = positions;
    stale[0].cumulative_deposits = 3;
    assert_eq!(user(stale).validate_spot_position(0), Err(DriftError::InvalidPositionState));
    // Admin reward deposits.
    let mut rewards = positions;
    rewards[2] = deposit(7, 10);
    rewards[3] = deposit(8, 10);
    let r = user(rewards);
    assert_eq!(r.has_admin_deposit(7), Ok(()));
    assert_eq!(r.get_active_deposit_markets(), vec![5, 7, 8]);
    assert_eq!(r.validate_reward_accounts(false, true), Err(DriftError::MissingRewardAccounts));
    assert_eq!(r.validate_reward_accounts(false, false), Ok(()));
    rewards[4] = deposit(9, 10);
    assert_eq!(
        user(rewards).validate_not_bricked_by_admin_deposits(),
        Err(DriftError::TooManyActiveDeposits)
    );
    let mut liquidated = u;
    liquidated.status = UserStatus::Bankrupt;
    assert!(liquidated.is_being_liquidated());
}

#[test]
fn kamino_fraction_conversions() {
    assert_eq!(from_bps(10_000), I80F48::from_bits(ONE));
    assert_eq!(from_bps(2_500), I80F48::from_bits(ONE / 4));
    // U68F60 drops its 12 lowest fraction bits.
    assert_eq!(u68f60_to_i80f48(3u128 << 60), I80F48::from_bits(3 * ONE));
    assert_eq!(u68f60_to_i80f48((1u128 << 59) + 4095), I80F48::from_bits(ONE / 2));
}

#[test]
fn kamino_curve_between_uneven_knots() {
    // A kinked curve: 0..80% rises to 8%, then 80..100% rises to 108%.
    let mut pts = [CurvePoint {
        utilization_rate_bps: 0,
        borrow_rate_bps: 0,
    }; 11];
    let knots = [
        (0, 0),
        (1_000, 100),
        (2_000, 200),
        (3_000, 300),
        (4_000, 400),
        (5_000, 500),
        (6_000, 600),
        (7_000, 700),
        (8_000, 800),
        (9_000, 5_800),
        (10_000, 10_800),
    ];
    for (p, (u, r)) in pts.iter_mut().zip(knots) {
        *p = CurvePoint {
            utilization_rate_bps: u,
            borrow_rate_bps: r,
        };
    }
    // At a knot, its rate.
    assert_eq!(
        get_borrow_rate_from_points(&pts, I80F48::from_bits(ONE * 8 / 10 + 1)),
        Some(from_bps(800))
    );
    // Halfway up the steep part: 8% + 0.5 * 50%.
    let mid = get_borrow_rate_from_points(&pts, I80F48::from_bits(ONE * 85 / 100 + 1)).unwrap();
    let mid = fixed::types::I80F48::from_bits(mid.bits).to_num::<f64>();
    assert!((mid - 0.33).abs() < 1e-9, "got {mid}");
    // Past 100% utilization the rate is the last knot's.
    assert_eq!(
        get_borrow_rate_from_points(&pts, I80F48::from_bits(ONE * 2)),
        Some(from_bps(10_800))
    );
}

#[test]
fn kamino_reserve_supply() {
    let mut r = MinimalReserve::zeroed();
    r.available_amount = 1_000;
    r.borrowed_amount_sf = 500u128 << 60;
    r.accumulated_protocol_fees_sf = 10u128 << 60;
    r.pending_referrer_fees_sf = 5u128 << 60;
    r.slot = 50;
    assert_eq!(r.calculate_total_supply_i80f48(), I80F48::from_bits(1_485 * ONE));
    assert_eq!(r.borrowed_amount_sf(), I80F48::from_bits(500 * ONE));
    assert!(r.is_stale(51));
    assert!(!r.is_stale(50));
}

#[test]
fn drift_rounding_never_favours_the_user() {
    let mut m = market();
    m.cumulative_deposit_interest = 13_000_000_000; // 1.3
    let inc = m.get_scaled_balance_increment(1_000_000).unwrap();
    let dec = m.get_scaled_balance_decrement(1_000_000).unwrap();
    assert_eq!(inc, 769_230_769);
    assert_eq!(dec, inc + 1);
    // A deposit is worth at most what was deposited; a withdrawal takes at least what is paid.
    assert_eq!(m.get_withdraw_token_amount(inc), Ok(999_999));
    assert_eq!(m.get_withdraw_token_amount(dec), Ok(1_000_000));
}

#[test]
fn drift_borrow_rate_defined_unless_no_optimal_point() {
    assert_eq!(calculate_borrow_rate(0, 0, 100_000, 1_000_000), None);
    assert!(calculate_borrow_rate(1, 0, 100_000, 1_000_000).is_some());
    assert!(calculate_borrow_rate(0, 1, 100_000, 1_000_000).is_some());
    assert!(calculate_borrow_rate(5_000_000, 999_999, 0, 0).is_some());
}
