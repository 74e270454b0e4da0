use marginfi::fixed_point::I80F48;
use marginfi::health::{
    check_liquidation_record_expiry, close_liquidation_record_by_creator, pulse_health_outcome,
    risk_admin_close_liquidation_record, saturating_sub_i64, tag_liquidation_record,
    ConditionCheck, EngineCheck, LiquidationRecordError, LiquidationRecordView, SECS_60_DAYS,
    SECS_90_DAYS,
};
use marginfi::pubkey::Pubkey;

const ONE: i128 = 1 << 48;

fn fx(n: i128) -> I80F48 {
    I80F48::from_bits(n * ONE)
}

fn key(n: u128) -> Pubkey {
    Pubkey { hi: 0, lo: n }
}

#[test]
fn pulse_of_a_healthy_recent_dust_account() {
    let now = 1_000_000;
    let out = pulse_health_outcome(
        EngineCheck::Passed,
        0,
        ConditionCheck::Fails { code: Some(6001) },
        ConditionCheck::Fails { code: Some(6002) },
        now,
        (now - 10) as u64,
        I80F48::from_bits(ONE / 2),
        fx(0),
    );
    assert!(out.engine_ok);
    assert!(out.oracle_ok);
    assert_eq!(out.mrgn_err, 0);
    assert_eq!(out.internal_liq_err, 6001);
    assert_eq!(out.internal_bankruptcy_err, 6002);
    assert!(!out.flags.was_liquidatable);
    assert!(!out.flags.was_underwater);
    assert!(out.flags.was_active_30d);
    assert!(out.flags.was_active_60d);
    assert!(out.flags.has_trivial_balance);
}

#[test]
fn pulse_of_a_rejected_underwater_dormant_account() {
    let day = 86_400;
    let now = 100 * day;
    let out = pulse_health_outcome(
        EngineCheck::Refused {
            code: 6009,
            risk_engine_rejection: true,
            oracle_error: false,
        },
        0,
        ConditionCheck::Holds,
        ConditionCheck::Fails { code: None },
        now,
        (now - 45 * day) as u64,
        fx(1),
        fx(3),
    );
    assert!(out.engine_ok);
    assert!(out.oracle_ok);
    assert_eq!(out.mrgn_err, 6009);
    assert_eq!(out.internal_liq_err, 0);
    assert_eq!(out.internal_bankruptcy_err, 0);
    assert!(out.flags.was_liquidatable);
    assert!(out.flags.was_underwater);
    assert!(!out.flags.was_active_30d);
    assert!(out.flags.was_active_60d);
    assert!(!out.flags.has_trivial_balance);
}

#[test]
fn pulse_engine_and_oracle_verdicts() {
    let oracle_refusal = pulse_health_outcome(
        EngineCheck::Refused {
            code: 6050,
            risk_engine_rejection: false,
            oracle_error: true,
        },
        0,
        ConditionCheck::Holds,
        ConditionCheck::Holds,
        0,
        0,
        fx(0),
        fx(0),
    );
    assert!(!oracle_refusal.engine_ok);
    assert!(!oracle_refusal.oracle_ok);
    let internal = pulse_health_outcome(
        EngineCheck::Passed,
        3,
        ConditionCheck::Holds,
        ConditionCheck::Holds,
        0,
        0,
        fx(0),
        fx(0),
    );
    assert!(internal.engine_ok);
    assert!(!internal.oracle_ok);
    let runtime = pulse_health_outcome(
        EngineCheck::RuntimeFailure,
        0,
        ConditionCheck::Holds,
        ConditionCheck::Holds,
        0,
        0,
        fx(0),
        fx(0),
    );
    assert!(!runtime.engine_ok);
    assert!(!runtime.oracle_ok);
    assert_eq!(runtime.mrgn_err, 0);
}

#[test]
fn elapsed_time_saturates() {
    assert_eq!(saturating_sub_i64(i64::MIN, 1), i64::MIN);
    assert_eq!(saturating_sub_i64(i64::MAX, -1), i64::MAX);
    assert_eq!(saturating_sub_i64(10, 3), 7);
    // A last update far in the past reads as never active.
    let out = pulse_health_outcome(
        EngineCheck::Passed,
        0,
        ConditionCheck::Holds,
        ConditionCheck::Holds,
        i64::MAX,
        0,
        fx(0),
        fx(0),
    );
    assert!(!out.flags.was_active_60d);
}

#[test]
fn tagging_follows_health() {
    // Unhealthy with debt, untagged: tagged now.
    assert_eq!(tag_liquidation_record(fx(-1), fx(5), 0, 777), Ok(777));
    // Unhealthy and already tagged.
    assert_eq!(
        tag_liquidation_record(fx(-1), fx(5), 500, 777),
        Err(LiquidationRecordError::AccountAlreadyTagged)
    );
    // Healthy and tagged: untagged.
    assert_eq!(tag_liquidation_record(fx(2), fx(5), 500, 777), Ok(0));
    // No debt counts as healthy.
    assert_eq!(tag_liquidation_record(fx(-1), fx(0), 500, 777), Ok(0));
    assert_eq!(
        tag_liquidation_record(fx(2), fx(5), 0, 777),
        Err(LiquidationRecordError::HealthyAccount)
    );
}

#[test]
fn tagging_twice_is_refused() {
    let tagged = tag_liquidation_record(fx(-1), fx(5), 0, 777).unwrap();
    assert_eq!(
        tag_liquidation_record(fx(-1), fx(5), tagged, 900),
        Err(LiquidationRecordError::AccountAlreadyTagged)
    );
    let cleared = tag_liquidation_record(fx(1), fx(5), tagged, 900).unwrap();
    assert_eq!(
        tag_liquidation_record(fx(1), fx(5), cleared, 901),
        Err(LiquidationRecordError::HealthyAccount)
    );
}

#[test]
fn record_expiry_windows() {
    assert_eq!(SECS_60_DAYS, 60 * 24 * 60 * 60);
    assert_eq!(SECS_90_DAYS, 90 * 24 * 60 * 60);
    assert_eq!(check_liquidation_record_expiry(0, SECS_60_DAYS, 5), Ok(()));
    assert_eq!(
        check_liquidation_record_expiry(100, SECS_60_DAYS, 100 + SECS_60_DAYS - 1),
        Err(LiquidationRecordError::LiquidationRecordNotExpired)
    );
    assert_eq!(
        check_liquidation_record_expiry(100, SECS_60_DAYS, 100 + SECS_60_DAYS),
        Ok(())
    );
}

fn record(last_activity_ts: i64) -> LiquidationRecordView {
    LiquidationRecordView {
        liquidation_receiver: Pubkey::default_key(),
        marginfi_account: key(10),
        record_payer: key(20),
        last_activity_ts,
    }
}

#[test]
fn closing_records() {
    let now = 100 * 86_400;
    let old = record(now - 70 * 86_400);
    // The creator after 60 days.
    assert_eq!(
        close_liquidation_record_by_creator(&old, &key(30), &key(10), &key(30), &key(20), now),
        Ok(())
    );
    // The risk admin needs 90.
    assert_eq!(
        risk_admin_close_liquidation_record(&old, &key(30), &key(10), &key(30), &key(20), now),
        Err(LiquidationRecordError::LiquidationRecordNotExpired)
    );
    // Someone else's record payer.
    assert_eq!(
        close_liquidation_record_by_creator(&old, &key(30), &key(10), &key(30), &key(21), now),
        Err(LiquidationRecordError::Unauthorized)
    );
    // Another account's record.
    assert_eq!(
        close_liquidation_record_by_creator(&old, &key(30), &key(11), &key(30), &key(20), now),
        Err(LiquidationRecordError::InvalidLiquidationRecord)
    );
    // The account points at another record.
    assert_eq!(
        close_liquidation_record_by_creator(&old, &key(30), &key(10), &key(31), &key(20), now),
        Err(LiquidationRecordError::InvalidLiquidationRecord)
    );
    // Or at none.
    assert_eq!(
        close_liquidation_record_by_creator(
            &old,
            &key(30),
            &key(10),
            &Pubkey::default_key(),
            &key(20),
            now
        ),
        Ok(())
    );
    // A liquidation in progress.
    let mut busy = old;
    busy.liquidation_receiver = key(1);
    assert_eq!(
        close_liquidation_record_by_creator(&busy, &key(30), &key(10), &key(30), &key(20), now),
        Err(LiquidationRecordError::IllegalAction)
    );
}
