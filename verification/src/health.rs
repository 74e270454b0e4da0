//! What an account's health pulse records, and the liquidation record's tag and close rules.
//!
//! The risk engine's checks run outside these functions; their outcomes come in as plain values
//! and the functions decide the flags and errors the program stores or returns.
use vstd::prelude::*;
use crate::fixed_point::{I80F48, in_i128, scale};
use crate::pubkey::Pubkey;

verus! {

/// Seconds in a day.
pub const SECONDS_PER_DAY: i64 = 86_400;

/// The inactivity a record's creator must wait before closing it: 60 days.
pub const SECS_60_DAYS: i64 = 5_184_000;

/// The inactivity the risk admin must wait before closing a record: 90 days.
pub const SECS_90_DAYS: i64 = 7_776_000;

/// Whether the net equity `equity_assets - equity_liabs` is above zero and below one (a dust
/// account for indexers; underwater accounts are never dust).
pub open spec fn spec_has_trivial_balance(equity_assets: I80F48, equity_liabs: I80F48) -> bool {
    let net = equity_assets.bits - equity_liabs.bits;
    0 < net < scale()
}

/// Whether the last pulse saw net equity strictly between $0 and $1.
pub fn has_trivial_balance(equity_assets: I80F48, equity_liabs: I80F48) -> (r: bool)
    requires
        in_i128(equity_assets.bits - equity_liabs.bits),
    ensures
        r == spec_has_trivial_balance(equity_assets, equity_liabs),
{
    let net_equity = equity_assets.sub(equity_liabs);
    I80F48::zero().lt(net_equity) && net_equity.lt(I80F48::one())
}

/// How the risk engine's health check ended.
#[derive(Clone, Copy, Debug, PartialEq, Eq, Structural)]
pub enum EngineCheck {
    /// The account passed.
    Passed,
    /// The program refused it with the error `code`, which may be a risk-engine rejection (an
    /// unhealthy account) and may be an oracle error.
    Refused { code: u32, risk_engine_rejection: bool, oracle_error: bool },
    /// It failed below the program (a runtime error without a program error code).
    RuntimeFailure,
}

/// A check that reports a condition by failing: `Ok` when the condition holds, else the program
/// error code (`None` for a runtime failure).
#[derive(Clone, Copy, Debug, PartialEq, Eq, Structural)]
pub enum ConditionCheck {
    Holds,
    Fails { code: Option<u32> },
}

/// The indexer flags a pulse sets.
#[derive(Clone, Copy, Debug, PartialEq, Eq, Structural)]
pub struct IndexerFlags {
    pub was_liquidatable: bool,
    pub was_underwater: bool,
    pub was_active_30d: bool,
    pub was_active_60d: bool,
    pub has_trivial_balance: bool,
}

/// What a pulse writes into the account's health cache and indexer flags.
#[derive(Clone, Copy, Debug, PartialEq, Eq, Structural)]
pub struct PulseOutcome {
    /// The engine ran to a verdict (a risk-engine rejection still counts).
    pub engine_ok: bool,
    /// No oracle error was seen.
    pub oracle_ok: bool,
    /// The program error the engine check ended with (0 for none).
    pub mrgn_err: u32,
    /// The error the liquidation check ended with (0 for none).
    pub internal_liq_err: u32,
    /// The error the bankruptcy check ended with (0 for none).
    pub internal_bankruptcy_err: u32,
    pub flags: IndexerFlags,
}

/// `a - b`, saturating at the bounds of `i64`.
pub open spec fn sat_sub_i64(a: int, b: int) -> int {
    let d = a - b;
    if d > i64::MAX {
        i64::MAX as int
    } else if d < i64::MIN {
        i64::MIN as int
    } else {
        d
    }
}

/// `a - b` saturating at the bounds of `i64` (`i64::saturating_sub`).
pub fn saturating_sub_i64(a: i64, b: i64) -> (r: i64)
    ensures
        r == sat_sub_i64(a as int, b as int),
{
    let d: i128 = a as i128 - b as i128;
    if d > i64::MAX as i128 {
        i64::MAX
    } else if d < i64::MIN as i128 {
        i64::MIN
    } else {
        d as i64
    }
}

/// Seconds since the account's last update, as the program computes them (saturating).
pub open spec fn elapsed_since(now: i64, last_update: u64) -> int {
    sat_sub_i64(now as int, (last_update as i64) as int)
}

/// The pulse's verdict, from the outcomes of its three engine checks, the engine's internal error
/// flag, the clock, the account's last update and its equity.
pub open spec fn spec_pulse_outcome(
    engine: EngineCheck,
    internal_err: u32,
    liquidation: ConditionCheck,
    bankruptcy: ConditionCheck,
    now: i64,
    last_update: u64,
    equity_assets: I80F48,
    equity_liabs: I80F48,
) -> PulseOutcome {
    let elapsed = elapsed_since(now, last_update);
    PulseOutcome {
        engine_ok: match engine {
            EngineCheck::Passed => true,
            EngineCheck::Refused { risk_engine_rejection, .. } => risk_engine_rejection,
            EngineCheck::RuntimeFailure => false,
        },
        oracle_ok: match engine {
            EngineCheck::Passed => internal_err == 0,
            EngineCheck::Refused { oracle_error, .. } => !oracle_error && internal_err == 0,
            EngineCheck::RuntimeFailure => false,
        },
        mrgn_err: match engine {
            EngineCheck::Refused { code, .. } => code,
            _ => 0,
        },
        internal_liq_err: match liquidation {
            ConditionCheck::Fails { code: Some(c) } => c,
            _ => 0,
        },
        internal_bankruptcy_err: match bankruptcy {
            ConditionCheck::Fails { code: Some(c) } => c,
            _ => 0,
        },
        flags: IndexerFlags {
            was_liquidatable: liquidation is Holds,
            was_underwater: equity_assets.bits < equity_liabs.bits,
            was_active_30d: elapsed <= 30 * 86_400,
            was_active_60d: elapsed <= 60 * 86_400,
            has_trivial_balance: spec_has_trivial_balance(equity_assets, equity_liabs),
        },
    }
}

/// The health pulse's decisions: the engine and oracle verdicts, the error codes it keeps, and the
/// indexer flags (liquidatable, underwater, active within 30 and 60 days, dust).
pub fn pulse_health_outcome(
    engine: EngineCheck,
    internal_err: u32,
    liquidation: ConditionCheck,
    bankruptcy: ConditionCheck,
    now: i64,
    last_update: u64,
    equity_assets: I80F48,
    equity_liabs: I80F48,
) -> (r: PulseOutcome)
    requires
        in_i128(equity_assets.bits - equity_liabs.bits),
    ensures
        r == spec_pulse_outcome(
            engine,
            internal_err,
            liquidation,
            bankruptcy,
            now,
            last_update,
            equity_assets,
            equity_liabs,
        ),
{
    let (engine_ok, oracle_ok, mrgn_err) = match engine {
        EngineCheck::Passed => (true, internal_err == 0, 0u32),
        EngineCheck::Refused { code, risk_engine_rejection, oracle_error } => (
            risk_engine_rejection,
            !(oracle_error || internal_err != 0),
            code,
        ),
        EngineCheck::RuntimeFailure => (false, false, 0u32),
    };
    let internal_liq_err = match liquidation {
        ConditionCheck::Fails { code: Some(c) } => c,
        _ => 0,
    };
    let internal_bankruptcy_err = match bankruptcy {
        ConditionCheck::Fails { code: Some(c) } => c,
        _ => 0,
    };
    let is_liquidatable = match liquidation {
        ConditionCheck::Holds => true,
        ConditionCheck::Fails { .. } => false,
    };
    let elapsed = saturating_sub_i64(now, last_update as i64);
    let flags = IndexerFlags {
        was_liquidatable: is_liquidatable,
        was_underwater: equity_assets.lt(equity_liabs),
        was_active_30d: elapsed <= 30 * SECONDS_PER_DAY,
        was_active_60d: elapsed <= 60 * SECONDS_PER_DAY,
        has_trivial_balance: has_trivial_balance(equity_assets, equity_liabs),
    };
    PulseOutcome {
        engine_ok,
        oracle_ok,
        mrgn_err,
        internal_liq_err,
        internal_bankruptcy_err,
        flags,
    }
}

/// The pulse's indexer flags: the account was active within 30 (60) days exactly when at most
/// 30 (60) days of seconds have passed since its last update, counted from the update's time read
/// as a signed timestamp; it was underwater exactly when its liability equity exceeds its asset
/// equity; and it was liquidatable exactly when the liquidation check held.
pub proof fn law_pulse_indexer_flags(
    engine: EngineCheck,
    internal_err: u32,
    liquidation: ConditionCheck,
    bankruptcy: ConditionCheck,
    now: i64,
    last_update: u64,
    equity_assets: I80F48,
    equity_liabs: I80F48,
)
    ensures
        ({
            let f = spec_pulse_outcome(
                engine,
                internal_err,
                liquidation,
                bankruptcy,
                now,
                last_update,
                equity_assets,
                equity_liabs,
            ).flags;
            &&& f.was_active_30d <==> now - (last_update as i64) <= 2_592_000
            &&& f.was_active_60d <==> now - (last_update as i64) <= 5_184_000
            &&& f.was_underwater <==> equity_assets.bits < equity_liabs.bits
            &&& f.was_liquidatable <==> liquidation == ConditionCheck::Holds
            &&& f.has_trivial_balance <==> 0 < equity_assets.bits - equity_liabs.bits
                < 0x1_0000_0000_0000
        }),
{
    assert(scale() == 0x1_0000_0000_0000);
}

/// The pulse's verdicts: a passed check leaves the engine sound and the oracles sound unless the
/// engine flagged an internal error; a refusal keeps its code, counts as an engine verdict only
/// when the risk engine itself rejected the account, and clears the oracle verdict on an oracle or
/// internal error; a runtime failure clears both. The liquidation and bankruptcy checks keep the
/// code they failed with, and 0 otherwise.
pub proof fn law_pulse_verdicts(
    engine: EngineCheck,
    internal_err: u32,
    liquidation: ConditionCheck,
    bankruptcy: ConditionCheck,
    now: i64,
    last_update: u64,
    equity_assets: I80F48,
    equity_liabs: I80F48,
)
    ensures
        ({
            let o = spec_pulse_outcome(
                engine,
                internal_err,
                liquidation,
                bankruptcy,
                now,
                last_update,
                equity_assets,
                equity_liabs,
            );
            &&& engine == EngineCheck::Passed ==> o.engine_ok && o.mrgn_err == 0 && (o.oracle_ok
                <==> internal_err == 0)
            &&& engine == EngineCheck::RuntimeFailure ==> !o.engine_ok && !o.oracle_ok
                && o.mrgn_err == 0
            &&& forall|code: u32, rejection: bool, oracle_error: bool|
                engine == (EngineCheck::Refused {
                    code,
                    risk_engine_rejection: rejection,
                    oracle_error,
                }) ==> o.mrgn_err == code && (o.engine_ok <==> rejection) && (o.oracle_ok <==> (
                !oracle_error && internal_err == 0))
            &&& liquidation == ConditionCheck::Holds ==> o.internal_liq_err == 0
            &&& forall|c: u32|
                liquidation == (ConditionCheck::Fails { code: Some(c) }) ==> o.internal_liq_err
                    == c
            &&& liquidation == (ConditionCheck::Fails { code: None }) ==> o.internal_liq_err == 0
            &&& bankruptcy == ConditionCheck::Holds ==> o.internal_bankruptcy_err == 0
            &&& forall|c: u32|
                bankruptcy == (ConditionCheck::Fails { code: Some(c) }) ==> o.internal_bankruptcy_err
                    == c
            &&& bankruptcy == (ConditionCheck::Fails { code: None }) ==> o.internal_bankruptcy_err
                == 0
        }),
{
}

/// Why a liquidation-record operation is refused.
#[derive(Clone, Copy, Debug, PartialEq, Eq, Structural)]
pub enum LiquidationRecordError {
    /// Untagging an account that is not tagged (it is healthy or owes nothing).
    HealthyAccount,
    /// Tagging an account that is already tagged.
    AccountAlreadyTagged,
    /// The record has not been inactive long enough.
    LiquidationRecordNotExpired,
    /// The record still names a liquidation receiver.
    IllegalAction,
    /// The record belongs to another account, or the account points at another record.
    InvalidLiquidationRecord,
    /// The closer is not the record's payer.
    Unauthorized,
}

/// The tag an account carries after a tag call, or why the call is refused: a healthy account or
/// one without liabilities must be tagged and is untagged (0); an unhealthy one must be untagged
/// and is tagged with `now`.
pub open spec fn spec_tag_liquidation_record(
    health: I80F48,
    liabs: I80F48,
    tagged_at: i64,
    now: i64,
) -> Result<i64, LiquidationRecordError> {
    if health.bits > 0 || liabs.bits == 0 {
        if tagged_at != 0 {
            Ok(0)
        } else {
            Err(LiquidationRecordError::HealthyAccount)
        }
    } else if tagged_at == 0 {
        Ok(now)
    } else {
        Err(LiquidationRecordError::AccountAlreadyTagged)
    }
}

/// Tagging or untagging an account for liquidation from its health and liabilities.
pub fn tag_liquidation_record(health: I80F48, liabs: I80F48, tagged_at: i64, now: i64) -> (r:
    Result<i64, LiquidationRecordError>)
    ensures
        r == spec_tag_liquidation_record(health, liabs, tagged_at, now),
{
    if I80F48::zero().lt(health) || liabs.is_zero() {
        if tagged_at != 0 {
            Ok(0)
        } else {
            Err(LiquidationRecordError::HealthyAccount)
        }
    } else {
        if tagged_at == 0 {
            Ok(now)
        } else {
            Err(LiquidationRecordError::AccountAlreadyTagged)
        }
    }
}

/// A record with activity at `last_activity_ts` (0 for none) may be closed at `now_ts` once
/// `required_inactivity_window` seconds have passed (the difference saturating).
pub open spec fn spec_record_expired(last_activity_ts: i64, required_inactivity_window: i64, now_ts: i64) -> bool {
    last_activity_ts == 0 || sat_sub_i64(now_ts as int, last_activity_ts as int)
        >= required_inactivity_window
}

/// Whether a record has been inactive long enough to be closed.
pub fn check_liquidation_record_expiry(
    last_activity_ts: i64,
    required_inactivity_window: i64,
    now_ts: i64,
) -> (r: Result<(), LiquidationRecordError>)
    ensures
        r is Ok <==> spec_record_expired(last_activity_ts, required_inactivity_window, now_ts),
        r is Err ==> r == Err::<(), LiquidationRecordError>(
            LiquidationRecordError::LiquidationRecordNotExpired,
        ),
{
    if last_activity_ts == 0 {
        return Ok(());
    }
    if saturating_sub_i64(now_ts, last_activity_ts) >= required_inactivity_window {
        Ok(())
    } else {
        Err(LiquidationRecordError::LiquidationRecordNotExpired)
    }
}

/// What closing a liquidation record reads.
#[derive(Clone, Copy, Debug, PartialEq, Eq, Structural)]
pub struct LiquidationRecordView {
    /// The receiver of a liquidation in progress (all zero for none).
    pub liquidation_receiver: Pubkey,
    /// The account the record belongs to.
    pub marginfi_account: Pubkey,
    /// Who paid for the record.
    pub record_payer: Pubkey,
    /// The last activity on the record (0 for none).
    pub last_activity_ts: i64,
}

/// The checks of closing a record (by its creator after 60 days, by the risk admin after 90),
/// in the program's order.
pub open spec fn spec_close_record(
    record: LiquidationRecordView,
    record_key: Pubkey,
    account_key: Pubkey,
    account_record: Pubkey,
    payer: Pubkey,
    required_inactivity_window: i64,
    now_ts: i64,
) -> Result<(), LiquidationRecordError> {
    if !(record.liquidation_receiver.hi == 0 && record.liquidation_receiver.lo == 0) {
        Err(LiquidationRecordError::IllegalAction)
    } else if record.marginfi_account != account_key {
        Err(LiquidationRecordError::InvalidLiquidationRecord)
    } else if record.record_payer != payer {
        Err(LiquidationRecordError::Unauthorized)
    } else if !spec_record_expired(record.last_activity_ts, required_inactivity_window, now_ts) {
        Err(LiquidationRecordError::LiquidationRecordNotExpired)
    } else if !(account_record == record_key || (account_record.hi == 0 && account_record.lo == 0)) {
        Err(LiquidationRecordError::InvalidLiquidationRecord)
    } else {
        Ok(())
    }
}

/// Whether a record may be closed: no liquidation in progress, the record is the account's,
/// `payer` paid for it, it has been inactive for `required_inactivity_window` seconds, and the
/// account points at it or at nothing. The account's record pointer is then cleared.
pub fn check_close_liquidation_record(
    record: &LiquidationRecordView,
    record_key: &Pubkey,
    account_key: &Pubkey,
    account_record: &Pubkey,
    payer: &Pubkey,
    required_inactivity_window: i64,
    now_ts: i64,
) -> (r: Result<(), LiquidationRecordError>)
    ensures
        r == spec_close_record(
            *record,
            *record_key,
            *account_key,
            *account_record,
            *payer,
            required_inactivity_window,
            now_ts,
        ),
{
    if !record.liquidation_receiver.is_default() {
        return Err(LiquidationRecordError::IllegalAction);
    }
    if record.marginfi_account != *account_key {
        return Err(LiquidationRecordError::InvalidLiquidationRecord);
    }
    if record.record_payer != *payer {
        return Err(LiquidationRecordError::Unauthorized);
    }
    match check_liquidation_record_expiry(record.last_activity_ts, required_inactivity_window, now_ts) {
        Err(e) => {
            return Err(e);
        },
        Ok(()) => {},
    }
    if !(*account_record == *record_key || account_record.is_default()) {
        return Err(LiquidationRecordError::InvalidLiquidationRecord);
    }
    Ok(())
}

/// Closing by the record's creator: the creator must have paid for it, and it must have been
/// inactive for 60 days.
pub fn close_liquidation_record_by_creator(
    record: &LiquidationRecordView,
    record_key: &Pubkey,
    account_key: &Pubkey,
    account_record: &Pubkey,
    creator: &Pubkey,
    now_ts: i64,
) -> (r: Result<(), LiquidationRecordError>)
    ensures
        r == spec_close_record(
            *record,
            *record_key,
            *account_key,
            *account_record,
            *creator,
            SECS_60_DAYS,
            now_ts,
        ),
{
    check_close_liquidation_record(
        record,
        record_key,
        account_key,
        account_record,
        creator,
        SECS_60_DAYS,
        now_ts,
    )
}

/// Closing by the risk admin on behalf of the record's payer: it must have been inactive for 90
/// days.
pub fn risk_admin_close_liquidation_record(
    record: &LiquidationRecordView,
    record_key: &Pubkey,
    account_key: &Pubkey,
    account_record: &Pubkey,
    record_payer: &Pubkey,
    now_ts: i64,
) -> (r: Result<(), LiquidationRecordError>)
    ensures
        r == spec_close_record(
            *record,
            *record_key,
            *account_key,
            *account_record,
            *record_payer,
            SECS_90_DAYS,
            now_ts,
        ),
{
    check_close_liquidation_record(
        record,
        record_key,
        account_key,
        account_record,
        record_payer,
        SECS_90_DAYS,
        now_ts,
    )
}

/// Tagging twice in a row is refused: after an account is tagged at `now`, a second tag call on
/// the same (still unhealthy) reading fails with `AccountAlreadyTagged`; after it is untagged, a
/// second untag call fails with `HealthyAccount`.
pub proof fn lemma_tag_is_not_repeatable(health: I80F48, liabs: I80F48, tagged_at: i64, now: i64, later: i64)
    requires
        now != 0,
        spec_tag_liquidation_record(health, liabs, tagged_at, now) is Ok,
    ensures
        ({
            let t = spec_tag_liquidation_record(health, liabs, tagged_at, now)->Ok_0;
            spec_tag_liquidation_record(health, liabs, t, later) is Err
        }),
{
}

} // verus!
