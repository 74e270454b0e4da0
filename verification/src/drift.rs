//! Drift spot markets and users, as far as a marginfi Drift bank reads them: scaled-balance
//! conversions, the interest-rate curve behind the deposit (supply) rate, and the checks on a
//! user's spot positions.
use vstd::prelude::*;
use crate::fixed_point::{I80F48, scale, in_i128, div_bits};

verus! {

/// Drift's percentage precision: rates, utilization and the insurance factor are in 1e6 units.
pub const PERCENTAGE_PRECISION: u128 = 1_000_000;

/// Errors of the Drift account helpers.
#[derive(Clone, Copy, Debug, PartialEq, Eq, Structural)]
pub enum DriftError {
    MathError,
    /// A `u128` result did not fit in a `u64`.
    ConversionError,
    TooManyActiveDeposits,
    MissingRewardAccounts,
    InvalidPositionIndex,
    InvalidBalanceType,
    InvalidPositionState,
    NoAdminDeposit,
}

pub open spec fn pow10(n: nat) -> nat
    decreases n,
{
    if n == 0 {
        1
    } else {
        10 * pow10((n - 1) as nat)
    }
}

proof fn lemma_pow10_bounds(n: nat)
    requires
        n <= 19,
    ensures
        1 <= pow10(n) <= pow10(19),
        pow10(19) == 10_000_000_000_000_000_000,
    decreases n,
{
    reveal_with_fuel(pow10, 20);
    if n > 0 {
        lemma_pow10_bounds((n - 1) as nat);
        lemma_pow10_monotone((n - 1) as nat, 19);
    }
}

proof fn lemma_pow10_monotone(a: nat, b: nat)
    requires
        a <= b,
    ensures
        pow10(a) <= pow10(b),
    decreases b,
{
    if a < b {
        lemma_pow10_monotone(a, (b - 1) as nat);
    }
}

/// `10^(19 - decimals)`: the factor from a mint's native units to Drift's 1e19-scaled interest
/// arithmetic. Fails when `decimals > 19`.
pub open spec fn spec_precision_increase(decimals: u32) -> Result<u128, DriftError> {
    if decimals > 19 {
        Err(DriftError::MathError)
    } else {
        Ok(pow10((19 - decimals) as nat) as u128)
    }
}

pub fn get_precision_increase(decimals: u32) -> (r: Result<u128, DriftError>)
    ensures
        r == spec_precision_increase(decimals),
{
    if decimals > 19 {
        return Err(DriftError::MathError);
    }
    let n = 19 - decimals;
    let mut p: u128 = 1;
    let mut i: u32 = 0;
    while i < n
        invariant
            i <= n <= 19,
            p == pow10(i as nat),
        decreases n - i,
    {
        proof {
            lemma_pow10_bounds(i as nat);
            lemma_pow10_monotone(i as nat, 18);
            lemma_pow10_bounds(18);
            reveal_with_fuel(pow10, 20);
        }
        p = p * 10;
        i = i + 1;
    }
    Ok(p)
}

/// Saturating product of two `u128`s (as Rust's `u128::saturating_mul`).
pub open spec fn sat_mul(a: int, b: int) -> int {
    if a * b > u128::MAX {
        u128::MAX as int
    } else {
        a * b
    }
}

pub open spec fn sat_add(a: int, b: int) -> int {
    if a + b > u128::MAX {
        u128::MAX as int
    } else {
        a + b
    }
}

pub open spec fn sat_sub(a: int, b: int) -> int {
    if a - b < 0 {
        0
    } else {
        a - b
    }
}

fn saturating_mul(a: u128, b: u128) -> (r: u128)
    ensures
        r == sat_mul(a as int, b as int),
{
    match a.checked_mul(b) {
        Some(v) => v,
        None => u128::MAX,
    }
}

/// Balance side of a Drift spot position.
#[derive(Clone, Copy, Debug, PartialEq, Eq, Structural)]
pub enum SpotBalanceType {
    Deposit,
    Borrow,
}

/// A spot position within a Drift user account.
#[derive(Clone, Copy, Debug, PartialEq, Eq, Structural)]
pub struct SpotPosition {
    /// Balance in Drift's scaled units (SPOT_BALANCE_PRECISION).
    pub scaled_balance: u64,
    pub open_bids: i64,
    pub open_asks: i64,
    /// Cumulative deposits/borrows, in token mint precision.
    pub cumulative_deposits: i64,
    pub market_index: u16,
    pub balance_type: SpotBalanceType,
    pub open_orders: u8,
}

/// The insurance-fund part of a spot market that the rate model reads.
#[derive(Clone, Copy, Debug, PartialEq, Eq, Structural)]
pub struct InsuranceFund {
    /// Share of interest taken by the insurance fund (1e6 = 100%).
    pub total_factor: u32,
    pub user_factor: u32,
}

/// The fields of Drift's `SpotMarket` that marginfi reads. The 128-bit quantities are held as the
/// values that the account's little-endian bytes encode.
#[derive(Clone, Copy, Debug, PartialEq, Eq, Structural)]
pub struct MinimalSpotMarket {
    pub insurance_fund: InsuranceFund,
    pub deposit_balance: u128,
    pub borrow_balance: u128,
    pub cumulative_deposit_interest: u128,
    pub cumulative_borrow_interest: u128,
    /// Last time the cumulative interest was updated.
    pub last_interest_ts: u64,
    /// Rate-curve parameters, 1e6 units.
    pub optimal_utilization: u32,
    pub optimal_borrow_rate: u32,
    pub max_borrow_rate: u32,
    pub decimals: u32,
    pub market_index: u16,
}

impl Default for MinimalSpotMarket {
    fn default() -> (r: Self)
        ensures
            r == (MinimalSpotMarket {
                insurance_fund: InsuranceFund { total_factor: 0, user_factor: 0 },
                deposit_balance: 0,
                borrow_balance: 0,
                cumulative_deposit_interest: 0,
                cumulative_borrow_interest: 0,
                last_interest_ts: 0,
                optimal_utilization: 0,
                optimal_borrow_rate: 0,
                max_borrow_rate: 0,
                decimals: 0,
                market_index: 0,
            }),
    {
        MinimalSpotMarket {
            insurance_fund: InsuranceFund { total_factor: 0, user_factor: 0 },
            deposit_balance: 0,
            borrow_balance: 0,
            cumulative_deposit_interest: 0,
            cumulative_borrow_interest: 0,
            last_interest_ts: 0,
            optimal_utilization: 0,
            optimal_borrow_rate: 0,
            max_borrow_rate: 0,
            decimals: 0,
            market_index: 0,
        }
    }
}

/// `amount * 10^(19 - decimals) / cumulative_interest`, as a `u64`, plus one when `round_up` and
/// the quotient is non-zero. Errors on overflow, a zero cumulative interest, or `decimals > 19`.
pub open spec fn spec_scaled_balance(
    decimals: u32,
    cumulative_interest: u128,
    amount: u64,
    round_up: bool,
) -> Result<u64, DriftError> {
    match spec_precision_increase(decimals) {
        Err(e) => Err(e),
        Ok(p) => {
            if amount * p > u128::MAX || cumulative_interest == 0 {
                Err(DriftError::MathError)
            } else {
                let b = (amount * p) / (cumulative_interest as int);
                if b > u64::MAX {
                    Err(DriftError::ConversionError)
                } else if round_up && b != 0 {
                    if b + 1 > u64::MAX {
                        Err(DriftError::MathError)
                    } else {
                        Ok((b + 1) as u64)
                    }
                } else {
                    Ok(b as u64)
                }
            }
        },
    }
}

/// `scaled_balance * cumulative_interest / 10^(19 - decimals)` as a `u64`; errors on overflow or
/// `decimals > 19`.
pub open spec fn spec_withdraw_token_amount(
    decimals: u32,
    cumulative_interest: u128,
    scaled_balance: u64,
) -> Result<u64, DriftError> {
    match spec_precision_increase(decimals) {
        Err(e) => Err(e),
        Ok(p) => {
            if scaled_balance * cumulative_interest > u128::MAX {
                Err(DriftError::MathError)
            } else {
                let t = (scaled_balance * cumulative_interest) / (p as int);
                if t > u64::MAX {
                    Err(DriftError::MathError)
                } else {
                    Ok(t as u64)
                }
            }
        },
    }
}

impl MinimalSpotMarket {
    /// Scaled-balance change for a token `amount`, as Drift's `get_spot_balance` computes it;
    /// `round_up` adds one to a non-zero result (withdrawals).
    pub fn get_scaled_balance(&self, amount: u64, round_up: bool) -> (r: Result<u64, DriftError>)
        ensures
            r == spec_scaled_balance(
                self.decimals,
                self.cumulative_deposit_interest,
                amount,
                round_up,
            ),
    {
        let precision_increase = match get_precision_increase(self.decimals) {
            Ok(p) => p,
            Err(e) => return Err(e),
        };
        let cumulative_interest = self.cumulative_deposit_interest;
        let product = match (amount as u128).checked_mul(precision_increase) {
            Some(v) => v,
            None => return Err(DriftError::MathError),
        };
        let quotient = match product.checked_div(cumulative_interest) {
            Some(v) => v,
            None => return Err(DriftError::MathError),
        };
        if quotient > u64::MAX as u128 {
            return Err(DriftError::ConversionError);
        }
        let mut balance = quotient as u64;
        if round_up && balance != 0 {
            balance = match balance.checked_add(1) {
                Some(v) => v,
                None => return Err(DriftError::MathError),
            };
        }
        Ok(balance)
    }

    /// Scaled-balance decrement for a withdrawal of `amount` tokens (rounds up).
    pub fn get_scaled_balance_decrement(&self, amount: u64) -> (r: Result<u64, DriftError>)
        ensures
            r == spec_scaled_balance(
                self.decimals,
                self.cumulative_deposit_interest,
                amount,
                true,
            ),
    {
        self.get_scaled_balance(amount, true)
    }

    /// Scaled-balance increment for a deposit of `amount` tokens (floors).
    pub fn get_scaled_balance_increment(&self, amount: u64) -> (r: Result<u64, DriftError>)
        ensures
            r == spec_scaled_balance(
                self.decimals,
                self.cumulative_deposit_interest,
                amount,
                false,
            ),
    {
        self.get_scaled_balance(amount, false)
    }

    /// Token amount of a deposit's scaled balance (the `Deposit` branch of Drift's
    /// `get_token_amount`), floored.
    pub fn get_withdraw_token_amount(&self, scaled_balance: u64) -> (r: Result<u64, DriftError>)
        ensures
            r == spec_withdraw_token_amount(
                self.decimals,
                self.cumulative_deposit_interest,
                scaled_balance,
            ),
    {
        let precision_increase = match get_precision_increase(self.decimals) {
            Ok(p) => p,
            Err(e) => return Err(e),
        };
        proof {
            lemma_pow10_bounds((19 - self.decimals) as nat);
        }
        let cumulative_interest = self.cumulative_deposit_interest;
        let product = match (scaled_balance as u128).checked_mul(cumulative_interest) {
            Some(v) => v,
            None => return Err(DriftError::MathError),
        };
        let quotient = product / precision_increase;
        if quotient > u64::MAX as u128 {
            return Err(DriftError::MathError);
        }
        Ok(quotient as u64)
    }

    /// Whether interest was last updated before `current_timestamp`. A last update in the future
    /// is not stale.
    pub fn is_stale(&self, current_timestamp: i64) -> (r: bool)
        ensures
            r == ((self.last_interest_ts as i64) < current_timestamp),
    {
        (self.last_interest_ts as i64) < current_timestamp
    }
}

// ---------------------------------------------------------------------------------------------
// Interest-rate model
// ---------------------------------------------------------------------------------------------
/// Drift's above-optimal borrow-curve segments: `(end utilization, weight)`, weights out of 1000.
pub open spec fn spec_segment(i: int) -> (int, int) {
    if i == 0 {
        (850_000, 50)
    } else if i == 1 {
        (900_000, 100)
    } else if i == 2 {
        (950_000, 150)
    } else if i == 3 {
        (990_000, 200)
    } else if i == 4 {
        (995_000, 250)
    } else {
        (1_000_000, 250)
    }
}

pub const SEGMENT_COUNT: usize = 6;

fn segment(i: usize) -> (r: (u128, u128))
    requires
        i < SEGMENT_COUNT,
    ensures
        r.0 == spec_segment(i as int).0,
        r.1 == spec_segment(i as int).1,
{
    if i == 0 {
        (850_000, 50)
    } else if i == 1 {
        (900_000, 100)
    } else if i == 2 {
        (950_000, 150)
    } else if i == 3 {
        (990_000, 200)
    } else if i == 4 {
        (995_000, 250)
    } else {
        (1_000_000, 250)
    }
}

/// Utilization in 1e6 units: `borrow * 1e6 / deposit` (saturating product); both zero gives zero,
/// borrows without deposits give the maximum (1e6).
pub open spec fn spec_utilization(deposit: u128, borrow: u128) -> u128 {
    if deposit == 0 {
        if borrow == 0 {
            0
        } else {
            PERCENTAGE_PRECISION
        }
    } else {
        (sat_mul(borrow as int, PERCENTAGE_PRECISION as int) / (deposit as int)) as u128
    }
}

/// Borrow rate accumulated over the segments from `i` on, starting at `rate` with segment `i`
/// beginning at `prev`. `None` when the segment containing `util` is empty.
pub open spec fn spec_segments_rate(
    util: int,
    total_extra: int,
    rate: int,
    prev: int,
    i: int,
) -> Option<int>
    decreases 6 - i,
{
    if i >= 6 || i < 0 {
        Some(rate)
    } else {
        let end = spec_segment(i).0;
        let weight = spec_segment(i).1;
        let range = sat_sub(end, prev);
        let segment_total = sat_mul(total_extra, weight) / 1000;
        if util <= end {
            if range == 0 {
                None
            } else {
                Some(sat_add(rate, sat_mul(segment_total, sat_sub(util, prev)) / range))
            }
        } else {
            spec_segments_rate(util, total_extra, sat_add(rate, segment_total), end, i + 1)
        }
    }
}

/// Drift's borrow rate at `utilization`: linear up to the optimal point, then the weighted
/// segments up to the maximum rate. `None` only when `utilization <= optimal_utilization == 0`.
pub open spec fn spec_borrow_rate(
    utilization: u128,
    optimal_utilization: u128,
    optimal_borrow_rate: u128,
    max_borrow_rate: u128,
) -> Option<u128> {
    if utilization <= optimal_utilization {
        if optimal_utilization == 0 {
            None
        } else {
            let slope = sat_mul(optimal_borrow_rate as int, PERCENTAGE_PRECISION as int) / (
            optimal_utilization as int);
            Some((sat_mul(utilization as int, slope) / (PERCENTAGE_PRECISION as int)) as u128)
        }
    } else {
        match spec_segments_rate(
            utilization as int,
            sat_sub(max_borrow_rate as int, optimal_borrow_rate as int),
            optimal_borrow_rate as int,
            optimal_utilization as int,
            0,
        ) {
            Some(r) => Some(r as u128),
            None => None,
        }
    }
}

/// `borrow_rate * (1e6 - total_factor) * utilization / 1e6 / 1e6`; `None` when a product overflows.
pub open spec fn spec_deposit_rate(borrow_rate: u128, utilization: u128, total_factor: u128) -> Option<
    u128,
> {
    let kept = sat_sub(PERCENTAGE_PRECISION as int, total_factor as int);
    if borrow_rate * kept > u128::MAX || borrow_rate * kept * utilization > u128::MAX {
        None
    } else {
        Some(
            (((borrow_rate * kept * utilization) / (PERCENTAGE_PRECISION as int)) / (
            PERCENTAGE_PRECISION as int)) as u128,
        )
    }
}

/// The deposit rate (1e6 units) that the market parts give, before conversion to a fraction.
pub open spec fn spec_deposit_rate_from_parts(
    deposit_token_amount: u128,
    borrow_token_amount: u128,
    optimal_utilization: u128,
    optimal_borrow_rate: u128,
    max_borrow_rate: u128,
    total_factor: u128,
) -> Option<u128> {
    let utilization = spec_utilization(deposit_token_amount, borrow_token_amount);
    match spec_borrow_rate(utilization, optimal_utilization, optimal_borrow_rate, max_borrow_rate) {
        None => None,
        Some(b) => spec_deposit_rate(b, utilization, total_factor),
    }
}

/// A rate in 1e6 units as a fraction (1.0 == 100%): the bits of `rate / 1e6`.
pub open spec fn rate_fraction_bits(rate: int) -> int {
    (rate * scale()) / (PERCENTAGE_PRECISION as int)
}

/// Once past the start of the segment walk (`prev < util`), the walk yields a rate.
proof fn lemma_segments_rate_some(util: int, total_extra: int, rate: int, prev: int, i: int)
    requires
        prev < util,
    ensures
        spec_segments_rate(util, total_extra, rate, prev, i) is Some,
    decreases 6 - i,
{
    if 0 <= i < 6 {
        let end = spec_segment(i).0;
        let weight = spec_segment(i).1;
        let segment_total = sat_mul(total_extra, weight) / 1000;
        if util > end {
            lemma_segments_rate_some(util, total_extra, sat_add(rate, segment_total), end, i + 1);
        }
    }
}

/// The borrow rate is undefined exactly when the optimal utilization is zero and the utilization
/// does not exceed it (no borrows): every other input yields a rate.
pub proof fn lemma_borrow_rate_none_iff(
    utilization: u128,
    optimal_utilization: u128,
    optimal_borrow_rate: u128,
    max_borrow_rate: u128,
)
    ensures
        spec_borrow_rate(utilization, optimal_utilization, optimal_borrow_rate, max_borrow_rate)
            is None <==> (utilization <= optimal_utilization && optimal_utilization == 0),
{
    if utilization > optimal_utilization {
        lemma_segments_rate_some(
            utilization as int,
            sat_sub(max_borrow_rate as int, optimal_borrow_rate as int),
            optimal_borrow_rate as int,
            optimal_utilization as int,
            0,
        );
    }
}

/// A withdrawal's scaled decrement is the deposit's scaled increment for the same amount, plus one
/// unless the increment is zero: withdrawals round up, deposits round down.
pub proof fn lemma_decrement_rounds_up(decimals: u32, cumulative_interest: u128, amount: u64)
    requires
        spec_scaled_balance(decimals, cumulative_interest, amount, false) is Ok,
        spec_scaled_balance(decimals, cumulative_interest, amount, true) is Ok,
    ensures
        ({
            let inc = spec_scaled_balance(decimals, cumulative_interest, amount, false)->Ok_0;
            let dec = spec_scaled_balance(decimals, cumulative_interest, amount, true)->Ok_0;
            &&& inc == 0 ==> dec == 0
            &&& inc > 0 ==> dec == inc + 1
        }),
{
}

/// A deposit is never credited more than it brought: the tokens its floored scaled increment is
/// worth are at most the amount deposited.
pub proof fn lemma_increment_never_overcredits(decimals: u32, cumulative_interest: u128, amount: u64)
    requires
        spec_scaled_balance(decimals, cumulative_interest, amount, false) is Ok,
        spec_withdraw_token_amount(
            decimals,
            cumulative_interest,
            spec_scaled_balance(decimals, cumulative_interest, amount, false)->Ok_0,
        ) is Ok,
    ensures
        spec_withdraw_token_amount(
            decimals,
            cumulative_interest,
            spec_scaled_balance(decimals, cumulative_interest, amount, false)->Ok_0,
        )->Ok_0 <= amount,
{
    let p = spec_precision_increase(decimals)->Ok_0 as int;
    let c = cumulative_interest as int;
    let a = amount as int;
    let s = spec_scaled_balance(decimals, cumulative_interest, amount, false)->Ok_0 as int;
    lemma_pow10_bounds((19 - decimals) as nat);
    assert(p > 0);
    assert(s == (a * p) / c);
    vstd::arithmetic::div_mod::lemma_fundamental_div_mod(a * p, c);
    assert(s * c <= a * p) by (nonlinear_arith)
        requires
            a * p == c * ((a * p) / c) + (a * p) % c,
            (a * p) % c >= 0,
            s == (a * p) / c,
    ;
    assert(s * c >= 0) by (nonlinear_arith)
        requires
            s >= 0,
            c > 0,
    ;
    vstd::arithmetic::div_mod::lemma_div_is_ordered(s * c, a * p, p);
    vstd::arithmetic::div_mod::lemma_div_by_multiple(a, p);
}

/// A withdrawal never debits less than it takes: when its rounded-up scaled decrement is not
/// zero, the tokens that decrement is worth are at least the amount withdrawn.
pub proof fn lemma_decrement_covers_withdrawal(decimals: u32, cumulative_interest: u128, amount: u64)
    requires
        spec_scaled_balance(decimals, cumulative_interest, amount, true) is Ok,
        spec_scaled_balance(decimals, cumulative_interest, amount, true)->Ok_0 > 0,
        spec_withdraw_token_amount(
            decimals,
            cumulative_interest,
            spec_scaled_balance(decimals, cumulative_interest, amount, true)->Ok_0,
        ) is Ok,
    ensures
        spec_withdraw_token_amount(
            decimals,
            cumulative_interest,
            spec_scaled_balance(decimals, cumulative_interest, amount, true)->Ok_0,
        )->Ok_0 >= amount,
{
    let p = spec_precision_increase(decimals)->Ok_0 as int;
    let c = cumulative_interest as int;
    let a = amount as int;
    let s = spec_scaled_balance(decimals, cumulative_interest, amount, true)->Ok_0 as int;
    lemma_pow10_bounds((19 - decimals) as nat);
    assert(p > 0);
    let b = (a * p) / c;
    assert(s == b + 1);
    vstd::arithmetic::div_mod::lemma_fundamental_div_mod(a * p, c);
    assert(s * c >= a * p) by (nonlinear_arith)
        requires
            a * p == c * b + (a * p) % c,
            (a * p) % c < c,
            s == b + 1,
    ;
    assert(a * p >= 0) by (nonlinear_arith)
        requires
            a >= 0,
            p > 0,
    ;
    vstd::arithmetic::div_mod::lemma_div_is_ordered(a * p, s * c, p);
    vstd::arithmetic::div_mod::lemma_div_by_multiple(a, p);
}

/// Borrowed share of deposits at `PERCENTAGE_PRECISION`: saturating scaled quotient, 0 for an
/// empty market and full utilization when nothing is deposited but something is borrowed.
pub fn calculate_utilization(deposit_token_amount: u128, borrow_token_amount: u128) -> (r: u128)
    ensures
        r == spec_utilization(deposit_token_amount, borrow_token_amount),
{
    let scaled = saturating_mul(borrow_token_amount, PERCENTAGE_PRECISION);
    match scaled.checked_div(deposit_token_amount) {
        Some(v) => v,
        None => {
            if deposit_token_amount == 0 && borrow_token_amount == 0 {
                0
            } else {
                PERCENTAGE_PRECISION
            }
        },
    }
}

/// Borrow rate of the piecewise-linear curve: linear up to the optimal utilization, then the
/// weighted segments above it (the market carries no minimum-rate floor).
pub fn calculate_borrow_rate(
    utilization: u128,
    optimal_utilization: u128,
    optimal_borrow_rate: u128,
    max_borrow_rate: u128,
) -> (r: Option<u128>)
    ensures
        r == spec_borrow_rate(
            utilization,
            optimal_utilization,
            optimal_borrow_rate,
            max_borrow_rate,
        ),
{
    let weights_divisor: u128 = 1000;
    if utilization <= optimal_utilization {
        let scaled = saturating_mul(optimal_borrow_rate, PERCENTAGE_PRECISION);
        let slope = match scaled.checked_div(optimal_utilization) {
            Some(s) => s,
            None => return None,
        };
        return Some(saturating_mul(utilization, slope) / PERCENTAGE_PRECISION);
    }
    let total_extra_rate = max_borrow_rate.saturating_sub(optimal_borrow_rate);
    let mut rate = optimal_borrow_rate;
    let mut prev_util = optimal_utilization;
    let mut i: usize = 0;
    while i < SEGMENT_COUNT
        invariant
            i <= SEGMENT_COUNT,
            weights_divisor == 1000,
            utilization > optimal_utilization,
            total_extra_rate == sat_sub(max_borrow_rate as int, optimal_borrow_rate as int),
            spec_segments_rate(
                utilization as int,
                total_extra_rate as int,
                optimal_borrow_rate as int,
                optimal_utilization as int,
                0,
            ) == spec_segments_rate(
                utilization as int,
                total_extra_rate as int,
                rate as int,
                prev_util as int,
                i as int,
            ),
        decreases SEGMENT_COUNT - i,
    {
        let (segment_end, weight) = segment(i);
        let segment_start = prev_util;
        let segment_range = segment_end.saturating_sub(segment_start);
        let segment_rate_total = saturating_mul(total_extra_rate, weight) / weights_divisor;
        if utilization <= segment_end {
            let partial_util = utilization.saturating_sub(segment_start);
            let partial = saturating_mul(segment_rate_total, partial_util);
            let partial_rate = match partial.checked_div(segment_range) {
                Some(v) => v,
                None => return None,
            };
            return Some(rate.saturating_add(partial_rate));
        } else {
            rate = rate.saturating_add(segment_rate_total);
            prev_util = segment_end;
        }
        i = i + 1;
    }
    Some(rate)
}

/// Deposit rate: the borrow rate scaled by utilization and by the share not kept as protocol fee.
pub fn calculate_deposit_rate(borrow_rate: u128, utilization: u128, total_factor: u128) -> (r:
    Option<u128>)
    ensures
        r == spec_deposit_rate(borrow_rate, utilization, total_factor),
{
    let kept = PERCENTAGE_PRECISION.saturating_sub(total_factor);
    let a = match borrow_rate.checked_mul(kept) {
        Some(v) => v,
        None => return None,
    };
    let b = match a.checked_mul(utilization) {
        Some(v) => v,
        None => return None,
    };
    Some(b / PERCENTAGE_PRECISION / PERCENTAGE_PRECISION)
}

proof fn lemma_rate_fraction(rate: int)
    requires
        0 <= rate < 0x8000_0000_0000_0000_0000,
    ensures
        div_bits(rate * scale(), PERCENTAGE_PRECISION * scale()) == rate_fraction_bits(rate),
        0 <= rate_fraction_bits(rate) <= rate * scale(),
        in_i128(rate_fraction_bits(rate)),
{
    let s = scale();
    let n = rate * s * s;
    assert(n >= 0) by (nonlinear_arith)
        requires
            rate >= 0,
            s > 0,
            n == rate * s * s,
    ;
    assert((rate * s) * s == n) by (nonlinear_arith)
        requires
            n == rate * s * s,
    ;
    vstd::arithmetic::div_mod::lemma_div_denominator(n, s, PERCENTAGE_PRECISION as int);
    vstd::arithmetic::div_mod::lemma_div_by_multiple(rate * s, s);
    assert(s * (PERCENTAGE_PRECISION as int) == (PERCENTAGE_PRECISION as int) * s) by (
    nonlinear_arith);
    assert(rate * s >= 0) by (nonlinear_arith)
        requires
            rate >= 0,
            s > 0,
    ;
    vstd::arithmetic::div_mod::lemma_div_is_ordered_by_denominator(
        rate * s,
        1,
        PERCENTAGE_PRECISION as int,
    );
    vstd::arithmetic::div_mod::lemma_div_pos_is_pos(rate * s, PERCENTAGE_PRECISION as int);
    assert(rate * s < 0x8000_0000_0000_0000_0000 * s) by (nonlinear_arith)
        requires
            rate < 0x8000_0000_0000_0000_0000,
            s > 0,
    ;
}

/// Net Drift deposit (supply) rate as a fraction (1.0 == 100%) from market parts: utilization,
/// then borrow rate, then deposit rate net of the insurance-fund cut, divided by 1e6.
pub fn drift_deposit_rate_from_parts(
    deposit_token_amount: u128,
    borrow_token_amount: u128,
    optimal_utilization: u128,
    optimal_borrow_rate: u128,
    max_borrow_rate: u128,
    total_factor: u128,
) -> (r: Option<I80F48>)
    requires
        spec_deposit_rate_from_parts(
            deposit_token_amount,
            borrow_token_amount,
            optimal_utilization,
            optimal_borrow_rate,
            max_borrow_rate,
            total_factor,
        ) matches Some(d) ==> d < 0x8000_0000_0000_0000_0000,
    ensures
        match spec_deposit_rate_from_parts(
            deposit_token_amount,
            borrow_token_amount,
            optimal_utilization,
            optimal_borrow_rate,
            max_borrow_rate,
            total_factor,
        ) {
            Some(d) => r == Some(I80F48 { bits: rate_fraction_bits(d as int) as i128 }),
            None => r is None,
        },
{
    let utilization = calculate_utilization(deposit_token_amount, borrow_token_amount);
    let borrow_rate = match calculate_borrow_rate(
        utilization,
        optimal_utilization,
        optimal_borrow_rate,
        max_borrow_rate,
    ) {
        Some(b) => b,
        None => return None,
    };
    let deposit_rate = match calculate_deposit_rate(borrow_rate, utilization, total_factor) {
        Some(d) => d,
        None => return None,
    };
    proof {
        lemma_rate_fraction(deposit_rate as int);
    }
    let num = I80F48::from_u128(deposit_rate);
    let den = I80F48::from_u128(PERCENTAGE_PRECISION);
    Some(num.div(den))
}

/// `balance * cumulative_interest / precision_decrease`, `None` on overflow (Drift's
/// `get_token_amount`).
pub open spec fn spec_token_amount(balance: u128, cumulative_interest: u128, precision: u128) -> Option<
    u128,
> {
    if balance * cumulative_interest > u128::MAX || precision == 0 {
        None
    } else {
        Some(((balance * cumulative_interest) / (precision as int)) as u128)
    }
}

fn token_amount(balance: u128, cumulative_interest: u128, precision: u128) -> (r: Option<u128>)
    ensures
        r == spec_token_amount(balance, cumulative_interest, precision),
{
    match balance.checked_mul(cumulative_interest) {
        Some(v) => v.checked_div(precision),
        None => None,
    }
}

/// The market's deposit rate in 1e6 units: token amounts from the stored balances, then
/// [`spec_deposit_rate_from_parts`].
pub open spec fn spec_market_deposit_rate(m: MinimalSpotMarket) -> Option<u128> {
    match spec_precision_increase(m.decimals) {
        Err(_) => None,
        Ok(p) => match spec_token_amount(m.deposit_balance, m.cumulative_deposit_interest, p) {
            None => None,
            Some(dep) => match spec_token_amount(m.borrow_balance, m.cumulative_borrow_interest, p) {
                None => None,
                Some(bor) => spec_deposit_rate_from_parts(
                    dep,
                    bor,
                    m.optimal_utilization as u128,
                    m.optimal_borrow_rate as u128,
                    m.max_borrow_rate as u128,
                    m.insurance_fund.total_factor as u128,
                ),
            },
        },
    }
}

impl MinimalSpotMarket {
    /// Net deposit (supply) rate of the market as a fraction (1.0 == 100%); `None` on overflow.
    /// The caller must ensure the market was refreshed this slot (see `is_stale`).
    pub fn deposit_rate(&self) -> (r: Option<I80F48>)
        requires
            spec_market_deposit_rate(*self) matches Some(d) ==> d < 0x8000_0000_0000_0000_0000,
        ensures
            match spec_market_deposit_rate(*self) {
                Some(d) => r == Some(I80F48 { bits: rate_fraction_bits(d as int) as i128 }),
                None => r is None,
            },
    {
        let precision_decrease = match get_precision_increase(self.decimals) {
            Ok(p) => p,
            Err(_) => return None,
        };
        let deposit_token_amount = match token_amount(
            self.deposit_balance,
            self.cumulative_deposit_interest,
            precision_decrease,
        ) {
            Some(v) => v,
            None => return None,
        };
        let borrow_token_amount = match token_amount(
            self.borrow_balance,
            self.cumulative_borrow_interest,
            precision_decrease,
        ) {
            Some(v) => v,
            None => return None,
        };
        drift_deposit_rate_from_parts(
            deposit_token_amount,
            borrow_token_amount,
            self.optimal_utilization as u128,
            self.optimal_borrow_rate as u128,
            self.max_borrow_rate as u128,
            self.insurance_fund.total_factor as u128,
        )
    }
}

// ---------------------------------------------------------------------------------------------
// Users and spot positions
// ---------------------------------------------------------------------------------------------
/// Status of a Drift user account.
#[derive(Clone, Copy, Debug, PartialEq, Eq, Structural)]
pub enum UserStatus {
    Active,
    BeingLiquidated,
    Bankrupt,
    ReduceOnly,
    AdvancedLp,
    ProtectedMakerOrders,
}

/// Number of spot positions in a Drift user account.
pub const SPOT_POSITION_COUNT: usize = 8;

/// The fields of Drift's `User` account that marginfi reads.
#[derive(Clone, Copy, Debug)]
pub struct MinimalUser {
    pub spot_positions: [SpotPosition; 8],
    pub sub_account_id: u16,
    pub status: UserStatus,
}

/// A position with a positive deposit balance.
pub open spec fn is_active_deposit(p: SpotPosition) -> bool {
    p.scaled_balance > 0 && p.balance_type == SpotBalanceType::Deposit
}

/// Number of active deposit positions among `s`.
pub open spec fn count_active(s: Seq<SpotPosition>) -> nat
    decreases s.len(),
{
    if s.len() == 0 {
        0
    } else {
        count_active(s.drop_last()) + if is_active_deposit(s.last()) {
            1nat
        } else {
            0nat
        }
    }
}

/// Market indexes of the active deposit positions among `s`, in position order.
pub open spec fn active_markets(s: Seq<SpotPosition>) -> Seq<u16>
    decreases s.len(),
{
    if s.len() == 0 {
        Seq::empty()
    } else {
        active_markets(s.drop_last()) + if is_active_deposit(s.last()) {
            seq![s.last().market_index]
        } else {
            Seq::empty()
        }
    }
}

proof fn lemma_count_active_bound(s: Seq<SpotPosition>)
    ensures
        count_active(s) <= s.len(),
    decreases s.len(),
{
    if s.len() > 0 {
        lemma_count_active_bound(s.drop_last());
    }
}

/// The position that holds `market_index` under Drift's indexing: position 0 for market 0 (USDC),
/// position 1 for every other market.
pub open spec fn position_index(market_index: u16) -> int {
    if market_index == 0 {
        0
    } else {
        1
    }
}

pub open spec fn spec_validate_spot_position(u: MinimalUser, market_index: u16) -> Result<
    (),
    DriftError,
> {
    let p = u.spot_positions@[position_index(market_index)];
    if p.scaled_balance > 0 {
        if p.market_index != market_index {
            Err(DriftError::InvalidPositionIndex)
        } else if p.balance_type != SpotBalanceType::Deposit {
            Err(DriftError::InvalidBalanceType)
        } else {
            Ok(())
        }
    } else if p.cumulative_deposits != 0 {
        Err(DriftError::InvalidPositionState)
    } else {
        Ok(())
    }
}

/// Position `i` is an admin deposit for `market_index`.
pub open spec fn is_admin_deposit(p: SpotPosition, market_index: u16) -> bool {
    p.market_index == market_index && p.scaled_balance > 0 && p.balance_type
        == SpotBalanceType::Deposit
}

impl MinimalUser {
    /// Whether Drift is liquidating this account (or it is bankrupt).
    pub fn is_being_liquidated(&self) -> (r: bool)
        ensures
            r == (self.status == UserStatus::BeingLiquidated || self.status
                == UserStatus::Bankrupt),
    {
        match self.status {
            UserStatus::BeingLiquidated | UserStatus::Bankrupt => true,
            _ => false,
        }
    }

    /// Number of positions with a positive deposit balance.
    pub fn count_active_deposits(&self) -> (r: usize)
        ensures
            r == count_active(self.spot_positions@),
    {
        let mut n: usize = 0;
        let mut i: usize = 0;
        while i < SPOT_POSITION_COUNT
            invariant
                i <= SPOT_POSITION_COUNT,
                self.spot_positions@.len() == SPOT_POSITION_COUNT,
                n == count_active(self.spot_positions@.take(i as int)),
            decreases SPOT_POSITION_COUNT - i,
        {
            proof {
                lemma_count_active_bound(self.spot_positions@.take(i as int));
                assert(self.spot_positions@.take(i + 1).drop_last() =~= self.spot_positions@.take(
                    i as int,
                ));
            }
            let p = self.spot_positions[i];
            if p.scaled_balance > 0 && p.balance_type == SpotBalanceType::Deposit {
                n = n + 1;
            }
            i = i + 1;
        }
        proof {
            assert(self.spot_positions@.take(SPOT_POSITION_COUNT as int) =~= self.spot_positions@);
        }
        n
    }

    /// Market indexes of the positions with a positive deposit balance, in position order.
    pub fn get_active_deposit_markets(&self) -> (r: Vec<u16>)
        ensures
            r@ == active_markets(self.spot_positions@),
    {
        let mut out: Vec<u16> = Vec::new();
        let mut i: usize = 0;
        while i < SPOT_POSITION_COUNT
            invariant
                i <= SPOT_POSITION_COUNT,
                self.spot_positions@.len() == SPOT_POSITION_COUNT,
                out@ == active_markets(self.spot_positions@.take(i as int)),
            decreases SPOT_POSITION_COUNT - i,
        {
            proof {
                assert(self.spot_positions@.take(i + 1).drop_last() =~= self.spot_positions@.take(
                    i as int,
                ));
            }
            let p = self.spot_positions[i];
            if p.scaled_balance > 0 && p.balance_type == SpotBalanceType::Deposit {
                out.push(p.market_index);
            }
            proof {
                assert(out@ =~= active_markets(self.spot_positions@.take(i + 1)));
            }
            i = i + 1;
        }
        proof {
            assert(self.spot_positions@.take(SPOT_POSITION_COUNT as int) =~= self.spot_positions@);
        }
        out
    }

    /// Fails when Drift admin deposits left more than three active deposits (one main asset plus
    /// up to two reward assets), which the account cannot withdraw through.
    pub fn validate_not_bricked_by_admin_deposits(&self) -> (r: Result<(), DriftError>)
        ensures
            r is Ok <==> count_active(self.spot_positions@) <= 3,
            r is Err ==> r == Err::<(), DriftError>(DriftError::TooManyActiveDeposits),
    {
        let active_deposits = self.count_active_deposits();
        if active_deposits > 3 {
            return Err(DriftError::TooManyActiveDeposits);
        }
        Ok(())
    }

    /// Fails when reward accounts that the active deposits need were not provided: the first
    /// reward market from two active deposits on, the second from three on.
    pub fn validate_reward_accounts(
        &self,
        reward_spot_market_is_none: bool,
        reward_spot_market_2_is_none: bool,
    ) -> (r: Result<(), DriftError>)
        ensures
            r is Ok <==> !(count_active(self.spot_positions@) >= 2 && reward_spot_market_is_none)
                && !(count_active(self.spot_positions@) >= 3 && reward_spot_market_2_is_none),
            r is Err ==> r == Err::<(), DriftError>(DriftError::MissingRewardAccounts),
    {
        let active_deposits = self.count_active_deposits();
        if active_deposits >= 2 && reward_spot_market_is_none {
            return Err(DriftError::MissingRewardAccounts);
        }
        if active_deposits >= 3 && reward_spot_market_2_is_none {
            return Err(DriftError::MissingRewardAccounts);
        }
        Ok(())
    }

    /// Checks the position that marginfi uses for `market_index`: a funded position must hold that
    /// market as a deposit; an empty one must carry no cumulative deposits.
    pub fn validate_spot_position(&self, market_index: u16) -> (r: Result<(), DriftError>)
        ensures
            r == spec_validate_spot_position(*self, market_index),
    {
        let expected_position_index: usize = if market_index == 0 {
            0
        } else {
            1
        };
        let position = self.spot_positions[expected_position_index];
        if position.scaled_balance > 0 {
            if position.market_index != market_index {
                return Err(DriftError::InvalidPositionIndex);
            }
            if position.balance_type != SpotBalanceType::Deposit {
                return Err(DriftError::InvalidBalanceType);
            }
        } else {
            if position.cumulative_deposits != 0 {
                return Err(DriftError::InvalidPositionState);
            }
        }
        Ok(())
    }

    /// Scaled balance of the position that marginfi uses for `market_index`.
    pub fn get_scaled_balance(&self, market_index: u16) -> (r: u64)
        ensures
            r == self.spot_positions@[position_index(market_index)].scaled_balance,
    {
        let position_index: usize = if market_index == 0 {
            0
        } else {
            1
        };
        self.spot_positions[position_index].scaled_balance
    }

    /// Succeeds when some position in slots 2..8 is an active deposit of `market_index`.
    pub fn has_admin_deposit(&self, market_index: u16) -> (r: Result<(), DriftError>)
        ensures
            r is Ok <==> exists|i: int|
                2 <= i < 8 && #[trigger] is_admin_deposit(self.spot_positions@[i], market_index),
            r is Err ==> r == Err::<(), DriftError>(DriftError::NoAdminDeposit),
    {
        let mut i: usize = 2;
        while i < SPOT_POSITION_COUNT
            invariant
                2 <= i <= SPOT_POSITION_COUNT,
                self.spot_positions@.len() == SPOT_POSITION_COUNT,
                forall|j: int|
                    2 <= j < i ==> !#[trigger] is_admin_deposit(
                        self.spot_positions@[j],
                        market_index,
                    ),
            decreases SPOT_POSITION_COUNT - i,
        {
            let position = self.spot_positions[i];
            if position.market_index == market_index && position.scaled_balance > 0
                && position.balance_type == SpotBalanceType::Deposit {
                assert(is_admin_deposit(self.spot_positions@[i as int], market_index));
                return Ok(());
            }
            i = i + 1;
        }
        Err(DriftError::NoAdminDeposit)
    }
}

// ---------------------------------------------------------------------------------------------
// Withdraw amounts of a marginfi Drift bank
// ---------------------------------------------------------------------------------------------
/// Errors of the withdraw-amount computation of a marginfi Drift bank.
#[derive(Clone, Copy, Debug, PartialEq, Eq, Structural)]
pub enum DriftWithdrawError {
    /// An error of the market's conversions.
    Market(DriftError),
    MathError,
    /// The requested amount exceeds the position by more than one scaled unit.
    OperationWithdrawOnly,
}

pub open spec fn lift(r: Result<u64, DriftError>) -> Result<u64, DriftWithdrawError> {
    match r {
        Ok(v) => Ok(v),
        Err(e) => Err(DriftWithdrawError::Market(e)),
    }
}

/// `(token amount, scaled decrement)` for withdrawing a whole position of `scaled_balance`: the
/// tokens that balance is worth, lowered by one when Drift's rounding would take one scaled unit
/// more than the position holds.
pub open spec fn spec_withdraw_all_amounts(m: MinimalSpotMarket, scaled_balance: u64) -> Result<
    (u64, u64),
    DriftWithdrawError,
> {
    let d = m.decimals;
    let c = m.cumulative_deposit_interest;
    match spec_withdraw_token_amount(d, c, scaled_balance) {
        Err(e) => Err(DriftWithdrawError::Market(e)),
        Ok(t0) => match spec_scaled_balance(d, c, t0, true) {
            Err(e) => Err(DriftWithdrawError::Market(e)),
            Ok(e0) => {
                let fix = e0 == scaled_balance + 1 && t0 > 0;
                let t = if fix {
                    (t0 - 1) as u64
                } else {
                    t0
                };
                let e = if fix {
                    spec_scaled_balance(d, c, t, true)
                } else {
                    Ok(e0)
                };
                match e {
                    Err(x) => Err(DriftWithdrawError::Market(x)),
                    Ok(dec) => if scaled_balance >= dec {
                        Ok((t, dec))
                    } else {
                        Err(DriftWithdrawError::MathError)
                    },
                }
            },
        },
    }
}

/// `(token amount, scaled decrement)` for withdrawing `amount` tokens from a position of
/// `asset_shares` scaled units: fails when the decrement exceeds the position by more than one
/// unit; when it exceeds it by exactly one, the withdrawal is clamped to the whole position.
pub open spec fn spec_withdraw_amounts(m: MinimalSpotMarket, asset_shares: u64, amount: u64) -> Result<
    (u64, u64),
    DriftWithdrawError,
> {
    let d = m.decimals;
    let c = m.cumulative_deposit_interest;
    match spec_scaled_balance(d, c, amount, true) {
        Err(e) => Err(DriftWithdrawError::Market(e)),
        Ok(dec) => if dec > asset_shares + 1 {
            Err(DriftWithdrawError::OperationWithdrawOnly)
        } else if dec == asset_shares + 1 {
            match spec_withdraw_token_amount(d, c, asset_shares) {
                Err(e) => Err(DriftWithdrawError::Market(e)),
                Ok(t) => match spec_scaled_balance(d, c, t, true) {
                    Err(e) => Err(DriftWithdrawError::Market(e)),
                    Ok(dec2) => Ok((t, dec2)),
                },
            }
        } else {
            Ok((amount, dec))
        },
    }
}

/// Amounts for withdrawing a whole Drift position of `scaled_balance` units from `market`.
pub fn drift_withdraw_all_amounts(market: &MinimalSpotMarket, scaled_balance: u64) -> (r: Result<
    (u64, u64),
    DriftWithdrawError,
>)
    requires
        scaled_balance < u64::MAX,
    ensures
        r == spec_withdraw_all_amounts(*market, scaled_balance),
        r matches Ok((t, dec)) ==> dec <= scaled_balance,
{
    let mut token_amount = match market.get_withdraw_token_amount(scaled_balance) {
        Ok(v) => v,
        Err(e) => return Err(DriftWithdrawError::Market(e)),
    };
    let mut expected = match market.get_scaled_balance_decrement(token_amount) {
        Ok(v) => v,
        Err(e) => return Err(DriftWithdrawError::Market(e)),
    };
    if expected == scaled_balance + 1 && token_amount > 0 {
        token_amount = token_amount.saturating_sub(1);
        expected = match market.get_scaled_balance_decrement(token_amount) {
            Ok(v) => v,
            Err(e) => return Err(DriftWithdrawError::Market(e)),
        };
    }
    if scaled_balance < expected {
        return Err(DriftWithdrawError::MathError);
    }
    Ok((token_amount, expected))
}

/// Amounts for withdrawing `amount` tokens from a Drift position of `asset_shares` units.
pub fn drift_withdraw_amounts(market: &MinimalSpotMarket, asset_shares: u64, amount: u64) -> (r:
    Result<(u64, u64), DriftWithdrawError>)
    requires
        asset_shares < u64::MAX,
    ensures
        r == spec_withdraw_amounts(*market, asset_shares, amount),
{
    let mut scaled_decrement = match market.get_scaled_balance_decrement(amount) {
        Ok(v) => v,
        Err(e) => return Err(DriftWithdrawError::Market(e)),
    };
    let mut token_amount = amount;
    if scaled_decrement > asset_shares + 1 {
        return Err(DriftWithdrawError::OperationWithdrawOnly);
    } else if scaled_decrement == asset_shares + 1 {
        token_amount = match market.get_withdraw_token_amount(asset_shares) {
            Ok(v) => v,
            Err(e) => return Err(DriftWithdrawError::Market(e)),
        };
        scaled_decrement = match market.get_scaled_balance_decrement(token_amount) {
            Ok(v) => v,
            Err(e) => return Err(DriftWithdrawError::Market(e)),
        };
    }
    Ok((token_amount, scaled_decrement))
}


/// `x`, capped at `u128::MAX`.
pub open spec fn capped(x: int) -> int {
    if x > u128::MAX {
        u128::MAX as int
    } else {
        x
    }
}

/// The share of the extra rate (`max - optimal`) that a curve segment of `weight` thousandths
/// carries, computed with a capped product.
pub open spec fn curve_share(extra: int, weight: int) -> int {
    capped(extra * weight) / 1000
}

/// Above the optimal utilization the borrow rate is piecewise linear in utilization. The curve's
/// segments end at 85%, 90%, 95%, 99%, 99.5% and 100% utilization and carry 5%, 10%, 15%, 20%,
/// 25% and 25% of the extra rate `max - optimal`. For a utilization in segment `i` (past the end
/// of segment `i - 1`, or past the optimal point in segment 0) the rate is the optimal rate, plus
/// the whole share of each earlier segment, plus the share of segment `i` interpolated by how far
/// the utilization has come from the segment's start (capped at `u128::MAX`).
pub proof fn law_borrow_rate_above_optimal(
    utilization: u128,
    optimal_utilization: u128,
    optimal_borrow_rate: u128,
    max_borrow_rate: u128,
    i: int,
)
    requires
        optimal_utilization < utilization,
        0 <= i < 6,
        utilization <= seq![850_000int, 900_000, 950_000, 990_000, 995_000, 1_000_000][i],
        i == 0 || seq![850_000int, 900_000, 950_000, 990_000, 995_000, 1_000_000][i - 1]
            < utilization,
    ensures
        ({
            let ends = seq![850_000int, 900_000, 950_000, 990_000, 995_000, 1_000_000];
            let weights = seq![50int, 100, 150, 200, 250, 250];
            let extra = if max_borrow_rate >= optimal_borrow_rate {
                max_borrow_rate - optimal_borrow_rate
            } else {
                0
            };
            let earlier = (if i > 0 {
                curve_share(extra, 50)
            } else {
                0
            }) + (if i > 1 {
                curve_share(extra, 100)
            } else {
                0
            }) + (if i > 2 {
                curve_share(extra, 150)
            } else {
                0
            }) + (if i > 3 {
                curve_share(extra, 200)
            } else {
                0
            }) + (if i > 4 {
                curve_share(extra, 250)
            } else {
                0
            });
            let start = if i == 0 {
                optimal_utilization as int
            } else {
                ends[i - 1]
            };
            let partial = capped(curve_share(extra, weights[i]) * (utilization - start)) / (ends[i]
                - start);
            spec_borrow_rate(utilization, optimal_utilization, optimal_borrow_rate, max_borrow_rate)
                == Some(capped(optimal_borrow_rate + earlier + partial) as u128)
        }),
{
    let extra = sat_sub(max_borrow_rate as int, optimal_borrow_rate as int);
    let u = utilization as int;
    let o = optimal_utilization as int;
    let r0 = optimal_borrow_rate as int;
    let t0 = curve_share(extra, 50);
    let t1 = curve_share(extra, 100);
    let t2 = curve_share(extra, 150);
    let t3 = curve_share(extra, 200);
    let t4 = curve_share(extra, 250);
    let ends = seq![850_000int, 900_000, 950_000, 990_000, 995_000, 1_000_000];
    let weights = seq![50int, 100, 150, 200, 250, 250];
    assert(ends[0] == 850_000 && ends[1] == 900_000 && ends[2] == 950_000 && ends[3] == 990_000
        && ends[4] == 995_000 && ends[5] == 1_000_000);
    assert(weights[0] == 50 && weights[1] == 100 && weights[2] == 150 && weights[3] == 200
        && weights[4] == 250 && weights[5] == 250);
    lemma_curve_share_nonneg(extra, 50);
    lemma_curve_share_nonneg(extra, 100);
    lemma_curve_share_nonneg(extra, 150);
    lemma_curve_share_nonneg(extra, 200);
    lemma_curve_share_nonneg(extra, 250);
    let c1 = capped(r0 + t0);
    let c2 = capped(r0 + t0 + t1);
    let c3 = capped(r0 + t0 + t1 + t2);
    let c4 = capped(r0 + t0 + t1 + t2 + t3);
    let c5 = capped(r0 + t0 + t1 + t2 + t3 + t4);
    if i == 0 {
        lemma_segment_hit(u, extra, r0, o, 0);
        lemma_sat_add_capped(r0, 0, capped(t0 * (u - o)) / (850_000 - o));
    } else {
        lemma_segment_pass(u, extra, r0, o, 0);
        lemma_sat_add_capped(r0, 0, t0);
        if i == 1 {
            lemma_segment_hit(u, extra, c1, 850_000, 1);
            lemma_sat_add_capped(r0, t0, capped(t1 * (u - 850_000)) / 50_000);
        } else {
            lemma_segment_pass(u, extra, c1, 850_000, 1);
            lemma_sat_add_capped(r0, t0, t1);
            if i == 2 {
                lemma_segment_hit(u, extra, c2, 900_000, 2);
                lemma_sat_add_capped(r0, t0 + t1, capped(t2 * (u - 900_000)) / 50_000);
            } else {
                lemma_segment_pass(u, extra, c2, 900_000, 2);
                lemma_sat_add_capped(r0, t0 + t1, t2);
                if i == 3 {
                    lemma_segment_hit(u, extra, c3, 950_000, 3);
                    lemma_sat_add_capped(r0, t0 + t1 + t2, capped(t3 * (u - 950_000)) / 40_000);
                } else {
                    lemma_segment_pass(u, extra, c3, 950_000, 3);
                    lemma_sat_add_capped(r0, t0 + t1 + t2, t3);
                    if i == 4 {
                        lemma_segment_hit(u, extra, c4, 990_000, 4);
                        lemma_sat_add_capped(
                            r0,
                            t0 + t1 + t2 + t3,
                            capped(t4 * (u - 990_000)) / 5_000,
                        );
                    } else {
                        lemma_segment_pass(u, extra, c4, 990_000, 4);
                        lemma_sat_add_capped(r0, t0 + t1 + t2 + t3, t4);
                        lemma_segment_hit(u, extra, c5, 995_000, 5);
                        lemma_sat_add_capped(
                            r0,
                            t0 + t1 + t2 + t3 + t4,
                            capped(t4 * (u - 995_000)) / 5_000,
                        );
                    }
                }
            }
        }
    }
}

proof fn lemma_curve_share_nonneg(extra: int, weight: int)
    requires
        extra >= 0,
        weight >= 0,
    ensures
        curve_share(extra, weight) >= 0,
{
    assert(extra * weight >= 0) by (nonlinear_arith)
        requires
            extra >= 0,
            weight >= 0,
    ;
}

/// Adding to a capped running total caps the whole sum.
proof fn lemma_sat_add_capped(base: int, before: int, more: int)
    requires
        0 <= base <= u128::MAX,
        before >= 0,
        more >= 0,
    ensures
        sat_add(capped(base + before), more) == capped(base + before + more),
{
}

/// The segment walk passes a segment that ends before `util`, adding its whole share.
proof fn lemma_segment_pass(util: int, extra: int, rate: int, prev: int, i: int)
    requires
        0 <= i < 6,
        util > spec_segment(i).0,
    ensures
        spec_segments_rate(util, extra, rate, prev, i) == spec_segments_rate(
            util,
            extra,
            sat_add(rate, curve_share(extra, spec_segment(i).1)),
            spec_segment(i).0,
            i + 1,
        ),
{
}

/// The walk stops in the segment that holds `util`, interpolating its share.
proof fn lemma_segment_hit(util: int, extra: int, rate: int, prev: int, i: int)
    requires
        0 <= i < 6,
        prev < util <= spec_segment(i).0,
    ensures
        spec_segments_rate(util, extra, rate, prev, i) == Some(
            sat_add(
                rate,
                capped(curve_share(extra, spec_segment(i).1) * (util - prev)) / (spec_segment(i).0
                    - prev),
            ),
        ),
{
}

/// Below the optimal utilization the rate never exceeds the optimal rate.
pub proof fn law_borrow_rate_below_optimal_is_bounded(
    utilization: u128,
    optimal_utilization: u128,
    optimal_borrow_rate: u128,
    max_borrow_rate: u128,
)
    requires
        utilization <= optimal_utilization,
        optimal_utilization > 0,
    ensures
        spec_borrow_rate(utilization, optimal_utilization, optimal_borrow_rate, max_borrow_rate)
            matches Some(r) && r <= optimal_borrow_rate,
{
    let u = utilization as int;
    let o = optimal_utilization as int;
    let scaled = sat_mul(optimal_borrow_rate as int, PERCENTAGE_PRECISION as int);
    let slope = scaled / o;
    assert(scaled <= optimal_borrow_rate * 1_000_000);
    assert(slope * o <= scaled) by (nonlinear_arith)
        requires
            slope == scaled / o,
            o > 0,
            scaled >= 0,
    ;
    assert(u * slope <= o * slope) by (nonlinear_arith)
        requires
            u <= o,
            slope >= 0,
    ;
    let prod = sat_mul(u, slope);
    assert(prod <= optimal_borrow_rate * 1_000_000);
    assert(prod / 1_000_000 <= optimal_borrow_rate) by (nonlinear_arith)
        requires
            prod <= optimal_borrow_rate * 1_000_000,
            prod >= 0,
    ;
}

/// A request whose rounded-up scaled decrement is exactly one unit more than the position is
/// clamped to the whole position: the result is the tokens the position is worth, with their own
/// rounded-up decrement.
pub proof fn law_withdraw_one_unit_over_takes_whole_position(
    m: MinimalSpotMarket,
    asset_shares: u64,
    amount: u64,
)
    requires
        asset_shares < u64::MAX,
        spec_scaled_balance(m.decimals, m.cumulative_deposit_interest, amount, true) == Ok::<
            u64,
            DriftError,
        >((asset_shares + 1) as u64),
    ensures
        spec_withdraw_amounts(m, asset_shares, amount) == match spec_withdraw_token_amount(
            m.decimals,
            m.cumulative_deposit_interest,
            asset_shares,
        ) {
            Err(e) => Err(DriftWithdrawError::Market(e)),
            Ok(t) => match spec_scaled_balance(m.decimals, m.cumulative_deposit_interest, t, true) {
                Err(e) => Err(DriftWithdrawError::Market(e)),
                Ok(d) => Ok((t, d)),
            },
        },
{
}

/// A withdrawal that debits the position pays out no more tokens than the whole position is
/// worth.
pub proof fn law_withdraw_never_exceeds_position_value(
    m: MinimalSpotMarket,
    asset_shares: u64,
    amount: u64,
)
    requires
        asset_shares < u64::MAX,
        spec_withdraw_amounts(m, asset_shares, amount) matches Ok((t, d)) && d > 0,
        spec_withdraw_token_amount(m.decimals, m.cumulative_deposit_interest, asset_shares) is Ok,
    ensures
        spec_withdraw_amounts(m, asset_shares, amount)->Ok_0.0 <= spec_withdraw_token_amount(
            m.decimals,
            m.cumulative_deposit_interest,
            asset_shares,
        )->Ok_0,
{
    let d = m.decimals;
    let c = m.cumulative_deposit_interest as int;
    let s = asset_shares as int;
    let a = amount as int;
    let dec = spec_scaled_balance(d, m.cumulative_deposit_interest, amount, true)->Ok_0 as int;
    if dec <= s {
        let p = spec_precision_increase(d)->Ok_0 as int;
        lemma_pow10_bounds((19 - d) as nat);
        let b = (a * p) / c;
        assert(dec == b + 1);
        vstd::arithmetic::div_mod::lemma_fundamental_div_mod(a * p, c);
        assert(a * p < s * c) by (nonlinear_arith)
            requires
                a * p == c * b + (a * p) % c,
                (a * p) % c < c,
                b + 1 <= s,
                c > 0,
        ;
        vstd::arithmetic::div_mod::lemma_div_is_ordered(a * p, s * c, p);
        vstd::arithmetic::div_mod::lemma_div_by_multiple(a, p);
    }
}

/// A request that the position covers is paid in full at its rounded-up decrement; one whose
/// decrement exceeds the position by more than one unit is refused as withdraw-only.
pub proof fn law_withdraw_amounts_within_position(m: MinimalSpotMarket, asset_shares: u64, amount: u64)
    requires
        asset_shares < u64::MAX,
    ensures
        match spec_scaled_balance(m.decimals, m.cumulative_deposit_interest, amount, true) {
            Ok(dec) => (dec <= asset_shares ==> spec_withdraw_amounts(m, asset_shares, amount)
                == Ok::<(u64, u64), DriftWithdrawError>((amount, dec))) && (dec > asset_shares + 1
                ==> spec_withdraw_amounts(m, asset_shares, amount) == Err::<
                (u64, u64),
                DriftWithdrawError,
            >(DriftWithdrawError::OperationWithdrawOnly)),
            Err(e) => spec_withdraw_amounts(m, asset_shares, amount) == Err::<
                (u64, u64),
                DriftWithdrawError,
            >(DriftWithdrawError::Market(e)),
        },
{
}

/// Withdrawing a whole position never debits more than the position, and pays out what the
/// position is worth, or one token less when that amount's rounded-up decrement would exceed it.
pub proof fn law_withdraw_all_is_the_position(m: MinimalSpotMarket, scaled_balance: u64)
    requires
        spec_withdraw_all_amounts(m, scaled_balance) is Ok,
    ensures
        ({
            let (t, d) = spec_withdraw_all_amounts(m, scaled_balance)->Ok_0;
            let worth = spec_withdraw_token_amount(
                m.decimals,
                m.cumulative_deposit_interest,
                scaled_balance,
            )->Ok_0;
            &&& d <= scaled_balance
            &&& t == worth || t + 1 == worth
        }),
{
}

/// Utilization is the borrowed share of deposits in 1e6 units, rounded down: when the scaled
/// borrow fits in `u128`, `util * deposit <= borrow * 1e6 < (util + 1) * deposit`. An empty market
/// has zero utilization; borrows without deposits have full utilization.
pub proof fn law_utilization_is_borrowed_share(deposit: u128, borrow: u128)
    ensures
        deposit == 0 && borrow == 0 ==> spec_utilization(deposit, borrow) == 0,
        deposit == 0 && borrow > 0 ==> spec_utilization(deposit, borrow) == 1_000_000,
        deposit > 0 && borrow * 1_000_000 <= u128::MAX ==> spec_utilization(deposit, borrow)
            * deposit <= borrow * 1_000_000 < (spec_utilization(deposit, borrow) + 1) * deposit,
{
    if deposit > 0 && borrow * 1_000_000 <= u128::MAX {
        let n = borrow * 1_000_000;
        let d = deposit as int;
        let q = n / d;
        vstd::arithmetic::div_mod::lemma_fundamental_div_mod(n, d);
        assert(q * d <= n < (q + 1) * d) by (nonlinear_arith)
            requires
                n == d * q + n % d,
                0 <= n % d < d,
        ;
    }
}

/// The deposit rate is the borrow rate scaled by utilization and by the share the insurance fund
/// does not keep, in 1e6 units and rounded down: with `kept = 1e6 - total_factor` (0 when the
/// factor exceeds 1e6), a rate `r` satisfies
/// `r * 1e12 <= borrow_rate * kept * utilization < (r + 1) * 1e12`, and there is a rate exactly
/// when that product fits in `u128`.
pub proof fn law_deposit_rate_is_scaled_borrow_rate(
    borrow_rate: u128,
    utilization: u128,
    total_factor: u128,
)
    ensures
        ({
            let kept = if total_factor <= 1_000_000 {
                1_000_000 - total_factor
            } else {
                0
            };
            let n = borrow_rate * kept * utilization;
            &&& spec_deposit_rate(borrow_rate, utilization, total_factor) is Some <==> (
            borrow_rate * kept <= u128::MAX && n <= u128::MAX)
            &&& spec_deposit_rate(borrow_rate, utilization, total_factor) matches Some(r) ==> r
                * 1_000_000_000_000 <= n < (r + 1) * 1_000_000_000_000
        }),
{
    let kept = sat_sub(PERCENTAGE_PRECISION as int, total_factor as int);
    let n = borrow_rate * kept * utilization;
    if borrow_rate * kept <= u128::MAX && n <= u128::MAX {
        assert(n >= 0) by (nonlinear_arith)
            requires
                n == borrow_rate * kept * utilization,
                borrow_rate >= 0,
                kept >= 0,
                utilization >= 0,
        ;
        vstd::arithmetic::div_mod::lemma_div_denominator(n, 1_000_000, 1_000_000);
        let q = n / 1_000_000_000_000;
        vstd::arithmetic::div_mod::lemma_fundamental_div_mod(n, 1_000_000_000_000);
        assert(q * 1_000_000_000_000 <= n < (q + 1) * 1_000_000_000_000) by (nonlinear_arith)
            requires
                n == 1_000_000_000_000 * q + n % 1_000_000_000_000,
                0 <= n % 1_000_000_000_000 < 1_000_000_000_000,
        ;
    }
}

} // verus!
