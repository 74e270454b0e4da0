//! Kamino reserves, as far as a marginfi Kamino bank reads them: the total liquidity supply, the
//! 11-point piecewise-linear borrow-rate curve, and the net supply APR that follows from both.
use vstd::prelude::*;
use crate::fixed_point::{
    I80F48, scale, in_i128, abs, mul_bits, div_bits, round_bits, floor_int, lemma_div_of_integers,
    lemma_mul_by_integer, lemma_div_bits_bound,
};

verus! {

/// A knot of Kamino's borrow-rate curve; basis points, 10_000 = 100%.
#[derive(Clone, Copy, Debug, PartialEq, Eq, Structural)]
pub struct CurvePoint {
    pub utilization_rate_bps: u32,
    pub borrow_rate_bps: u32,
}

/// Number of knots of a Kamino borrow-rate curve.
pub const CURVE_POINTS: usize = 11;

/// Kamino's borrow-rate curve: a fixed 11-knot curve.
#[derive(Clone, Copy, Debug)]
pub struct BorrowRateCurve {
    pub points: [CurvePoint; 11],
}

/// The part of Kamino's `ReserveConfig` that the rate model reads.
#[derive(Clone, Copy, Debug)]
pub struct ReserveConfig {
    /// Percentage of interest taken by the protocol (0..100).
    pub protocol_take_rate_pct: u8,
    pub borrow_rate_curve: BorrowRateCurve,
}

/// The fields of Kamino's `Reserve` that marginfi reads. The `_sf` quantities are the raw U68F60
/// values that the account's little-endian bytes encode.
#[derive(Clone, Copy, Debug)]
pub struct MinimalReserve {
    /// Slot of the last refresh.
    pub slot: u64,
    /// Liquidity in the supply vault minus outstanding borrows, in `mint_decimals` tokens.
    pub available_amount: u64,
    pub borrowed_amount_sf: u128,
    pub accumulated_protocol_fees_sf: u128,
    pub accumulated_referrer_fees_sf: u128,
    pub pending_referrer_fees_sf: u128,
    pub mint_decimals: u64,
    /// Total number of collateral tokens.
    pub mint_total_supply: u64,
    pub config: ReserveConfig,
}

/// Bits of the U68F60 value `raw` in 80.48: the 12 lowest bits dropped.
pub open spec fn u68f60_bits(raw: u128) -> int {
    raw as int / 4096
}

/// Converts a Kamino U68F60 fraction (its raw bits) to 80.48, dropping the 12 lowest bits.
pub fn u68f60_to_i80f48(raw: u128) -> (r: I80F48)
    ensures
        r.bits == u68f60_bits(raw),
        0 <= r.bits < 0x10_0000_0000_0000_0000_0000_0000_0000,
{
    let shifted = raw >> 12u32;
    assert(shifted == raw / 4096) by (bit_vector)
        requires
            shifted == raw >> 12u32,
    ;
    assert(shifted < 0x10_0000_0000_0000_0000_0000_0000_0000u128) by (bit_vector)
        requires
            shifted == raw >> 12u32,
    ;
    I80F48::from_bits(shifted as i128)
}

/// Bits of `x` basis points as a fraction: `x * 2^48 / 10_000`, rounded down.
pub open spec fn bps_bits(x: u32) -> int {
    (x * scale()) / 10_000
}

/// Kamino's `Fraction::from_bps`: `x / 10_000`.
pub fn from_bps(x: u32) -> (r: I80F48)
    ensures
        r.bits == bps_bits(x),
        0 <= r.bits <= 429_497 * scale(),
{
    proof {
        lemma_div_of_integers(x as int, 10_000);
        assert(x * scale() < 4_294_970_000 * scale()) by (nonlinear_arith)
            requires
                x < 4_294_970_000,
        ;
        vstd::arithmetic::div_mod::lemma_div_is_ordered(
            x * scale(),
            4_294_970_000 * scale(),
            10_000,
        );
        assert(4_294_970_000 * scale() == (429_497 * scale()) * 10_000);
        vstd::arithmetic::div_mod::lemma_div_by_multiple(429_497 * scale(), 10_000);
    }
    let n = I80F48::from_u64(x as u64);
    let d = I80F48::from_u64(10_000);
    n.div(d)
}

/// The utilization is one that the curve accepts: rounded to basis points it is not negative.
pub open spec fn utilization_in_domain(u: I80F48) -> bool {
    u.bits * 10_000 > -(scale() / 2)
}

/// `u` clamped to at most 1.0.
pub open spec fn clamp_one(u: int) -> int {
    if u > scale() {
        scale()
    } else {
        u
    }
}

/// The utilization (bits) clamped to 1.0 and rounded to whole basis points.
pub open spec fn utilization_bps(u: int) -> int {
    floor_int(round_bits(clamp_one(u) * 10_000))
}

proof fn lemma_utilization_bps(u: int)
    requires
        u * 10_000 > -(scale() / 2),
    ensures
        in_i128(mul_bits(clamp_one(u), 10_000 * scale())),
        mul_bits(clamp_one(u), 10_000 * scale()) == clamp_one(u) * 10_000,
        in_i128(round_bits(clamp_one(u) * 10_000)),
        0 <= utilization_bps(u) <= 10_000,
        round_bits(clamp_one(u) * 10_000) == utilization_bps(u) * scale(),
{
    let c = clamp_one(u);
    let s = scale();
    let a = c * 10_000;
    lemma_mul_by_integer(c, 10_000);
    assert(a <= 10_000 * s);
    if a >= 0 {
        let q = (a + s / 2) / s;
        vstd::arithmetic::div_mod::lemma_div_is_ordered(a + s / 2, 10_000 * s + s / 2, s);
        vstd::arithmetic::div_mod::lemma_fundamental_div_mod(10_000 * s + s / 2, s);
        vstd::arithmetic::div_mod::lemma_div_pos_is_pos(a + s / 2, s);
        assert((10_000 * s + s / 2) / s == 10_000);
        assert(q * s <= 10_000 * s) by (nonlinear_arith)
            requires
                q <= 10_000,
                s > 0,
        ;
        assert(q * s >= 0) by (nonlinear_arith)
            requires
                q >= 0,
                s > 0,
        ;
        vstd::arithmetic::div_mod::lemma_div_by_multiple(q, s);
    } else {
        assert(-a + s / 2 < s);
        vstd::arithmetic::div_mod::lemma_small_div_converse(-a + s / 2, s);
        assert((-a + s / 2) / s == 0);
        assert(round_bits(a) == 0);
    }
}

/// Index of the first pair of consecutive knots `(i, i + 1)` that brackets `bps`, searching from
/// `i`; `-1` when none does.
pub open spec fn first_window(points: Seq<CurvePoint>, bps: int, i: int) -> int
    decreases CURVE_POINTS - 1 - i,
{
    if i < 0 || i >= CURVE_POINTS - 1 {
        -1
    } else if points[i].utilization_rate_bps <= bps <= points[i + 1].utilization_rate_bps {
        i
    } else {
        first_window(points, bps, i + 1)
    }
}

/// The start knot of the segment used for `bps`: the first bracketing pair, or the first segment
/// when no pair brackets it.
pub open spec fn window_start(points: Seq<CurvePoint>, bps: int) -> int {
    let w = first_window(points, bps, 0);
    if w < 0 {
        0
    } else {
        w
    }
}

proof fn lemma_first_window_range(points: Seq<CurvePoint>, bps: int, i: int)
    ensures
        first_window(points, bps, i) == -1 || (0 <= i <= first_window(points, bps, i)
            < CURVE_POINTS - 1),
    decreases CURVE_POINTS - 1 - i,
{
    if !(i < 0 || i >= CURVE_POINTS - 1) && !(points[i].utilization_rate_bps <= bps
        <= points[i + 1].utilization_rate_bps) {
        lemma_first_window_range(points, bps, i + 1);
    }
}

fn find_window(points: &[CurvePoint; 11], bps: u32) -> (r: usize)
    ensures
        r == window_start(points@, bps as int),
        r < CURVE_POINTS - 1,
{
    let mut i: usize = 0;
    while i < CURVE_POINTS - 1
        invariant
            i <= CURVE_POINTS - 1,
            points@.len() == CURVE_POINTS,
            first_window(points@, bps as int, 0) == first_window(points@, bps as int, i as int),
        decreases CURVE_POINTS - 1 - i,
    {
        if bps >= points[i].utilization_rate_bps && bps <= points[i + 1].utilization_rate_bps {
            return i;
        }
        i = i + 1;
    }
    0
}

/// Bits of the borrow rate on the segment from `start` to `end` at utilization `u` (bits):
/// `start.rate + (u - start.util) * slope`, with the slope's division rounded toward zero.
/// `None` when the segment does not rise in both coordinates or is vertical.
pub open spec fn spec_segment_borrow_rate(start: CurvePoint, end: CurvePoint, u: int) -> Option<
    int,
> {
    if end.borrow_rate_bps < start.borrow_rate_bps || end.utilization_rate_bps
        <= start.utilization_rate_bps {
        None
    } else {
        let coef = u - bps_bits(start.utilization_rate_bps);
        let nom = coef * (end.borrow_rate_bps - start.borrow_rate_bps);
        let base = div_bits(nom, (end.utilization_rate_bps - start.utilization_rate_bps) * scale());
        Some(base + bps_bits(start.borrow_rate_bps))
    }
}

/// Kamino's `CurveSegment` rate: the linear interpolation between two knots at `utilization_rate`.
pub(crate) fn segment_borrow_rate(start_pt: CurvePoint, end_pt: CurvePoint, utilization_rate: I80F48) -> (r:
    Option<I80F48>)
    requires
        -2 * scale() <= utilization_rate.bits <= scale(),
    ensures
        spec_segment_borrow_rate(start_pt, end_pt, utilization_rate.bits as int) matches Some(b)
            ==> in_i128(b),
        match spec_segment_borrow_rate(start_pt, end_pt, utilization_rate.bits as int) {
            Some(b) => r == Some(I80F48 { bits: b as i128 }),
            None => r is None,
        },
{
    let slope_nom = match end_pt.borrow_rate_bps.checked_sub(start_pt.borrow_rate_bps) {
        Some(v) => v,
        None => return None,
    };
    let slope_denom = match end_pt.utilization_rate_bps.checked_sub(start_pt.utilization_rate_bps) {
        Some(v) => v,
        None => return None,
    };
    if slope_denom == 0 {
        return None;
    }
    let start_utilization_rate = from_bps(start_pt.utilization_rate_bps);
    let coef = utilization_rate.sub(start_utilization_rate);
    let slope_nom_fx = I80F48::from_u64(slope_nom as u64);
    proof {
        let s = scale();
        lemma_mul_by_integer(coef.bits as int, slope_nom as int);
        assert(abs(coef.bits as int) <= 429_500 * s);
        assert(abs((coef.bits as int) * (slope_nom as int)) <= 429_500 * s * 0xffff_ffff) by (
        nonlinear_arith)
            requires
                abs(coef.bits as int) <= 429_500 * s,
                0 <= slope_nom <= 0xffff_ffff,
        ;
    }
    let nom = coef.mul(slope_nom_fx);
    let slope_denom_fx = I80F48::from_u64(slope_denom as u64);
    proof {
        assert(slope_denom * scale() >= scale()) by (nonlinear_arith)
            requires
                slope_denom >= 1,
        ;
        lemma_div_bits_bound(nom.bits as int, slope_denom_fx.bits as int);
    }
    let base_rate = nom.div(slope_denom_fx);
    let offset = from_bps(start_pt.borrow_rate_bps);
    Some(base_rate.add(offset))
}

/// Bits of Kamino's borrow rate at utilization `u` (bits): clamp to 1.0, round to basis points,
/// pick the bracketing knots, return a knot's rate on an exact hit and interpolate otherwise.
pub open spec fn spec_borrow_rate_from_points(points: Seq<CurvePoint>, u: int) -> Option<int> {
    let bps = utilization_bps(u);
    let w = window_start(points, bps);
    let start = points[w];
    let end = points[w + 1];
    if bps == start.utilization_rate_bps {
        Some(bps_bits(start.borrow_rate_bps))
    } else if bps == end.utilization_rate_bps {
        Some(bps_bits(end.borrow_rate_bps))
    } else {
        spec_segment_borrow_rate(start, end, clamp_one(u))
    }
}

/// Kamino's `BorrowRateCurve::get_borrow_rate` at `utilization_rate` (1.0 == 100%).
pub fn get_borrow_rate_from_points(points: &[CurvePoint; 11], utilization_rate: I80F48) -> (r:
    Option<I80F48>)
    requires
        utilization_in_domain(utilization_rate),
    ensures
        spec_borrow_rate_from_points(points@, utilization_rate.bits as int) matches Some(b)
            ==> in_i128(b),
        match spec_borrow_rate_from_points(points@, utilization_rate.bits as int) {
            Some(b) => r == Some(I80F48 { bits: b as i128 }),
            None => r is None,
        },
{
    let one = I80F48::one();
    let clamped = if utilization_rate.bits > one.bits {
        one
    } else {
        utilization_rate
    };
    proof {
        lemma_utilization_bps(utilization_rate.bits as int);
    }
    let ten_thousand = I80F48::from_u64(10_000);
    let scaled = clamped.mul(ten_thousand);
    let rounded = scaled.round();
    proof {
        vstd::arithmetic::div_mod::lemma_div_by_multiple(
            utilization_bps(utilization_rate.bits as int),
            scale(),
        );
    }
    let utilization_rate_bps: u32 = rounded.to_u32();
    let w = find_window(points, utilization_rate_bps);
    let start_pt = points[w];
    let end_pt = points[w + 1];
    if utilization_rate_bps == start_pt.utilization_rate_bps {
        return Some(from_bps(start_pt.borrow_rate_bps));
    }
    if utilization_rate_bps == end_pt.utilization_rate_bps {
        return Some(from_bps(end_pt.borrow_rate_bps));
    }
    segment_borrow_rate(start_pt, end_pt, clamped)
}

impl BorrowRateCurve {
    /// The curve's borrow rate at `utilization_rate`.
    pub fn get_borrow_rate(&self, utilization_rate: I80F48) -> (r: Option<I80F48>)
        requires
            utilization_in_domain(utilization_rate),
        ensures
            match spec_borrow_rate_from_points(self.points@, utilization_rate.bits as int) {
                Some(b) => r == Some(I80F48 { bits: b as i128 }),
                None => r is None,
            },
    {
        get_borrow_rate_from_points(&self.points, utilization_rate)
    }
}

/// Bits of `pct` percent as a fraction.
pub open spec fn pct_bits(pct: u8) -> int {
    (pct * scale()) / 100
}

/// Bits of the net supply APR: `borrow_rate(util) * util * (1 - take_rate)`, `util = borrowed /
/// total_supply`; `None` on a non-positive supply, on overflow, or where the curve gives none.
pub open spec fn spec_supply_apr_from_parts(
    total_supply: int,
    borrowed: int,
    points: Seq<CurvePoint>,
    take_rate_pct: u8,
) -> Option<int> {
    if total_supply <= 0 || !in_i128(div_bits(borrowed, total_supply)) {
        None
    } else {
        let util = div_bits(borrowed, total_supply);
        match spec_borrow_rate_from_points(points, util) {
            None => None,
            Some(b) => {
                let x = mul_bits(b, util);
                let keep = scale() - pct_bits(take_rate_pct);
                if !in_i128(x) || !in_i128(mul_bits(x, keep)) {
                    None
                } else {
                    Some(mul_bits(x, keep))
                }
            },
        }
    }
}

/// Net supply APR (1.0 == 100%) from reserve parts: total supply and borrowed amount in token
/// units, the curve knots, and the protocol take rate in percent.
pub fn kamino_supply_apr_from_parts(
    total_supply: I80F48,
    borrowed: I80F48,
    points: &[CurvePoint; 11],
    take_rate_pct: u8,
) -> (r: Option<I80F48>)
    requires
        total_supply.bits > 0 && in_i128(div_bits(borrowed.bits as int, total_supply.bits as int))
            ==> utilization_in_domain(
            I80F48 { bits: div_bits(borrowed.bits as int, total_supply.bits as int) as i128 },
        ),
    ensures
        match spec_supply_apr_from_parts(
            total_supply.bits as int,
            borrowed.bits as int,
            points@,
            take_rate_pct,
        ) {
            Some(b) => r == Some(I80F48 { bits: b as i128 }),
            None => r is None,
        },
{
    if total_supply.bits <= 0 {
        return None;
    }
    let utilization = match borrowed.checked_div(total_supply) {
        Some(u) => u,
        None => return None,
    };
    let borrow_rate = match get_borrow_rate_from_points(points, utilization) {
        Some(b) => b,
        None => return None,
    };
    proof {
        lemma_div_of_integers(take_rate_pct as int, 100);
        assert(take_rate_pct * scale() <= 255 * scale()) by (nonlinear_arith)
            requires
                take_rate_pct <= 255,
        ;
        vstd::arithmetic::div_mod::lemma_div_is_ordered(take_rate_pct * scale(), 255 * scale(), 100);
    }
    let protocol_take_rate = I80F48::from_u64(take_rate_pct as u64).div(I80F48::from_u64(100));
    let keep = I80F48::one().sub(protocol_take_rate);
    let x = match borrow_rate.checked_mul(utilization) {
        Some(v) => v,
        None => return None,
    };
    x.checked_mul(keep)
}

/// Bits of the reserve's total liquidity supply: available amount plus borrowed amount minus the
/// accumulated protocol and referrer fees and the pending referrer fees.
pub open spec fn spec_total_supply(r: MinimalReserve) -> int {
    r.available_amount * scale() + u68f60_bits(r.borrowed_amount_sf) - u68f60_bits(
        r.accumulated_protocol_fees_sf,
    ) - u68f60_bits(r.accumulated_referrer_fees_sf) - u68f60_bits(r.pending_referrer_fees_sf)
}

impl MinimalReserve {
    /// A reserve with every field zero (as an all-zero account decodes).
    pub fn zeroed() -> (r: MinimalReserve)
        ensures
            r.slot == 0 && r.available_amount == 0 && r.borrowed_amount_sf == 0
                && r.accumulated_protocol_fees_sf == 0 && r.accumulated_referrer_fees_sf == 0
                && r.pending_referrer_fees_sf == 0 && r.mint_decimals == 0 && r.mint_total_supply
                == 0 && r.config.protocol_take_rate_pct == 0 && forall|i: int|
                0 <= i < 11 ==> (#[trigger] r.config.borrow_rate_curve.points@[i]).utilization_rate_bps
                    == 0 && r.config.borrow_rate_curve.points@[i].borrow_rate_bps == 0,
    {
        let z = CurvePoint { utilization_rate_bps: 0, borrow_rate_bps: 0 };
        let points = [z, z, z, z, z, z, z, z, z, z, z];
        MinimalReserve {
            slot: 0,
            available_amount: 0,
            borrowed_amount_sf: 0,
            accumulated_protocol_fees_sf: 0,
            accumulated_referrer_fees_sf: 0,
            pending_referrer_fees_sf: 0,
            mint_decimals: 0,
            mint_total_supply: 0,
            config: ReserveConfig {
                protocol_take_rate_pct: 0,
                borrow_rate_curve: BorrowRateCurve { points },
            },
        }
    }

    pub fn borrowed_amount_sf(&self) -> (r: I80F48)
        ensures
            r.bits == u68f60_bits(self.borrowed_amount_sf),
    {
        u68f60_to_i80f48(self.borrowed_amount_sf)
    }

    pub fn accumulated_protocol_fees_sf(&self) -> (r: I80F48)
        ensures
            r.bits == u68f60_bits(self.accumulated_protocol_fees_sf),
    {
        u68f60_to_i80f48(self.accumulated_protocol_fees_sf)
    }

    pub fn accumulated_referrer_fees_sf(&self) -> (r: I80F48)
        ensures
            r.bits == u68f60_bits(self.accumulated_referrer_fees_sf),
    {
        u68f60_to_i80f48(self.accumulated_referrer_fees_sf)
    }

    pub fn pending_referrer_fees_sf(&self) -> (r: I80F48)
        ensures
            r.bits == u68f60_bits(self.pending_referrer_fees_sf),
    {
        u68f60_to_i80f48(self.pending_referrer_fees_sf)
    }

    /// Total liquidity under the reserve's control, in `mint_decimals` tokens.
    pub fn calculate_total_supply_i80f48(&self) -> (r: I80F48)
        ensures
            r.bits == spec_total_supply(*self),
    {
        let available_amount = I80F48::from_u64(self.available_amount);
        let borrowed = self.borrowed_amount_sf();
        let protocol_fees = self.accumulated_protocol_fees_sf();
        let referrer_fees = self.accumulated_referrer_fees_sf();
        let pending_fees = self.pending_referrer_fees_sf();
        assert(self.available_amount * scale() <= 0xffff_ffff_ffff_ffff * scale()) by (
        nonlinear_arith)
            requires
                self.available_amount <= 0xffff_ffff_ffff_ffffu64,
        ;
        available_amount.add(borrowed).sub(protocol_fees).sub(referrer_fees).sub(pending_fees)
    }

    /// Whether the reserve was last refreshed before `current_slot`.
    pub fn is_stale(&self, current_slot: u64) -> (r: bool)
        ensures
            r == (self.slot < current_slot),
    {
        self.slot < current_slot
    }

    /// Net lender supply APR (1.0 == 100%) of the reserve. The caller must ensure the reserve was
    /// refreshed this slot (see `is_stale`).
    pub fn supply_apr(&self) -> (r: Option<I80F48>)
        ensures
            match spec_supply_apr_from_parts(
                spec_total_supply(*self),
                u68f60_bits(self.borrowed_amount_sf),
                self.config.borrow_rate_curve.points@,
                self.config.protocol_take_rate_pct,
            ) {
                Some(b) => r == Some(I80F48 { bits: b as i128 }),
                None => r is None,
            },
    {
        let total_supply = self.calculate_total_supply_i80f48();
        let borrowed = self.borrowed_amount_sf();
        proof {
            let t = total_supply.bits as int;
            let b = borrowed.bits as int;
            if t > 0 {
                let n = b * scale();
                assert(n >= 0) by (nonlinear_arith)
                    requires
                        b >= 0,
                        n == b * scale(),
                ;
                vstd::arithmetic::div_mod::lemma_div_pos_is_pos(abs(n), abs(t));
                assert(div_bits(b, t) >= 0);
            }
        }
        kamino_supply_apr_from_parts(
            total_supply,
            borrowed,
            &self.config.borrow_rate_curve.points,
            self.config.protocol_take_rate_pct,
        )
    }
}

/// The knots' utilizations rise strictly from one knot to the next, as on a well-formed curve.
pub open spec fn knots_increasing(points: Seq<CurvePoint>) -> bool {
    forall|i: int, j: int|
        0 <= i < j < points.len() ==> points[i].utilization_rate_bps
            < points[j].utilization_rate_bps
}

proof fn lemma_first_window_is(points: Seq<CurvePoint>, bps: int, i: int, k: int)
    requires
        points.len() == CURVE_POINTS,
        knots_increasing(points),
        0 <= i <= k < CURVE_POINTS - 1,
        points[k].utilization_rate_bps < bps <= points[k + 1].utilization_rate_bps,
    ensures
        first_window(points, bps, i) == k,
    decreases k - i,
{
    if i < k {
        assert(points[i + 1].utilization_rate_bps <= points[k].utilization_rate_bps);
        lemma_first_window_is(points, bps, i + 1, k);
    }
}

/// Strictly between two knots of an increasing curve whose rate does not fall there, the
/// borrow rate lies between the two knots' rates.
pub proof fn law_kamino_rate_between_knots(points: Seq<CurvePoint>, u: int, k: int)
    requires
        points.len() == CURVE_POINTS,
        knots_increasing(points),
        u * 10_000 > -(scale() / 2),
        0 <= k < CURVE_POINTS - 1,
        points[k].utilization_rate_bps < utilization_bps(u) < points[k + 1].utilization_rate_bps,
        points[k].borrow_rate_bps <= points[k + 1].borrow_rate_bps,
    ensures
        spec_borrow_rate_from_points(points, u) matches Some(b) && bps_bits(
            points[k].borrow_rate_bps,
        ) <= b <= bps_bits(points[k + 1].borrow_rate_bps),
{
    let s = scale();
    let bps = utilization_bps(u);
    let a = points[k].utilization_rate_bps as int;
    let e = points[k + 1].utilization_rate_bps as int;
    let sr = points[k].borrow_rate_bps as int;
    let er = points[k + 1].borrow_rate_bps as int;
    let rise = er - sr;
    lemma_first_window_is(points, bps, 0, k);
    assert(window_start(points, bps) == k);
    lemma_utilization_bps(u);
    let c = clamp_one(u);
    let x = c * 10_000;
    // The rounding that gave `bps` puts `x` within half a unit of it.
    if x < 0 {
        assert(round_bits(x) <= 0) by {
            vstd::arithmetic::div_mod::lemma_div_pos_is_pos(-x + s / 2, s);
            assert(((-x + s / 2) / s) * s >= 0) by (nonlinear_arith)
                requires
                    (-x + s / 2) / s >= 0,
                    s > 0,
            ;
        }
        assert(bps * s >= s) by (nonlinear_arith)
            requires
                bps >= 1,
                s > 0,
        ;
    }
    assert(x >= 0);
    let q = (x + s / 2) / s;
    assert(q == bps) by {
        assert(q * s == bps * s);
        assert(q == bps) by (nonlinear_arith)
            requires
                q * s == bps * s,
                s > 0,
        ;
    }
    vstd::arithmetic::div_mod::lemma_fundamental_div_mod(x + s / 2, s);
    assert(x + s / 2 >= (a + 1) * s && x + s / 2 < e * s) by (nonlinear_arith)
        requires
            x + s / 2 == s * q + (x + s / 2) % s,
            0 <= (x + s / 2) % s < s,
            a + 1 <= q <= e - 1,
    ;
    // The offset from the start knot is positive and short of the segment's width.
    let ba = bps_bits(points[k].utilization_rate_bps);
    vstd::arithmetic::div_mod::lemma_fundamental_div_mod(a * s, 10_000);
    assert(10_000 * ba <= a * s && a * s < 10_000 * ba + 10_000);
    let coef = c - ba;
    assert(10_000 * coef == x - 10_000 * ba);
    assert(s / 2 > 10_000);
    assert(0 < 10_000 * coef < (e - a) * s) by (nonlinear_arith)
        requires
            10_000 * coef == x - 10_000 * ba,
            x + s / 2 >= (a + 1) * s,
            x + s / 2 < e * s,
            10_000 * ba <= a * s,
            a * s < 10_000 * ba + 10_000,
            s / 2 > 10_000,
            s > 0,
    ;
    assert(coef > 0);
    let nom = coef * rise;
    let w = (e - a) * s;
    assert(nom >= 0 && w > 0) by (nonlinear_arith)
        requires
            coef > 0,
            rise >= 0,
            e > a,
            s > 0,
            nom == coef * rise,
            w == (e - a) * s,
    ;
    assert(nom * s >= 0) by (nonlinear_arith)
        requires
            nom >= 0,
            s > 0,
    ;
    let base = div_bits(nom, w);
    assert(base == (nom * s) / w);
    vstd::arithmetic::div_mod::lemma_div_pos_is_pos(nom * s, w);
    vstd::arithmetic::div_mod::lemma_fundamental_div_mod(nom * s, w);
    assert(base * w <= nom * s) by (nonlinear_arith)
        requires
            nom * s == w * ((nom * s) / w) + (nom * s) % w,
            (nom * s) % w >= 0,
            base == (nom * s) / w,
    ;
    let bs = bps_bits(points[k].borrow_rate_bps);
    let be = bps_bits(points[k + 1].borrow_rate_bps);
    vstd::arithmetic::div_mod::lemma_fundamental_div_mod(sr * s, 10_000);
    vstd::arithmetic::div_mod::lemma_fundamental_div_mod(er * s, 10_000);
    assert(10_000 * bs <= sr * s);
    assert(er * s < 10_000 * be + 10_000);
    if rise == 0 {
        assert(nom == 0) by (nonlinear_arith)
            requires
                nom == coef * rise,
                rise == 0,
        ;
        assert(base == 0);
        assert(bs == be);
    } else {
        // 10_000 * base * (e - a) * s <= 10_000 * coef * rise * s < (e - a) * s * rise * s.
        assert(10_000 * base < s * rise) by (nonlinear_arith)
            requires
                base * w <= nom * s,
                w == (e - a) * s,
                nom == coef * rise,
                10_000 * coef < (e - a) * s,
                rise > 0,
                e > a,
                s > 0,
                base >= 0,
        ;
        assert(10_000 * (base + bs) < 10_000 * (be + 1));
    }
}

/// On an increasing curve, a utilization that rounds to a knot's basis points is charged exactly
/// that knot's rate.
pub proof fn law_kamino_rate_at_knot(points: Seq<CurvePoint>, u: int, k: int)
    requires
        points.len() == CURVE_POINTS,
        knots_increasing(points),
        0 <= k < CURVE_POINTS,
        utilization_bps(u) == points[k].utilization_rate_bps,
    ensures
        spec_borrow_rate_from_points(points, u) == Some(bps_bits(points[k].borrow_rate_bps)),
{
    let bps = utilization_bps(u);
    if k == 0 {
        assert(points[0].utilization_rate_bps < points[1].utilization_rate_bps);
        assert(first_window(points, bps, 0) == 0);
    } else {
        lemma_first_window_is(points, bps, 0, k - 1);
    }
}

} // verus!
