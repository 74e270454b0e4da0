use marginfi::fixed_point::I80F48;
use marginfi::kamino::{
    get_borrow_rate_from_points, kamino_supply_apr_from_parts, CurvePoint, MinimalReserve,
};

fn cp(util_bps: u32, rate_bps: u32) -> CurvePoint {
    CurvePoint {
        utilization_rate_bps: util_bps,
        borrow_rate_bps: rate_bps,
    }
}

/// A straight line from (0, 0) to (10000 bps, `max_bps`) sampled at 11 evenly spaced points.
fn linear_curve(max_bps: u32) -> [CurvePoint; 11] {
    let mut pts = [cp(0, 0); 11];
    for (i, p) in pts.iter_mut().enumerate() {
        *p = cp(i as u32 * 1000, i as u32 * max_bps / 10);
    }
    pts
}

fn num(x: f64) -> I80F48 {
    I80F48::from_bits(fixed::types::I80F48::from_num(x).to_bits())
}

fn approx(actual: I80F48, expected: f64) {
    let a = fixed::types::I80F48::from_bits(actual.bits).to_num::<f64>();
    assert!((a - expected).abs() < 1e-5, "got {a}, expected {expected}");
}

#[test]
fn curve_endpoints_and_interpolation() {
    let pts = linear_curve(3040); // (0,0)..(100%, 30.4%)
    approx(get_borrow_rate_from_points(&pts, I80F48::zero()).unwrap(), 0.0);
    approx(get_borrow_rate_from_points(&pts, I80F48::one()).unwrap(), 0.304);
    approx(get_borrow_rate_from_points(&pts, num(0.5)).unwrap(), 0.152);
    // 45% lands between sampled points and must interpolate to exactly 0.45 * 0.304.
    approx(get_borrow_rate_from_points(&pts, num(0.45)).unwrap(), 0.1368);
}

#[test]
fn supply_apr_nets_the_take_rate() {
    let pts = linear_curve(3040);
    // util 0.5 -> borrow 0.152; supply = 0.152 * 0.5 * (1 - 0.10) = 0.0684.
    let r = kamino_supply_apr_from_parts(num(1000.0), num(500.0), &pts, 10);
    approx(r.unwrap(), 0.0684);
}

#[test]
fn supply_apr_zero_supply_is_none() {
    let pts = linear_curve(3040);
    assert!(kamino_supply_apr_from_parts(I80F48::zero(), num(500.0), &pts, 10).is_none());
}

#[test]
fn supply_apr_method_matches_from_parts() {
    // available 1000 + borrowed 500 - 0 fees -> total_supply 1500; protocol take 10%.
    let to_u68f60 = |x: u128| x << 60;
    let mut r = MinimalReserve::zeroed();
    r.available_amount = 1000;
    r.borrowed_amount_sf = to_u68f60(500);
    r.config.protocol_take_rate_pct = 10;
    r.config.borrow_rate_curve.points = linear_curve(3040);
    let points = r.config.borrow_rate_curve.points;
    assert_eq!(
        r.supply_apr(),
        kamino_supply_apr_from_parts(num(1500.0), num(500.0), &points, 10)
    );
}
