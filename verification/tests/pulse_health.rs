use marginfi::fixed_point::I80F48;
use marginfi::health::has_trivial_balance;

fn num(x: f64) -> I80F48 {
    I80F48::from_bits(fixed::types::I80F48::from_num(x).to_bits())
}

#[test]
fn trivial_balance_uses_strictly_positive_net_equity() {
    assert!(has_trivial_balance(num(0.5), I80F48::zero()));
    assert!(!has_trivial_balance(I80F48::zero(), I80F48::zero()));
    assert!(!has_trivial_balance(num(0.5), num(2.0)));
    assert!(!has_trivial_balance(num(5.0), num(2.0)));
}
