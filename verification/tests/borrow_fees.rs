use marginfi::borrow::{
    check_borrow_account, distribute_origination_fee, origination_fee, rate_limit_price,
    BorrowError,
};
use marginfi::fixed_point::I80F48;

const ONE: i128 = 1 << 48;

fn fx(n: i128) -> I80F48 {
    I80F48::from_bits(n * ONE)
}

#[test]
fn borrow_account_gate() {
    assert_eq!(check_borrow_account(false, false, false, true), Ok(()));
    assert_eq!(check_borrow_account(false, false, true, false), Ok(()));
    assert_eq!(
        check_borrow_account(true, false, false, true),
        Err(BorrowError::AccountDisabled)
    );
    assert_eq!(
        check_borrow_account(false, true, false, true),
        Err(BorrowError::AccountDisabled)
    );
    assert_eq!(
        check_borrow_account(false, false, true, true),
        Err(BorrowError::IllegalFlashloan)
    );
    assert_eq!(
        check_borrow_account(false, false, false, false),
        Err(BorrowError::IllegalFlashloan)
    );
}

#[test]
fn origination_fee_is_added_to_the_debt() {
    let none = origination_fee(1_000, fx(0)).unwrap();
    assert_eq!(none.fee, fx(0));
    assert_eq!(none.fee_tokens, 0);
    assert_eq!(none.borrowed, fx(1_000));
    // 1% of 1000 tokens.
    let rate = I80F48::from_bits(ONE / 100);
    let f = origination_fee(1_000, rate).unwrap();
    assert_eq!(f.fee_tokens, 9); // 1% is not exact in 80.48: 9.99.. tokens, 9 whole.
    assert_eq!(f.borrowed.bits, fx(1_000).bits + f.fee.bits);
    let quarter = origination_fee(1_000, I80F48::from_bits(ONE / 4)).unwrap();
    assert_eq!(quarter.fee, fx(250));
    assert_eq!(quarter.fee_tokens, 250);
    assert_eq!(quarter.borrowed, fx(1_250));
    assert_eq!(
        origination_fee(u64::MAX, fx(1_000_000_000_000)).err(),
        Some(BorrowError::MathError)
    );
    assert_eq!(origination_fee(10, fx(-1)).err(), Some(BorrowError::MathError));
}

#[test]
fn origination_fee_is_shared() {
    // A quarter to the program, the rest to the group.
    let (g, p) = distribute_origination_fee(
        fx(100),
        I80F48::from_bits(ONE / 4),
        fx(10),
        fx(20),
    )
    .unwrap();
    assert_eq!(g, fx(85));
    assert_eq!(p, fx(45));
    assert_eq!(g.bits + p.bits, fx(10 + 20 + 100).bits);
    // No program share.
    assert_eq!(
        distribute_origination_fee(fx(100), fx(0), fx(10), fx(20)),
        Ok((fx(110), fx(20)))
    );
    // No fee.
    assert_eq!(
        distribute_origination_fee(fx(0), fx(1), fx(10), fx(20)),
        Ok((fx(10), fx(20)))
    );
    // The group's total saturates.
    assert_eq!(
        distribute_origination_fee(fx(1), fx(0), I80F48::from_bits(i128::MAX), fx(0)),
        Ok((I80F48::from_bits(i128::MAX), fx(0)))
    );
    assert_eq!(
        distribute_origination_fee(I80F48::from_bits(i128::MAX), fx(2), fx(0), fx(0)).err(),
        Some(BorrowError::MathError)
    );
}

#[test]
fn group_rate_limit_price() {
    assert_eq!(rate_limit_price(true, Some(fx(2))), Ok(fx(2)));
    assert_eq!(
        rate_limit_price(true, None),
        Err(BorrowError::InvalidRateLimitPrice)
    );
    assert_eq!(
        rate_limit_price(true, Some(fx(0))),
        Err(BorrowError::InvalidRateLimitPrice)
    );
    assert_eq!(
        rate_limit_price(false, Some(fx(2))),
        Err(BorrowError::IllegalFlashloan)
    );
}
