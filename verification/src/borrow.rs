//! A borrow's account gate, its origination fee and how that fee is shared between the group and
//! the program.
use vstd::prelude::*;
use crate::fixed_point::{I80F48, in_i128, scale, mul_bits, floor_int, clamp_i128};

verus! {

/// Why a borrow is refused.
#[derive(Clone, Copy, Debug, PartialEq, Eq, Structural)]
pub enum BorrowError {
    /// The account is disabled or in receivership.
    AccountDisabled,
    /// A flashloan borrow outside a flashloan, or an ordinary borrow inside one.
    IllegalFlashloan,
    /// The group's rate limit needs a positive price and none was found.
    InvalidRateLimitPrice,
    /// An arithmetic step overflowed.
    MathError,
}

/// The account gate of a borrow: not disabled or in receivership, and inside a flashloan exactly
/// when the borrow is a flashloan borrow (one that may not touch the group's rate limiter).
pub fn check_borrow_account(
    disabled: bool,
    in_receivership: bool,
    in_flashloan: bool,
    allow_group_rate_limit_mutation: bool,
) -> (r: Result<(), BorrowError>)
    ensures
        r == if disabled || in_receivership {
            Err(BorrowError::AccountDisabled)
        } else if in_flashloan == allow_group_rate_limit_mutation {
            Err(BorrowError::IllegalFlashloan)
        } else {
            Ok(())
        },
{
    if !(!disabled && !in_receivership) {
        return Err(BorrowError::AccountDisabled);
    }
    if allow_group_rate_limit_mutation {
        if in_flashloan {
            return Err(BorrowError::IllegalFlashloan);
        }
    } else {
        if !in_flashloan {
            return Err(BorrowError::IllegalFlashloan);
        }
    }
    Ok(())
}

/// The origination fee on a borrow of `amount_pre_fee` tokens, as bits: the amount times the
/// bank's fee rate, rounded toward negative infinity.
pub open spec fn fee_bits(amount_pre_fee: u64, fee_rate: I80F48) -> int {
    mul_bits(amount_pre_fee * scale(), fee_rate.bits as int)
}

/// A borrow's origination fee and what the account borrows.
#[derive(Clone, Copy, Debug, PartialEq, Eq, Structural)]
pub struct OriginationFee {
    /// The fee, in tokens.
    pub fee: I80F48,
    /// The fee in whole tokens, as reported.
    pub fee_tokens: u64,
    /// What the account's debt grows by: the amount plus the fee.
    pub borrowed: I80F48,
}

/// The origination fee on a borrow of `amount_pre_fee` tokens at `fee_rate`: none when the rate
/// is zero; otherwise the product, which must fit, with its whole-token part (which must fit a
/// `u64`). The account borrows the amount plus the fee and receives the amount.
pub fn origination_fee(amount_pre_fee: u64, fee_rate: I80F48) -> (r: Result<OriginationFee, BorrowError>)
    ensures
        fee_rate.bits == 0 ==> r == Ok::<OriginationFee, BorrowError>(
            OriginationFee {
                fee: I80F48 { bits: 0 },
                fee_tokens: 0,
                borrowed: I80F48 { bits: (amount_pre_fee * scale()) as i128 },
            },
        ),
        fee_rate.bits != 0 ==> r == if !in_i128(fee_bits(amount_pre_fee, fee_rate)) || !(0
            <= floor_int(fee_bits(amount_pre_fee, fee_rate)) <= u64::MAX) {
            Err(BorrowError::MathError)
        } else {
            Ok(
                OriginationFee {
                    fee: I80F48 { bits: fee_bits(amount_pre_fee, fee_rate) as i128 },
                    fee_tokens: floor_int(fee_bits(amount_pre_fee, fee_rate)) as u64,
                    borrowed: I80F48 {
                        bits: (amount_pre_fee * scale() + fee_bits(amount_pre_fee, fee_rate)) as i128,
                    },
                },
            )
        },
{
    let amount = I80F48::from_u64(amount_pre_fee);
    if fee_rate.is_zero() {
        return Ok(OriginationFee { fee: I80F48::zero(), fee_tokens: 0, borrowed: amount });
    }
    let fee = match amount.checked_mul(fee_rate) {
        None => {
            return Err(BorrowError::MathError);
        },
        Some(f) => f,
    };
    let fee_tokens = match fee.checked_to_u64() {
        None => {
            return Err(BorrowError::MathError);
        },
        Some(t) => t,
    };
    proof {
        let s = scale();
        let b = fee.bits as int;
        vstd::arithmetic::div_mod::lemma_fundamental_div_mod(b, s);
        assert(b < (u64::MAX + 1) * s) by (nonlinear_arith)
            requires
                b == s * (b / s) + b % s,
                b % s < s,
                b / s <= u64::MAX,
                s > 0,
        ;
        assert(b >= 0) by (nonlinear_arith)
            requires
                b == s * (b / s) + b % s,
                b % s >= 0,
                b / s >= 0,
                s > 0,
        ;
        assert(amount_pre_fee * s <= u64::MAX * s) by (nonlinear_arith)
            requires
                amount_pre_fee <= u64::MAX,
                s > 0,
        ;
    }
    let borrowed = amount.add(fee);
    Ok(OriginationFee { fee, fee_tokens, borrowed })
}

/// The group's and the program's collected fees after a borrow's origination fee `fee` is
/// shared: the program takes `fee * program_fee_rate` (when that rate is non-zero) and the group
/// the rest; each running total saturates.
pub open spec fn spec_distribute_origination_fee(
    fee: I80F48,
    program_fee_rate: I80F48,
    group_fees: I80F48,
    program_fees: I80F48,
) -> Result<(I80F48, I80F48), BorrowError> {
    if fee.bits == 0 {
        Ok((group_fees, program_fees))
    } else if program_fee_rate.bits == 0 {
        Ok((I80F48 { bits: clamp_i128(group_fees.bits + fee.bits) as i128 }, program_fees))
    } else {
        let p = mul_bits(fee.bits as int, program_fee_rate.bits as int);
        if !in_i128(p) {
            Err(BorrowError::MathError)
        } else {
            Ok(
                (
                    I80F48 {
                        bits: clamp_i128(group_fees.bits + clamp_i128(fee.bits - p)) as i128,
                    },
                    I80F48 { bits: clamp_i128(program_fees.bits + p) as i128 },
                ),
            )
        }
    }
}

/// The program's part of an origination fee, as bits: `fee * program_fee_rate`, or nothing when
/// that rate is zero.
pub open spec fn program_share_bits(fee: I80F48, program_fee_rate: I80F48) -> int {
    if program_fee_rate.bits == 0 {
        0
    } else {
        mul_bits(fee.bits as int, program_fee_rate.bits as int)
    }
}

/// Shares a borrow's origination fee between the group's and the program's collected fees. When
/// nothing saturates, the program's total grows by its part and the group's by the rest, so the
/// two together grow by exactly `fee`.
pub fn distribute_origination_fee(
    fee: I80F48,
    program_fee_rate: I80F48,
    group_fees: I80F48,
    program_fees: I80F48,
) -> (r: Result<(I80F48, I80F48), BorrowError>)
    ensures
        r == spec_distribute_origination_fee(fee, program_fee_rate, group_fees, program_fees),
        r matches Ok((g, p)) ==> ({
            let share = program_share_bits(fee, program_fee_rate);
            in_i128(fee.bits - share) && in_i128(group_fees.bits + fee.bits - share) && in_i128(
                program_fees.bits + share,
            ) ==> g.bits == group_fees.bits + fee.bits - share && p.bits == program_fees.bits
                + share
        }),
{
    if fee.is_zero() {
        return Ok((group_fees, program_fees));
    }
    if program_fee_rate.is_zero() {
        return Ok((group_fees.saturating_add(fee), program_fees));
    }
    let program_fee_amount = match fee.checked_mul(program_fee_rate) {
        None => {
            return Err(BorrowError::MathError);
        },
        Some(v) => v,
    };
    let group_after = group_fees.saturating_add(fee.saturating_sub(program_fee_amount));
    let program_after = program_fees.saturating_add(program_fee_amount);
    Ok((group_after, program_after))
}

/// The price the group's rate limiter values a borrow at: only an ordinary borrow may record an
/// outflow there, and the price must be positive (a missing price counts as zero).
pub fn rate_limit_price(allow_group_rate_limit_mutation: bool, price: Option<I80F48>) -> (r: Result<
    I80F48,
    BorrowError,
>)
    ensures
        r == if !allow_group_rate_limit_mutation {
            Err(BorrowError::IllegalFlashloan)
        } else {
            match price {
                Some(p) => if p.bits > 0 {
                    Ok(p)
                } else {
                    Err(BorrowError::InvalidRateLimitPrice)
                },
                None => Err(BorrowError::InvalidRateLimitPrice),
            }
        },
{
    if !allow_group_rate_limit_mutation {
        return Err(BorrowError::IllegalFlashloan);
    }
    let p = match price {
        Some(p) => p,
        None => I80F48::zero(),
    };
    if I80F48::zero().lt(p) {
        Ok(p)
    } else {
        Err(BorrowError::InvalidRateLimitPrice)
    }
}

} // verus!
