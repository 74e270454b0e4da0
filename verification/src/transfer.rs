//! Moving a position (a deposit or a debt) of one bank from one marginfi account to another.
//!
//! These are the checks and amounts the transfer decides; the share accounting, the health checks
//! and the fee transfer happen around them.
use vstd::prelude::*;
use crate::fixed_point::{I80F48, scale, lemma_div_of_integers};
use crate::pubkey::Pubkey;

verus! {

/// The account flags a position transfer looks at.
#[derive(Clone, Copy, Debug, PartialEq, Eq, Structural)]
pub struct TransferAccountState {
    pub disabled: bool,
    pub in_flashloan: bool,
    pub in_receivership: bool,
    pub in_order_execution: bool,
    pub in_deleverage: bool,
    pub in_rebalance: bool,
    pub frozen: bool,
    pub position_transfer_receive_disabled: bool,
}

/// Which side of a bank the source's balance is on.
#[derive(Clone, Copy, Debug, PartialEq, Eq, Structural)]
pub enum BalanceSide {
    Assets,
    Liabilities,
    /// Neither: the balance is empty.
    Empty,
}

/// Why a position transfer is refused.
#[derive(Clone, Copy, Debug, PartialEq, Eq, Structural)]
pub enum TransferError {
    PositionTransferIdenticalAccounts,
    InvalidPositionTransferAmount,
    InvalidGlobalFeeWallet,
    AccountDisabled,
    AccountInFlashloan,
    ForbiddenIx,
    AccountFrozen,
    PositionTransferReceiveDisabled,
    LendingAccountBalanceNotFound,
    NoAssetFound,
    PositionTransferDebtConsentRequired,
    PositionTransferInsufficientFunds,
    WrongNumberOfOracleAccounts,
}

/// Why an account may take no part in a transfer, if it may not.
pub open spec fn participant_failure(a: TransferAccountState) -> Option<TransferError> {
    if a.disabled {
        Some(TransferError::AccountDisabled)
    } else if a.in_flashloan {
        Some(TransferError::AccountInFlashloan)
    } else if a.in_receivership || a.in_order_execution || a.in_deleverage || a.in_rebalance {
        Some(TransferError::ForbiddenIx)
    } else {
        None
    }
}

/// The transfer's checks on the two accounts, in the program's order.
pub open spec fn spec_check_transfer_accounts(
    source_key: Pubkey,
    destination_key: Pubkey,
    transfer_amount: u64,
    fee_wallet: Pubkey,
    group_fee_wallet: Pubkey,
    source: TransferAccountState,
    destination: TransferAccountState,
) -> Result<(), TransferError> {
    if source_key == destination_key {
        Err(TransferError::PositionTransferIdenticalAccounts)
    } else if transfer_amount == 0 {
        Err(TransferError::InvalidPositionTransferAmount)
    } else if fee_wallet != group_fee_wallet {
        Err(TransferError::InvalidGlobalFeeWallet)
    } else if participant_failure(source) is Some {
        Err(participant_failure(source)->Some_0)
    } else if participant_failure(destination) is Some {
        Err(participant_failure(destination)->Some_0)
    } else if destination.frozen {
        Err(TransferError::AccountFrozen)
    } else if destination.position_transfer_receive_disabled {
        Err(TransferError::PositionTransferReceiveDisabled)
    } else {
        Ok(())
    }
}

fn check_participant(a: &TransferAccountState) -> (r: Result<(), TransferError>)
    ensures
        r == match participant_failure(*a) {
            Some(e) => Err(e),
            None => Ok(()),
        },
{
    if a.disabled {
        return Err(TransferError::AccountDisabled);
    }
    if a.in_flashloan {
        return Err(TransferError::AccountInFlashloan);
    }
    if a.in_receivership || a.in_order_execution || a.in_deleverage || a.in_rebalance {
        return Err(TransferError::ForbiddenIx);
    }
    Ok(())
}

/// The checks before a position moves: two distinct accounts, a positive amount, the group's
/// fee wallet, both accounts free of any other flow, and a destination that is not frozen and
/// accepts transfers.
pub fn check_transfer_accounts(
    source_key: &Pubkey,
    destination_key: &Pubkey,
    transfer_amount: u64,
    fee_wallet: &Pubkey,
    group_fee_wallet: &Pubkey,
    source: &TransferAccountState,
    destination: &TransferAccountState,
) -> (r: Result<(), TransferError>)
    ensures
        r == spec_check_transfer_accounts(
            *source_key,
            *destination_key,
            transfer_amount,
            *fee_wallet,
            *group_fee_wallet,
            *source,
            *destination,
        ),
{
    if *source_key == *destination_key {
        return Err(TransferError::PositionTransferIdenticalAccounts);
    }
    if transfer_amount == 0 {
        return Err(TransferError::InvalidPositionTransferAmount);
    }
    if *fee_wallet != *group_fee_wallet {
        return Err(TransferError::InvalidGlobalFeeWallet);
    }
    match check_participant(source) {
        Err(e) => {
            return Err(e);
        },
        Ok(()) => {},
    }
    match check_participant(destination) {
        Err(e) => {
            return Err(e);
        },
        Ok(()) => {},
    }
    if destination.frozen {
        return Err(TransferError::AccountFrozen);
    }
    if destination.position_transfer_receive_disabled {
        return Err(TransferError::PositionTransferReceiveDisabled);
    }
    Ok(())
}

/// Whether the moved balance is a debt: the source's balance in the bank must exist
/// (`LendingAccountBalanceNotFound`) and not be empty (`NoAssetFound`). A debt may only move to an
/// account whose authority consents: it signs the transfer itself, or signs as the destination
/// authority.
pub fn transfer_side(
    source_side: Option<BalanceSide>,
    destination_authority: &Pubkey,
    signer: &Pubkey,
    destination_signer: Option<Pubkey>,
) -> (r: Result<bool, TransferError>)
    ensures
        r == match source_side {
            None => Err(TransferError::LendingAccountBalanceNotFound),
            Some(BalanceSide::Empty) => Err(TransferError::NoAssetFound),
            Some(BalanceSide::Assets) => Ok(false),
            Some(BalanceSide::Liabilities) => if *destination_authority == *signer || (
            destination_signer matches Some(s) && s == *destination_authority) {
                Ok(true)
            } else {
                Err(TransferError::PositionTransferDebtConsentRequired)
            },
        },
{
    let is_liability = match source_side {
        None => {
            return Err(TransferError::LendingAccountBalanceNotFound);
        },
        Some(BalanceSide::Empty) => {
            return Err(TransferError::NoAssetFound);
        },
        Some(BalanceSide::Assets) => false,
        Some(BalanceSide::Liabilities) => true,
    };
    if is_liability {
        let consents = *destination_authority == *signer || match destination_signer {
            Some(s) => s == *destination_authority,
            None => false,
        };
        if !consents {
            return Err(TransferError::PositionTransferDebtConsentRequired);
        }
    }
    Ok(is_liability)
}

/// A configured setting, or its default when it is unset (zero).
pub fn setting_or_default(configured: u64, default: u64) -> (r: u64)
    ensures
        r == if configured == 0 {
            default
        } else {
            configured
        },
{
    if configured == 0 {
        default
    } else {
        configured
    }
}

/// The smallest transfer value, in dollars, for a minimum of `min_value_usd_cents` cents:
/// `cents / 100`, rounded down to the fixed-point grid.
pub open spec fn min_transfer_value_bits(min_value_usd_cents: u64) -> int {
    (min_value_usd_cents * scale()) / 100
}

/// A transfer must be worth at least the minimum value (given in cents).
pub fn check_min_transfer_value(transfer_usd_value: I80F48, min_value_usd_cents: u64) -> (r: Result<
    (),
    TransferError,
>)
    ensures
        r is Ok <==> transfer_usd_value.bits >= min_transfer_value_bits(min_value_usd_cents),
        r is Err ==> r == Err::<(), TransferError>(TransferError::InvalidPositionTransferAmount),
{
    let cents = I80F48::from_u64(min_value_usd_cents);
    let hundred = I80F48::from_u64(100);
    proof {
        lemma_div_of_integers(min_value_usd_cents as int, 100);
    }
    let min_value = cents.div(hundred);
    if min_value.le(transfer_usd_value) {
        Ok(())
    } else {
        Err(TransferError::InvalidPositionTransferAmount)
    }
}

/// The amount that moves: a debt move is capped at the debt (`held`, after interest), so an
/// over-ask moves all of it; a deposit move needs at least `amount` deposited.
pub fn transfer_amount(is_liability: bool, amount: I80F48, held: I80F48) -> (r: Result<
    I80F48,
    TransferError,
>)
    ensures
        is_liability ==> r == Ok::<I80F48, TransferError>(
            if amount.bits <= held.bits {
                amount
            } else {
                held
            },
        ),
        !is_liability ==> r == if held.bits >= amount.bits {
            Ok(amount)
        } else {
            Err(TransferError::PositionTransferInsufficientFunds)
        },
{
    if is_liability {
        Ok(amount.min(held))
    } else {
        if amount.le(held) {
            Ok(amount)
        } else {
            Err(TransferError::PositionTransferInsufficientFunds)
        }
    }
}

/// Where the destination's observation accounts start: the last `destination_accounts` of the
/// `total` passed belong to the destination, the rest to the source.
pub fn split_observation_accounts(total: usize, destination_accounts: u8) -> (r: Result<
    usize,
    TransferError,
>)
    ensures
        r == if destination_accounts <= total {
            Ok((total - destination_accounts) as usize)
        } else {
            Err(TransferError::WrongNumberOfOracleAccounts)
        },
{
    match total.checked_sub(destination_accounts as usize) {
        Some(s) => Ok(s),
        None => Err(TransferError::WrongNumberOfOracleAccounts),
    }
}

} // verus!
