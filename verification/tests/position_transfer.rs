use marginfi::fixed_point::I80F48;
use marginfi::pubkey::Pubkey;
use marginfi::transfer::{
    check_min_transfer_value, check_transfer_accounts, setting_or_default,
    split_observation_accounts, transfer_amount, transfer_side, BalanceSide,
    TransferAccountState, TransferError,
};

const ONE: i128 = 1 << 48;

fn fx(n: i128) -> I80F48 {
    I80F48::from_bits(n * ONE)
}

fn key(n: u128) -> Pubkey {
    Pubkey { hi: 0, lo: n }
}

fn idle() -> TransferAccountState {
    TransferAccountState {
        disabled: false,
        in_flashloan: false,
        in_receivership: false,
        in_order_execution: false,
        in_deleverage: false,
        in_rebalance: false,
        frozen: false,
        position_transfer_receive_disabled: false,
    }
}

#[test]
fn transfer_account_checks() {
    let w = key(9);
    assert_eq!(
        check_transfer_accounts(&key(1), &key(2), 10, &w, &w, &idle(), &idle()),
        Ok(())
    );
    assert_eq!(
        check_transfer_accounts(&key(1), &key(1), 10, &w, &w, &idle(), &idle()),
        Err(TransferError::PositionTransferIdenticalAccounts)
    );
    assert_eq!(
        check_transfer_accounts(&key(1), &key(2), 0, &w, &w, &idle(), &idle()),
        Err(TransferError::InvalidPositionTransferAmount)
    );
    assert_eq!(
        check_transfer_accounts(&key(1), &key(2), 10, &key(8), &w, &idle(), &idle()),
        Err(TransferError::InvalidGlobalFeeWallet)
    );
    let mut s = idle();
    s.in_flashloan = true;
    assert_eq!(
        check_transfer_accounts(&key(1), &key(2), 10, &w, &w, &s, &idle()),
        Err(TransferError::AccountInFlashloan)
    );
    let mut d = idle();
    d.in_rebalance = true;
    assert_eq!(
        check_transfer_accounts(&key(1), &key(2), 10, &w, &w, &idle(), &d),
        Err(TransferError::ForbiddenIx)
    );
    let mut d = idle();
    d.disabled = true;
    assert_eq!(
        check_transfer_accounts(&key(1), &key(2), 10, &w, &w, &idle(), &d),
        Err(TransferError::AccountDisabled)
    );
    let mut d = idle();
    d.frozen = true;
    assert_eq!(
        check_transfer_accounts(&key(1), &key(2), 10, &w, &w, &idle(), &d),
        Err(TransferError::AccountFrozen)
    );
    let mut d = idle();
    d.position_transfer_receive_disabled = true;
    assert_eq!(
        check_transfer_accounts(&key(1), &key(2), 10, &w, &w, &idle(), &d),
        Err(TransferError::PositionTransferReceiveDisabled)
    );
    // A frozen source may still send.
    let mut s = idle();
    s.frozen = true;
    assert_eq!(
        check_transfer_accounts(&key(1), &key(2), 10, &w, &w, &s, &idle()),
        Ok(())
    );
}

#[test]
fn debt_needs_the_receivers_consent() {
    let owner = key(5);
    assert_eq!(transfer_side(Some(BalanceSide::Assets), &owner, &key(1), None), Ok(false));
    assert_eq!(
        transfer_side(Some(BalanceSide::Liabilities), &owner, &key(1), None),
        Err(TransferError::PositionTransferDebtConsentRequired)
    );
    assert_eq!(
        transfer_side(Some(BalanceSide::Liabilities), &owner, &owner, None),
        Ok(true)
    );
    assert_eq!(
        transfer_side(Some(BalanceSide::Liabilities), &owner, &key(1), Some(owner)),
        Ok(true)
    );
    assert_eq!(
        transfer_side(Some(BalanceSide::Liabilities), &owner, &key(1), Some(key(2))),
        Err(TransferError::PositionTransferDebtConsentRequired)
    );
    assert_eq!(
        transfer_side(Some(BalanceSide::Empty), &owner, &owner, None),
        Err(TransferError::NoAssetFound)
    );
    assert_eq!(
        transfer_side(None, &owner, &owner, None),
        Err(TransferError::LendingAccountBalanceNotFound)
    );
}

#[test]
fn transfer_settings_and_minimum_value() {
    assert_eq!(setting_or_default(0, 100), 100);
    assert_eq!(setting_or_default(7, 100), 7);
    // 150 cents is $1.50.
    assert_eq!(check_min_transfer_value(I80F48::from_bits(ONE * 3 / 2), 150), Ok(()));
    assert_eq!(
        check_min_transfer_value(I80F48::from_bits(ONE * 3 / 2 - 1), 150),
        Err(TransferError::InvalidPositionTransferAmount)
    );
}

#[test]
fn debt_moves_are_capped_and_deposits_checked() {
    assert_eq!(transfer_amount(true, fx(100), fx(40)), Ok(fx(40)));
    assert_eq!(transfer_amount(true, fx(10), fx(40)), Ok(fx(10)));
    assert_eq!(transfer_amount(false, fx(10), fx(40)), Ok(fx(10)));
    assert_eq!(
        transfer_amount(false, fx(100), fx(40)),
        Err(TransferError::PositionTransferInsufficientFunds)
    );
}

#[test]
fn observation_accounts_split() {
    assert_eq!(split_observation_accounts(10, 4), Ok(6));
    assert_eq!(split_observation_accounts(4, 4), Ok(0));
    assert_eq!(
        split_observation_accounts(3, 4),
        Err(TransferError::WrongNumberOfOracleAccounts)
    );
}
