use marginfi::account_admin::{
    check_admin_close_account, purge_delev_balance, AdminError, BalanceShares, PurgeOutcome,
};
use marginfi::fixed_point::I80F48;
use marginfi::flags::propagate_kamino_market_emergency;
use marginfi::integration::{assemble_protocol_accounts, withdraw_filler_count, LayoutError};
use marginfi::pubkey::Pubkey;
use marginfi::bankruptcy::bankruptcy_batches;
use marginfi::venue::{
    check_drift_deposit, check_drift_withdraw, check_juplend_deposit, check_juplend_withdraw,
    check_kamino_deposit, check_kamino_redeemed, check_kamino_withdraw, check_op_mode,
    check_solend_deposit, check_solend_withdraw, check_within_one_token, validate_drift_bank_keys, validate_juplend_deposit_keys,
    validate_juplend_withdraw_keys, withdraw_price_gate, validate_kamino_accounts,
    validate_lending_accounts, validate_obligation, validate_solend_accounts, JuplendLendingKeys,
    ObligationDeposit, VenueError,
};

const ONE: i128 = 1 << 48;

fn key(n: u128) -> Pubkey {
    Pubkey { hi: 0, lo: n }
}

#[test]
fn integration_accounts_go_to_their_slots() {
    let slots = vec![(0usize, 2u8), (3usize, 1u8)];
    let integ = [Some(100u32), Some(200u32), None];
    let remaining = vec![1u32, 2, 3];
    let out = assemble_protocol_accounts(&slots, 5, integ, &remaining).unwrap();
    assert_eq!(out, vec![200, 1, 2, 100, 3]);
    assert_eq!(
        assemble_protocol_accounts(&slots, 6, integ, &remaining),
        Err(LayoutError::IntegrationAccountCountMismatch)
    );
    let slots = vec![(1usize, 3u8)];
    assert_eq!(
        assemble_protocol_accounts(&slots, 2, integ, &remaining),
        Err(LayoutError::IntegrationAccountKeyMismatch)
    );
    assert_eq!(assemble_protocol_accounts(&vec![], 0, integ, &remaining), Ok(vec![]));
}

#[test]
fn withdraw_fillers_leave_the_oracles() {
    assert_eq!(withdraw_filler_count(10, 15, 3), Err(LayoutError::IntegrationAccountCountMismatch));
    assert_eq!(withdraw_filler_count(14, 15, 3), Ok(12));
}

#[test]
fn kamino_account_checks() {
    let programs = [key(700), key(800), key(900), key(1000)];
    let mut keys: Vec<Pubkey> = (0..13u128).map(key).collect();
    keys[0] = key(50);
    keys[3] = key(60);
    keys[7] = key(700);
    keys[8] = key(800);
    keys[9] = key(900);
    keys[10] = key(1000);
    assert_eq!(validate_kamino_accounts(&keys, &key(50), &key(60), &programs), Ok(()));
    assert_eq!(
        validate_kamino_accounts(&keys, &key(51), &key(60), &programs),
        Err(VenueError::IntegrationAccountKeyMismatch)
    );
    assert_eq!(
        validate_kamino_accounts(&keys[..10].to_vec(), &key(50), &key(60), &programs),
        Err(VenueError::IntegrationAccountCountMismatch)
    );
    let deposits = vec![
        ObligationDeposit {
            deposit_reserve: key(60),
            deposited_amount: 5,
        },
        ObligationDeposit {
            deposit_reserve: key(0),
            deposited_amount: 0,
        },
    ];
    assert_eq!(validate_obligation(&deposits, &key(60)), Ok(()));
    assert_eq!(
        validate_obligation(&deposits, &key(61)),
        Err(VenueError::ObligationDepositReserveMismatch)
    );
    let mut extra = deposits.clone();
    extra[1].deposited_amount = 1;
    assert_eq!(
        validate_obligation(&extra, &key(60)),
        Err(VenueError::InvalidObligationDepositCount)
    );
    assert_eq!(check_kamino_withdraw(100, 60, 40), Ok(()));
    assert_eq!(check_kamino_withdraw(100, 61, 40), Err(VenueError::KaminoWithdrawFailed));
}

#[test]
fn drift_account_and_delta_checks() {
    let mut keys: Vec<Pubkey> = (0..15u128).map(key).collect();
    keys[3] = key(30);
    keys[1] = key(10);
    keys[2] = key(20);
    keys[6] = key(66);
    keys[7] = key(77);
    let integ = [key(30), key(10), key(20)];
    assert_eq!(
        validate_drift_bank_keys(&keys, 15, 6, 7, &integ, &key(66), &key(77)),
        Ok(())
    );
    assert_eq!(
        validate_drift_bank_keys(&keys, 15, 6, 7, &integ, &key(67), &key(77)),
        Err(VenueError::IntegrationAccountKeyMismatch)
    );
    assert_eq!(
        validate_drift_bank_keys(&keys[..8].to_vec(), 15, 6, 7, &integ, &key(66), &key(77)),
        Err(VenueError::IntegrationAccountCountMismatch)
    );
    assert_eq!(check_drift_deposit(10, 25, 15), Ok(15));
    assert_eq!(check_drift_deposit(10, 25, 14), Err(VenueError::DriftScaledBalanceMismatch));
    assert_eq!(check_drift_withdraw(100, 150, 80, 70, 50, 10), Ok(50));
    assert_eq!(
        check_drift_withdraw(100, 149, 80, 70, 50, 10),
        Err(VenueError::DriftWithdrawFailed)
    );
    assert_eq!(
        check_drift_withdraw(100, 150, 80, 71, 50, 10),
        Err(VenueError::DriftScaledBalanceMismatch)
    );
}

#[test]
fn juplend_and_solend_checks() {
    let lending = JuplendLendingKeys {
        f_token_mint: key(1),
        token_reserves_liquidity: key(2),
        supply_position_on_liquidity: key(3),
    };
    assert_eq!(validate_lending_accounts(&lending, &key(1), &key(2), &key(3)), Ok(()));
    assert_eq!(
        validate_lending_accounts(&lending, &key(1), &key(2), &key(4)),
        Err(VenueError::InvalidJuplendLending)
    );
    assert_eq!(check_juplend_deposit(100, 130, 30), Ok(30));
    assert_eq!(check_juplend_deposit(100, 130, 31), Err(VenueError::JuplendDepositFailed));
    assert_eq!(check_juplend_deposit(100, 90, 0), Err(VenueError::MathError));
    assert_eq!(check_juplend_withdraw(0, 50, 100, 80, 50, 20), Ok(50));
    assert_eq!(
        check_juplend_withdraw(0, 50, 100, 81, 50, 20),
        Err(VenueError::JuplendWithdrawFailed)
    );
    assert_eq!(check_juplend_withdraw(10, 5, 100, 80, 50, 20), Err(VenueError::MathError));
    let mut keys: Vec<Pubkey> = (0..9u128).map(key).collect();
    keys[3] = key(30);
    keys[0] = key(40);
    keys[8] = key(88);
    assert_eq!(
        validate_solend_accounts(&keys, &key(88), 9, 8, &[key(30), key(40)], &key(88)),
        Ok(())
    );
    assert_eq!(
        validate_solend_accounts(&keys, &key(87), 9, 8, &[key(30), key(40)], &key(88)),
        Err(VenueError::InvalidSolendAccount)
    );
}

fn shares(bank: u128, active: bool, assets: i128, liabs: i128) -> BalanceShares {
    BalanceShares {
        bank_pk: key(bank),
        active,
        asset_shares: I80F48::from_bits(assets * ONE),
        liability_shares: I80F48::from_bits(liabs),
    }
}

#[test]
fn admin_close_and_purge() {
    assert_eq!(check_admin_close_account(true, false, true), Ok(()));
    assert_eq!(
        check_admin_close_account(true, true, true),
        Err(AdminError::IllegalAction)
    );
    assert_eq!(
        check_admin_close_account(true, false, false),
        Err(AdminError::IllegalAction)
    );
    let threshold = I80F48::from_bits(10);
    let balances = vec![shares(1, false, 5, 0), shares(1, true, 7, -3), shares(2, true, 1, 500)];
    assert_eq!(
        purge_delev_balance(&balances, &key(1), threshold, 1),
        Ok(PurgeOutcome {
            index: 1,
            asset_shares: I80F48::from_bits(7 * ONE),
            sweep_vault: true
        })
    );
    assert_eq!(
        purge_delev_balance(&balances, &key(1), threshold, 4).unwrap().sweep_vault,
        false
    );
    assert_eq!(
        purge_delev_balance(&balances, &key(2), threshold, 4),
        Err(AdminError::OperationWithdrawOnly)
    );
    assert_eq!(
        purge_delev_balance(&balances, &key(3), threshold, 4),
        Err(AdminError::BankAccountNotFound)
    );
}

#[test]
fn kamino_emergency_flag_follows_the_market() {
    let bit = 1u64 << 7;
    assert_eq!(propagate_kamino_market_emergency(0b1010, bit, true), 0b1010 | bit);
    assert_eq!(propagate_kamino_market_emergency(0b1010 | bit, bit, false), 0b1010);
    assert_eq!(propagate_kamino_market_emergency(0b1010 | bit, bit, true), 0b1010 | bit);
    assert_eq!(propagate_kamino_market_emergency(0b1010, bit, false), 0b1010);
}

#[test]
fn integration_withdraw_gates() {
    assert_eq!(check_op_mode(3, Some(3)), Ok(()));
    assert_eq!(check_op_mode(3, None), Ok(()));
    assert_eq!(check_op_mode(3, Some(4)), Err(VenueError::IntegrationOpModeMismatch));
    let price = I80F48::from_bits(25 * ONE);
    let zero = I80F48::from_bits(0);
    // Neither receivership nor a rate limit: no price is read.
    assert_eq!(withdraw_price_gate(false, false, price), Ok(zero));
    assert_eq!(withdraw_price_gate(false, true, price), Ok(price));
    assert_eq!(withdraw_price_gate(true, false, price), Ok(price));
    assert_eq!(withdraw_price_gate(true, false, zero), Err(VenueError::ZeroAssetPrice));
    // A rate limit alone accepts a zero price.
    assert_eq!(withdraw_price_gate(false, true, zero), Ok(zero));
}

#[test]
fn juplend_protocol_account_keys() {
    let programs = [key(900), key(901), key(902), key(903)];
    let mut deposit: Vec<Pubkey> = (0..14).map(|i| key(100 + i)).collect();
    deposit[9] = programs[0];
    deposit[11] = programs[1];
    deposit[12] = programs[2];
    deposit[13] = programs[3];
    let accounts = [key(100), key(102)];
    assert_eq!(validate_juplend_deposit_keys(&deposit, &accounts, &programs), Ok(()));
    assert_eq!(
        validate_juplend_deposit_keys(&deposit[..13].to_vec(), &accounts, &programs),
        Err(VenueError::IntegrationAccountCountMismatch)
    );
    let mut wrong = deposit.clone();
    wrong[12] = key(5);
    assert_eq!(
        validate_juplend_deposit_keys(&wrong, &accounts, &programs),
        Err(VenueError::IntegrationAccountKeyMismatch)
    );
    assert_eq!(
        validate_juplend_deposit_keys(&deposit, &[key(100), key(101)], &programs),
        Err(VenueError::IntegrationAccountKeyMismatch)
    );

    let mut withdraw: Vec<Pubkey> = (0..16).map(|i| key(200 + i)).collect();
    withdraw[11] = programs[0];
    withdraw[13] = programs[1];
    withdraw[14] = programs[2];
    withdraw[15] = programs[3];
    let accounts = [key(200), key(202), key(203)];
    assert_eq!(validate_juplend_withdraw_keys(&withdraw, &accounts, &programs), Ok(()));
    assert_eq!(
        validate_juplend_withdraw_keys(&withdraw[..15].to_vec(), &accounts, &programs),
        Err(VenueError::IntegrationAccountCountMismatch)
    );
    assert_eq!(
        validate_juplend_withdraw_keys(&withdraw, &[key(200), key(202), key(204)], &programs),
        Err(VenueError::IntegrationAccountKeyMismatch)
    );
}

#[test]
fn bankruptcy_instructions_go_in_fours() {
    let ixs: Vec<u32> = (0..9).collect();
    assert_eq!(
        bankruptcy_batches(&ixs),
        vec![vec![0, 1, 2, 3], vec![4, 5, 6, 7], vec![8]]
    );
    let four: Vec<u32> = (0..4).collect();
    assert_eq!(bankruptcy_batches(&four), vec![vec![0, 1, 2, 3]]);
    let none: Vec<u32> = Vec::new();
    assert_eq!(bankruptcy_batches(&none), Vec::<Vec<u32>>::new());
}

#[test]
fn venue_amounts_within_one_token() {
    assert_eq!(check_within_one_token(10, 11, VenueError::MathError), Ok(()));
    assert_eq!(check_within_one_token(11, 10, VenueError::MathError), Ok(()));
    assert_eq!(check_within_one_token(0, u64::MAX, VenueError::MathError), Err(VenueError::MathError));
    assert_eq!(check_within_one_token(12, 10, VenueError::MathError), Err(VenueError::MathError));
    assert_eq!(check_kamino_deposit(100, 350, 249), Ok(250));
    assert_eq!(check_kamino_deposit(100, 350, 248), Err(VenueError::KaminoDepositFailed));
    assert_eq!(check_kamino_redeemed(1_000, 1_500, 501), Ok(500));
    assert_eq!(check_kamino_redeemed(1_000, 1_500, 400), Err(VenueError::KaminoWithdrawFailed));
    assert_eq!(check_solend_deposit(0, 7, 8), Ok(7));
    assert_eq!(check_solend_deposit(0, 7, 9), Err(VenueError::SolendDepositFailed));
    assert_eq!(check_solend_withdraw(500, 300, 201, 10, 60, 50), Ok(50));
    assert_eq!(
        check_solend_withdraw(500, 300, 100, 10, 60, 50),
        Err(VenueError::SolendWithdrawFailed)
    );
    assert_eq!(
        check_solend_withdraw(500, 300, 200, 10, 60, 70),
        Err(VenueError::SolendWithdrawFailed)
    );
}
