//! The checks an integration makes around a venue call: that the protocol accounts passed are
//! the bank's and the venue's, and that the venue moved exactly what was asked.
use vstd::prelude::*;
use crate::pubkey::Pubkey;
use crate::fixed_point::I80F48;

verus! {

/// Why a venue operation is refused.
#[derive(Clone, Copy, Debug, PartialEq, Eq, Structural)]
pub enum VenueError {
    IntegrationAccountCountMismatch,
    IntegrationAccountKeyMismatch,
    ObligationDepositReserveMismatch,
    InvalidObligationDepositCount,
    InvalidJuplendLending,
    InvalidSolendAccount,
    DriftScaledBalanceMismatch,
    DriftWithdrawFailed,
    KaminoDepositFailed,
    KaminoWithdrawFailed,
    SolendDepositFailed,
    SolendWithdrawFailed,
    JuplendDepositFailed,
    JuplendWithdrawFailed,
    /// The instruction's venue is not the bank's.
    IntegrationOpModeMismatch,
    /// An account in receivership or order execution withdraws at a price that is not positive.
    ZeroAssetPrice,
    MathError,
}

/// The number of protocol accounts a Kamino operation needs at least.
pub const KAMINO_MIN_REQUIRED_ACCOUNTS: usize = 11;

/// The number of protocol accounts of a Drift withdraw.
pub const DRIFT_WITHDRAW_ACCOUNTS: usize = 15;

/// The Kamino protocol accounts: the obligation at 0, the reserve at 3, and the Kamino, farms,
/// token programs and the instructions sysvar at 7 to 10.
pub open spec fn spec_kamino_accounts(
    keys: Seq<Pubkey>,
    obligation_key: Pubkey,
    reserve_key: Pubkey,
    programs: Seq<Pubkey>,
) -> Result<(), VenueError> {
    if keys.len() < 11 {
        Err(VenueError::IntegrationAccountCountMismatch)
    } else if keys[3] != reserve_key || keys[0] != obligation_key || keys[7] != programs[0]
        || keys[8] != programs[1] || keys[9] != programs[2] || keys[10] != programs[3] {
        Err(VenueError::IntegrationAccountKeyMismatch)
    } else {
        Ok(())
    }
}

/// Checks the Kamino protocol accounts against the bank's obligation and reserve and the known
/// programs `[kamino, farms, token, instructions sysvar]`.
pub fn validate_kamino_accounts(
    keys: &Vec<Pubkey>,
    obligation_key: &Pubkey,
    reserve_key: &Pubkey,
    programs: &[Pubkey; 4],
) -> (r: Result<(), VenueError>)
    ensures
        r == spec_kamino_accounts(keys@, *obligation_key, *reserve_key, programs@),
{
    if keys.len() < KAMINO_MIN_REQUIRED_ACCOUNTS {
        return Err(VenueError::IntegrationAccountCountMismatch);
    }
    if keys[3] != *reserve_key || keys[0] != *obligation_key || keys[7] != programs[0]
        || keys[8] != programs[1] || keys[9] != programs[2] || keys[10] != programs[3] {
        return Err(VenueError::IntegrationAccountKeyMismatch);
    }
    Ok(())
}

/// One deposit slot of a Kamino obligation.
#[derive(Clone, Copy, Debug, PartialEq, Eq, Structural)]
pub struct ObligationDeposit {
    pub deposit_reserve: Pubkey,
    pub deposited_amount: u64,
}

/// A bank's Kamino obligation holds one position: its first deposit slot is the bank's reserve
/// and every other slot is empty.
pub fn validate_obligation(deposits: &Vec<ObligationDeposit>, reserve_key: &Pubkey) -> (r: Result<
    (),
    VenueError,
>)
    requires
        deposits.len() >= 1,
    ensures
        r == if deposits@[0].deposit_reserve != *reserve_key {
            Err(VenueError::ObligationDepositReserveMismatch)
        } else if exists|i: int| 1 <= i < deposits.len() && #[trigger] deposits@[i].deposited_amount != 0 {
            Err(VenueError::InvalidObligationDepositCount)
        } else {
            Ok(())
        },
{
    if deposits[0].deposit_reserve != *reserve_key {
        return Err(VenueError::ObligationDepositReserveMismatch);
    }
    let mut i: usize = 1;
    while i < deposits.len()
        invariant
            1 <= i <= deposits.len(),
            deposits@[0].deposit_reserve == *reserve_key,
            forall|j: int| 1 <= j < i ==> #[trigger] deposits@[j].deposited_amount == 0,
        decreases deposits.len() - i,
    {
        if deposits[i].deposited_amount != 0 {
            assert(deposits@[i as int].deposited_amount != 0);
            return Err(VenueError::InvalidObligationDepositCount);
        }
        i = i + 1;
    }
    Ok(())
}

/// A Kamino withdraw took exactly `collateral_amount` from the obligation.
pub fn check_kamino_withdraw(initial_deposited: u64, final_deposited: u64, collateral_amount: u64) -> (r:
    Result<(), VenueError>)
    requires
        final_deposited <= initial_deposited,
    ensures
        r is Ok <==> initial_deposited - final_deposited == collateral_amount,
        r is Err ==> r == Err::<(), VenueError>(VenueError::KaminoWithdrawFailed),
{
    if initial_deposited - final_deposited == collateral_amount {
        Ok(())
    } else {
        Err(VenueError::KaminoWithdrawFailed)
    }
}

/// `actual` lies within one token unit of `expected`, on either side.
pub open spec fn spec_within_one_token(actual: u64, expected: u64) -> bool {
    actual <= expected + 1 && expected <= actual + 1
}

/// Refuses with `err` an amount more than one token unit away from what was expected.
pub fn check_within_one_token(actual: u64, expected: u64, err: VenueError) -> (r: Result<(), VenueError>)
    ensures
        r == if spec_within_one_token(actual, expected) {
            Ok(())
        } else {
            Err(err)
        },
{
    let diff = if actual >= expected {
        actual - expected
    } else {
        expected - actual
    };
    if diff <= 1 {
        Ok(())
    } else {
        Err(err)
    }
}

/// A Kamino deposit grew the obligation's deposit by the collateral the reserve quoted, to within
/// one token; the growth is returned.
pub fn check_kamino_deposit(initial_deposited: u64, final_deposited: u64, expected_collateral: u64) -> (r:
    Result<u64, VenueError>)
    requires
        initial_deposited <= final_deposited,
    ensures
        r == if spec_within_one_token((final_deposited - initial_deposited) as u64, expected_collateral) {
            Ok::<u64, VenueError>((final_deposited - initial_deposited) as u64)
        } else {
            Err(VenueError::KaminoDepositFailed)
        },
{
    let change = final_deposited - initial_deposited;
    match check_within_one_token(change, expected_collateral, VenueError::KaminoDepositFailed) {
        Err(e) => Err(e),
        Ok(()) => Ok(change),
    }
}

/// What a Kamino withdraw brought into the liquidity vault: it must be, to within one token, the
/// liquidity the reserve quoted for the collateral; the amount received is returned.
pub fn check_kamino_redeemed(pre_vault: u64, post_vault: u64, expected_liquidity: u64) -> (r: Result<
    u64,
    VenueError,
>)
    requires
        pre_vault <= post_vault,
    ensures
        r == if spec_within_one_token((post_vault - pre_vault) as u64, expected_liquidity) {
            Ok::<u64, VenueError>((post_vault - pre_vault) as u64)
        } else {
            Err(VenueError::KaminoWithdrawFailed)
        },
{
    let received = post_vault - pre_vault;
    match check_within_one_token(received, expected_liquidity, VenueError::KaminoWithdrawFailed) {
        Err(e) => Err(e),
        Ok(()) => Ok(received),
    }
}

/// A Solend deposit grew the obligation's deposit by the quoted collateral, to within one token;
/// the growth is returned.
pub fn check_solend_deposit(initial_deposited: u64, final_deposited: u64, expected_collateral: u64) -> (r:
    Result<u64, VenueError>)
    requires
        initial_deposited <= final_deposited,
    ensures
        r == if spec_within_one_token((final_deposited - initial_deposited) as u64, expected_collateral) {
            Ok::<u64, VenueError>((final_deposited - initial_deposited) as u64)
        } else {
            Err(VenueError::SolendDepositFailed)
        },
{
    let change = final_deposited - initial_deposited;
    match check_within_one_token(change, expected_collateral, VenueError::SolendDepositFailed) {
        Err(e) => Err(e),
        Ok(()) => Ok(change),
    }
}

/// A Solend withdraw: the obligation's deposit fell by the collateral asked for and the vault
/// received the quoted liquidity, each to within one token; the amount received is returned.
pub fn check_solend_withdraw(
    initial_deposited: u64,
    final_deposited: u64,
    collateral_amount: u64,
    pre_vault: u64,
    post_vault: u64,
    expected_liquidity: u64,
) -> (r: Result<u64, VenueError>)
    requires
        final_deposited <= initial_deposited,
        pre_vault <= post_vault,
    ensures
        r == if !spec_within_one_token((initial_deposited - final_deposited) as u64, collateral_amount)
            || !spec_within_one_token((post_vault - pre_vault) as u64, expected_liquidity) {
            Err(VenueError::SolendWithdrawFailed)
        } else {
            Ok::<u64, VenueError>((post_vault - pre_vault) as u64)
        },
{
    let change = initial_deposited - final_deposited;
    if let Err(e) = check_within_one_token(change, collateral_amount, VenueError::SolendWithdrawFailed) {
        return Err(e);
    }
    let received = post_vault - pre_vault;
    match check_within_one_token(received, expected_liquidity, VenueError::SolendWithdrawFailed) {
        Err(e) => Err(e),
        Ok(()) => Ok(received),
    }
}

/// The Drift protocol accounts: at least `min_count` of them, the bank's spot market at 3, user
/// at 1 and user stats at 2, the Drift program and the system program at the given positions.
pub open spec fn spec_drift_bank_keys(
    keys: Seq<Pubkey>,
    min_count: int,
    program_id_index: int,
    system_program_index: int,
    integration_accounts: Seq<Pubkey>,
    drift_program_id: Pubkey,
    system_program_id: Pubkey,
) -> Result<(), VenueError> {
    if keys.len() < min_count {
        Err(VenueError::IntegrationAccountCountMismatch)
    } else if keys[3] != integration_accounts[0] || keys[1] != integration_accounts[1] || keys[2]
        != integration_accounts[2] || keys[program_id_index] != drift_program_id
        || keys[system_program_index] != system_program_id {
        Err(VenueError::IntegrationAccountKeyMismatch)
    } else {
        Ok(())
    }
}

/// Checks the Drift protocol accounts against the bank's integration accounts (spot market, user,
/// user stats) and the Drift and system programs.
pub fn validate_drift_bank_keys(
    keys: &Vec<Pubkey>,
    min_count: usize,
    program_id_index: usize,
    system_program_index: usize,
    integration_accounts: &[Pubkey; 3],
    drift_program_id: &Pubkey,
    system_program_id: &Pubkey,
) -> (r: Result<(), VenueError>)
    requires
        4 <= min_count,
        program_id_index < min_count,
        system_program_index < min_count,
    ensures
        r == spec_drift_bank_keys(
            keys@,
            min_count as int,
            program_id_index as int,
            system_program_index as int,
            integration_accounts@,
            *drift_program_id,
            *system_program_id,
        ),
{
    if keys.len() < min_count {
        return Err(VenueError::IntegrationAccountCountMismatch);
    }
    if keys[3] != integration_accounts[0] || keys[1] != integration_accounts[1] || keys[2]
        != integration_accounts[2] || keys[program_id_index] != *drift_program_id
        || keys[system_program_index] != *system_program_id {
        return Err(VenueError::IntegrationAccountKeyMismatch);
    }
    Ok(())
}

/// A Drift deposit changed the user's scaled balance by exactly the expected amount.
pub fn check_drift_deposit(initial_scaled_balance: u64, final_scaled_balance: u64, expected_change: u64) -> (r:
    Result<u64, VenueError>)
    requires
        initial_scaled_balance <= final_scaled_balance,
    ensures
        r == if final_scaled_balance - initial_scaled_balance == expected_change {
            Ok(expected_change)
        } else {
            Err(VenueError::DriftScaledBalanceMismatch)
        },
{
    let change = final_scaled_balance - initial_scaled_balance;
    if change == expected_change {
        Ok(change)
    } else {
        Err(VenueError::DriftScaledBalanceMismatch)
    }
}

/// A Drift withdraw put exactly `token_amount` into the vault and took exactly the expected
/// scaled amount from the user. Returns what the vault received.
pub fn check_drift_withdraw(
    pre_vault_balance: u64,
    post_vault_balance: u64,
    initial_scaled_balance: u64,
    final_scaled_balance: u64,
    token_amount: u64,
    expected_scaled_change: u64,
) -> (r: Result<u64, VenueError>)
    requires
        pre_vault_balance <= post_vault_balance,
        final_scaled_balance <= initial_scaled_balance,
    ensures
        r == if post_vault_balance - pre_vault_balance != token_amount {
            Err(VenueError::DriftWithdrawFailed)
        } else if initial_scaled_balance - final_scaled_balance != expected_scaled_change {
            Err(VenueError::DriftScaledBalanceMismatch)
        } else {
            Ok(token_amount)
        },
{
    let actual_received = post_vault_balance - pre_vault_balance;
    let actual_scaled_change = initial_scaled_balance - final_scaled_balance;
    if actual_received != token_amount {
        return Err(VenueError::DriftWithdrawFailed);
    }
    if actual_scaled_change != expected_scaled_change {
        return Err(VenueError::DriftScaledBalanceMismatch);
    }
    Ok(actual_received)
}

/// What a JupLend lending account names.
#[derive(Clone, Copy, Debug, PartialEq, Eq, Structural)]
pub struct JuplendLendingKeys {
    pub f_token_mint: Pubkey,
    pub token_reserves_liquidity: Pubkey,
    pub supply_position_on_liquidity: Pubkey,
}

/// The JupLend lending account names the fToken mint, reserves and supply position passed.
pub fn validate_lending_accounts(
    lending: &JuplendLendingKeys,
    f_token_mint_key: &Pubkey,
    reserves_liquidity_key: &Pubkey,
    supply_position_key: &Pubkey,
) -> (r: Result<(), VenueError>)
    ensures
        r is Ok <==> lending.f_token_mint == *f_token_mint_key && lending.token_reserves_liquidity
            == *reserves_liquidity_key && lending.supply_position_on_liquidity
            == *supply_position_key,
        r is Err ==> r == Err::<(), VenueError>(VenueError::InvalidJuplendLending),
{
    if lending.f_token_mint != *f_token_mint_key {
        return Err(VenueError::InvalidJuplendLending);
    }
    if lending.token_reserves_liquidity != *reserves_liquidity_key {
        return Err(VenueError::InvalidJuplendLending);
    }
    if lending.supply_position_on_liquidity != *supply_position_key {
        return Err(VenueError::InvalidJuplendLending);
    }
    Ok(())
}

/// A JupLend deposit minted exactly the expected fTokens. Returns the minted amount.
pub fn check_juplend_deposit(pre_f_token_balance: u64, post_f_token_balance: u64, expected_shares: u64) -> (r:
    Result<u64, VenueError>)
    ensures
        r == if post_f_token_balance < pre_f_token_balance {
            Err(VenueError::MathError)
        } else if post_f_token_balance - pre_f_token_balance != expected_shares {
            Err(VenueError::JuplendDepositFailed)
        } else {
            Ok(expected_shares)
        },
{
    let minted = match post_f_token_balance.checked_sub(pre_f_token_balance) {
        None => {
            return Err(VenueError::MathError);
        },
        Some(m) => m,
    };
    if minted != expected_shares {
        return Err(VenueError::JuplendDepositFailed);
    }
    Ok(minted)
}

/// A JupLend withdraw paid exactly `token_amount` into the intermediary account and burned
/// exactly `shares_to_burn` fTokens. Returns what was received.
pub fn check_juplend_withdraw(
    pre_intermediary_balance: u64,
    post_intermediary_balance: u64,
    pre_f_token_balance: u64,
    post_f_token_balance: u64,
    token_amount: u64,
    shares_to_burn: u64,
) -> (r: Result<u64, VenueError>)
    ensures
        r == if post_intermediary_balance < pre_intermediary_balance {
            Err(VenueError::MathError)
        } else if post_intermediary_balance - pre_intermediary_balance != token_amount {
            Err(VenueError::JuplendWithdrawFailed)
        } else if pre_f_token_balance < post_f_token_balance {
            Err(VenueError::MathError)
        } else if pre_f_token_balance - post_f_token_balance != shares_to_burn {
            Err(VenueError::JuplendWithdrawFailed)
        } else {
            Ok(token_amount)
        },
{
    let received = match post_intermediary_balance.checked_sub(pre_intermediary_balance) {
        None => {
            return Err(VenueError::MathError);
        },
        Some(v) => v,
    };
    if received != token_amount {
        return Err(VenueError::JuplendWithdrawFailed);
    }
    let burned = match pre_f_token_balance.checked_sub(post_f_token_balance) {
        None => {
            return Err(VenueError::MathError);
        },
        Some(v) => v,
    };
    if burned != shares_to_burn {
        return Err(VenueError::JuplendWithdrawFailed);
    }
    Ok(received)
}

/// The Solend protocol accounts: at least `min_count`, the bank's reserve at 3 and obligation at
/// 0, the obligation owned by the Solend program, and that program at `program_id_index`.
pub fn validate_solend_accounts(
    keys: &Vec<Pubkey>,
    obligation_owner: &Pubkey,
    min_count: usize,
    program_id_index: usize,
    integration_accounts: &[Pubkey; 2],
    solend_program_id: &Pubkey,
) -> (r: Result<(), VenueError>)
    requires
        4 <= min_count,
        program_id_index < min_count,
    ensures
        r == if keys.len() < min_count {
            Err(VenueError::IntegrationAccountCountMismatch)
        } else if keys@[3] != integration_accounts@[0] || keys@[0] != integration_accounts@[1] {
            Err(VenueError::IntegrationAccountKeyMismatch)
        } else if *obligation_owner != *solend_program_id {
            Err(VenueError::InvalidSolendAccount)
        } else if keys@[program_id_index as int] != *solend_program_id {
            Err(VenueError::IntegrationAccountKeyMismatch)
        } else {
            Ok(())
        },
{
    if keys.len() < min_count {
        return Err(VenueError::IntegrationAccountCountMismatch);
    }
    if keys[3] != integration_accounts[0] || keys[0] != integration_accounts[1] {
        return Err(VenueError::IntegrationAccountKeyMismatch);
    }
    if *obligation_owner != *solend_program_id {
        return Err(VenueError::InvalidSolendAccount);
    }
    if keys[program_id_index] != *solend_program_id {
        return Err(VenueError::IntegrationAccountKeyMismatch);
    }
    Ok(())
}

/// The bank's venue (its asset tag) must be the one the instruction names, when it names one.
pub fn check_op_mode(asset_tag: u8, expected_asset_tag: Option<u8>) -> (r: Result<(), VenueError>)
    ensures
        r == match expected_asset_tag {
            Some(e) => if e == asset_tag {
                Ok(())
            } else {
                Err(VenueError::IntegrationOpModeMismatch)
            },
            None => Ok(()),
        },
{
    match expected_asset_tag {
        Some(e) => if e == asset_tag {
            Ok(())
        } else {
            Err(VenueError::IntegrationOpModeMismatch)
        },
        None => Ok(()),
    }
}

/// The price an integration withdraw meters its outflow at: read (as `fetched_price`) only when
/// the account is in receivership or order execution, or the group limits outflows; zero
/// otherwise. In receivership or order execution the price must be positive.
pub fn withdraw_price_gate(
    in_receivership_or_order_execution: bool,
    group_rate_limit_enabled: bool,
    fetched_price: I80F48,
) -> (r: Result<I80F48, VenueError>)
    ensures
        r == if !(in_receivership_or_order_execution || group_rate_limit_enabled) {
            Ok(I80F48 { bits: 0 })
        } else if in_receivership_or_order_execution && fetched_price.bits <= 0 {
            Err(VenueError::ZeroAssetPrice)
        } else {
            Ok(fetched_price)
        },
{
    if in_receivership_or_order_execution || group_rate_limit_enabled {
        if in_receivership_or_order_execution && !I80F48::zero().lt(fetched_price) {
            return Err(VenueError::ZeroAssetPrice);
        }
        Ok(fetched_price)
    } else {
        Ok(I80F48::zero())
    }
}

/// A JupLend deposit's protocol accounts: at least 14, the bank's lending at 0 and fToken vault at
/// 2, and the liquidity, JupLend, associated-token and system programs at 9, 11, 12 and 13.
pub fn validate_juplend_deposit_keys(
    keys: &Vec<Pubkey>,
    integration_accounts: &[Pubkey; 2],
    programs: &[Pubkey; 4],
) -> (r: Result<(), VenueError>)
    ensures
        r == if keys.len() < 14 {
            Err(VenueError::IntegrationAccountCountMismatch)
        } else if keys@[0] != integration_accounts@[0] || keys@[2] != integration_accounts@[1]
            || keys@[9] != programs@[0] || keys@[11] != programs@[1] || keys@[12] != programs@[2]
            || keys@[13] != programs@[3] {
            Err(VenueError::IntegrationAccountKeyMismatch)
        } else {
            Ok(())
        },
{
    if keys.len() < 14 {
        return Err(VenueError::IntegrationAccountCountMismatch);
    }
    if keys[0] != integration_accounts[0] || keys[2] != integration_accounts[1] || keys[9]
        != programs[0] || keys[11] != programs[1] || keys[12] != programs[2] || keys[13]
        != programs[3] {
        return Err(VenueError::IntegrationAccountKeyMismatch);
    }
    Ok(())
}

/// A JupLend withdraw's protocol accounts: at least 16, the bank's lending at 0, fToken vault at
/// 2 and withdraw intermediary at 3, and the liquidity, JupLend, associated-token and system
/// programs at 11, 13, 14 and 15.
pub fn validate_juplend_withdraw_keys(
    keys: &Vec<Pubkey>,
    integration_accounts: &[Pubkey; 3],
    programs: &[Pubkey; 4],
) -> (r: Result<(), VenueError>)
    ensures
        r == if keys.len() < 16 {
            Err(VenueError::IntegrationAccountCountMismatch)
        } else if keys@[0] != integration_accounts@[0] || keys@[2] != integration_accounts@[1]
            || keys@[3] != integration_accounts@[2] || keys@[11] != programs@[0] || keys@[13]
            != programs@[1] || keys@[14] != programs@[2] || keys@[15] != programs@[3] {
            Err(VenueError::IntegrationAccountKeyMismatch)
        } else {
            Ok(())
        },
{
    if keys.len() < 16 {
        return Err(VenueError::IntegrationAccountCountMismatch);
    }
    if keys[0] != integration_accounts[0] || keys[2] != integration_accounts[1] || keys[3]
        != integration_accounts[2] || keys[11] != programs[0] || keys[13] != programs[1]
        || keys[14] != programs[2] || keys[15] != programs[3] {
        return Err(VenueError::IntegrationAccountKeyMismatch);
    }
    Ok(())
}

} // verus!
