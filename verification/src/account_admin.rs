//! Administrative operations on an account: closing a dormant empty account, and purging a
//! deposit left in a bank whose debts were repaid without tokens.
use vstd::prelude::*;
use crate::fixed_point::{I80F48, abs};
use crate::pubkey::Pubkey;

verus! {

/// Why an administrative operation is refused.
#[derive(Clone, Copy, Debug, PartialEq, Eq, Structural)]
pub enum AdminError {
    /// The account may not be closed.
    IllegalAction,
    /// The account has no active balance in the bank.
    BankAccountNotFound,
    /// The balance still owes more than dust.
    OperationWithdrawOnly,
}

/// The risk admin may close an account only if the last pulse found it empty and inactive for
/// 60 days, and the account itself allows closing.
pub fn check_admin_close_account(is_empty: bool, was_active_60d: bool, can_be_closed: bool) -> (r:
    Result<(), AdminError>)
    ensures
        r is Ok <==> is_empty && !was_active_60d && can_be_closed,
        r is Err ==> r == Err::<(), AdminError>(AdminError::IllegalAction),
{
    if !(is_empty && !was_active_60d) {
        return Err(AdminError::IllegalAction);
    }
    if !can_be_closed {
        return Err(AdminError::IllegalAction);
    }
    Ok(())
}

/// A balance slot with its shares.
#[derive(Clone, Copy, Debug, PartialEq, Eq, Structural)]
pub struct BalanceShares {
    pub bank_pk: Pubkey,
    pub active: bool,
    pub asset_shares: I80F48,
    pub liability_shares: I80F48,
}

/// The balance is active and in the bank `bank_key`.
pub open spec fn active_in(b: BalanceShares, bank_key: Pubkey) -> bool {
    b.active && b.bank_pk == bank_key
}

/// The position of the first active balance in the bank `bank_key`, if any.
pub open spec fn first_active_in(balances: Seq<BalanceShares>, bank_key: Pubkey) -> Option<int>
    decreases balances.len(),
{
    if balances.len() == 0 {
        None
    } else if active_in(balances[0], bank_key) {
        Some(0)
    } else {
        match first_active_in(balances.drop_first(), bank_key) {
            Some(i) => Some(i + 1),
            None => None,
        }
    }
}

/// The first active balance in a bank is a position of the list, active in that bank, with none
/// before it; without one, no balance is active in that bank.
pub proof fn lemma_first_active_in(balances: Seq<BalanceShares>, bank_key: Pubkey)
    ensures
        first_active_in(balances, bank_key) matches Some(i) ==> 0 <= i < balances.len()
            && active_in(balances[i], bank_key) && forall|j: int|
            0 <= j < i ==> !active_in(#[trigger] balances[j], bank_key),
        first_active_in(balances, bank_key) is None ==> forall|j: int|
            0 <= j < balances.len() ==> !active_in(#[trigger] balances[j], bank_key),
    decreases balances.len(),
{
    if balances.len() > 0 {
        let rest = balances.drop_first();
        lemma_first_active_in(rest, bank_key);
        assert forall|j: int| 0 < j < balances.len() implies balances[j] == rest[j - 1] by {}
    }
}

/// What a purge does: the balance slot it closes, the asset shares the bank loses, and whether
/// the bank is then left with no position, so that its liquidity vault is swept to the insurance
/// vault.
#[derive(Clone, Copy, Debug, PartialEq, Eq, Structural)]
pub struct PurgeOutcome {
    pub index: usize,
    pub asset_shares: I80F48,
    pub sweep_vault: bool,
}

/// Purging the account's deposit in a bank whose debts were repaid without tokens: the account
/// must hold an active balance there (`BankAccountNotFound`) that owes no more than
/// `zero_threshold` shares (`OperationWithdrawOnly`). The bank's position count then drops by
/// one; the vault is swept when it reaches zero.
pub fn purge_delev_balance(
    balances: &Vec<BalanceShares>,
    bank_key: &Pubkey,
    zero_threshold: I80F48,
    lending_position_count: u32,
) -> (r: Result<PurgeOutcome, AdminError>)
    requires
        lending_position_count >= 1,
        first_active_in(balances@, *bank_key) matches Some(i) ==> balances@[i].liability_shares.bits
            > i128::MIN,
    ensures
        r matches Ok(o) ==> o.index < balances.len(),
        first_active_in(balances@, *bank_key) is None ==> r == Err::<PurgeOutcome, AdminError>(
            AdminError::BankAccountNotFound,
        ),
        first_active_in(balances@, *bank_key) matches Some(i) ==> r == if abs(
            balances@[i].liability_shares.bits as int,
        ) > zero_threshold.bits {
            Err(AdminError::OperationWithdrawOnly)
        } else {
            Ok(
                PurgeOutcome {
                    index: i as usize,
                    asset_shares: balances@[i].asset_shares,
                    sweep_vault: lending_position_count == 1,
                },
            )
        },
{
    proof {
        lemma_first_active_in(balances@, *bank_key);
    }
    let mut i: usize = 0;
    while i < balances.len()
        invariant
            i <= balances.len(),
            lending_position_count >= 1,
            first_active_in(balances@, *bank_key) matches Some(c) ==> 0 <= c < balances.len()
                && active_in(balances@[c], *bank_key) && forall|j: int|
                0 <= j < c ==> !active_in(#[trigger] balances@[j], *bank_key),
            first_active_in(balances@, *bank_key) is None ==> forall|j: int|
                0 <= j < balances.len() ==> !active_in(#[trigger] balances@[j], *bank_key),
            first_active_in(balances@, *bank_key) matches Some(c) ==> balances@[c].liability_shares.bits
                > i128::MIN,
            forall|j: int| 0 <= j < i ==> !active_in(#[trigger] balances@[j], *bank_key),
        decreases balances.len() - i,
    {
        if balances[i].active && balances[i].bank_pk == *bank_key {
            proof {
                assert(active_in(balances@[i as int], *bank_key));
                let c = first_active_in(balances@, *bank_key)->Some_0;
                assert(first_active_in(balances@, *bank_key) is Some);
                assert(c == i as int) by {
                    if c < i {
                        assert(!active_in(balances@[c], *bank_key));
                    } else if c > i {
                        assert(!active_in(balances@[i as int], *bank_key));
                    }
                }
            }
            let b = balances[i];
            let liab = b.liability_shares.bits;
            let liab_abs: i128 = if liab < 0 {
                -liab
            } else {
                liab
            };
            if liab_abs > zero_threshold.bits {
                return Err(AdminError::OperationWithdrawOnly);
            }
            return Ok(
                PurgeOutcome {
                    index: i,
                    asset_shares: b.asset_shares,
                    sweep_vault: lending_position_count - 1 == 0,
                },
            );
        }
        assert(!active_in(balances@[i as int], *bank_key));
        i = i + 1;
    }
    Err(AdminError::BankAccountNotFound)
}

} // verus!
