use marginfi::fixed_point::I80F48;
use marginfi::observation::BalanceRef;
use marginfi::pubkey::Pubkey;
use marginfi::rebalance::{
    authorize_order_close, check_amount_budget, check_cooldown, check_moves_improving,
    check_no_overshoot, check_rebalance_moves, check_recorded_banks, check_referenced_banks,
    check_settle_time, end_rebalance_outcome, fee_pool_spendable, fee_pool_top_up_transfer,
    fee_pool_withdraw_amount, has_allowed_position, keeper_tip_paid, parse_rebalance_banks,
    place_rebalance_order, referenced_bank_count, release_escrowed_tip, settle_delay,
    settle_realized, settle_rebalance_outcome, settle_rebalance_tip, settle_transfers,
    start_rebalance_gates, tip_target_value,
    update_rebalance_order, BankLayout, EndRebalanceOutcome, RebalanceError, RebalanceMove,
    SettleOutcome, SettleTransfers,
};

const ONE: i128 = 1 << 48;

fn fx(n: i128) -> I80F48 {
    I80F48::from_bits(n * ONE)
}

fn frac(num: i128, den: i128) -> I80F48 {
    I80F48::from_bits(num * ONE / den)
}

fn key(n: u128) -> Pubkey {
    Pubkey { hi: 0, lo: n }
}

fn mv(src: u8, dst: u8) -> RebalanceMove {
    RebalanceMove {
        src_index: src,
        dst_index: dst,
    }
}

#[test]
fn referenced_bank_count_is_highest_index_plus_one() {
    assert_eq!(referenced_bank_count(&vec![]), 0);
    assert_eq!(referenced_bank_count(&vec![mv(0, 2), mv(1, 0)]), 3);
    assert_eq!(referenced_bank_count(&vec![mv(4, 1)]), 5);
    assert_eq!(referenced_bank_count(&vec![mv(255, 0)]), 256);
}

#[test]
fn move_list_limits() {
    assert_eq!(
        check_rebalance_moves(&vec![], 4, 8),
        Err(RebalanceError::IllegalBalanceState)
    );
    assert_eq!(
        check_rebalance_moves(&vec![mv(0, 1); 5], 4, 8),
        Err(RebalanceError::IllegalBalanceState)
    );
    assert_eq!(
        check_rebalance_moves(&vec![mv(0, 0)], 4, 8),
        Err(RebalanceError::RebalanceBankNotAllowed)
    );
    assert_eq!(
        check_rebalance_moves(&vec![mv(0, 9)], 4, 8),
        Err(RebalanceError::RebalanceBankNotAllowed)
    );
    assert_eq!(check_rebalance_moves(&vec![mv(0, 1), mv(2, 1)], 4, 8), Ok(3));
}

#[test]
fn cooldown_gate() {
    assert_eq!(check_cooldown(149, 100, 50), Err(RebalanceError::RebalanceCooldown));
    assert_eq!(check_cooldown(150, 100, 50), Ok(()));
    assert_eq!(check_cooldown(10, u64::MAX, 1), Err(RebalanceError::MathError));
    // The clock is read as unsigned, so a negative time reads as a huge one.
    assert_eq!(check_cooldown(-1, 100, 50), Ok(()));
}

#[test]
fn settle_time_gate() {
    assert_eq!(
        check_settle_time(1_000, 900, 101),
        Err(RebalanceError::RebalanceSettleTooEarly)
    );
    assert_eq!(check_settle_time(1_001, 900, 101), Ok(()));
    assert_eq!(check_settle_time(0, u64::MAX, 5), Err(RebalanceError::MathError));
}

#[test]
fn settle_delay_is_clamped_cooldown() {
    assert_eq!(settle_delay(10, 60, 3_600), 60);
    assert_eq!(settle_delay(86_400, 60, 3_600), 3_600);
    assert_eq!(settle_delay(600, 60, 3_600), 600);
}

#[test]
fn moves_must_improve_by_the_margin() {
    let rates = vec![frac(5, 100), frac(8, 100), frac(10, 100)];
    let min = frac(2, 100);
    assert_eq!(check_moves_improving(&vec![mv(0, 2)], &rates, min), Ok(()));
    assert_eq!(
        check_moves_improving(&vec![mv(0, 2), mv(1, 2)], &rates, min),
        Err(RebalanceError::RebalanceNotImproving)
    );
    // Equal to the bar is not enough.
    let rates = vec![fx(1), fx(3)];
    assert_eq!(
        check_moves_improving(&vec![mv(0, 1)], &rates, fx(2)),
        Err(RebalanceError::RebalanceNotImproving)
    );
    let rates = vec![I80F48::from_bits(i128::MAX), fx(1)];
    assert_eq!(
        check_moves_improving(&vec![mv(0, 1)], &rates, fx(1)),
        Err(RebalanceError::MathError)
    );
}

#[test]
fn overshoot_gate() {
    let post = vec![fx(2), fx(2), fx(1)];
    assert_eq!(check_no_overshoot(&vec![mv(0, 1)], &post), Ok(()));
    assert_eq!(
        check_no_overshoot(&vec![mv(0, 1), mv(0, 2)], &post),
        Err(RebalanceError::RebalanceOvershoot)
    );
}

#[test]
fn referenced_banks_must_be_allowed_and_same_mint() {
    let allowed = vec![key(1), key(2), key(3)];
    let mint = key(99);
    assert_eq!(
        check_referenced_banks(&vec![key(1), key(2)], &vec![mint, mint], &allowed, mint),
        Ok(())
    );
    assert_eq!(
        check_referenced_banks(&vec![key(1), key(7)], &vec![mint, mint], &allowed, mint),
        Err(RebalanceError::RebalanceBankNotAllowed)
    );
    assert_eq!(
        check_referenced_banks(&vec![key(1), key(2)], &vec![mint, key(5)], &allowed, mint),
        Err(RebalanceError::RebalanceMintMismatch)
    );
}

#[test]
fn recorded_banks_must_match() {
    assert_eq!(check_recorded_banks(&vec![key(1), key(2)], &vec![key(1), key(2)]), Ok(()));
    assert_eq!(
        check_recorded_banks(&vec![key(2), key(1)], &vec![key(1), key(2)]),
        Err(RebalanceError::InvalidBankAccount)
    );
}

#[test]
fn amount_budget_allows_dust() {
    assert_eq!(check_amount_budget(fx(1_000_000), None, fx(0)), Ok(()));
    assert_eq!(check_amount_budget(fx(101), Some(fx(100)), fx(1)), Ok(()));
    assert_eq!(
        check_amount_budget(fx(102), Some(fx(100)), fx(1)),
        Err(RebalanceError::RebalanceExceedsAmount)
    );
    assert_eq!(
        check_amount_budget(fx(1), Some(I80F48::from_bits(i128::MAX)), fx(1)),
        Err(RebalanceError::MathError)
    );
}

#[test]
fn tip_target_and_spendable() {
    assert_eq!(tip_target_value(None, fx(50)), fx(50));
    assert_eq!(tip_target_value(Some(fx(30)), fx(50)), fx(30));
    assert_eq!(tip_target_value(Some(fx(80)), fx(50)), fx(50));
    assert_eq!(fee_pool_spendable(1_000, 890), 110);
    assert_eq!(fee_pool_spendable(500, 890), 0);
}

#[test]
fn keeper_tip_is_proportional_and_capped() {
    // Half the target moved: half the tip.
    assert_eq!(keeper_tip_paid(1_000, fx(50), fx(100), 10_000), Ok(500));
    // More than the target: the fraction is capped at one.
    assert_eq!(keeper_tip_paid(1_000, fx(200), fx(100), 10_000), Ok(1_000));
    // Never more than the pool can spend.
    assert_eq!(keeper_tip_paid(1_000, fx(100), fx(100), 300), Ok(300));
    // A third rounds down.
    assert_eq!(keeper_tip_paid(1_000, fx(1), fx(3), 10_000), Ok(333));
    assert_eq!(keeper_tip_paid(0, fx(100), fx(100), 10_000), Ok(0));
    assert_eq!(keeper_tip_paid(1_000, fx(100), fx(0), 10_000), Ok(0));
    assert_eq!(
        keeper_tip_paid(1_000, I80F48::from_bits(i128::MAX), I80F48::from_bits(1), 10_000),
        Err(RebalanceError::MathError)
    );
}

#[test]
fn settlement_needs_every_destination_to_out_yield() {
    let at_move = vec![fx(1), fx(1)];
    let grew = vec![frac(101, 100), frac(103, 100)];
    assert_eq!(settle_realized(&vec![mv(0, 1)], &grew, &at_move), Ok(true));
    let flat = vec![frac(103, 100), frac(103, 100)];
    assert_eq!(settle_realized(&vec![mv(0, 1)], &flat, &at_move), Ok(false));
    let huge = vec![I80F48::from_bits(i128::MAX), I80F48::from_bits(i128::MAX)];
    assert_eq!(
        settle_realized(&vec![mv(0, 1)], &huge, &vec![fx(2), fx(2)]),
        Err(RebalanceError::MathError)
    );
    assert_eq!(
        settle_rebalance_outcome(100, 50, 60, &vec![mv(0, 1)], &grew, &at_move),
        Err(RebalanceError::RebalanceSettleTooEarly)
    );
    assert_eq!(
        settle_rebalance_outcome(110, 50, 60, &vec![mv(0, 1)], &grew, &at_move),
        Ok(true)
    );
}

#[test]
fn escrowed_tip_release_conserves_lamports() {
    assert_eq!(release_escrowed_tip(5_000, 100, 0), Ok((5_000, 100)));
    assert_eq!(release_escrowed_tip(5_000, 100, 1_000), Ok((4_000, 1_100)));
    assert_eq!(release_escrowed_tip(500, 100, 1_000), Err(RebalanceError::MathError));
    assert_eq!(release_escrowed_tip(5_000, u64::MAX, 1), Err(RebalanceError::MathError));
}

#[test]
fn fee_pool_top_up_seeds_the_reserve() {
    assert_eq!(fee_pool_top_up_transfer(1_000, 0, 890_880), Ok(891_880));
    assert_eq!(fee_pool_top_up_transfer(1_000, 100, 890_880), Ok(891_780));
    assert_eq!(fee_pool_top_up_transfer(1_000, 900_000, 890_880), Ok(1_000));
    assert_eq!(
        fee_pool_top_up_transfer(u64::MAX, 0, 890_880),
        Err(RebalanceError::MathError)
    );
}

#[test]
fn fee_pool_withdrawal_never_leaves_it_rent_paying() {
    // Leaves the reserve: the request is paid.
    assert_eq!(fee_pool_withdraw_amount(100, 1_000, 890), 100);
    // Would leave less than the reserve: the pool is emptied.
    assert_eq!(fee_pool_withdraw_amount(200, 1_000, 890), 1_000);
    // Capped at the balance.
    assert_eq!(fee_pool_withdraw_amount(5_000, 1_000, 890), 1_000);
}

fn balances() -> Vec<BalanceRef> {
    vec![
        BalanceRef {
            bank_pk: key(1),
            active: false,
        },
        BalanceRef {
            bank_pk: key(2),
            active: true,
        },
    ]
}

#[test]
fn orders_are_tied_to_a_position() {
    assert!(has_allowed_position(&balances(), &vec![key(2), key(3)]));
    assert!(!has_allowed_position(&balances(), &vec![key(1), key(3)]));
    assert_eq!(
        place_rebalance_order(&balances(), vec![key(1)], None, None, None, None, fx(0), 86_400)
            .err(),
        Some(RebalanceError::RebalanceNoAllowlistPosition)
    );
    let order = place_rebalance_order(
        &balances(),
        vec![key(2), key(3)],
        None,
        Some(60),
        None,
        Some(7),
        frac(5, 100),
        86_400,
    )
    .unwrap();
    assert_eq!(order.allowed_banks, vec![key(2), key(3)]);
    assert_eq!(order.min_improvement, frac(5, 100));
    assert_eq!(order.cooldown_seconds, 60);
    assert_eq!(order.amount, 0);
    assert_eq!(order.keeper_tip, 7);
    assert_eq!(order.last_exec_timestamp, 0);
}

#[test]
fn order_updates_change_only_given_fields() {
    let mut order = place_rebalance_order(
        &balances(),
        vec![key(2)],
        None,
        None,
        None,
        None,
        frac(5, 100),
        86_400,
    )
    .unwrap();
    assert_eq!(
        update_rebalance_order(&mut order, &balances(), true, None, None, Some(1), None, None),
        Err(RebalanceError::IllegalAction)
    );
    assert_eq!(
        update_rebalance_order(
            &mut order,
            &balances(),
            false,
            Some(vec![key(1)]),
            None,
            Some(1),
            None,
            None
        ),
        Err(RebalanceError::RebalanceNoAllowlistPosition)
    );
    assert_eq!(
        update_rebalance_order(
            &mut order,
            &balances(),
            false,
            None,
            Some(fx(-1)),
            Some(1),
            None,
            None
        ),
        Err(RebalanceError::RebalanceInvalidMinImprovement)
    );
    // A refused update changed nothing.
    assert_eq!(order.cooldown_seconds, 86_400);
    assert_eq!(
        update_rebalance_order(
            &mut order,
            &balances(),
            false,
            None,
            None,
            Some(120),
            Some(5_000),
            None
        ),
        Ok(())
    );
    assert_eq!(order.cooldown_seconds, 120);
    assert_eq!(order.amount, 5_000);
    assert_eq!(order.keeper_tip, 0);
    assert_eq!(order.allowed_banks, vec![key(2)]);
    assert_eq!(order.min_improvement, frac(5, 100));
}

#[test]
fn order_close_permissions() {
    assert_eq!(authorize_order_close(false, true, true, false), Ok(()));
    assert_eq!(
        authorize_order_close(false, true, true, true),
        Err(RebalanceError::IllegalAction)
    );
    assert_eq!(
        authorize_order_close(false, false, true, false),
        Err(RebalanceError::LiquidatorOrderCloseNotAllowed)
    );
    assert_eq!(authorize_order_close(false, false, false, true), Ok(()));
    // A record awaiting settlement blocks every close, the owner's too.
    assert_eq!(
        authorize_order_close(true, true, false, false),
        Err(RebalanceError::RebalanceRecordPending)
    );
    assert_eq!(
        authorize_order_close(true, false, false, false),
        Err(RebalanceError::RebalanceRecordPending)
    );
}

fn layouts() -> Vec<BankLayout> {
    let group = key(1000);
    vec![
        BankLayout {
            key: key(1),
            group,
            is_juplend: false,
            accounts_per_bank: 2,
        },
        BankLayout {
            key: key(2),
            group,
            is_juplend: true,
            accounts_per_bank: 3,
        },
        BankLayout {
            key: key(3),
            group: key(2000),
            is_juplend: false,
            accounts_per_bank: 2,
        },
    ]
}

#[test]
fn bank_stream_is_parsed_block_by_block() {
    let group = key(1000);
    // [bank 1][oracle] [bank 2][reserve][oracle][oracle] [tail]
    let stream = vec![key(1), key(50), key(2), key(60), key(61), key(62), key(70)];
    let (spans, tail) = parse_rebalance_banks(&stream, &layouts(), &group, 2).unwrap();
    assert_eq!(spans.len(), 2);
    assert_eq!(spans[0].key, key(1));
    assert_eq!(spans[0].reserve_index, None);
    assert_eq!((spans[0].oracle_start, spans[0].oracle_end), (1, 2));
    assert_eq!(spans[1].key, key(2));
    assert_eq!(spans[1].reserve_index, Some(3));
    assert_eq!((spans[1].oracle_start, spans[1].oracle_end), (4, 6));
    assert_eq!(tail, 6);
}

#[test]
fn bank_stream_refusals() {
    let group = key(1000);
    assert_eq!(
        parse_rebalance_banks(&vec![key(1), key(50), key(1), key(50)], &layouts(), &group, 2).err(),
        Some(RebalanceError::SameAssetAndLiabilityBanks)
    );
    assert_eq!(
        parse_rebalance_banks(&vec![key(9)], &layouts(), &group, 1).err(),
        Some(RebalanceError::InvalidBankAccount)
    );
    assert_eq!(
        parse_rebalance_banks(&vec![key(3), key(50)], &layouts(), &group, 1).err(),
        Some(RebalanceError::InvalidGroup)
    );
    assert_eq!(
        parse_rebalance_banks(&vec![key(1)], &layouts(), &group, 1).err(),
        Some(RebalanceError::WrongNumberOfOracleAccounts)
    );
    assert_eq!(
        parse_rebalance_banks(&vec![key(1), key(50)], &layouts(), &group, 2).err(),
        Some(RebalanceError::WrongNumberOfOracleAccounts)
    );
}

#[test]
fn start_gates_run_in_order() {
    let allowed = vec![key(1), key(2)];
    let mint = key(99);
    let rates = vec![frac(5, 100), frac(9, 100)];
    let moves = vec![mv(0, 1)];
    let keys = vec![key(1), key(2)];
    let mints = vec![mint, mint];
    assert_eq!(
        start_rebalance_gates(&moves, 100, 90, 20, &keys, &mints, &allowed, mint, &rates, frac(1, 100)),
        Err(RebalanceError::RebalanceCooldown)
    );
    assert_eq!(
        start_rebalance_gates(&moves, 200, 90, 20, &keys, &mints, &allowed, mint, &rates, frac(1, 100)),
        Ok(())
    );
    assert_eq!(
        start_rebalance_gates(&moves, 200, 90, 20, &keys, &mints, &allowed, mint, &rates, frac(5, 100)),
        Err(RebalanceError::RebalanceNotImproving)
    );
}

#[test]
fn end_outcome_escrows_tip_and_delay() {
    let moves = vec![mv(0, 1)];
    let post = vec![frac(6, 100), frac(7, 100)];
    let out = end_rebalance_outcome(
        0, 1_700, &moves, &post, fx(50), fx(200), fx(0), Some(fx(100)), 1_000, 10_890, 890, 86_400, 60, 3_600,
    );
    assert_eq!(
        out,
        Ok(EndRebalanceOutcome {
            tip: 500,
            settle_delay: 3_600,
            timestamp: 1_700,
        })
    );
    // Nothing moved.
    assert_eq!(
        end_rebalance_outcome(
            0, 1_700, &moves, &post, fx(0), fx(200), fx(0), None, 1_000, 10_890, 890, 86_400, 60, 3_600,
        ),
        Err(RebalanceError::RebalanceIncompleteMove)
    );
    // Overshoot comes first.
    let inverted = vec![frac(7, 100), frac(6, 100)];
    assert_eq!(
        end_rebalance_outcome(
            0, 1_700, &moves, &inverted, fx(0), fx(200), fx(0), None, 1_000, 10_890, 890, 86_400, 60, 3_600,
        ),
        Err(RebalanceError::RebalanceOvershoot)
    );
    // Over budget.
    assert_eq!(
        end_rebalance_outcome(
            0, 1_700, &moves, &post, fx(150), fx(200), fx(1), Some(fx(100)), 1_000, 10_890, 890, 86_400, 60,
            3_600,
        ),
        Err(RebalanceError::RebalanceExceedsAmount)
    );
    // A record whose move was already stamped is a malformed sandwich, before any other check.
    assert_eq!(
        end_rebalance_outcome(
            1_650, 1_700, &moves, &inverted, fx(0), fx(200), fx(0), None, 1_000, 10_890, 890,
            86_400, 60, 3_600,
        ),
        Err(RebalanceError::RebalanceMalformedSandwich)
    );
}

#[test]
fn end_outcome_does_not_depend_on_the_split() {
    // One move of everything, or two moves through a third bank: same totals, same tip.
    let post = vec![frac(5, 100), frac(7, 100), frac(8, 100)];
    let one = end_rebalance_outcome(
        0, 1_700, &vec![mv(0, 2)], &post, fx(80), fx(100), fx(0), None, 1_000, 5_000, 890, 600, 60, 3_600,
    );
    let two = end_rebalance_outcome(
        0, 1_700, &vec![mv(0, 1), mv(1, 2)], &post, fx(80), fx(100), fx(0), None, 1_000, 5_000, 890, 600,
        60, 3_600,
    );
    assert_eq!(one, two);
    // 0.8 is not exact in 80.48 bits: the share rounds down below 800 lamports.
    assert_eq!(one.unwrap().tip, 799);
}

#[test]
fn settle_pays_executor_only_when_realized() {
    // Realized: the executor gains the tip, the pool nothing, and the tip is reported paid.
    assert_eq!(
        settle_transfers(true, 1_000, 5_000, 100, 7_000),
        Ok(SettleTransfers {
            record: 4_000,
            executor: 1_100,
            fee_pool: 7_000,
            tip_paid: 1_000,
            rent_to_executor: 4_000,
        })
    );
    // Not realized: the tip returns to the fee pool and nothing is reported paid.
    assert_eq!(
        settle_transfers(false, 1_000, 5_000, 100, 7_000),
        Ok(SettleTransfers {
            record: 4_000,
            executor: 100,
            fee_pool: 8_000,
            tip_paid: 0,
            rent_to_executor: 4_000,
        })
    );
    // No tip escrowed: only the record's rent goes back to the executor.
    assert_eq!(
        settle_transfers(true, 0, 5_000, 100, 7_000),
        Ok(SettleTransfers {
            record: 5_000,
            executor: 100,
            fee_pool: 7_000,
            tip_paid: 0,
            rent_to_executor: 5_000,
        })
    );
    assert_eq!(
        settle_transfers(false, 6_000, 5_000, 100, 7_000),
        Err(RebalanceError::MathError)
    );
    assert_eq!(
        settle_transfers(false, 1, 5_000, 100, u64::MAX),
        Err(RebalanceError::MathError)
    );
}

#[test]
fn settle_step_gates_then_pays() {
    let at_move = vec![fx(1), fx(1)];
    let grew = vec![frac(101, 100), frac(103, 100)];
    let flat = vec![frac(103, 100), frac(103, 100)];
    let moves = vec![mv(0, 1)];
    assert_eq!(
        settle_rebalance_tip(100, 50, 60, &moves, &grew, &at_move, 1_000, 5_000, 100, 7_000),
        Err(RebalanceError::RebalanceSettleTooEarly)
    );
    // The move time plus the delay overflows.
    assert_eq!(
        settle_rebalance_tip(100, u64::MAX, 60, &moves, &grew, &at_move, 1_000, 5_000, 100, 7_000),
        Err(RebalanceError::MathError)
    );
    let paid = settle_rebalance_tip(110, 50, 60, &moves, &grew, &at_move, 1_000, 5_000, 100, 7_000)
        .unwrap();
    assert!(paid.realized);
    assert_eq!(paid.transfers.executor, 1_100);
    assert_eq!(paid.transfers.fee_pool, 7_000);
    assert_eq!(paid.transfers.tip_paid, 1_000);
    let refunded: SettleOutcome =
        settle_rebalance_tip(110, 50, 60, &moves, &flat, &at_move, 1_000, 5_000, 100, 7_000)
            .unwrap();
    assert!(!refunded.realized);
    assert_eq!(refunded.transfers.executor, 100);
    assert_eq!(refunded.transfers.fee_pool, 8_000);
    assert_eq!(refunded.transfers.tip_paid, 0);
}
