//! Decisions of same-mint auto-rebalance orders.
//!
//! A keeper moves a position between banks of one mint inside an allow-listed set, between a
//! `start` and an `end` step, and is tipped later if the move realized more yield. The account
//! reads, oracle prices, venue rates and transfers happen around these functions; what is decided
//! from their results is here: the move list and the banks it references, the rate gates before
//! and after the move, the cooldown and settlement windows, the amount budget, the keeper tip and
//! its settlement, the fee pool's rent-exempt reserve, and the order's own policy.
use vstd::prelude::*;
use crate::fixed_point::{I80F48, in_i128, mul_bits, div_bits, floor_int, scale};
use crate::pubkey::{Pubkey, contains_key};
use crate::observation::BalanceRef;

verus! {

/// One declared move: from the referenced bank at `src_index` to the one at `dst_index`.
#[derive(Clone, Copy, Debug, PartialEq, Eq, Structural)]
pub struct RebalanceMove {
    pub src_index: u8,
    pub dst_index: u8,
}

/// Why a rebalance step is refused.
#[derive(Clone, Copy, Debug, PartialEq, Eq, Structural)]
pub enum RebalanceError {
    /// The move list is empty or too long.
    IllegalBalanceState,
    /// Too few or too many banks are referenced, or one is not in the order's allowlist.
    RebalanceBankNotAllowed,
    /// A referenced bank holds another mint than the order.
    RebalanceMintMismatch,
    /// The order ran less than its cooldown ago.
    RebalanceCooldown,
    /// A move's destination does not beat its source by the minimum improvement.
    RebalanceNotImproving,
    /// After the move, a destination's rate fell below its source's.
    RebalanceOvershoot,
    /// Nothing was moved.
    RebalanceIncompleteMove,
    /// More was moved than the order's budget allows.
    RebalanceExceedsAmount,
    /// The settlement delay has not passed since the move.
    RebalanceSettleTooEarly,
    /// The account holds no position in any bank of the allowlist.
    RebalanceNoAllowlistPosition,
    /// The minimum improvement is negative.
    RebalanceInvalidMinImprovement,
    /// Someone other than the authority tried to close an order that still holds a position.
    LiquidatorOrderCloseNotAllowed,
    /// The account is in the middle of a rebalance.
    IllegalAction,
    /// The bank stream ended before a bank, its reserve or its oracles.
    WrongNumberOfOracleAccounts,
    /// A bank appears twice in the bank stream.
    SameAssetAndLiabilityBanks,
    /// An account of the bank stream is not a known bank, or not the recorded one.
    InvalidBankAccount,
    /// A bank of the stream belongs to another group.
    InvalidGroup,
    /// The end step found a record that a previous end step already finalized.
    RebalanceMalformedSandwich,
    /// The order still has a rebalance record awaiting settlement.
    RebalanceRecordPending,
    /// An arithmetic step overflowed.
    MathError,
}

// ---------------------------------------------------------------------------------------------
// The move list.
// ---------------------------------------------------------------------------------------------

/// The larger of a move's two indices.
pub open spec fn move_top(m: RebalanceMove) -> int {
    if m.src_index >= m.dst_index {
        m.src_index as int
    } else {
        m.dst_index as int
    }
}

/// The largest index the moves use, or -1 for no moves.
pub open spec fn max_move_index(moves: Seq<RebalanceMove>) -> int
    decreases moves.len(),
{
    if moves.len() == 0 {
        -1
    } else {
        let rest = max_move_index(moves.drop_last());
        let t = move_top(moves.last());
        if t >= rest {
            t
        } else {
            rest
        }
    }
}

/// The number of referenced banks: the highest index a move uses, plus one (0 for no moves).
pub open spec fn spec_referenced_bank_count(moves: Seq<RebalanceMove>) -> int {
    max_move_index(moves) + 1
}

/// Every move's indices are at most `max_move_index`, and a non-empty list reaches it.
pub proof fn lemma_max_move_index(moves: Seq<RebalanceMove>)
    ensures
        forall|i: int|
            0 <= i < moves.len() ==> moves[i].src_index <= max_move_index(moves)
                && moves[i].dst_index <= max_move_index(moves),
        moves.len() > 0 ==> exists|i: int|
            0 <= i < moves.len() && #[trigger] move_top(moves[i]) == max_move_index(moves),
        -1 <= max_move_index(moves) <= 255,
    decreases moves.len(),
{
    if moves.len() > 0 {
        let rest = moves.drop_last();
        lemma_max_move_index(rest);
        assert forall|i: int|
            0 <= i < moves.len() implies moves[i].src_index <= max_move_index(moves)
            && moves[i].dst_index <= max_move_index(moves) by {
            if i < moves.len() - 1 {
                assert(moves[i] == rest[i]);
            }
        }
        let last = moves.len() - 1;
        if move_top(moves.last()) >= max_move_index(rest) {
            assert(move_top(moves[last]) == max_move_index(moves));
        } else {
            let j = choose|j: int| 0 <= j < rest.len() && #[trigger] move_top(rest[j]) == max_move_index(rest);
            assert(moves[j] == rest[j]);
            assert(move_top(moves[j]) == max_move_index(moves));
        }
    }
}

/// The number of banks the moves reference: the highest index used, plus one.
pub fn referenced_bank_count(moves: &Vec<RebalanceMove>) -> (r: usize)
    ensures
        r == spec_referenced_bank_count(moves@),
        r <= 256,
        forall|i: int|
            0 <= i < moves.len() ==> moves@[i].src_index < r && moves@[i].dst_index < r,
        moves.len() == 0 <==> r == 0,
{
    let mut count: usize = 0;
    let mut i: usize = 0;
    while i < moves.len()
        invariant
            i <= moves.len(),
            count == max_move_index(moves@.take(i as int)) + 1,
            count <= 256,
        decreases moves.len() - i,
    {
        proof {
            assert(moves@.take(i + 1).drop_last() =~= moves@.take(i as int));
            lemma_max_move_index(moves@.take(i as int));
        }
        let m = moves[i];
        let top: u8 = if m.src_index >= m.dst_index {
            m.src_index
        } else {
            m.dst_index
        };
        let next: usize = top as usize + 1;
        if next > count {
            count = next;
        }
        i = i + 1;
    }
    proof {
        assert(moves@.take(moves@.len() as int) =~= moves@);
        lemma_max_move_index(moves@);
    }
    count
}

/// What the start step decides from the move list alone.
pub open spec fn spec_check_rebalance_moves(
    moves: Seq<RebalanceMove>,
    max_moves: int,
    max_banks: int,
) -> Result<usize, RebalanceError> {
    let count = spec_referenced_bank_count(moves);
    if moves.len() == 0 || moves.len() > max_moves {
        Err(RebalanceError::IllegalBalanceState)
    } else if !(2 <= count <= max_banks) {
        Err(RebalanceError::RebalanceBankNotAllowed)
    } else {
        Ok(count as usize)
    }
}

/// The start step's check of the move list: between one and `max_moves` moves, referencing
/// between two and `max_banks` banks. Returns the number of referenced banks.
pub fn check_rebalance_moves(moves: &Vec<RebalanceMove>, max_moves: usize, max_banks: usize) -> (r:
    Result<usize, RebalanceError>)
    ensures
        r == spec_check_rebalance_moves(moves@, max_moves as int, max_banks as int),
{
    if moves.len() == 0 || moves.len() > max_moves {
        return Err(RebalanceError::IllegalBalanceState);
    }
    let count = referenced_bank_count(moves);
    if !(2 <= count && count <= max_banks) {
        return Err(RebalanceError::RebalanceBankNotAllowed);
    }
    Ok(count)
}

// ---------------------------------------------------------------------------------------------
// Time windows.
// ---------------------------------------------------------------------------------------------

/// A gate that opens `delay` seconds after `since`, read at the clock time `now` (taken as
/// unsigned, as the program does).
pub open spec fn spec_time_gate(now: i64, since: u64, delay: u64, early: RebalanceError) -> Result<
    (),
    RebalanceError,
> {
    if since + delay > u64::MAX {
        Err(RebalanceError::MathError)
    } else if (now as u64) >= since + delay {
        Ok(())
    } else {
        Err(early)
    }
}

/// The per-order cooldown: a start is allowed once `cooldown_seconds` have passed since the last
/// execution.
pub fn check_cooldown(now: i64, last_exec_timestamp: u64, cooldown_seconds: u64) -> (r: Result<
    (),
    RebalanceError,
>)
    ensures
        r == spec_time_gate(now, last_exec_timestamp, cooldown_seconds, RebalanceError::RebalanceCooldown),
{
    match last_exec_timestamp.checked_add(cooldown_seconds) {
        None => Err(RebalanceError::MathError),
        Some(ready) => if (now as u64) >= ready {
            Ok(())
        } else {
            Err(RebalanceError::RebalanceCooldown)
        },
    }
}

/// The settlement window: the tip is settled once `settle_delay` seconds have passed since the
/// move.
pub fn check_settle_time(now: i64, move_timestamp: u64, settle_delay: u64) -> (r: Result<
    (),
    RebalanceError,
>)
    ensures
        r == spec_time_gate(now, move_timestamp, settle_delay, RebalanceError::RebalanceSettleTooEarly),
{
    match move_timestamp.checked_add(settle_delay) {
        None => Err(RebalanceError::MathError),
        Some(ready) => if (now as u64) >= ready {
            Ok(())
        } else {
            Err(RebalanceError::RebalanceSettleTooEarly)
        },
    }
}

/// The settlement delay recorded at the end step: the order's cooldown clamped to
/// `[min_delay, max_delay]`.
pub fn settle_delay(cooldown_seconds: u64, min_delay: u64, max_delay: u64) -> (r: u64)
    requires
        min_delay <= max_delay,
    ensures
        r == if cooldown_seconds < min_delay {
            min_delay
        } else if cooldown_seconds > max_delay {
            max_delay
        } else {
            cooldown_seconds
        },
        min_delay <= r <= max_delay,
{
    if cooldown_seconds < min_delay {
        min_delay
    } else if cooldown_seconds > max_delay {
        max_delay
    } else {
        cooldown_seconds
    }
}

// ---------------------------------------------------------------------------------------------
// Rate gates.
// ---------------------------------------------------------------------------------------------

/// All the moves' indices point into `rates`.
pub open spec fn moves_in_range(moves: Seq<RebalanceMove>, n: int) -> bool {
    forall|i: int| 0 <= i < moves.len() ==> moves[i].src_index < n && moves[i].dst_index < n
}

/// Why one move fails the pre-move gate, if it does: its source rate plus the minimum improvement
/// overflows, or the destination rate does not exceed it.
pub open spec fn improving_failure(m: RebalanceMove, rates: Seq<I80F48>, min_improvement: I80F48) -> Option<
    RebalanceError,
> {
    let bar = rates[m.src_index as int].bits + min_improvement.bits;
    if !in_i128(bar) {
        Some(RebalanceError::MathError)
    } else if rates[m.dst_index as int].bits <= bar {
        Some(RebalanceError::RebalanceNotImproving)
    } else {
        None
    }
}

/// The failure of the first move that fails the pre-move gate.
pub open spec fn first_improving_failure(
    moves: Seq<RebalanceMove>,
    rates: Seq<I80F48>,
    min_improvement: I80F48,
) -> Option<RebalanceError>
    decreases moves.len(),
{
    if moves.len() == 0 {
        None
    } else {
        match improving_failure(moves[0], rates, min_improvement) {
            Some(e) => Some(e),
            None => first_improving_failure(moves.drop_first(), rates, min_improvement),
        }
    }
}

/// The pre-move gate: every move goes to a bank whose rate beats its source's by more than
/// `min_improvement`. The first failing move decides the error.
pub fn check_moves_improving(
    moves: &Vec<RebalanceMove>,
    rates: &Vec<I80F48>,
    min_improvement: I80F48,
) -> (r: Result<(), RebalanceError>)
    requires
        moves_in_range(moves@, rates.len() as int),
    ensures
        r == match first_improving_failure(moves@, rates@, min_improvement) {
            Some(e) => Err(e),
            None => Ok(()),
        },
        r is Ok ==> forall|i: int|
            0 <= i < moves.len() ==> rates@[moves@[i].dst_index as int].bits > rates@[moves@[i].src_index as int].bits
                + min_improvement.bits,
{
    proof {
        assert(moves@.skip(0) =~= moves@);
    }
    let mut i: usize = 0;
    while i < moves.len()
        invariant
            i <= moves.len(),
            moves_in_range(moves@, rates.len() as int),
            first_improving_failure(moves@, rates@, min_improvement) == first_improving_failure(
                moves@.skip(i as int),
                rates@,
                min_improvement,
            ),
            forall|j: int|
                0 <= j < i ==> rates@[moves@[j].dst_index as int].bits > rates@[moves@[j].src_index as int].bits
                    + min_improvement.bits,
        decreases moves.len() - i,
    {
        proof {
            assert(moves@.skip(i as int).drop_first() =~= moves@.skip(i + 1));
            assert(moves@.skip(i as int)[0] == moves@[i as int]);
        }
        let m = moves[i];
        let src_rate = rates[m.src_index as usize];
        let dst_rate = rates[m.dst_index as usize];
        match src_rate.checked_add(min_improvement) {
            None => {
                return Err(RebalanceError::MathError);
            },
            Some(bar) => {
                if !(bar.lt(dst_rate)) {
                    return Err(RebalanceError::RebalanceNotImproving);
                }
            },
        }
        i = i + 1;
    }
    proof {
        assert(moves@.skip(moves@.len() as int) =~= Seq::<RebalanceMove>::empty());
    }
    Ok(())
}

/// The post-move gate: no move's destination rate fell below its source's.
pub fn check_no_overshoot(moves: &Vec<RebalanceMove>, post_rates: &Vec<I80F48>) -> (r: Result<
    (),
    RebalanceError,
>)
    requires
        moves_in_range(moves@, post_rates.len() as int),
    ensures
        r is Ok <==> forall|i: int|
            0 <= i < moves.len() ==> post_rates@[moves@[i].dst_index as int].bits
                >= post_rates@[moves@[i].src_index as int].bits,
        r is Err ==> r == Err::<(), RebalanceError>(RebalanceError::RebalanceOvershoot),
{
    let mut i: usize = 0;
    while i < moves.len()
        invariant
            i <= moves.len(),
            moves_in_range(moves@, post_rates.len() as int),
            forall|j: int|
                0 <= j < i ==> post_rates@[moves@[j].dst_index as int].bits
                    >= post_rates@[moves@[j].src_index as int].bits,
        decreases moves.len() - i,
    {
        let m = moves[i];
        if post_rates[m.dst_index as usize].lt(post_rates[m.src_index as usize]) {
            return Err(RebalanceError::RebalanceOvershoot);
        }
        i = i + 1;
    }
    Ok(())
}

// ---------------------------------------------------------------------------------------------
// Referenced banks.
// ---------------------------------------------------------------------------------------------

/// Why one referenced bank is refused, if it is: it is not allow-listed, or it holds another mint.
pub open spec fn bank_failure(key: Pubkey, mint: Pubkey, allowed: Seq<Pubkey>, order_mint: Pubkey) -> Option<
    RebalanceError,
> {
    if !allowed.contains(key) {
        Some(RebalanceError::RebalanceBankNotAllowed)
    } else if mint != order_mint {
        Some(RebalanceError::RebalanceMintMismatch)
    } else {
        None
    }
}

/// The failure of the first refused bank.
pub open spec fn first_bank_failure(
    keys: Seq<Pubkey>,
    mints: Seq<Pubkey>,
    allowed: Seq<Pubkey>,
    order_mint: Pubkey,
) -> Option<RebalanceError>
    decreases keys.len(),
{
    if keys.len() == 0 {
        None
    } else {
        match bank_failure(keys[0], mints[0], allowed, order_mint) {
            Some(e) => Some(e),
            None => first_bank_failure(keys.drop_first(), mints.drop_first(), allowed, order_mint),
        }
    }
}

/// Every referenced bank (its address in `keys`, its mint at the same position of `mints`) is in
/// the order's allowlist and holds the order's mint. The first refused bank decides the error.
pub fn check_referenced_banks(
    keys: &Vec<Pubkey>,
    mints: &Vec<Pubkey>,
    allowed: &Vec<Pubkey>,
    order_mint: Pubkey,
) -> (r: Result<(), RebalanceError>)
    requires
        keys.len() == mints.len(),
    ensures
        r == match first_bank_failure(keys@, mints@, allowed@, order_mint) {
            Some(e) => Err(e),
            None => Ok(()),
        },
        r is Ok ==> forall|i: int|
            0 <= i < keys.len() ==> allowed@.contains(#[trigger] keys@[i]) && mints@[i] == order_mint,
{
    proof {
        assert(keys@.skip(0) =~= keys@);
        assert(mints@.skip(0) =~= mints@);
    }
    let mut i: usize = 0;
    while i < keys.len()
        invariant
            i <= keys.len(),
            keys.len() == mints.len(),
            first_bank_failure(keys@, mints@, allowed@, order_mint) == first_bank_failure(
                keys@.skip(i as int),
                mints@.skip(i as int),
                allowed@,
                order_mint,
            ),
            forall|j: int|
                0 <= j < i ==> allowed@.contains(#[trigger] keys@[j]) && mints@[j] == order_mint,
        decreases keys.len() - i,
    {
        proof {
            assert(keys@.skip(i as int).drop_first() =~= keys@.skip(i + 1));
            assert(mints@.skip(i as int).drop_first() =~= mints@.skip(i + 1));
            assert(keys@.skip(i as int)[0] == keys@[i as int]);
            assert(mints@.skip(i as int)[0] == mints@[i as int]);
        }
        if !contains_key(allowed, &keys[i]) {
            return Err(RebalanceError::RebalanceBankNotAllowed);
        }
        if mints[i] != order_mint {
            return Err(RebalanceError::RebalanceMintMismatch);
        }
        proof {
            assert forall|j: int| 0 <= j < i + 1 implies allowed@.contains(#[trigger] keys@[j])
                && mints@[j] == order_mint by {
                if j == i as int {
                    assert(allowed@.contains(keys@[i as int]));
                }
            }
        }
        i = i + 1;
    }
    proof {
        assert(keys@.skip(keys@.len() as int) =~= Seq::<Pubkey>::empty());
    }
    Ok(())
}

/// The recorded banks, in the recorded order, are the ones parsed at the end and settle steps.
pub fn check_recorded_banks(parsed: &Vec<Pubkey>, recorded: &Vec<Pubkey>) -> (r: Result<
    (),
    RebalanceError,
>)
    requires
        parsed.len() == recorded.len(),
    ensures
        r is Ok <==> parsed@ == recorded@,
        r is Err ==> r == Err::<(), RebalanceError>(RebalanceError::InvalidBankAccount),
{
    let mut i: usize = 0;
    while i < parsed.len()
        invariant
            i <= parsed.len(),
            parsed.len() == recorded.len(),
            forall|j: int| 0 <= j < i ==> parsed@[j] == recorded@[j],
        decreases parsed.len() - i,
    {
        if parsed[i] != recorded[i] {
            return Err(RebalanceError::InvalidBankAccount);
        }
        i = i + 1;
    }
    proof {
        assert(parsed@ =~= recorded@);
    }
    Ok(())
}

// ---------------------------------------------------------------------------------------------
// Budget and keeper tip.
// ---------------------------------------------------------------------------------------------

/// The amount budget: with a cap, the tokens moved may exceed it by at most the reconciliation
/// dust; without one (an unlimited order) anything goes.
pub fn check_amount_budget(total_moved: I80F48, cap: Option<I80F48>, dust: I80F48) -> (r: Result<
    (),
    RebalanceError,
>)
    ensures
        r == match cap {
            None => Ok(()),
            Some(c) => if !in_i128(c.bits + dust.bits) {
                Err(RebalanceError::MathError)
            } else if total_moved.bits <= c.bits + dust.bits {
                Ok(())
            } else {
                Err(RebalanceError::RebalanceExceedsAmount)
            },
        },
{
    match cap {
        None => Ok(()),
        Some(c) => match c.checked_add(dust) {
            None => Err(RebalanceError::MathError),
            Some(limit) => if total_moved.le(limit) {
                Ok(())
            } else {
                Err(RebalanceError::RebalanceExceedsAmount)
            },
        },
    }
}

/// The amount the tip is proportional to: the budget when the order has one, but no more than the
/// referenced banks held before the move; their whole holding for an unlimited order.
pub fn tip_target_value(cap: Option<I80F48>, total_ref_pre: I80F48) -> (r: I80F48)
    ensures
        r.bits == match cap {
            None => total_ref_pre.bits,
            Some(c) => if c.bits <= total_ref_pre.bits {
                c.bits
            } else {
                total_ref_pre.bits
            },
        },
{
    match cap {
        None => total_ref_pre,
        Some(c) => c.min(total_ref_pre),
    }
}

/// The lamports of the fee pool above its rent-exempt reserve: what tips may be drawn from.
pub fn fee_pool_spendable(pool_lamports: u64, rent_exempt_minimum: u64) -> (r: u64)
    ensures
        r == if pool_lamports >= rent_exempt_minimum {
            pool_lamports - rent_exempt_minimum
        } else {
            0
        },
{
    pool_lamports.saturating_sub(rent_exempt_minimum)
}

/// The share of the target that was moved, as fixed-point bits, capped at one.
pub open spec fn tip_fraction_bits(total_moved: int, target_value: int) -> int {
    let f = div_bits(total_moved, target_value);
    if f <= scale() {
        f
    } else {
        scale()
    }
}

/// The tip the end step escrows: `keeper_tip` times the moved share of the target (capped at
/// one), rounded down to whole lamports and capped at the pool's spendable lamports; nothing when
/// the order offers no tip or the target is not positive.
pub open spec fn spec_keeper_tip_paid(
    keeper_tip: u64,
    total_moved: I80F48,
    target_value: I80F48,
    spendable: u64,
) -> Result<u64, RebalanceError> {
    if keeper_tip == 0 || target_value.bits <= 0 {
        Ok(0)
    } else if !in_i128(div_bits(total_moved.bits as int, target_value.bits as int)) {
        Err(RebalanceError::MathError)
    } else {
        let owed = floor_int(
            mul_bits(
                keeper_tip * scale(),
                tip_fraction_bits(total_moved.bits as int, target_value.bits as int),
            ),
        );
        Ok(
            if owed <= spendable {
                owed as u64
            } else {
                spendable
            },
        )
    }
}

/// A move of at least the whole target earns the whole offered tip when the pool can spend it.
pub proof fn law_full_move_earns_whole_tip(
    keeper_tip: u64,
    total_moved: I80F48,
    target_value: I80F48,
    spendable: u64,
)
    requires
        target_value.bits > 0,
        total_moved.bits >= target_value.bits,
        in_i128(div_bits(total_moved.bits as int, target_value.bits as int)),
        spendable >= keeper_tip,
    ensures
        spec_keeper_tip_paid(keeper_tip, total_moved, target_value, spendable) == Ok::<
            u64,
            RebalanceError,
        >(keeper_tip),
{
    let s = scale();
    let a = total_moved.bits as int;
    let b = target_value.bits as int;
    assert(a * s >= b * s) by (nonlinear_arith)
        requires
            a >= b,
            s > 0,
    ;
    vstd::arithmetic::div_mod::lemma_div_is_ordered(b * s, a * s, b);
    vstd::arithmetic::div_mod::lemma_div_by_multiple(s, b);
    assert(b * s == s * b) by (nonlinear_arith);
    assert(div_bits(a, b) >= s);
    let t = keeper_tip as int;
    vstd::arithmetic::div_mod::lemma_div_by_multiple(t * s, s);
    vstd::arithmetic::div_mod::lemma_div_by_multiple(t, s);
}

/// A fraction between zero and one of `n` whole units is between zero and `n` units, in bits and
/// after rounding down.
proof fn lemma_fraction_of_integer(n: int, f: int)
    requires
        0 <= n,
        0 <= f <= scale(),
    ensures
        0 <= mul_bits(n * scale(), f) <= n * scale(),
        0 <= floor_int(mul_bits(n * scale(), f)) <= n,
{
    let s = scale();
    let p = (n * s) * f;
    assert(0 <= p <= (n * s) * s) by (nonlinear_arith)
        requires
            0 <= n,
            0 <= f <= s,
            s > 0,
            p == (n * s) * f,
    ;
    vstd::arithmetic::div_mod::lemma_div_pos_is_pos(p, s);
    vstd::arithmetic::div_mod::lemma_div_is_ordered(p, (n * s) * s, s);
    vstd::arithmetic::div_mod::lemma_div_by_multiple(n * s, s);
    let q = p / s;
    vstd::arithmetic::div_mod::lemma_div_pos_is_pos(q, s);
    vstd::arithmetic::div_mod::lemma_div_is_ordered(q, n * s, s);
    vstd::arithmetic::div_mod::lemma_div_by_multiple(n, s);
}

/// The keeper tip escrowed at the end step. `total_moved` is the non-negative number of tokens
/// the move relocated (the end step refuses a move of nothing before it gets here).
pub fn keeper_tip_paid(
    keeper_tip: u64,
    total_moved: I80F48,
    target_value: I80F48,
    spendable: u64,
) -> (r: Result<u64, RebalanceError>)
    requires
        total_moved.bits >= 0,
    ensures
        r == spec_keeper_tip_paid(keeper_tip, total_moved, target_value, spendable),
        r matches Ok(t) ==> t <= keeper_tip && t <= spendable,
{
    if keeper_tip == 0 || target_value.bits <= 0 {
        return Ok(0);
    }
    let ratio = match total_moved.checked_div(target_value) {
        None => {
            return Err(RebalanceError::MathError);
        },
        Some(v) => v,
    };
    let fraction = ratio.min(I80F48::one());
    proof {
        let f = fraction.bits as int;
        assert(f == tip_fraction_bits(total_moved.bits as int, target_value.bits as int));
        assert(div_bits(total_moved.bits as int, target_value.bits as int) >= 0) by {
            let n = total_moved.bits as int * scale();
            assert(n >= 0) by (nonlinear_arith)
                requires
                    total_moved.bits >= 0,
                    n == total_moved.bits as int * scale(),
            ;
        }
        lemma_fraction_of_integer(keeper_tip as int, f);
    }
    let owed_bits = I80F48::from_u64(keeper_tip).mul(fraction);
    let floored = owed_bits.floor();
    proof {
        assert(floor_int(floored.bits as int) == floor_int(owed_bits.bits as int)) by {
            vstd::arithmetic::div_mod::lemma_div_multiples_vanish(
                floor_int(owed_bits.bits as int),
                scale(),
            );
        }
    }
    let owed = floored.to_u64();
    if owed <= spendable {
        Ok(owed)
    } else {
        Ok(spendable)
    }
}

// ---------------------------------------------------------------------------------------------
// Tip settlement.
// ---------------------------------------------------------------------------------------------

/// How the settle step judges the moves from the yield indices now (`current`) and at the move
/// (`at_move`): a move realized its improvement when its destination's index grew strictly more
/// than its source's, `current[dst] * at_move[src] > current[src] * at_move[dst]`. The moves are
/// judged in order; the first product that overflows is an error, and the first move that did not
/// realize decides `false`.
pub open spec fn spec_settle_realized(
    moves: Seq<RebalanceMove>,
    current: Seq<I80F48>,
    at_move: Seq<I80F48>,
) -> Result<bool, RebalanceError>
    decreases moves.len(),
{
    if moves.len() == 0 {
        Ok(true)
    } else {
        let s = moves[0].src_index as int;
        let d = moves[0].dst_index as int;
        let lhs = mul_bits(current[d].bits as int, at_move[s].bits as int);
        let rhs = mul_bits(current[s].bits as int, at_move[d].bits as int);
        if !in_i128(lhs) || !in_i128(rhs) {
            Err(RebalanceError::MathError)
        } else if lhs <= rhs {
            Ok(false)
        } else {
            spec_settle_realized(moves.drop_first(), current, at_move)
        }
    }
}

/// A move realized its improvement when its destination's yield index grew strictly more than
/// its source's since the move: the fixed-point products
/// `current[dst] * at_move[src] > current[src] * at_move[dst]`.
pub open spec fn move_realized(m: RebalanceMove, current: Seq<I80F48>, at_move: Seq<I80F48>) -> bool {
    mul_bits(current[m.dst_index as int].bits as int, at_move[m.src_index as int].bits as int)
        > mul_bits(current[m.src_index as int].bits as int, at_move[m.dst_index as int].bits as int)
}

/// When no cross product of the yield indices overflows, the settle step's verdict is exactly
/// whether every move realized its improvement.
pub proof fn law_settle_realized_iff_every_move(
    moves: Seq<RebalanceMove>,
    current: Seq<I80F48>,
    at_move: Seq<I80F48>,
)
    requires
        moves_in_range(moves, current.len() as int),
        moves_in_range(moves, at_move.len() as int),
        forall|i: int|
            0 <= i < moves.len() ==> in_i128(
                mul_bits(
                    current[moves[i].dst_index as int].bits as int,
                    at_move[moves[i].src_index as int].bits as int,
                ),
            ) && in_i128(
                mul_bits(
                    current[moves[i].src_index as int].bits as int,
                    at_move[moves[i].dst_index as int].bits as int,
                ),
            ),
    ensures
        spec_settle_realized(moves, current, at_move) == Ok::<bool, RebalanceError>(
            forall|i: int| 0 <= i < moves.len() ==> move_realized(moves[i], current, at_move),
        ),
    decreases moves.len(),
{
    if moves.len() > 0 {
        let rest = moves.drop_first();
        assert forall|i: int| 0 <= i < rest.len() implies rest[i] == moves[i + 1] by {}
        law_settle_realized_iff_every_move(rest, current, at_move);
        let m = moves[0];
        if move_realized(m, current, at_move) {
            assert((forall|i: int| 0 <= i < moves.len() ==> move_realized(moves[i], current, at_move))
                == (forall|i: int| 0 <= i < rest.len() ==> move_realized(rest[i], current, at_move)))
                by {
                if forall|i: int| 0 <= i < rest.len() ==> move_realized(rest[i], current, at_move) {
                    assert forall|i: int| 0 <= i < moves.len() implies move_realized(
                        moves[i],
                        current,
                        at_move,
                    ) by {
                        if i > 0 {
                            assert(moves[i] == rest[i - 1]);
                        }
                    }
                }
            }
        }
    }
}

/// Whether every move's destination out-yielded its source over the settlement window.
pub fn settle_realized(
    moves: &Vec<RebalanceMove>,
    current: &Vec<I80F48>,
    at_move: &Vec<I80F48>,
) -> (r: Result<bool, RebalanceError>)
    requires
        moves_in_range(moves@, current.len() as int),
        moves_in_range(moves@, at_move.len() as int),
    ensures
        r == spec_settle_realized(moves@, current@, at_move@),
        r == Ok::<bool, RebalanceError>(true) ==> forall|i: int|
            0 <= i < moves.len() ==> mul_bits(
                current@[moves@[i].dst_index as int].bits as int,
                at_move@[moves@[i].src_index as int].bits as int,
            ) > mul_bits(
                current@[moves@[i].src_index as int].bits as int,
                at_move@[moves@[i].dst_index as int].bits as int,
            ),
{
    proof {
        assert(moves@.skip(0) =~= moves@);
    }
    let mut i: usize = 0;
    while i < moves.len()
        invariant
            i <= moves.len(),
            moves_in_range(moves@, current.len() as int),
            moves_in_range(moves@, at_move.len() as int),
            spec_settle_realized(moves@, current@, at_move@) == spec_settle_realized(
                moves@.skip(i as int),
                current@,
                at_move@,
            ),
            forall|j: int|
                0 <= j < i ==> mul_bits(
                    current@[moves@[j].dst_index as int].bits as int,
                    at_move@[moves@[j].src_index as int].bits as int,
                ) > mul_bits(
                    current@[moves@[j].src_index as int].bits as int,
                    at_move@[moves@[j].dst_index as int].bits as int,
                ),
        decreases moves.len() - i,
    {
        proof {
            assert(moves@.skip(i as int).drop_first() =~= moves@.skip(i + 1));
            assert(moves@.skip(i as int)[0] == moves@[i as int]);
        }
        let m = moves[i];
        let s = m.src_index as usize;
        let d = m.dst_index as usize;
        let lhs = match current[d].checked_mul(at_move[s]) {
            None => {
                return Err(RebalanceError::MathError);
            },
            Some(v) => v,
        };
        let rhs = match current[s].checked_mul(at_move[d]) {
            None => {
                return Err(RebalanceError::MathError);
            },
            Some(v) => v,
        };
        if lhs.le(rhs) {
            return Ok(false);
        }
        i = i + 1;
    }
    proof {
        assert(moves@.skip(moves@.len() as int) =~= Seq::<RebalanceMove>::empty());
    }
    Ok(true)
}

/// Lamport balances after the settle step moves the escrowed tip out of the record into its
/// destination (the keeper when the move realized, the fee pool otherwise): `(record, destination)`.
pub fn release_escrowed_tip(record_lamports: u64, destination_lamports: u64, pending_tip: u64) -> (r:
    Result<(u64, u64), RebalanceError>)
    ensures
        pending_tip == 0 ==> r == Ok::<(u64, u64), RebalanceError>(
            (record_lamports, destination_lamports),
        ),
        pending_tip > 0 ==> r == if pending_tip > record_lamports || destination_lamports
            + pending_tip > u64::MAX {
            Err(RebalanceError::MathError)
        } else {
            Ok(
                (
                    (record_lamports - pending_tip) as u64,
                    (destination_lamports + pending_tip) as u64,
                ),
            )
        },
        r matches Ok((a, b)) ==> a + b == record_lamports + destination_lamports,
{
    if pending_tip == 0 {
        return Ok((record_lamports, destination_lamports));
    }
    let record_after = match record_lamports.checked_sub(pending_tip) {
        None => {
            return Err(RebalanceError::MathError);
        },
        Some(v) => v,
    };
    let destination_after = match destination_lamports.checked_add(pending_tip) {
        None => {
            return Err(RebalanceError::MathError);
        },
        Some(v) => v,
    };
    Ok((record_after, destination_after))
}

// ---------------------------------------------------------------------------------------------
// The fee pool.
// ---------------------------------------------------------------------------------------------

/// The lamports a top-up transfers: `amount`, plus whatever the pool lacks of its rent-exempt
/// reserve.
pub fn fee_pool_top_up_transfer(amount: u64, pool_lamports: u64, rent_exempt_minimum: u64) -> (r:
    Result<u64, RebalanceError>)
    ensures
        r == {
            let seed = if rent_exempt_minimum >= pool_lamports {
                rent_exempt_minimum - pool_lamports
            } else {
                0
            };
            if amount + seed > u64::MAX {
                Err(RebalanceError::MathError)
            } else {
                Ok((amount + seed) as u64)
            }
        },
        r matches Ok(t) ==> pool_lamports + t >= rent_exempt_minimum && pool_lamports + t
            >= pool_lamports + amount,
{
    let seed = rent_exempt_minimum.saturating_sub(pool_lamports);
    match amount.checked_add(seed) {
        None => Err(RebalanceError::MathError),
        Some(t) => Ok(t),
    }
}

/// The lamports a withdrawal takes from the pool: the request capped at the balance, or the whole
/// balance when what would stay is below the rent-exempt reserve (the pool is then closed).
pub fn fee_pool_withdraw_amount(requested: u64, balance: u64, rent_exempt_minimum: u64) -> (r: u64)
    ensures
        r == {
            let capped = if requested <= balance {
                requested
            } else {
                balance
            };
            if balance - capped < rent_exempt_minimum {
                balance
            } else {
                capped
            }
        },
        r <= balance,
        r == balance || balance - r >= rent_exempt_minimum,
{
    let amount = if requested <= balance {
        requested
    } else {
        balance
    };
    if balance.saturating_sub(amount) < rent_exempt_minimum {
        balance
    } else {
        amount
    }
}

// ---------------------------------------------------------------------------------------------
// The order's policy.
// ---------------------------------------------------------------------------------------------

/// An account holds a position in a bank of `allowed`: an active balance whose bank is listed.
pub open spec fn spec_has_allowed_position(balances: Seq<BalanceRef>, allowed: Seq<Pubkey>) -> bool {
    exists|i: int| 0 <= i < balances.len() && #[trigger] balances[i].active && allowed.contains(
        balances[i].bank_pk,
    )
}

/// Whether the account holds a position in a bank of `allowed`.
pub fn has_allowed_position(balances: &Vec<BalanceRef>, allowed: &Vec<Pubkey>) -> (r: bool)
    ensures
        r == spec_has_allowed_position(balances@, allowed@),
{
    let mut i: usize = 0;
    while i < balances.len()
        invariant
            i <= balances.len(),
            forall|j: int|
                0 <= j < i ==> !(#[trigger] balances@[j].active && allowed@.contains(
                    balances@[j].bank_pk,
                )),
        decreases balances.len() - i,
    {
        let b = balances[i];
        if b.active && contains_key(allowed, &b.bank_pk) {
            assert(balances@[i as int].active && allowed@.contains(balances@[i as int].bank_pk));
            return true;
        }
        i = i + 1;
    }
    false
}

/// A rebalance order's policy and state.
#[derive(Debug)]
pub struct RebalanceOrder {
    /// The banks the order may move between.
    pub allowed_banks: Vec<Pubkey>,
    /// How much more a destination's rate must be than its source's.
    pub min_improvement: I80F48,
    /// Seconds between two executions.
    pub cooldown_seconds: u64,
    /// The most tokens (native units) one execution may move; 0 for no cap.
    pub amount: u64,
    /// The lamports a keeper earns for moving the whole target.
    pub keeper_tip: u64,
    /// When the order last ran (0 before its first execution).
    pub last_exec_timestamp: u64,
}

/// Placing an order: the account must hold a position in one of `allowed_banks`. Fields left
/// `None` take the given defaults; the amount and the tip default to zero (no cap, no tip).
pub fn place_rebalance_order(
    balances: &Vec<BalanceRef>,
    allowed_banks: Vec<Pubkey>,
    min_improvement: Option<I80F48>,
    cooldown_seconds: Option<u64>,
    amount: Option<u64>,
    keeper_tip: Option<u64>,
    default_min_improvement: I80F48,
    default_cooldown_seconds: u64,
) -> (r: Result<RebalanceOrder, RebalanceError>)
    ensures
        !spec_has_allowed_position(balances@, allowed_banks@) ==> r == Err::<
            RebalanceOrder,
            RebalanceError,
        >(RebalanceError::RebalanceNoAllowlistPosition),
        spec_has_allowed_position(balances@, allowed_banks@) ==> (r matches Ok(o) && o.allowed_banks@
            == allowed_banks@ && o.min_improvement == match min_improvement {
            Some(v) => v,
            None => default_min_improvement,
        } && o.cooldown_seconds == match cooldown_seconds {
            Some(v) => v,
            None => default_cooldown_seconds,
        } && o.amount == match amount {
            Some(v) => v,
            None => 0u64,
        } && o.keeper_tip == match keeper_tip {
            Some(v) => v,
            None => 0u64,
        } && o.last_exec_timestamp == 0),
{
    if !has_allowed_position(balances, &allowed_banks) {
        return Err(RebalanceError::RebalanceNoAllowlistPosition);
    }
    let min_improvement = match min_improvement {
        Some(v) => v,
        None => default_min_improvement,
    };
    let cooldown_seconds = match cooldown_seconds {
        Some(v) => v,
        None => default_cooldown_seconds,
    };
    let amount = match amount {
        Some(v) => v,
        None => 0,
    };
    let keeper_tip = match keeper_tip {
        Some(v) => v,
        None => 0,
    };
    Ok(
        RebalanceOrder {
            allowed_banks,
            min_improvement,
            cooldown_seconds,
            amount,
            keeper_tip,
            last_exec_timestamp: 0,
        },
    )
}

/// Why an update is refused, if it is.
pub open spec fn update_failure(
    balances: Seq<BalanceRef>,
    in_rebalance: bool,
    allowed_banks: Option<Seq<Pubkey>>,
    min_improvement: Option<I80F48>,
) -> Option<RebalanceError> {
    if in_rebalance {
        Some(RebalanceError::IllegalAction)
    } else if (allowed_banks matches Some(b) && !spec_has_allowed_position(balances, b)) {
        Some(RebalanceError::RebalanceNoAllowlistPosition)
    } else if (min_improvement matches Some(m) && m.bits < 0) {
        Some(RebalanceError::RebalanceInvalidMinImprovement)
    } else {
        None
    }
}

/// The view of an optional new allowlist.
pub open spec fn opt_view(v: Option<Vec<Pubkey>>) -> Option<Seq<Pubkey>> {
    match v {
        Some(b) => Some(b@),
        None => None,
    }
}

/// Updating an order in place. Refused mid-rebalance, when a new allowlist holds none of the
/// account's positions, or when a new minimum improvement is negative; a refused update changes
/// nothing. Otherwise each given field replaces the order's, and each `None` leaves it as it was.
pub fn update_rebalance_order(
    order: &mut RebalanceOrder,
    balances: &Vec<BalanceRef>,
    in_rebalance: bool,
    allowed_banks: Option<Vec<Pubkey>>,
    min_improvement: Option<I80F48>,
    cooldown_seconds: Option<u64>,
    amount: Option<u64>,
    keeper_tip: Option<u64>,
) -> (r: Result<(), RebalanceError>)
    ensures
        r == match update_failure(balances@, in_rebalance, opt_view(allowed_banks), min_improvement) {
            Some(e) => Err(e),
            None => Ok(()),
        },
        r is Err ==> final(order).allowed_banks@ == old(order).allowed_banks@
            && final(order).min_improvement == old(order).min_improvement
            && final(order).cooldown_seconds == old(order).cooldown_seconds
            && final(order).amount == old(order).amount
            && final(order).keeper_tip == old(order).keeper_tip,
        r is Ok ==> final(order).allowed_banks@ == match allowed_banks {
            Some(b) => b@,
            None => old(order).allowed_banks@,
        } && final(order).min_improvement == match min_improvement {
            Some(v) => v,
            None => old(order).min_improvement,
        } && final(order).cooldown_seconds == match cooldown_seconds {
            Some(v) => v,
            None => old(order).cooldown_seconds,
        } && final(order).amount == match amount {
            Some(v) => v,
            None => old(order).amount,
        } && final(order).keeper_tip == match keeper_tip {
            Some(v) => v,
            None => old(order).keeper_tip,
        },
        final(order).last_exec_timestamp == old(order).last_exec_timestamp,
{
    if in_rebalance {
        return Err(RebalanceError::IllegalAction);
    }
    match &allowed_banks {
        Some(banks) => {
            if !has_allowed_position(balances, banks) {
                return Err(RebalanceError::RebalanceNoAllowlistPosition);
            }
        },
        None => {},
    }
    match min_improvement {
        Some(mi) => {
            if mi.bits < 0 {
                return Err(RebalanceError::RebalanceInvalidMinImprovement);
            }
        },
        None => {},
    }
    match allowed_banks {
        Some(banks) => {
            order.allowed_banks = banks;
        },
        None => {},
    }
    match min_improvement {
        Some(mi) => {
            order.min_improvement = mi;
        },
        None => {},
    }
    match cooldown_seconds {
        Some(c) => {
            order.cooldown_seconds = c;
        },
        None => {},
    }
    match amount {
        Some(a) => {
            order.amount = a;
        },
        None => {},
    }
    match keeper_tip {
        Some(t) => {
            order.keeper_tip = t;
        },
        None => {},
    }
    Ok(())
}

/// Who may close an order: nobody while its rebalance record awaits settlement; then its
/// account's authority, unless the account is mid-rebalance; anyone else only once the account
/// holds no position in the order's allowlist. (An order whose account was closed may be closed by
/// anyone once no record is pending.)
pub fn authorize_order_close(
    record_pending: bool,
    by_authority: bool,
    has_position: bool,
    in_rebalance: bool,
) -> (r: Result<(), RebalanceError>)
    ensures
        r == if record_pending {
            Err(RebalanceError::RebalanceRecordPending)
        } else if !by_authority && has_position {
            Err(RebalanceError::LiquidatorOrderCloseNotAllowed)
        } else if by_authority && in_rebalance {
            Err(RebalanceError::IllegalAction)
        } else {
            Ok(())
        },
{
    if record_pending {
        return Err(RebalanceError::RebalanceRecordPending);
    }
    if !(by_authority || !has_position) {
        return Err(RebalanceError::LiquidatorOrderCloseNotAllowed);
    }
    if by_authority && in_rebalance {
        return Err(RebalanceError::IllegalAction);
    }
    Ok(())
}

// ---------------------------------------------------------------------------------------------
// The referenced-bank stream.
// ---------------------------------------------------------------------------------------------

/// What the program reads from a bank account when it parses the bank stream.
#[derive(Clone, Copy, Debug, PartialEq, Eq, Structural)]
pub struct BankLayout {
    /// The bank's address.
    pub key: Pubkey,
    /// The group the bank belongs to.
    pub group: Pubkey,
    /// Whether it is a JupLend bank, whose block carries its token reserve after the bank.
    pub is_juplend: bool,
    /// The number of observation accounts per bank (the bank and its oracles).
    pub accounts_per_bank: usize,
}

/// One parsed block of the stream: the bank, the position of its token reserve (JupLend only),
/// and the positions `[oracle_start, oracle_end)` of its oracles.
#[derive(Clone, Copy, Debug, PartialEq, Eq, Structural)]
pub struct ParsedBankSpan {
    pub key: Pubkey,
    pub reserve_index: Option<usize>,
    pub oracle_start: usize,
    pub oracle_end: usize,
}

/// The first layout in `layouts` for the bank at `key`.
pub open spec fn lookup_layout(layouts: Seq<BankLayout>, key: Pubkey) -> Option<BankLayout>
    decreases layouts.len(),
{
    if layouts.len() == 0 {
        None
    } else if layouts[0].key == key {
        Some(layouts[0])
    } else {
        lookup_layout(layouts.drop_first(), key)
    }
}

/// The banks of the parsed spans.
pub open spec fn span_keys(spans: Seq<ParsedBankSpan>) -> Seq<Pubkey> {
    spans.map_values(|p: ParsedBankSpan| p.key)
}

/// The number of oracle accounts that follow a bank: its observation accounts less the bank.
pub open spec fn oracle_count(l: BankLayout) -> int {
    if l.accounts_per_bank >= 1 {
        l.accounts_per_bank - 1
    } else {
        0
    }
}

/// Parsing the stream `remaining` from position `cursor`, with `parsed` already read, until
/// `count` banks are read: each block is `[bank] [token reserve, JupLend only] [oracles]`, and a
/// bank may appear only once. On success, the spans and the position where the tail starts.
pub open spec fn parse_from(
    remaining: Seq<Pubkey>,
    layouts: Seq<BankLayout>,
    group: Pubkey,
    count: int,
    parsed: Seq<ParsedBankSpan>,
    cursor: int,
) -> Result<(Seq<ParsedBankSpan>, int), RebalanceError>
    decreases count - parsed.len(),
{
    if parsed.len() >= count {
        Ok((parsed, cursor))
    } else if !(remaining.len() > cursor) {
        Err(RebalanceError::WrongNumberOfOracleAccounts)
    } else if span_keys(parsed).contains(remaining[cursor]) {
        Err(RebalanceError::SameAssetAndLiabilityBanks)
    } else {
        match lookup_layout(layouts, remaining[cursor]) {
            None => Err(RebalanceError::InvalidBankAccount),
            Some(l) => if l.group != group {
                Err(RebalanceError::InvalidGroup)
            } else if l.is_juplend && !(remaining.len() > cursor + 1) {
                Err(RebalanceError::WrongNumberOfOracleAccounts)
            } else {
                let start = if l.is_juplend {
                    cursor + 2
                } else {
                    cursor + 1
                };
                let end = start + oracle_count(l);
                if !(remaining.len() >= end) {
                    Err(RebalanceError::WrongNumberOfOracleAccounts)
                } else {
                    let span = ParsedBankSpan {
                        key: remaining[cursor],
                        reserve_index: if l.is_juplend {
                            Some((cursor + 1) as usize)
                        } else {
                            None
                        },
                        oracle_start: start as usize,
                        oracle_end: end as usize,
                    };
                    parse_from(remaining, layouts, group, count, parsed.push(span), end)
                }
            },
        }
    }
}

fn find_layout(layouts: &Vec<BankLayout>, key: &Pubkey) -> (r: Option<BankLayout>)
    ensures
        r == lookup_layout(layouts@, *key),
{
    proof {
        assert(layouts@.skip(0) =~= layouts@);
    }
    let mut i: usize = 0;
    while i < layouts.len()
        invariant
            i <= layouts.len(),
            lookup_layout(layouts@, *key) == lookup_layout(layouts@.skip(i as int), *key),
        decreases layouts.len() - i,
    {
        proof {
            assert(layouts@.skip(i as int).drop_first() =~= layouts@.skip(i + 1));
            assert(layouts@.skip(i as int)[0] == layouts@[i as int]);
        }
        if layouts[i].key == *key {
            return Some(layouts[i]);
        }
        i = i + 1;
    }
    None
}

fn spans_contain(spans: &Vec<ParsedBankSpan>, key: &Pubkey) -> (r: bool)
    ensures
        r == span_keys(spans@).contains(*key),
{
    let mut i: usize = 0;
    while i < spans.len()
        invariant
            i <= spans.len(),
            forall|j: int| 0 <= j < i ==> spans@[j].key != *key,
        decreases spans.len() - i,
    {
        if spans[i].key == *key {
            assert(span_keys(spans@)[i as int] == *key);
            return true;
        }
        i = i + 1;
    }
    proof {
        if span_keys(spans@).contains(*key) {
            let j = choose|j: int| 0 <= j < span_keys(spans@).len() && span_keys(spans@)[j] == *key;
            assert(spans@[j].key == *key);
        }
    }
    false
}

/// A successful parse lists each bank once and lays the blocks out in order, inside the stream.
pub proof fn lemma_parse_from_shape(
    remaining: Seq<Pubkey>,
    layouts: Seq<BankLayout>,
    group: Pubkey,
    count: int,
    parsed: Seq<ParsedBankSpan>,
    cursor: int,
)
    requires
        span_keys(parsed).no_duplicates(),
        0 <= cursor <= remaining.len(),
        parsed.len() <= count,
        parse_from(remaining, layouts, group, count, parsed, cursor) is Ok,
    ensures
        ({
            let (spans, tail) = parse_from(remaining, layouts, group, count, parsed, cursor)->Ok_0;
            &&& spans.len() == count
            &&& span_keys(spans).no_duplicates()
            &&& cursor <= tail <= remaining.len()
            &&& spans.subrange(0, parsed.len() as int) == parsed
        }),
    decreases count - parsed.len(),
{
    if parsed.len() < count {
        let key = remaining[cursor];
        let l = lookup_layout(layouts, key)->Some_0;
        let start = if l.is_juplend {
            cursor + 2
        } else {
            cursor + 1
        };
        let end = start + oracle_count(l);
        let span = ParsedBankSpan {
            key,
            reserve_index: if l.is_juplend {
                Some((cursor + 1) as usize)
            } else {
                None
            },
            oracle_start: start as usize,
            oracle_end: end as usize,
        };
        let next = parsed.push(span);
        assert(span_keys(next) =~= span_keys(parsed).push(key));
        assert(span_keys(next).no_duplicates()) by {
            assert forall|a: int, b: int|
                0 <= a < span_keys(next).len() && 0 <= b < span_keys(next).len() && a != b
                implies span_keys(next)[a] != span_keys(next)[b] by {
                if a == parsed.len() as int {
                    assert(span_keys(parsed).contains(span_keys(parsed)[b]));
                } else if b == parsed.len() as int {
                    assert(span_keys(parsed).contains(span_keys(parsed)[a]));
                }
            }
        }
        lemma_parse_from_shape(remaining, layouts, group, count, next, end);
        let spans = parse_from(remaining, layouts, group, count, next, end)->Ok_0.0;
        assert(spans.subrange(0, parsed.len() as int) =~= next.subrange(0, parsed.len() as int));
        assert(next.subrange(0, parsed.len() as int) =~= parsed);
    } else {
        assert(parsed.subrange(0, parsed.len() as int) =~= parsed);
    }
}

/// Parses the first `bank_count` blocks of the bank stream `remaining` (the addresses of the
/// accounts passed to the instruction), reading each bank's layout from `layouts`. Returns the
/// spans and the position where the rest of the stream (the health observation set at the end
/// step) starts.
pub fn parse_rebalance_banks(
    remaining: &Vec<Pubkey>,
    layouts: &Vec<BankLayout>,
    group: &Pubkey,
    bank_count: usize,
) -> (r: Result<(Vec<ParsedBankSpan>, usize), RebalanceError>)
    ensures
        r matches Ok((spans, tail)) ==> parse_from(
            remaining@,
            layouts@,
            *group,
            bank_count as int,
            Seq::empty(),
            0,
        ) == Ok::<(Seq<ParsedBankSpan>, int), RebalanceError>((spans@, tail as int)),
        r matches Err(e) ==> parse_from(remaining@, layouts@, *group, bank_count as int, Seq::empty(), 0)
            == Err::<(Seq<ParsedBankSpan>, int), RebalanceError>(e),
        r matches Ok((spans, tail)) ==> spans.len() == bank_count && span_keys(spans@).no_duplicates()
            && tail <= remaining.len(),
{
    let mut banks: Vec<ParsedBankSpan> = Vec::new();
    let mut cursor: usize = 0;
    proof {
        assert(span_keys(banks@) =~= Seq::<Pubkey>::empty());
    }
    while banks.len() < bank_count
        invariant
            banks.len() <= bank_count,
            cursor <= remaining.len(),
            parse_from(remaining@, layouts@, *group, bank_count as int, Seq::empty(), 0) == parse_from(
                remaining@,
                layouts@,
                *group,
                bank_count as int,
                banks@,
                cursor as int,
            ),
        decreases bank_count - banks.len(),
    {
        if !(remaining.len() > cursor) {
            return Err(RebalanceError::WrongNumberOfOracleAccounts);
        }
        let key = remaining[cursor];
        if spans_contain(&banks, &key) {
            return Err(RebalanceError::SameAssetAndLiabilityBanks);
        }
        let layout = match find_layout(layouts, &key) {
            None => {
                return Err(RebalanceError::InvalidBankAccount);
            },
            Some(l) => l,
        };
        if layout.group != *group {
            return Err(RebalanceError::InvalidGroup);
        }
        cursor = cursor + 1;
        let oracle_n: usize = layout.accounts_per_bank.saturating_sub(1);
        let reserve_index = if layout.is_juplend {
            if !(remaining.len() > cursor) {
                return Err(RebalanceError::WrongNumberOfOracleAccounts);
            }
            let t = cursor;
            cursor = cursor + 1;
            Some(t)
        } else {
            None
        };
        if !(remaining.len() - cursor >= oracle_n) {
            return Err(RebalanceError::WrongNumberOfOracleAccounts);
        }
        let oracle_start = cursor;
        cursor = cursor + oracle_n;
        banks.push(ParsedBankSpan { key, reserve_index, oracle_start, oracle_end: cursor });
    }
    proof {
        assert(span_keys(Seq::<ParsedBankSpan>::empty()) =~= Seq::<Pubkey>::empty());
        lemma_parse_from_shape(
            remaining@,
            layouts@,
            *group,
            bank_count as int,
            Seq::empty(),
            0,
        );
    }
    Ok((banks, cursor))
}

// ---------------------------------------------------------------------------------------------
// The three steps.
// ---------------------------------------------------------------------------------------------

/// The start step's gates once the bank stream is parsed, in the program's order: the cooldown,
/// then each referenced bank's allowlist and mint, then each move's rate improvement.
pub open spec fn spec_start_rebalance_gates(
    moves: Seq<RebalanceMove>,
    now: i64,
    last_exec_timestamp: u64,
    cooldown_seconds: u64,
    keys: Seq<Pubkey>,
    mints: Seq<Pubkey>,
    allowed: Seq<Pubkey>,
    order_mint: Pubkey,
    rates: Seq<I80F48>,
    min_improvement: I80F48,
) -> Result<(), RebalanceError> {
    match spec_time_gate(now, last_exec_timestamp, cooldown_seconds, RebalanceError::RebalanceCooldown) {
        Err(e) => Err(e),
        Ok(_) => match first_bank_failure(keys, mints, allowed, order_mint) {
            Some(e) => Err(e),
            None => match first_improving_failure(moves, rates, min_improvement) {
                Some(e) => Err(e),
                None => Ok(()),
            },
        },
    }
}

/// Runs the start step's gates; see [`spec_start_rebalance_gates`].
pub fn start_rebalance_gates(
    moves: &Vec<RebalanceMove>,
    now: i64,
    last_exec_timestamp: u64,
    cooldown_seconds: u64,
    keys: &Vec<Pubkey>,
    mints: &Vec<Pubkey>,
    allowed: &Vec<Pubkey>,
    order_mint: Pubkey,
    rates: &Vec<I80F48>,
    min_improvement: I80F48,
) -> (r: Result<(), RebalanceError>)
    requires
        keys.len() == mints.len(),
        moves_in_range(moves@, rates.len() as int),
    ensures
        r == spec_start_rebalance_gates(
            moves@,
            now,
            last_exec_timestamp,
            cooldown_seconds,
            keys@,
            mints@,
            allowed@,
            order_mint,
            rates@,
            min_improvement,
        ),
{
    match check_cooldown(now, last_exec_timestamp, cooldown_seconds) {
        Err(e) => {
            return Err(e);
        },
        Ok(()) => {},
    }
    match check_referenced_banks(keys, mints, allowed, order_mint) {
        Err(e) => {
            return Err(e);
        },
        Ok(()) => {},
    }
    check_moves_improving(moves, rates, min_improvement)
}

/// What the end step records: the escrowed tip, the settlement delay, and the time of the move
/// (the record's move timestamp, the order's last execution and the account's last update).
#[derive(Clone, Copy, Debug, PartialEq, Eq, Structural)]
pub struct EndRebalanceOutcome {
    pub tip: u64,
    pub settle_delay: u64,
    pub timestamp: u64,
}

/// The end step's decisions, in the program's order: the record must be fresh (not yet
/// finalized, its move timestamp zero), then the post-move rate gate, a move of more
/// than nothing, the amount budget (capped by `cap` plus `dust`), then the tip over the target
/// and the pool's spendable lamports, and the settlement delay.
pub open spec fn spec_end_rebalance_outcome(
    record_move_timestamp: u64,
    now: i64,
    moves: Seq<RebalanceMove>,
    post_rates: Seq<I80F48>,
    total_moved: I80F48,
    total_ref_pre: I80F48,
    dust: I80F48,
    cap: Option<I80F48>,
    keeper_tip: u64,
    pool_lamports: u64,
    rent_exempt_minimum: u64,
    cooldown_seconds: u64,
    min_delay: u64,
    max_delay: u64,
) -> Result<EndRebalanceOutcome, RebalanceError> {
    let target = match cap {
        None => total_ref_pre,
        Some(c) => if c.bits <= total_ref_pre.bits {
            c
        } else {
            total_ref_pre
        },
    };
    let spendable = if pool_lamports >= rent_exempt_minimum {
        (pool_lamports - rent_exempt_minimum) as u64
    } else {
        0u64
    };
    let delay = if cooldown_seconds < min_delay {
        min_delay
    } else if cooldown_seconds > max_delay {
        max_delay
    } else {
        cooldown_seconds
    };
    if record_move_timestamp != 0 {
        Err(RebalanceError::RebalanceMalformedSandwich)
    } else if !(forall|i: int|
        0 <= i < moves.len() ==> post_rates[moves[i].dst_index as int].bits
            >= post_rates[moves[i].src_index as int].bits) {
        Err(RebalanceError::RebalanceOvershoot)
    } else if total_moved.bits <= 0 {
        Err(RebalanceError::RebalanceIncompleteMove)
    } else if (cap matches Some(c) && !in_i128(c.bits + dust.bits)) {
        Err(RebalanceError::MathError)
    } else if (cap matches Some(c) && total_moved.bits > c.bits + dust.bits) {
        Err(RebalanceError::RebalanceExceedsAmount)
    } else {
        match spec_keeper_tip_paid(keeper_tip, total_moved, target, spendable) {
            Err(e) => Err(e),
            Ok(t) => Ok(EndRebalanceOutcome { tip: t, settle_delay: delay, timestamp: now as u64 }),
        }
    }
}

/// Runs the end step's decisions; see [`spec_end_rebalance_outcome`]. `total_moved`,
/// `total_ref_pre` and `dust` come from reconciling the declared moves against the banks'
/// underlying amounts before and after the move.
pub fn end_rebalance_outcome(
    record_move_timestamp: u64,
    now: i64,
    moves: &Vec<RebalanceMove>,
    post_rates: &Vec<I80F48>,
    total_moved: I80F48,
    total_ref_pre: I80F48,
    dust: I80F48,
    cap: Option<I80F48>,
    keeper_tip: u64,
    pool_lamports: u64,
    rent_exempt_minimum: u64,
    cooldown_seconds: u64,
    min_delay: u64,
    max_delay: u64,
) -> (r: Result<EndRebalanceOutcome, RebalanceError>)
    requires
        moves_in_range(moves@, post_rates.len() as int),
        min_delay <= max_delay,
    ensures
        r == spec_end_rebalance_outcome(
            record_move_timestamp,
            now,
            moves@,
            post_rates@,
            total_moved,
            total_ref_pre,
            dust,
            cap,
            keeper_tip,
            pool_lamports,
            rent_exempt_minimum,
            cooldown_seconds,
            min_delay,
            max_delay,
        ),
        r matches Ok(o) ==> o.tip <= keeper_tip && o.tip + rent_exempt_minimum <= if pool_lamports
            >= rent_exempt_minimum {
            pool_lamports as int
        } else {
            rent_exempt_minimum as int
        },
{
    if record_move_timestamp != 0 {
        return Err(RebalanceError::RebalanceMalformedSandwich);
    }
    match check_no_overshoot(moves, post_rates) {
        Err(e) => {
            return Err(e);
        },
        Ok(()) => {},
    }
    if total_moved.bits <= 0 {
        return Err(RebalanceError::RebalanceIncompleteMove);
    }
    match check_amount_budget(total_moved, cap, dust) {
        Err(e) => {
            return Err(e);
        },
        Ok(()) => {},
    }
    let target = tip_target_value(cap, total_ref_pre);
    let spendable = fee_pool_spendable(pool_lamports, rent_exempt_minimum);
    let tip = match keeper_tip_paid(keeper_tip, total_moved, target, spendable) {
        Err(e) => {
            return Err(e);
        },
        Ok(t) => t,
    };
    let delay = settle_delay(cooldown_seconds, min_delay, max_delay);
    Ok(EndRebalanceOutcome { tip, settle_delay: delay, timestamp: now as u64 })
}

/// The end step's outcome does not depend on how the move was split into declared moves: two
/// move lists that both pass the post-move rate gate, with the same reconciled totals, escrow the
/// same tip and record the same settlement delay.
pub proof fn lemma_end_outcome_ignores_split(
    record_move_timestamp: u64,
    now: i64,
    moves_a: Seq<RebalanceMove>,
    post_rates_a: Seq<I80F48>,
    moves_b: Seq<RebalanceMove>,
    post_rates_b: Seq<I80F48>,
    total_moved: I80F48,
    total_ref_pre: I80F48,
    dust: I80F48,
    cap: Option<I80F48>,
    keeper_tip: u64,
    pool_lamports: u64,
    rent_exempt_minimum: u64,
    cooldown_seconds: u64,
    min_delay: u64,
    max_delay: u64,
)
    requires
        forall|i: int|
            0 <= i < moves_a.len() ==> post_rates_a[moves_a[i].dst_index as int].bits
                >= post_rates_a[moves_a[i].src_index as int].bits,
        forall|i: int|
            0 <= i < moves_b.len() ==> post_rates_b[moves_b[i].dst_index as int].bits
                >= post_rates_b[moves_b[i].src_index as int].bits,
    ensures
        spec_end_rebalance_outcome(
            record_move_timestamp,
            now,
            moves_a,
            post_rates_a,
            total_moved,
            total_ref_pre,
            dust,
            cap,
            keeper_tip,
            pool_lamports,
            rent_exempt_minimum,
            cooldown_seconds,
            min_delay,
            max_delay,
        ) == spec_end_rebalance_outcome(
            record_move_timestamp,
            now,
            moves_b,
            post_rates_b,
            total_moved,
            total_ref_pre,
            dust,
            cap,
            keeper_tip,
            pool_lamports,
            rent_exempt_minimum,
            cooldown_seconds,
            min_delay,
            max_delay,
        ),
{
}

/// The settle step: refused before the settlement delay has passed since the move; otherwise
/// whether every move realized its improvement (the tip then goes to the keeper, else back to
/// the fee pool).
pub fn settle_rebalance_outcome(
    now: i64,
    move_timestamp: u64,
    settle_delay: u64,
    moves: &Vec<RebalanceMove>,
    current: &Vec<I80F48>,
    at_move: &Vec<I80F48>,
) -> (r: Result<bool, RebalanceError>)
    requires
        moves_in_range(moves@, current.len() as int),
        moves_in_range(moves@, at_move.len() as int),
    ensures
        r == match spec_time_gate(
            now,
            move_timestamp,
            settle_delay,
            RebalanceError::RebalanceSettleTooEarly,
        ) {
            Err(e) => Err(e),
            Ok(_) => spec_settle_realized(moves@, current@, at_move@),
        },
{
    match check_settle_time(now, move_timestamp, settle_delay) {
        Err(e) => {
            return Err(e);
        },
        Ok(()) => {},
    }
    settle_realized(moves, current, at_move)
}

/// Where the escrowed tip goes at the settle step, and what the step reports.
#[derive(Clone, Copy, Debug, PartialEq, Eq, Structural)]
pub struct SettleTransfers {
    /// The record's lamports once the tip has left it.
    pub record: u64,
    /// The recorded executor's lamports (before the record's remaining lamports reach it).
    pub executor: u64,
    /// The fee pool's lamports.
    pub fee_pool: u64,
    /// The tip reported as paid to the keeper: the whole tip when the move realized, else none.
    pub tip_paid: u64,
    /// What the closed record returns to the recorded executor: all its remaining lamports.
    pub rent_to_executor: u64,
}

/// The settle step's lamport moves: the escrowed `pending_tip` leaves the record for the
/// recorded executor when the move realized, and for the fee pool otherwise; then the record is
/// closed and its remaining lamports go to the executor (never to the caller).
pub open spec fn spec_settle_transfers(
    realized: bool,
    pending_tip: u64,
    record: u64,
    executor: u64,
    fee_pool: u64,
) -> Result<SettleTransfers, RebalanceError> {
    let paid = if realized {
        pending_tip
    } else {
        0u64
    };
    if pending_tip == 0 {
        Ok(
            SettleTransfers {
                record,
                executor,
                fee_pool,
                tip_paid: paid,
                rent_to_executor: record,
            },
        )
    } else if pending_tip > record {
        Err(RebalanceError::MathError)
    } else if realized {
        if executor + pending_tip > u64::MAX {
            Err(RebalanceError::MathError)
        } else {
            Ok(
                SettleTransfers {
                    record: (record - pending_tip) as u64,
                    executor: (executor + pending_tip) as u64,
                    fee_pool,
                    tip_paid: paid,
                    rent_to_executor: (record - pending_tip) as u64,
                },
            )
        }
    } else if fee_pool + pending_tip > u64::MAX {
        Err(RebalanceError::MathError)
    } else {
        Ok(
            SettleTransfers {
                record: (record - pending_tip) as u64,
                executor,
                fee_pool: (fee_pool + pending_tip) as u64,
                tip_paid: paid,
                rent_to_executor: (record - pending_tip) as u64,
            },
        )
    }
}

/// Moves the escrowed tip at the settle step; see [`spec_settle_transfers`]. The keeper is paid
/// the tip exactly when the move realized; otherwise the fee pool gets it back.
pub fn settle_transfers(
    realized: bool,
    pending_tip: u64,
    record: u64,
    executor: u64,
    fee_pool: u64,
) -> (r: Result<SettleTransfers, RebalanceError>)
    ensures
        r == spec_settle_transfers(realized, pending_tip, record, executor, fee_pool),
        r matches Ok(t) ==> (realized ==> t.executor == executor + pending_tip && t.fee_pool
            == fee_pool && t.tip_paid == pending_tip) && (!realized ==> t.executor == executor
            && t.fee_pool == fee_pool + pending_tip && t.tip_paid == 0) && t.record + pending_tip
            == record && t.rent_to_executor == t.record,
{
    let paid = if realized {
        pending_tip
    } else {
        0
    };
    if realized {
        match release_escrowed_tip(record, executor, pending_tip) {
            Err(e) => Err(e),
            Ok((rec, exe)) => Ok(
                SettleTransfers {
                    record: rec,
                    executor: exe,
                    fee_pool,
                    tip_paid: paid,
                    rent_to_executor: rec,
                },
            ),
        }
    } else {
        match release_escrowed_tip(record, fee_pool, pending_tip) {
            Err(e) => Err(e),
            Ok((rec, pool)) => Ok(
                SettleTransfers {
                    record: rec,
                    executor,
                    fee_pool: pool,
                    tip_paid: paid,
                    rent_to_executor: rec,
                },
            ),
        }
    }
}

/// What the settle step decides: whether the move realized, and the lamport moves.
#[derive(Clone, Copy, Debug, PartialEq, Eq, Structural)]
pub struct SettleOutcome {
    pub realized: bool,
    pub transfers: SettleTransfers,
}

/// The whole settle step: refused before the settlement delay has passed since the move (or when
/// that time overflows); then the moves are judged on the yield indices, and the escrowed tip goes
/// to the executor when every move realized, else back to the fee pool.
pub fn settle_rebalance_tip(
    now: i64,
    move_timestamp: u64,
    settle_delay: u64,
    moves: &Vec<RebalanceMove>,
    current: &Vec<I80F48>,
    at_move: &Vec<I80F48>,
    pending_tip: u64,
    record: u64,
    executor: u64,
    fee_pool: u64,
) -> (r: Result<SettleOutcome, RebalanceError>)
    requires
        moves_in_range(moves@, current.len() as int),
        moves_in_range(moves@, at_move.len() as int),
    ensures
        r == match spec_time_gate(
            now,
            move_timestamp,
            settle_delay,
            RebalanceError::RebalanceSettleTooEarly,
        ) {
            Err(e) => Err(e),
            Ok(_) => match spec_settle_realized(moves@, current@, at_move@) {
                Err(e) => Err(e),
                Ok(realized) => match spec_settle_transfers(
                    realized,
                    pending_tip,
                    record,
                    executor,
                    fee_pool,
                ) {
                    Err(e) => Err(e),
                    Ok(t) => Ok(SettleOutcome { realized, transfers: t }),
                },
            },
        },
{
    let realized = match settle_rebalance_outcome(
        now,
        move_timestamp,
        settle_delay,
        moves,
        current,
        at_move,
    ) {
        Err(e) => {
            return Err(e);
        },
        Ok(b) => b,
    };
    match settle_transfers(realized, pending_tip, record, executor, fee_pool) {
        Err(e) => Err(e),
        Ok(t) => Ok(SettleOutcome { realized, transfers: t }),
    }
}

} // verus!
