//! How an integration instruction lays out a venue's protocol accounts: the bank's own
//! integration accounts go to fixed slots, and the caller's remaining accounts fill the others in
//! order.
use vstd::prelude::*;

verus! {

/// Why the protocol accounts cannot be laid out.
#[derive(Clone, Copy, Debug, PartialEq, Eq, Structural)]
pub enum LayoutError {
    /// A slot names an integration account that was not passed.
    IntegrationAccountKeyMismatch,
    /// The remaining accounts ran out before every slot was filled.
    IntegrationAccountCountMismatch,
}

/// The integration account number (1 to 3) of the first slot entry for position `slot`, if any.
pub open spec fn slot_account(slots: Seq<(usize, u8)>, slot: int) -> Option<u8>
    decreases slots.len(),
{
    if slots.len() == 0 {
        None
    } else if slots[0].0 == slot {
        Some(slots[0].1)
    } else {
        slot_account(slots.drop_first(), slot)
    }
}

/// Every slot entry names integration account 1, 2 or 3.
pub open spec fn slots_well_formed(slots: Seq<(usize, u8)>) -> bool {
    forall|i: int| 0 <= i < slots.len() ==> 1 <= #[trigger] slots[i].1 <= 3
}

/// Laying out positions `slot..total` after `acc`, with the filler accounts from position
/// `filler` of `remaining` on.
pub open spec fn assemble_from<T>(
    slots: Seq<(usize, u8)>,
    total: int,
    integration_accounts: Seq<Option<T>>,
    remaining: Seq<T>,
    slot: int,
    filler: int,
    acc: Seq<T>,
) -> Result<Seq<T>, LayoutError>
    decreases total - slot,
{
    if slot >= total {
        Ok(acc)
    } else {
        match slot_account(slots, slot) {
            Some(n) => match integration_accounts[n - 1] {
                Some(a) => assemble_from(
                    slots,
                    total,
                    integration_accounts,
                    remaining,
                    slot + 1,
                    filler,
                    acc.push(a),
                ),
                None => Err(LayoutError::IntegrationAccountKeyMismatch),
            },
            None => if filler < remaining.len() {
                assemble_from(
                    slots,
                    total,
                    integration_accounts,
                    remaining,
                    slot + 1,
                    filler + 1,
                    acc.push(remaining[filler]),
                )
            } else {
                Err(LayoutError::IntegrationAccountCountMismatch)
            },
        }
    }
}

proof fn lemma_slot_account_in_range(slots: Seq<(usize, u8)>, slot: int)
    requires
        slots_well_formed(slots),
    ensures
        slot_account(slots, slot) matches Some(n) ==> 1 <= n <= 3,
    decreases slots.len(),
{
    if slots.len() > 0 && slots[0].0 != slot {
        assert forall|i: int| 0 <= i < slots.drop_first().len() implies 1 <= #[trigger] slots.drop_first()[i].1 <= 3 by {
            assert(slots.drop_first()[i] == slots[i + 1]);
        }
        lemma_slot_account_in_range(slots.drop_first(), slot);
    }
}

/// A layout that succeeds has one account per position, and each slotted position holds the
/// integration account its slot names.
pub proof fn lemma_assemble_shape<T>(
    slots: Seq<(usize, u8)>,
    total: int,
    integration_accounts: Seq<Option<T>>,
    remaining: Seq<T>,
    slot: int,
    filler: int,
    acc: Seq<T>,
)
    requires
        acc.len() == slot,
        0 <= slot <= total,
        assemble_from(slots, total, integration_accounts, remaining, slot, filler, acc) is Ok,
    ensures
        ({
            let out = assemble_from(slots, total, integration_accounts, remaining, slot, filler, acc)->Ok_0;
            &&& out.len() == total
            &&& forall|p: int| 0 <= p < slot ==> out[p] == acc[p]
            &&& forall|p: int|
                slot <= p < total && slot_account(slots, p) is Some ==> Some(out[p])
                    == integration_accounts[slot_account(slots, p)->Some_0 - 1]
        }),
    decreases total - slot,
{
    if slot < total {
        let next = match slot_account(slots, slot) {
            Some(n) => acc.push(integration_accounts[n - 1]->Some_0),
            None => acc.push(remaining[filler]),
        };
        let next_filler = match slot_account(slots, slot) {
            Some(n) => filler,
            None => filler + 1,
        };
        lemma_assemble_shape(slots, total, integration_accounts, remaining, slot + 1, next_filler, next);
    }
}

fn find_slot(slots: &Vec<(usize, u8)>, slot: usize) -> (r: Option<u8>)
    ensures
        r == slot_account(slots@, slot as int),
{
    proof {
        assert(slots@.skip(0) =~= slots@);
    }
    let mut i: usize = 0;
    while i < slots.len()
        invariant
            i <= slots.len(),
            slot_account(slots@, slot as int) == slot_account(slots@.skip(i as int), slot as int),
        decreases slots.len() - i,
    {
        proof {
            assert(slots@.skip(i as int).drop_first() =~= slots@.skip(i + 1));
            assert(slots@.skip(i as int)[0] == slots@[i as int]);
        }
        let (s, n) = slots[i];
        if s == slot {
            return Some(n);
        }
        i = i + 1;
    }
    None
}

/// Weaves the bank's integration accounts into the venue's protocol account layout: position
/// `s` of a slot entry `(s, n)` takes integration account `n` (which must have been passed);
/// every other position of `0..total` takes the next of `remaining`, which must not run out.
pub fn assemble_protocol_accounts<T: Copy>(
    slots: &Vec<(usize, u8)>,
    total: usize,
    integration_accounts: [Option<T>; 3],
    remaining: &Vec<T>,
) -> (r: Result<Vec<T>, LayoutError>)
    requires
        slots_well_formed(slots@),
    ensures
        r matches Ok(v) ==> assemble_from(
            slots@,
            total as int,
            integration_accounts@,
            remaining@,
            0,
            0,
            Seq::empty(),
        ) == Ok::<Seq<T>, LayoutError>(v@),
        r matches Err(e) ==> assemble_from(
            slots@,
            total as int,
            integration_accounts@,
            remaining@,
            0,
            0,
            Seq::empty(),
        ) == Err::<Seq<T>, LayoutError>(e),
        r matches Ok(v) ==> v.len() == total && forall|p: int|
            0 <= p < total && slot_account(slots@, p) is Some ==> Some(v@[p])
                == integration_accounts@[slot_account(slots@, p)->Some_0 - 1],
{
    let mut assembled: Vec<T> = Vec::new();
    let mut filler: usize = 0;
    let mut slot: usize = 0;
    while slot < total
        invariant
            slot <= total,
            filler <= remaining.len(),
            slots_well_formed(slots@),
            assemble_from(
                slots@,
                total as int,
                integration_accounts@,
                remaining@,
                0,
                0,
                Seq::empty(),
            ) == assemble_from(
                slots@,
                total as int,
                integration_accounts@,
                remaining@,
                slot as int,
                filler as int,
                assembled@,
            ),
        decreases total - slot,
    {
        proof {
            lemma_slot_account_in_range(slots@, slot as int);
        }
        match find_slot(slots, slot) {
            Some(n) => {
                let k: usize = n as usize - 1;
                match integration_accounts[k] {
                    Some(a) => {
                        assembled.push(a);
                    },
                    None => {
                        return Err(LayoutError::IntegrationAccountKeyMismatch);
                    },
                }
            },
            None => {
                if filler < remaining.len() {
                    assembled.push(remaining[filler]);
                    filler = filler + 1;
                } else {
                    return Err(LayoutError::IntegrationAccountCountMismatch);
                }
            },
        }
        slot = slot + 1;
    }
    proof {
        lemma_assemble_shape(
            slots@,
            total as int,
            integration_accounts@,
            remaining@,
            0,
            0,
            Seq::empty(),
        );
    }
    Ok(assembled)
}

/// For a withdraw, the number of remaining accounts that fill the protocol layout (`total` less
/// the slotted ones); the accounts after them are the oracles. There must be that many.
pub fn withdraw_filler_count(remaining_len: usize, total: usize, slot_count: usize) -> (r: Result<
    usize,
    LayoutError,
>)
    requires
        slot_count <= total,
    ensures
        r == if remaining_len >= total - slot_count {
            Ok((total - slot_count) as usize)
        } else {
            Err(LayoutError::IntegrationAccountCountMismatch)
        },
{
    let filler_count = total - slot_count;
    if remaining_len >= filler_count {
        Ok(filler_count)
    } else {
        Err(LayoutError::IntegrationAccountCountMismatch)
    }
}

} // verus!
