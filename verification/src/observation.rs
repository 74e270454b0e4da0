//! The observation accounts that marginfi's risk engine reads after an instruction: each bank the
//! account touches, followed by that bank's oracle accounts, in the order the program expects
//! (banks in descending address order, an optional closing bank last).
use vstd::prelude::*;
use crate::pubkey::{Pubkey, descending, contains_key, sort_descending};

verus! {

/// How a bank is priced, which decides the oracle accounts it needs.
#[derive(Clone, Copy, Debug, PartialEq, Eq, Structural)]
pub enum OracleSetup {
    NoOracle,
    PythLegacy,
    SwitchboardV2,
    PythPushOracle,
    SwitchboardPull,
    StakedWithPythPush,
    KaminoPythPush,
    KaminoSwitchboardPull,
    Fixed,
    DriftPythPull,
    DriftSwitchboardPull,
    SolendPythPull,
    SolendSwitchboardPull,
    FixedKamino,
    FixedDrift,
    JuplendPythPull,
    JuplendSwitchboardPull,
    FixedJuplend,
}

/// The oracle configuration of a bank.
#[derive(Clone, Copy, Debug)]
pub struct ObservedBank {
    pub oracle_setup: OracleSetup,
    pub oracle_keys: [Pubkey; 5],
}

/// A bank address with its oracle configuration (one entry of the client's bank map).
#[derive(Clone, Copy, Debug)]
pub struct BankEntry {
    pub key: Pubkey,
    pub bank: ObservedBank,
}

/// A balance slot of a marginfi account: the bank it refers to and whether it is in use.
#[derive(Clone, Copy, Debug, PartialEq, Eq, Structural)]
pub struct BalanceRef {
    pub bank_pk: Pubkey,
    pub active: bool,
}

/// An instruction account: address and access flags.
#[derive(Clone, Copy, Debug, PartialEq, Eq, Structural)]
pub struct AccountMeta {
    pub pubkey: Pubkey,
    pub is_signer: bool,
    pub is_writable: bool,
}

/// The oracle keys that a setup uses, before unset (all-zero) keys are dropped.
pub open spec fn selected_oracle_keys(setup: OracleSetup, keys: Seq<Pubkey>) -> Seq<Pubkey> {
    match setup {
        OracleSetup::NoOracle | OracleSetup::Fixed => Seq::empty(),
        OracleSetup::FixedKamino | OracleSetup::FixedDrift | OracleSetup::FixedJuplend => seq![
            keys[1],
        ],
        OracleSetup::StakedWithPythPush => seq![keys[0], keys[1], keys[2]],
        OracleSetup::PythLegacy
        | OracleSetup::SwitchboardV2
        | OracleSetup::PythPushOracle
        | OracleSetup::SwitchboardPull => seq![keys[0]],
        _ => seq![keys[0], keys[1]],
    }
}

pub open spec fn is_default_key(k: Pubkey) -> bool {
    k.hi == 0 && k.lo == 0
}

/// `s` without its all-zero keys, order kept.
pub open spec fn non_default(s: Seq<Pubkey>) -> Seq<Pubkey>
    decreases s.len(),
{
    if s.len() == 0 {
        Seq::empty()
    } else {
        non_default(s.drop_last()) + if is_default_key(s.last()) {
            Seq::empty()
        } else {
            seq![s.last()]
        }
    }
}

/// The oracle accounts the risk engine reads for a bank.
pub open spec fn observation_keys(b: ObservedBank) -> Seq<Pubkey> {
    non_default(selected_oracle_keys(b.oracle_setup, b.oracle_keys@))
}

fn selected_keys(bank: &ObservedBank) -> (r: Vec<Pubkey>)
    ensures
        r@ == selected_oracle_keys(bank.oracle_setup, bank.oracle_keys@),
{
    let keys = &bank.oracle_keys;
    match bank.oracle_setup {
        OracleSetup::NoOracle | OracleSetup::Fixed => Vec::new(),
        OracleSetup::FixedKamino | OracleSetup::FixedDrift | OracleSetup::FixedJuplend => {
            let mut v = Vec::new();
            v.push(keys[1]);
            proof {
                assert(v@ =~= seq![keys@[1]]);
            }
            v
        },
        OracleSetup::StakedWithPythPush => {
            let mut v = Vec::new();
            v.push(keys[0]);
            v.push(keys[1]);
            v.push(keys[2]);
            proof {
                assert(v@ =~= seq![keys@[0], keys@[1], keys@[2]]);
            }
            v
        },
        OracleSetup::PythLegacy
        | OracleSetup::SwitchboardV2
        | OracleSetup::PythPushOracle
        | OracleSetup::SwitchboardPull => {
            let mut v = Vec::new();
            v.push(keys[0]);
            proof {
                assert(v@ =~= seq![keys@[0]]);
            }
            v
        },
        _ => {
            let mut v = Vec::new();
            v.push(keys[0]);
            v.push(keys[1]);
            proof {
                assert(v@ =~= seq![keys@[0], keys@[1]]);
            }
            v
        },
    }
}

/// The oracle accounts the risk engine reads for `bank`: the keys its oracle setup uses, unset
/// keys dropped.
pub fn bank_observation_keys(bank: &ObservedBank) -> (r: Vec<Pubkey>)
    ensures
        r@ == observation_keys(*bank),
{
    let selected = selected_keys(bank);
    let mut out: Vec<Pubkey> = Vec::new();
    let mut i: usize = 0;
    while i < selected.len()
        invariant
            i <= selected.len(),
            out@ == non_default(selected@.take(i as int)),
        decreases selected.len() - i,
    {
        proof {
            assert(selected@.take(i + 1).drop_last() =~= selected@.take(i as int));
        }
        let k = selected[i];
        if !k.is_default() {
            out.push(k);
        }
        proof {
            assert(out@ =~= non_default(selected@.take(i + 1)));
        }
        i = i + 1;
    }
    proof {
        assert(selected@.take(selected@.len() as int) =~= selected@);
    }
    out
}

/// `k` alone, or nothing when it is unset.
pub open spec fn if_set(k: Pubkey) -> Seq<Pubkey> {
    if k.hi == 0 && k.lo == 0 {
        Seq::empty()
    } else {
        seq![k]
    }
}

/// The oracle accounts the risk engine reads, per setup (unset keys always left out): none for
/// `NoOracle` and `Fixed`; the second key for the fixed-price venue setups; the first three for
/// `StakedWithPythPush`; the first key for the single-feed setups (`PythLegacy`, `SwitchboardV2`,
/// `PythPushOracle`, `SwitchboardPull`); and the first two, the feed then the venue's own account,
/// for every integrated-venue setup (Kamino, Drift, Solend and JupLend, Pyth or Switchboard).
pub proof fn law_observation_keys_by_setup(b: ObservedBank)
    ensures
        ({
            let k = b.oracle_keys@;
            match b.oracle_setup {
                OracleSetup::NoOracle | OracleSetup::Fixed => observation_keys(b) == Seq::<
                    Pubkey,
                >::empty(),
                OracleSetup::FixedKamino | OracleSetup::FixedDrift | OracleSetup::FixedJuplend =>
                    observation_keys(b) == if_set(k[1]),
                OracleSetup::StakedWithPythPush => observation_keys(b) == if_set(k[0]) + if_set(
                    k[1],
                ) + if_set(k[2]),
                OracleSetup::PythLegacy
                | OracleSetup::SwitchboardV2
                | OracleSetup::PythPushOracle
                | OracleSetup::SwitchboardPull => observation_keys(b) == if_set(k[0]),
                OracleSetup::KaminoPythPush
                | OracleSetup::KaminoSwitchboardPull
                | OracleSetup::DriftPythPull
                | OracleSetup::DriftSwitchboardPull
                | OracleSetup::SolendPythPull
                | OracleSetup::SolendSwitchboardPull
                | OracleSetup::JuplendPythPull
                | OracleSetup::JuplendSwitchboardPull => observation_keys(b) == if_set(k[0])
                    + if_set(k[1]),
            }
        }),
{
    let k = b.oracle_keys@;
    let sel = selected_oracle_keys(b.oracle_setup, k);
    reveal_with_fuel(non_default, 4);
    if sel.len() == 1 {
        assert(sel.drop_last() =~= Seq::<Pubkey>::empty());
        assert(non_default(sel) =~= if_set(sel[0]));
    } else if sel.len() == 2 {
        assert(sel.drop_last() =~= seq![sel[0]]);
        assert(sel.drop_last().drop_last() =~= Seq::<Pubkey>::empty());
        assert(non_default(sel) =~= if_set(sel[0]) + if_set(sel[1]));
    } else if sel.len() == 3 {
        assert(sel.drop_last() =~= seq![sel[0], sel[1]]);
        assert(sel.drop_last().drop_last() =~= seq![sel[0]]);
        assert(sel.drop_last().drop_last().drop_last() =~= Seq::<Pubkey>::empty());
        assert(non_default(sel) =~= if_set(sel[0]) + if_set(sel[1]) + if_set(sel[2]));
    } else {
        assert(non_default(sel) =~= Seq::<Pubkey>::empty());
    }
}

/// Bank addresses of the active balances, in slot order.
pub open spec fn active_bank_pks(b: Seq<BalanceRef>) -> Seq<Pubkey>
    decreases b.len(),
{
    if b.len() == 0 {
        Seq::empty()
    } else {
        active_bank_pks(b.drop_last()) + if b.last().active {
            seq![b.last().bank_pk]
        } else {
            Seq::empty()
        }
    }
}

/// `cur` extended, in order, by each key of `incs` that it does not yet hold.
pub open spec fn add_missing(cur: Seq<Pubkey>, incs: Seq<Pubkey>) -> Seq<Pubkey>
    decreases incs.len(),
{
    if incs.len() == 0 {
        cur
    } else {
        let next = if cur.contains(incs[0]) {
            cur
        } else {
            cur.push(incs[0])
        };
        add_missing(next, incs.drop_first())
    }
}

/// `s` without the keys in `excl`, order kept.
pub open spec fn without(s: Seq<Pubkey>, excl: Seq<Pubkey>) -> Seq<Pubkey>
    decreases s.len(),
{
    if s.len() == 0 {
        Seq::empty()
    } else {
        without(s.drop_last(), excl) + if excl.contains(s.last()) {
            Seq::empty()
        } else {
            seq![s.last()]
        }
    }
}

/// The banks whose observation accounts are passed: the active balances' banks plus the added
/// ones, minus the excluded ones, sorted in descending address order, with `close_bank_last` (when
/// it is among them) moved to the end.
pub open spec fn spec_observation_bank_pks(
    balances: Seq<BalanceRef>,
    added: Seq<Pubkey>,
    exclude: Seq<Pubkey>,
    close_bank_last: Option<Pubkey>,
) -> Seq<Pubkey> {
    let s = without(add_missing(active_bank_pks(balances), added), exclude);
    match close_bank_last {
        Some(c) => if s.contains(c) {
            s.remove_value(c).sort_by(descending()).push(c)
        } else {
            s.sort_by(descending())
        },
        None => s.sort_by(descending()),
    }
}

/// The banks of the observation set; see [`spec_observation_bank_pks`].
pub fn collect_observation_bank_pks(
    balances: &Vec<BalanceRef>,
    added_banks: Vec<Pubkey>,
    exclude_banks: Vec<Pubkey>,
    close_bank_last: Option<Pubkey>,
) -> (r: Vec<Pubkey>)
    ensures
        r@ == spec_observation_bank_pks(
            balances@,
            added_banks@,
            exclude_banks@,
            close_bank_last,
        ),
{
    let mut bank_pks: Vec<Pubkey> = Vec::new();
    let mut i: usize = 0;
    while i < balances.len()
        invariant
            i <= balances.len(),
            bank_pks@ == active_bank_pks(balances@.take(i as int)),
        decreases balances.len() - i,
    {
        proof {
            assert(balances@.take(i + 1).drop_last() =~= balances@.take(i as int));
        }
        if balances[i].active {
            bank_pks.push(balances[i].bank_pk);
        }
        proof {
            assert(bank_pks@ =~= active_bank_pks(balances@.take(i + 1)));
        }
        i = i + 1;
    }
    proof {
        assert(balances@.take(balances@.len() as int) =~= balances@);
    }
    let ghost base = bank_pks@;
    proof {
        assert(added_banks@.skip(0) =~= added_banks@);
    }
    let mut j: usize = 0;
    while j < added_banks.len()
        invariant
            j <= added_banks.len(),
            add_missing(base, added_banks@) == add_missing(
                bank_pks@,
                added_banks@.skip(j as int),
            ),
        decreases added_banks.len() - j,
    {
        proof {
            assert(added_banks@.skip(j as int).drop_first() =~= added_banks@.skip(j + 1));
            assert(added_banks@.skip(j as int)[0] == added_banks@[j as int]);
        }
        let k = added_banks[j];
        if !contains_key(&bank_pks, &k) {
            bank_pks.push(k);
        }
        j = j + 1;
    }
    proof {
        assert(added_banks@.skip(added_banks@.len() as int) =~= Seq::<Pubkey>::empty());
    }
    let ghost added = bank_pks@;
    let mut kept: Vec<Pubkey> = Vec::new();
    let mut k: usize = 0;
    while k < bank_pks.len()
        invariant
            k <= bank_pks.len(),
            bank_pks@ == added,
            kept@ == without(added.take(k as int), exclude_banks@),
        decreases bank_pks.len() - k,
    {
        proof {
            assert(added.take(k + 1).drop_last() =~= added.take(k as int));
        }
        let key = bank_pks[k];
        if !contains_key(&exclude_banks, &key) {
            kept.push(key);
        }
        proof {
            assert(kept@ =~= without(added.take(k + 1), exclude_banks@));
        }
        k = k + 1;
    }
    proof {
        assert(added.take(added.len() as int) =~= added);
    }
    let ghost s = kept@;
    let mut close_last: Option<Pubkey> = None;
    match close_bank_last {
        Some(close_bank) => {
            let p = position_of(&kept, &close_bank);
            if p < kept.len() {
                proof {
                    s.index_of_first_ensures(close_bank);
                    assert(s.contains(close_bank)) by {
                        assert(s[p as int] == close_bank);
                    }
                    let idx = s.index_of_first(close_bank).unwrap();
                    assert(idx == p as int) by {
                        if idx < p {
                        } else if idx > p {
                            assert(s[p as int] == close_bank);
                        }
                    }
                }
                let removed = kept.remove(p);
                close_last = Some(removed);
            } else {
                proof {
                    assert(!s.contains(close_bank));
                }
            }
        },
        None => {},
    }
    let mut sorted = sort_descending(kept);
    match close_last {
        Some(c) => {
            sorted.push(c);
        },
        None => {},
    }
    sorted
}

/// `keys` as read-only, non-signer account metas.
pub open spec fn readonly_metas(keys: Seq<Pubkey>) -> Seq<AccountMeta>
    decreases keys.len(),
{
    if keys.len() == 0 {
        Seq::empty()
    } else {
        readonly_metas(keys.drop_last()).push(
            AccountMeta { pubkey: keys.last(), is_signer: false, is_writable: false },
        )
    }
}

/// The first entry of `m` for key `k`.
pub open spec fn lookup(m: Seq<BankEntry>, k: Pubkey) -> Option<ObservedBank>
    decreases m.len(),
{
    if m.len() == 0 {
        None
    } else if m[0].key == k {
        Some(m[0].bank)
    } else {
        lookup(m.drop_first(), k)
    }
}

/// Metas for the banks `pks` in order: each bank found in `m` (others are skipped), then, unless
/// `banks_only`, its oracle accounts read-only.
pub open spec fn metas_of(
    pks: Seq<Pubkey>,
    m: Seq<BankEntry>,
    banks_writable: bool,
    banks_only: bool,
) -> Seq<AccountMeta>
    decreases pks.len(),
{
    if pks.len() == 0 {
        Seq::empty()
    } else {
        metas_of(pks.drop_last(), m, banks_writable, banks_only) + match lookup(m, pks.last()) {
            None => Seq::empty(),
            Some(b) => seq![
                AccountMeta {
                    pubkey: pks.last(),
                    is_signer: false,
                    is_writable: banks_writable,
                },
            ] + if banks_only {
                Seq::empty()
            } else {
                readonly_metas(observation_keys(b))
            },
        }
    }
}

/// The first index of `k` in `v`, or `v.len()` when `v` does not hold it.
fn position_of(v: &Vec<Pubkey>, k: &Pubkey) -> (r: usize)
    ensures
        r <= v.len(),
        r < v.len() ==> v@[r as int] == *k,
        forall|q: int| 0 <= q < r ==> v@[q] != *k,
{
    let mut p: usize = 0;
    while p < v.len()
        invariant_except_break
            p <= v.len(),
            forall|q: int| 0 <= q < p ==> v@[q] != *k,
        ensures
            p <= v.len(),
            p < v.len() ==> v@[p as int] == *k,
            forall|q: int| 0 <= q < p ==> v@[q] != *k,
        decreases v.len() - p,
    {
        if v[p] == *k {
            break;
        }
        p = p + 1;
    }
    p
}

fn find_bank(banks_map: &Vec<BankEntry>, k: &Pubkey) -> (r: Option<ObservedBank>)
    ensures
        r == lookup(banks_map@, *k),
{
    proof {
        assert(banks_map@.skip(0) =~= banks_map@);
    }
    let mut i: usize = 0;
    while i < banks_map.len()
        invariant
            i <= banks_map.len(),
            lookup(banks_map@, *k) == lookup(banks_map@.skip(i as int), *k),
        decreases banks_map.len() - i,
    {
        proof {
            assert(banks_map@.skip(i as int).drop_first() =~= banks_map@.skip(i + 1));
            assert(banks_map@.skip(i as int)[0] == banks_map@[i as int]);
        }
        if banks_map[i].key == *k {
            return Some(banks_map[i].bank);
        }
        i = i + 1;
    }
    None
}

/// Read-only metas for `keys`.
fn push_readonly_metas(out: &mut Vec<AccountMeta>, keys: &Vec<Pubkey>)
    ensures
        final(out)@ == old(out)@ + readonly_metas(keys@),
{
    let ghost start = out@;
    let mut i: usize = 0;
    while i < keys.len()
        invariant
            i <= keys.len(),
            out@ == start + readonly_metas(keys@.take(i as int)),
        decreases keys.len() - i,
    {
        proof {
            assert(keys@.take(i + 1).drop_last() =~= keys@.take(i as int));
        }
        out.push(AccountMeta { pubkey: keys[i], is_signer: false, is_writable: false });
        proof {
            assert(out@ =~= start + readonly_metas(keys@.take(i + 1)));
        }
        i = i + 1;
    }
    proof {
        assert(keys@.take(keys@.len() as int) =~= keys@);
    }
}

/// The observation metas: the banks of [`spec_observation_bank_pks`] that the map holds, each
/// followed (unless `banks_only`) by its oracle accounts.
pub open spec fn spec_observation_metas(
    balances: Seq<BalanceRef>,
    banks_map: Seq<BankEntry>,
    added: Seq<Pubkey>,
    exclude: Seq<Pubkey>,
    close_bank_last: Option<Pubkey>,
    banks_writable: bool,
    banks_only: bool,
) -> Seq<AccountMeta> {
    metas_of(
        spec_observation_bank_pks(balances, added, exclude, close_bank_last),
        banks_map,
        banks_writable,
        banks_only,
    )
}

fn load_observation_account_metas_impl(
    balances: &Vec<BalanceRef>,
    banks_map: &Vec<BankEntry>,
    added_banks: Vec<Pubkey>,
    exclude_banks: Vec<Pubkey>,
    close_bank_last: Option<Pubkey>,
    banks_writable: bool,
    banks_only: bool,
) -> (r: Vec<AccountMeta>)
    ensures
        r@ == spec_observation_metas(
            balances@,
            banks_map@,
            added_banks@,
            exclude_banks@,
            close_bank_last,
            banks_writable,
            banks_only,
        ),
{
    let bank_pks = collect_observation_bank_pks(
        balances,
        added_banks,
        exclude_banks,
        close_bank_last,
    );
    let mut account_metas: Vec<AccountMeta> = Vec::new();
    let mut i: usize = 0;
    while i < bank_pks.len()
        invariant
            i <= bank_pks.len(),
            account_metas@ == metas_of(
                bank_pks@.take(i as int),
                banks_map@,
                banks_writable,
                banks_only,
            ),
        decreases bank_pks.len() - i,
    {
        proof {
            assert(bank_pks@.take(i + 1).drop_last() =~= bank_pks@.take(i as int));
        }
        let bank_pk = bank_pks[i];
        let ghost before = account_metas@;
        match find_bank(banks_map, &bank_pk) {
            None => {
                proof {
                    assert(account_metas@ =~= metas_of(
                        bank_pks@.take(i + 1),
                        banks_map@,
                        banks_writable,
                        banks_only,
                    ));
                }
            },
            Some(bank) => {
                account_metas.push(
                    AccountMeta { pubkey: bank_pk, is_signer: false, is_writable: banks_writable },
                );
                if !banks_only {
                    let keys = bank_observation_keys(&bank);
                    push_readonly_metas(&mut account_metas, &keys);
                }
                proof {
                    assert(account_metas@ =~= metas_of(
                        bank_pks@.take(i + 1),
                        banks_map@,
                        banks_writable,
                        banks_only,
                    ));
                }
            },
        }
        i = i + 1;
    }
    proof {
        assert(bank_pks@.take(bank_pks@.len() as int) =~= bank_pks@);
    }
    account_metas
}

/// Observation metas with read-only banks and their oracles.
pub fn load_observation_account_metas(
    balances: &Vec<BalanceRef>,
    banks_map: &Vec<BankEntry>,
    added_banks: Vec<Pubkey>,
    exclude_banks: Vec<Pubkey>,
) -> (r: Vec<AccountMeta>)
    ensures
        r@ == spec_observation_metas(
            balances@,
            banks_map@,
            added_banks@,
            exclude_banks@,
            None,
            false,
            false,
        ),
{
    load_observation_account_metas_impl(
        balances,
        banks_map,
        added_banks,
        exclude_banks,
        None,
        false,
        false,
    )
}

/// Observation metas with `close_bank` (if observed) placed last.
pub fn load_observation_account_metas_close_last(
    balances: &Vec<BalanceRef>,
    banks_map: &Vec<BankEntry>,
    added_banks: Vec<Pubkey>,
    exclude_banks: Vec<Pubkey>,
    close_bank: Pubkey,
) -> (r: Vec<AccountMeta>)
    ensures
        r@ == spec_observation_metas(
            balances@,
            banks_map@,
            added_banks@,
            exclude_banks@,
            Some(close_bank),
            false,
            false,
        ),
{
    load_observation_account_metas_impl(
        balances,
        banks_map,
        added_banks,
        exclude_banks,
        Some(close_bank),
        false,
        false,
    )
}

/// Observation metas whose bank entries are writable when `banks_writable`.
pub fn load_observation_account_metas_with_bank_writable(
    balances: &Vec<BalanceRef>,
    banks_map: &Vec<BankEntry>,
    added_banks: Vec<Pubkey>,
    exclude_banks: Vec<Pubkey>,
    banks_writable: bool,
) -> (r: Vec<AccountMeta>)
    ensures
        r@ == spec_observation_metas(
            balances@,
            banks_map@,
            added_banks@,
            exclude_banks@,
            None,
            banks_writable,
            false,
        ),
{
    load_observation_account_metas_impl(
        balances,
        banks_map,
        added_banks,
        exclude_banks,
        None,
        banks_writable,
        false,
    )
}

/// Observation metas of the banks alone, without their oracles.
pub fn load_observation_bank_only_metas(
    balances: &Vec<BalanceRef>,
    banks_map: &Vec<BankEntry>,
    added_banks: Vec<Pubkey>,
    exclude_banks: Vec<Pubkey>,
    banks_writable: bool,
) -> (r: Vec<AccountMeta>)
    ensures
        r@ == spec_observation_metas(
            balances@,
            banks_map@,
            added_banks@,
            exclude_banks@,
            None,
            banks_writable,
            true,
        ),
{
    load_observation_account_metas_impl(
        balances,
        banks_map,
        added_banks,
        exclude_banks,
        None,
        banks_writable,
        true,
    )
}

/// Read-only metas of a bank's oracle accounts.
pub fn load_bank_oracle_account_metas(bank: &ObservedBank) -> (r: Vec<AccountMeta>)
    ensures
        r@ == readonly_metas(observation_keys(*bank)),
{
    let keys = bank_observation_keys(bank);
    let mut out: Vec<AccountMeta> = Vec::new();
    push_readonly_metas(&mut out, &keys);
    proof {
        assert(out@ =~= readonly_metas(keys@));
    }
    out
}

} // verus!
