//! The client's oracle-age report: which banks have a push feed, how old each feed's last update
//! is against the age its bank allows, and the order the report lists them in.
use vstd::prelude::*;
use vstd::multiset::Multiset;
use crate::pubkey::Pubkey;
use crate::observation::{ObservedBank, OracleSetup, is_default_key};

verus! {

/// The kind of push feed a bank reads.
#[derive(Clone, Copy, Debug, PartialEq, Eq, Structural)]
pub enum OracleFeedKind {
    /// A Pyth push feed (`PythPushOracle`, `KaminoPythPush`, `StakedWithPythPush`).
    PythPush,
    /// A Switchboard pull feed (`SwitchboardPull`).
    SwitchboardPull,
}

/// The first set (non-zero) key of `keys`, if any.
pub open spec fn first_set_key(keys: Seq<Pubkey>) -> Option<Pubkey>
    decreases keys.len(),
{
    if keys.len() == 0 {
        None
    } else if !is_default_key(keys[0]) {
        Some(keys[0])
    } else {
        first_set_key(keys.drop_first())
    }
}

/// The feed the report reads for a bank: its kind, by the bank's oracle setup, and its first set
/// oracle key. Banks without a set key, or with another setup, have none.
pub open spec fn spec_oracle_feed(bank: ObservedBank) -> Option<(OracleFeedKind, Pubkey)> {
    match first_set_key(bank.oracle_keys@) {
        None => None,
        Some(k) => match bank.oracle_setup {
            OracleSetup::PythPushOracle
            | OracleSetup::KaminoPythPush
            | OracleSetup::StakedWithPythPush => Some((OracleFeedKind::PythPush, k)),
            OracleSetup::SwitchboardPull => Some((OracleFeedKind::SwitchboardPull, k)),
            _ => None,
        },
    }
}

/// The feed the report reads for `bank`; see [`spec_oracle_feed`].
pub fn oracle_feed_of(bank: &ObservedBank) -> (r: Option<(OracleFeedKind, Pubkey)>)
    ensures
        r == spec_oracle_feed(*bank),
{
    let keys = &bank.oracle_keys;
    proof {
        assert(keys@.skip(0) =~= keys@);
    }
    let mut i: usize = 0;
    let mut first: Option<Pubkey> = None;
    while i < 5
        invariant_except_break
            i <= 5,
            first is None,
            first_set_key(keys@) == first_set_key(keys@.skip(i as int)),
        ensures
            first == first_set_key(keys@),
        decreases 5 - i,
    {
        proof {
            assert(keys@.skip(i as int).drop_first() =~= keys@.skip(i + 1));
            assert(keys@.skip(i as int)[0] == keys@[i as int]);
        }
        if !keys[i].is_default() {
            first = Some(keys[i]);
            break;
        }
        i = i + 1;
    }
    proof {
        if first is None {
            assert(keys@.skip(5) =~= Seq::<Pubkey>::empty());
        }
    }
    match first {
        None => None,
        Some(k) => match bank.oracle_setup {
            OracleSetup::PythPushOracle
            | OracleSetup::KaminoPythPush
            | OracleSetup::StakedWithPythPush => Some((OracleFeedKind::PythPush, k)),
            OracleSetup::SwitchboardPull => Some((OracleFeedKind::SwitchboardPull, k)),
            _ => None,
        },
    }
}

/// The report reads a bank through its first set oracle key: a Pyth push feed for the
/// `PythPushOracle`, `KaminoPythPush` and `StakedWithPythPush` setups, a Switchboard pull feed for
/// `SwitchboardPull`, and no feed for any other setup.
pub proof fn law_oracle_feed_by_setup(bank: ObservedBank, j: int)
    requires
        0 <= j < 5,
        !is_default_key(bank.oracle_keys@[j]),
        forall|k: int| 0 <= k < j ==> is_default_key(bank.oracle_keys@[k]),
    ensures
        (bank.oracle_setup == OracleSetup::PythPushOracle || bank.oracle_setup
            == OracleSetup::KaminoPythPush || bank.oracle_setup == OracleSetup::StakedWithPythPush)
            ==> spec_oracle_feed(bank) == Some((OracleFeedKind::PythPush, bank.oracle_keys@[j])),
        bank.oracle_setup == OracleSetup::SwitchboardPull ==> spec_oracle_feed(bank) == Some(
            (OracleFeedKind::SwitchboardPull, bank.oracle_keys@[j]),
        ),
        !(bank.oracle_setup == OracleSetup::PythPushOracle || bank.oracle_setup
            == OracleSetup::KaminoPythPush || bank.oracle_setup == OracleSetup::StakedWithPythPush
            || bank.oracle_setup == OracleSetup::SwitchboardPull) ==> spec_oracle_feed(bank)
            is None,
{
    lemma_first_set_key_at(bank.oracle_keys@, j);
}

/// A bank whose oracle keys are all unset has no feed in the report.
pub proof fn law_oracle_feed_needs_a_set_key(bank: ObservedBank)
    requires
        forall|k: int| 0 <= k < 5 ==> is_default_key(bank.oracle_keys@[k]),
    ensures
        spec_oracle_feed(bank) is None,
{
    lemma_first_set_key_none(bank.oracle_keys@);
}

proof fn lemma_first_set_key_at(keys: Seq<Pubkey>, j: int)
    requires
        0 <= j < keys.len(),
        !is_default_key(keys[j]),
        forall|k: int| 0 <= k < j ==> is_default_key(keys[k]),
    ensures
        first_set_key(keys) == Some(keys[j]),
    decreases j,
{
    if j > 0 {
        assert(is_default_key(keys[0]));
        lemma_first_set_key_at(keys.drop_first(), j - 1);
    }
}

proof fn lemma_first_set_key_none(keys: Seq<Pubkey>)
    requires
        forall|k: int| 0 <= k < keys.len() ==> is_default_key(keys[k]),
    ensures
        first_set_key(keys) is None,
    decreases keys.len(),
{
    if keys.len() > 0 {
        assert(is_default_key(keys[0]));
        lemma_first_set_key_none(keys.drop_first());
    }
}

/// One line of the report: a feed's age and the age its bank allows, in seconds, and the bank's
/// mint.
#[derive(Clone, Copy, Debug, PartialEq, Eq, Structural)]
pub struct OracleAgeRow {
    pub age_secs: i64,
    pub allowed_secs: u64,
    pub mint: Pubkey,
}

/// A feed last updated at `publish_time`, read at `now`, for a bank allowing `max_age` seconds
/// (0 meaning one minute).
pub fn oracle_age_row(now: i64, publish_time: i64, max_age: u16, mint: Pubkey) -> (r: OracleAgeRow)
    requires
        i64::MIN <= now - publish_time <= i64::MAX,
    ensures
        r.age_secs == now - publish_time,
        r.allowed_secs == if max_age == 0 {
            60
        } else {
            max_age as int
        },
        r.mint == mint,
{
    let allowed: u64 = if max_age == 0 {
        60
    } else {
        max_age as u64
    };
    OracleAgeRow { age_secs: now - publish_time, allowed_secs: allowed, mint }
}

/// A feed is stale once its age reaches the allowed age.
pub open spec fn row_stale(row: OracleAgeRow) -> bool {
    row.age_secs >= row.allowed_secs
}

/// Whether the row's feed is stale.
pub fn is_stale(row: &OracleAgeRow) -> (r: bool)
    ensures
        r == row_stale(*row),
{
    row.age_secs >= 0 && row.age_secs as u64 >= row.allowed_secs
}

/// The rows `rows` keeps: all of them, or only the stale ones.
pub open spec fn kept(rows: Seq<OracleAgeRow>, only_stale: bool) -> Seq<OracleAgeRow> {
    if only_stale {
        rows.filter(|r: OracleAgeRow| row_stale(r))
    } else {
        rows
    }
}

/// The rows are listed oldest feed first.
pub open spec fn oldest_first(rows: Seq<OracleAgeRow>) -> bool {
    forall|i: int, j: int| 0 <= i < j < rows.len() ==> #[trigger] rows[i].age_secs >= #[trigger] rows[j].age_secs
}

/// `row` placed into `rows` before the first row of a smaller age (after every row at least as
/// old).
pub open spec fn insert_by_age(row: OracleAgeRow, rows: Seq<OracleAgeRow>) -> Seq<OracleAgeRow>
    decreases rows.len(),
{
    if rows.len() == 0 {
        seq![row]
    } else if row.age_secs > rows[0].age_secs {
        seq![row] + rows
    } else {
        seq![rows[0]] + insert_by_age(row, rows.drop_first())
    }
}

/// `rows` sorted oldest feed first, rows of equal age kept in their order (a stable sort).
pub open spec fn by_age(rows: Seq<OracleAgeRow>) -> Seq<OracleAgeRow>
    decreases rows.len(),
{
    if rows.len() == 0 {
        Seq::empty()
    } else {
        insert_by_age(rows.last(), by_age(rows.drop_last()))
    }
}

/// Inserting goes before the first row of a smaller age.
proof fn lemma_insert_by_age_at(row: OracleAgeRow, rows: Seq<OracleAgeRow>, k: int)
    requires
        0 <= k <= rows.len(),
        forall|j: int| 0 <= j < k ==> rows[j].age_secs >= row.age_secs,
        k < rows.len() ==> rows[k].age_secs < row.age_secs,
    ensures
        insert_by_age(row, rows) == rows.take(k) + seq![row] + rows.skip(k),
    decreases rows.len(),
{
    if rows.len() == 0 {
        assert(rows.take(k) + seq![row] + rows.skip(k) =~= seq![row]);
    } else if k == 0 {
        assert(rows.take(0) + seq![row] + rows.skip(0) =~= seq![row] + rows);
    } else {
        let rest = rows.drop_first();
        assert forall|j: int| 0 <= j < k - 1 implies rest[j].age_secs >= row.age_secs by {
            assert(rest[j] == rows[j + 1]);
        }
        if k - 1 < rest.len() {
            assert(rest[k - 1] == rows[k]);
        }
        lemma_insert_by_age_at(row, rest, k - 1);
        assert(seq![rows[0]] + (rest.take(k - 1) + seq![row] + rest.skip(k - 1)) =~= rows.take(k)
            + seq![row] + rows.skip(k));
    }
}

/// Inserting into rows listed oldest first keeps them so, and adds the row once.
proof fn lemma_insert_by_age_sorted(row: OracleAgeRow, rows: Seq<OracleAgeRow>)
    requires
        oldest_first(rows),
    ensures
        oldest_first(insert_by_age(row, rows)),
        insert_by_age(row, rows).to_multiset() == rows.to_multiset().insert(row),
    decreases rows.len(),
{
    broadcast use vstd::seq_lib::group_to_multiset_ensures;

    if rows.len() == 0 {
        assert(seq![row].to_multiset() =~= Multiset::empty().insert(row)) by {
            vstd::seq_lib::to_multiset_build(Seq::<OracleAgeRow>::empty(), row);
            assert(Seq::<OracleAgeRow>::empty().push(row) =~= seq![row]);
        }
    } else if row.age_secs > rows[0].age_secs {
        let out = seq![row] + rows;
        assert forall|i: int, j: int| 0 <= i < j < out.len() implies #[trigger] out[i].age_secs
            >= #[trigger] out[j].age_secs by {
            if i > 0 {
                assert(out[i] == rows[i - 1]);
                assert(out[j] == rows[j - 1]);
            } else {
                assert(out[j] == rows[j - 1]);
                assert(rows[0].age_secs >= rows[j - 1].age_secs || j - 1 == 0);
            }
        }
        vstd::seq_lib::lemma_multiset_commutative(seq![row], rows);
        assert(seq![row].to_multiset() =~= Multiset::empty().insert(row)) by {
            vstd::seq_lib::to_multiset_build(Seq::<OracleAgeRow>::empty(), row);
            assert(Seq::<OracleAgeRow>::empty().push(row) =~= seq![row]);
        }
        assert(out.to_multiset() =~= rows.to_multiset().insert(row));
    } else {
        let rest = rows.drop_first();
        assert forall|i: int, j: int| 0 <= i < j < rest.len() implies #[trigger] rest[i].age_secs
            >= #[trigger] rest[j].age_secs by {
            assert(rest[i] == rows[i + 1]);
            assert(rest[j] == rows[j + 1]);
        }
        lemma_insert_by_age_sorted(row, rest);
        let tail = insert_by_age(row, rest);
        let out = seq![rows[0]] + tail;
        assert forall|i: int, j: int| 0 <= i < j < out.len() implies #[trigger] out[i].age_secs
            >= #[trigger] out[j].age_secs by {
            if i > 0 {
                assert(out[i] == tail[i - 1]);
                assert(out[j] == tail[j - 1]);
            } else {
                assert(out[j] == tail[j - 1]);
                assert(tail.to_multiset().count(tail[j - 1]) > 0);
                assert(rest.to_multiset().insert(row).count(tail[j - 1]) > 0);
                if tail[j - 1] != row {
                    assert(rest.to_multiset().count(tail[j - 1]) > 0);
                    assert(rest.contains(tail[j - 1]));
                    let m = choose|m: int| 0 <= m < rest.len() && rest[m] == tail[j - 1];
                    assert(rest[m] == rows[m + 1]);
                }
            }
        }
        vstd::seq_lib::lemma_multiset_commutative(seq![rows[0]], tail);
        vstd::seq_lib::lemma_multiset_commutative(seq![rows[0]], rest);
        assert(seq![rows[0]] + rest =~= rows);
        assert(out.to_multiset() =~= rows.to_multiset().insert(row));
    }
}

/// The stable sort lists oldest first and keeps the same rows.
proof fn lemma_by_age(rows: Seq<OracleAgeRow>)
    ensures
        oldest_first(by_age(rows)),
        by_age(rows).to_multiset() == rows.to_multiset(),
    decreases rows.len(),
{
    broadcast use vstd::seq_lib::group_to_multiset_ensures;

    if rows.len() > 0 {
        lemma_by_age(rows.drop_last());
        lemma_insert_by_age_sorted(rows.last(), by_age(rows.drop_last()));
        vstd::seq_lib::to_multiset_build(rows.drop_last(), rows.last());
        assert(rows.drop_last().push(rows.last()) =~= rows);
    }
}

/// The rows the report lists, oldest feed first (rows of equal age in their given order): every
/// row, or only the stale ones when `only_stale`.
pub fn report_rows(rows: Vec<OracleAgeRow>, only_stale: bool) -> (r: Vec<OracleAgeRow>)
    ensures
        r@ == by_age(kept(rows@, only_stale)),
        r@.to_multiset() == kept(rows@, only_stale).to_multiset(),
        oldest_first(r@),
{
    let mut selected: Vec<OracleAgeRow> = Vec::new();
    let mut i: usize = 0;
    while i < rows.len()
        invariant
            i <= rows.len(),
            selected@ == kept(rows@.take(i as int), only_stale),
        decreases rows.len() - i,
    {
        proof {
            assert(rows@.take(i + 1).drop_last() =~= rows@.take(i as int));
            reveal(Seq::filter);
        }
        let row = rows[i];
        if !only_stale || is_stale(&row) {
            selected.push(row);
        }
        proof {
            if only_stale {
                assert(rows@.take(i + 1).last() == row);
                assert(selected@ =~= kept(rows@.take(i + 1), only_stale));
            } else {
                assert(selected@ =~= rows@.take(i + 1));
            }
        }
        i = i + 1;
    }
    proof {
        assert(rows@.take(rows@.len() as int) =~= rows@);
    }
    let mut out: Vec<OracleAgeRow> = Vec::new();
    let mut n: usize = 0;
    while n < selected.len()
        invariant
            n <= selected.len(),
            out@ == by_age(selected@.take(n as int)),
        decreases selected.len() - n,
    {
        let row = selected[n];
        let mut k: usize = 0;
        while k < out.len() && out[k].age_secs >= row.age_secs
            invariant
                k <= out.len(),
                forall|j: int| 0 <= j < k ==> out@[j].age_secs >= row.age_secs,
            decreases out.len() - k,
        {
            k = k + 1;
        }
        proof {
            lemma_insert_by_age_at(row, out@, k as int);
            assert(selected@.take(n + 1).drop_last() =~= selected@.take(n as int));
            assert(selected@.take(n + 1).last() == row);
        }
        out.insert(k, row);
        proof {
            assert(out@ =~= by_age(selected@.take(n + 1)));
        }
        n = n + 1;
    }
    proof {
        assert(selected@.take(selected@.len() as int) =~= selected@);
        lemma_by_age(selected@);
    }
    out
}

} // verus!
