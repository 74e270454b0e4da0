use marginfi::observation::{
    bank_observation_keys, collect_observation_bank_pks, load_bank_oracle_account_metas,
    load_observation_account_metas, load_observation_account_metas_close_last,
    load_observation_account_metas_with_bank_writable, load_observation_bank_only_metas,
    AccountMeta, BalanceRef, BankEntry, ObservedBank, OracleSetup,
};
use marginfi::oracle_ages::{
    is_stale, oracle_age_row, oracle_feed_of, report_rows, OracleAgeRow, OracleFeedKind,
};
use marginfi::pubkey::{contains_key, sort_descending, Pubkey};

fn key(n: u128) -> Pubkey {
    Pubkey { hi: 0, lo: n }
}

fn bank(setup: OracleSetup, keys: [u128; 5]) -> ObservedBank {
    ObservedBank {
        oracle_setup: setup,
        oracle_keys: keys.map(key),
    }
}

fn active(n: u128) -> BalanceRef {
    BalanceRef {
        bank_pk: key(n),
        active: true,
    }
}

fn ro(k: Pubkey) -> AccountMeta {
    AccountMeta {
        pubkey: k,
        is_signer: false,
        is_writable: false,
    }
}

#[test]
fn pubkeys_sort_by_raw_bytes_descending() {
    let high = Pubkey { hi: 1, lo: 0 };
    let sorted = sort_descending(vec![key(3), high, key(7), key(3)]);
    assert_eq!(sorted, vec![high, key(7), key(3), key(3)]);
    assert!(contains_key(&sorted, &key(7)));
    assert!(!contains_key(&sorted, &key(8)));
    assert!(Pubkey::default_key().is_default());
    assert!(high.ge(&key(u128::MAX)));
}

#[test]
fn oracle_keys_by_setup() {
    assert_eq!(bank_observation_keys(&bank(OracleSetup::Fixed, [1, 2, 3, 4, 5])), vec![]);
    assert_eq!(bank_observation_keys(&bank(OracleSetup::NoOracle, [1, 2, 3, 4, 5])), vec![]);
    assert_eq!(
        bank_observation_keys(&bank(OracleSetup::PythPushOracle, [1, 2, 3, 4, 5])),
        vec![key(1)]
    );
    assert_eq!(
        bank_observation_keys(&bank(OracleSetup::KaminoPythPush, [1, 2, 3, 4, 5])),
        vec![key(1), key(2)]
    );
    assert_eq!(
        bank_observation_keys(&bank(OracleSetup::StakedWithPythPush, [1, 0, 3, 4, 5])),
        vec![key(1), key(3)]
    );
    assert_eq!(
        bank_observation_keys(&bank(OracleSetup::FixedDrift, [1, 2, 3, 4, 5])),
        vec![key(2)]
    );
    assert_eq!(
        load_bank_oracle_account_metas(&bank(OracleSetup::SwitchboardPull, [9, 0, 0, 0, 0])),
        vec![ro(key(9))]
    );
}

#[test]
fn observation_banks_are_sorted_with_close_bank_last() {
    let balances = vec![
        active(5),
        BalanceRef {
            bank_pk: key(8),
            active: false,
        },
        active(2),
    ];
    assert_eq!(
        collect_observation_bank_pks(&balances, vec![key(9), key(5)], vec![key(2)], None),
        vec![key(9), key(5)]
    );
    assert_eq!(
        collect_observation_bank_pks(&balances, vec![key(9)], vec![], Some(key(9))),
        vec![key(5), key(2), key(9)]
    );
    // A close bank that is not observed changes nothing.
    assert_eq!(
        collect_observation_bank_pks(&balances, vec![], vec![], Some(key(7))),
        vec![key(5), key(2)]
    );
}

#[test]
fn observation_metas_list_each_bank_then_its_oracles() {
    let balances = vec![active(1), active(2)];
    let map = vec![
        BankEntry {
            key: key(1),
            bank: bank(OracleSetup::PythPushOracle, [11, 0, 0, 0, 0]),
        },
        BankEntry {
            key: key(2),
            bank: bank(OracleSetup::KaminoPythPush, [21, 22, 0, 0, 0]),
        },
    ];
    let expected = vec![ro(key(2)), ro(key(21)), ro(key(22)), ro(key(1)), ro(key(11))];
    assert_eq!(
        load_observation_account_metas(&balances, &map, vec![], vec![]),
        expected
    );
    let writable = load_observation_account_metas_with_bank_writable(
        &balances,
        &map,
        vec![],
        vec![],
        true,
    );
    assert!(writable[0].is_writable && !writable[1].is_writable);
    assert_eq!(
        load_observation_bank_only_metas(&balances, &map, vec![], vec![], false),
        vec![ro(key(2)), ro(key(1))]
    );
    assert_eq!(
        load_observation_account_metas_close_last(&balances, &map, vec![], vec![], key(2)),
        vec![ro(key(1)), ro(key(11)), ro(key(2)), ro(key(21)), ro(key(22))]
    );
    // Banks the map does not know are skipped.
    assert_eq!(
        load_observation_account_metas(&vec![active(3)], &map, vec![], vec![]),
        vec![]
    );
}

#[test]
fn oracle_feeds_and_ages() {
    assert_eq!(
        oracle_feed_of(&bank(OracleSetup::PythPushOracle, [0, 0, 7, 8, 0])),
        Some((OracleFeedKind::PythPush, key(7)))
    );
    assert_eq!(
        oracle_feed_of(&bank(OracleSetup::SwitchboardPull, [3, 0, 0, 0, 0])),
        Some((OracleFeedKind::SwitchboardPull, key(3)))
    );
    assert_eq!(oracle_feed_of(&bank(OracleSetup::PythPushOracle, [0; 5])), None);
    assert_eq!(oracle_feed_of(&bank(OracleSetup::Fixed, [1, 0, 0, 0, 0])), None);
    let row = oracle_age_row(1_000, 900, 0, key(1));
    assert_eq!(
        row,
        OracleAgeRow {
            age_secs: 100,
            allowed_secs: 60,
            mint: key(1)
        }
    );
    assert!(is_stale(&row));
    assert!(!is_stale(&oracle_age_row(1_000, 900, 120, key(1))));
    assert!(!is_stale(&oracle_age_row(1_000, 1_100, 60, key(1))));
}

#[test]
fn oracle_report_lists_oldest_first() {
    let rows = vec![
        oracle_age_row(1_000, 990, 60, key(1)),
        oracle_age_row(1_000, 800, 60, key(2)),
        oracle_age_row(1_000, 950, 30, key(3)),
    ];
    let all = report_rows(rows.clone(), false);
    assert_eq!(
        all.iter().map(|r| r.mint).collect::<Vec<_>>(),
        vec![key(2), key(3), key(1)]
    );
    let stale = report_rows(rows, true);
    assert_eq!(
        stale.iter().map(|r| r.mint).collect::<Vec<_>>(),
        vec![key(2), key(3)]
    );
}

#[test]
fn oracle_report_keeps_equal_ages_in_order() {
    let rows = vec![
        oracle_age_row(1_000, 900, 60, key(1)),
        oracle_age_row(1_000, 950, 60, key(2)),
        oracle_age_row(1_000, 900, 60, key(3)),
        oracle_age_row(1_000, 900, 60, key(4)),
    ];
    let listed = report_rows(rows, false);
    assert_eq!(
        listed.iter().map(|r| r.mint).collect::<Vec<_>>(),
        vec![key(1), key(3), key(4), key(2)]
    );
}
