use marginfi::cli::{
    add_bank_config_risk_tier, char_is_whitespace, config_operational_state, config_risk_tier,
    default_oracle_max_age, BankOperationalState, BankOperationalStateArg, IntErrorKind,
    RatePoint, RatePointArg, RatePointParseError, RiskTier, RiskTierArg,
};
use marginfi::profile::{
    configure_profile, create_profile, delete_profile, list_profiles, load_profile,
    load_profile_and_config, set_profile, sort_strings, GlobalOptions, Profile, ProfileError,
    ProfileStore, ProfileUpdate,
};
use marginfi::pubkey::Pubkey;

fn profile(name: &str) -> Profile {
    Profile {
        name: name.to_string(),
        cluster: "devnet".to_string(),
        keypair_path: "~/.config/solana/id.json".to_string(),
        multisig: None,
        rpc_url: "https://api.devnet.solana.com".to_string(),
        program_id: None,
        commitment: None,
        marginfi_group: Some(Pubkey { hi: 0, lo: 7 }),
        marginfi_account: None,
    }
}

fn empty_store() -> ProfileStore {
    ProfileStore {
        config_dir_exists: false,
        current: None,
        profiles_dir_exists: false,
        profiles: vec![],
    }
}

fn no_update() -> ProfileUpdate {
    ProfileUpdate {
        new_name: None,
        cluster: None,
        keypair_path: None,
        multisig: None,
        rpc_url: None,
        program_id: None,
        commitment: None,
        marginfi_group: None,
        marginfi_account: None,
    }
}

#[test]
fn first_profile_becomes_current() {
    let mut store = empty_store();
    assert_eq!(create_profile(&mut store, profile("main")), Ok(()));
    assert!(store.config_dir_exists && store.profiles_dir_exists);
    assert_eq!(store.current.as_deref(), Some("main"));
    assert_eq!(create_profile(&mut store, profile("alt")), Ok(()));
    assert_eq!(store.current.as_deref(), Some("main"));
    assert_eq!(
        create_profile(&mut store, profile("alt")),
        Err(ProfileError::AlreadyExists)
    );
    assert_eq!(store.profiles.len(), 2);
}

#[test]
fn switching_and_loading_profiles() {
    let mut store = empty_store();
    assert_eq!(
        load_profile(&store).err(),
        Some(ProfileError::NotConfigured)
    );
    assert_eq!(
        set_profile(&mut store, "main".to_string()),
        Err(ProfileError::NotConfigured)
    );
    create_profile(&mut store, profile("main")).unwrap();
    create_profile(&mut store, profile("alt")).unwrap();
    assert_eq!(
        set_profile(&mut store, "nope".to_string()),
        Err(ProfileError::DoesNotExist)
    );
    assert_eq!(set_profile(&mut store, "alt".to_string()), Ok(()));
    let options = GlobalOptions {
        skip_confirmation: true,
        compute_unit_price: Some(5),
    };
    let (p, c) = load_profile_and_config(&store, &options).unwrap();
    assert_eq!(p.name, "alt");
    assert_eq!(c.profile_name, "alt");
    assert_eq!(c.rpc_url, "https://api.devnet.solana.com");
    assert_eq!(c.compute_unit_price, Some(5));
    assert!(c.skip_confirmation);
}

#[test]
fn deleting_a_profile() {
    let mut store = empty_store();
    create_profile(&mut store, profile("main")).unwrap();
    create_profile(&mut store, profile("alt")).unwrap();
    assert_eq!(
        delete_profile(&mut store, "nope".to_string()),
        Err(ProfileError::DoesNotExist)
    );
    assert_eq!(delete_profile(&mut store, "main".to_string()), Ok(()));
    assert_eq!(store.profiles.len(), 1);
    assert_eq!(store.profiles[0].name, "alt");
    // The current profile's name stays, so loading now finds nothing.
    assert_eq!(load_profile(&store).err(), Some(ProfileError::DoesNotExist));
}

#[test]
fn configuring_and_renaming_a_profile() {
    let mut store = empty_store();
    create_profile(&mut store, profile("main")).unwrap();
    let mut update = no_update();
    update.rpc_url = Some("http://localhost:8899".to_string());
    assert_eq!(configure_profile(&mut store, "main".to_string(), update), Ok(()));
    assert_eq!(store.profiles[0].rpc_url, "http://localhost:8899");
    assert_eq!(store.profiles[0].cluster, "devnet");
    let mut rename = no_update();
    rename.new_name = Some("local".to_string());
    assert_eq!(configure_profile(&mut store, "main".to_string(), rename), Ok(()));
    assert_eq!(store.profiles.len(), 1);
    assert_eq!(store.profiles[0].name, "local");
    assert_eq!(store.profiles[0].rpc_url, "http://localhost:8899");
    assert_eq!(
        configure_profile(&mut store, "main".to_string(), no_update()),
        Err(ProfileError::DoesNotExist)
    );
    // Renaming to the same name writes the file, then deletes it.
    let mut same = no_update();
    same.new_name = Some("local".to_string());
    assert_eq!(configure_profile(&mut store, "local".to_string(), same), Ok(()));
    assert!(store.profiles.is_empty());
}

#[test]
fn listing_profiles_sorted() {
    assert_eq!(
        list_profiles(false, vec![], Some("main".to_string())).err(),
        Some(ProfileError::NotConfigured)
    );
    assert_eq!(
        list_profiles(true, vec![], None).err(),
        Some(ProfileError::NotConfigured)
    );
    let files = vec![
        "main.json".to_string(),
        "alt.json".to_string(),
        "a-b.json".to_string(),
        "Zed.json".to_string(),
    ];
    let listing = list_profiles(true, files, Some("main".to_string())).unwrap();
    assert_eq!(listing.current, "main");
    assert_eq!(listing.files, vec!["Zed.json", "a-b.json", "alt.json", "main.json"]);
    assert_eq!(
        sort_strings(vec!["b".to_string(), "ab".to_string(), "a".to_string(), "é".to_string()]),
        vec!["a", "ab", "b", "é"]
    );
}

#[test]
fn rate_points_are_read_from_util_comma_rate() {
    assert_eq!(
        RatePointArg::parse("50,100"),
        Ok(RatePointArg {
            util: 50,
            rate: 100
        })
    );
    assert_eq!(
        RatePointArg::parse("  2147483647 ,\t+4294967295 "),
        Ok(RatePointArg {
            util: 2147483647,
            rate: 4294967295
        })
    );
    assert_eq!(
        RatePointArg::parse("50;100"),
        Err(RatePointParseError::MissingSeparator)
    );
    assert_eq!(
        RatePointArg::parse(",100"),
        Err(RatePointParseError::InvalidUtil(IntErrorKind::Empty))
    );
    assert_eq!(
        RatePointArg::parse("5x,100"),
        Err(RatePointParseError::InvalidUtil(IntErrorKind::InvalidDigit))
    );
    assert_eq!(
        RatePointArg::parse("-5,100"),
        Err(RatePointParseError::InvalidUtil(IntErrorKind::InvalidDigit))
    );
    assert_eq!(
        RatePointArg::parse("+,100"),
        Err(RatePointParseError::InvalidUtil(IntErrorKind::InvalidDigit))
    );
    assert_eq!(
        RatePointArg::parse("1,4294967296"),
        Err(RatePointParseError::InvalidRate(IntErrorKind::PosOverflow))
    );
    // Only the first comma splits.
    assert_eq!(
        RatePointArg::parse("1,2,3"),
        Err(RatePointParseError::InvalidRate(IntErrorKind::InvalidDigit))
    );
}

#[test]
fn rate_point_parse_agrees_with_std() {
    for s in ["7,8", " 9 , 10 ", "+1,+2", "x,1", "1,", "99999999999,1", "٣,1", "1,\u{a0}2"] {
        let mine = RatePointArg::parse(s);
        let std_util = s.split_once(',').map(|(l, _)| l.trim().parse::<u32>());
        let std_rate = s.split_once(',').map(|(_, r)| r.trim().parse::<u32>());
        match (std_util, std_rate) {
            (None, _) => assert_eq!(mine, Err(RatePointParseError::MissingSeparator)),
            (Some(Err(_)), _) => assert!(matches!(mine, Err(RatePointParseError::InvalidUtil(_)))),
            (Some(Ok(u)), Some(Err(_))) => {
                let _ = u;
                assert!(matches!(mine, Err(RatePointParseError::InvalidRate(_))))
            }
            (Some(Ok(u)), Some(Ok(r))) => assert_eq!(mine, Ok(RatePointArg { util: u, rate: r })),
            _ => unreachable!(),
        }
        let std_whole: Result<RatePointArg, String> = match s.split_once(',') {
            None => Err("expected format: util,rate".to_string()),
            Some((l, r)) => match l.trim().parse::<u32>() {
                Err(e) => Err(format!("invalid util u32: {e}")),
                Ok(util) => match r.trim().parse::<u32>() {
                    Err(e) => Err(format!("invalid rate u32: {e}")),
                    Ok(rate) => Ok(RatePointArg { util, rate }),
                },
            },
        };
        assert_eq!(RatePointArg::from_str(s), std_whole);
    }
}

#[test]
fn rate_point_errors_read_as_messages() {
    assert_eq!(
        RatePointArg::from_str(" 42 , 7"),
        Ok(RatePointArg { util: 42, rate: 7 })
    );
    assert_eq!(
        RatePointArg::from_str("42"),
        Err("expected format: util,rate".to_string())
    );
    let bad_util = RatePointArg::from_str("x,1").unwrap_err();
    assert!(bad_util.starts_with("invalid util u32"));
    assert_eq!(bad_util, "invalid util u32: invalid digit found in string");
    assert_eq!(
        RatePointArg::from_str(",1"),
        Err("invalid util u32: cannot parse integer from empty string".to_string())
    );
    assert_eq!(
        RatePointArg::from_str("1,4294967296"),
        Err("invalid rate u32: number too large to fit in target type".to_string())
    );
}

#[test]
fn white_space_agrees_with_std() {
    for n in 0u32..=0x10FFFF {
        if let Some(c) = char::from_u32(n) {
            assert_eq!(char_is_whitespace(c), c.is_whitespace(), "U+{n:04X}");
        }
    }
}

#[test]
fn config_text_maps_to_bank_settings() {
    assert_eq!(config_operational_state("paused"), BankOperationalState::Paused);
    assert_eq!(config_operational_state("operational"), BankOperationalState::Operational);
    assert_eq!(config_operational_state("reduce_only"), BankOperationalState::ReduceOnly);
    assert_eq!(config_operational_state("reduceonly"), BankOperationalState::ReduceOnly);
    assert_eq!(config_operational_state("Paused"), BankOperationalState::Operational);
    assert_eq!(config_operational_state("other"), BankOperationalState::Operational);
    assert_eq!(config_risk_tier("isolated"), RiskTier::Isolated);
    assert_eq!(config_risk_tier("collateral"), RiskTier::Collateral);
    assert_eq!(config_risk_tier("anything"), RiskTier::Collateral);
    assert_eq!(add_bank_config_risk_tier("ISOLATED"), Ok(RiskTierArg::Isolated));
    assert_eq!(add_bank_config_risk_tier("Collateral"), Ok(RiskTierArg::Collateral));
    assert_eq!(
        add_bank_config_risk_tier("FOO"),
        Err("Unknown risk_tier in config: foo".to_string())
    );
}

#[test]
fn command_line_values_map_to_settings() {
    assert_eq!(default_oracle_max_age(), 60);
    assert_eq!(RiskTier::from(RiskTierArg::Isolated), RiskTier::Isolated);
    assert_eq!(RiskTier::from(RiskTierArg::Collateral), RiskTier::Collateral);
    assert_eq!(
        BankOperationalState::from(BankOperationalStateArg::ReduceOnly),
        BankOperationalState::ReduceOnly
    );
    assert_eq!(
        BankOperationalState::from(BankOperationalStateArg::Paused),
        BankOperationalState::Paused
    );
    assert_eq!(
        RatePoint::from(RatePointArg { util: 1, rate: 2 }),
        RatePoint { util: 1, rate: 2 }
    );
}
