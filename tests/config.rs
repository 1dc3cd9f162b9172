use mvm::access_path::Identifier;
use mvm::bank::Bank;
use mvm::codec::{encode_value, AccountAddress, Layout, Value};
use mvm::config::{
    access_path_for_config, config_address, on_chain_config_registry, parse_hex_literal,
    ConfigError, ConfigID, DiemVersion, OnChainConfig, OnChainConfigPayload, VMConfig,
    CONFIG_ADDRESS_STR,
};
use mvm::engine::Mvm;
use mvm::store::StateStore;

#[test]
fn hex_literals_are_read() {
    assert_eq!(parse_hex_literal(CONFIG_ADDRESS_STR), Some(config_address()));
    assert_eq!(parse_hex_literal("0x1"), Some(AccountAddress(1)));
    assert_eq!(parse_hex_literal("0xff"), Some(AccountAddress(255)));
    assert_eq!(parse_hex_literal("0xFFFFFFFFFFFFFFFFFFFFFFFFFFFFFFFF"), Some(AccountAddress(u128::MAX)));
    assert_eq!(parse_hex_literal("0x1FFFFFFFFFFFFFFFFFFFFFFFFFFFFFFFF"), None);
    assert_eq!(parse_hex_literal("0x"), None);
    assert_eq!(parse_hex_literal("12"), None);
    assert_eq!(parse_hex_literal("0xg1"), None);
}

#[test]
fn config_id_resolves_to_its_access_path() {
    let id = ConfigID(CONFIG_ADDRESS_STR, "VMConfig");
    let ap = id.access_path().unwrap();
    assert_eq!(ap, access_path_for_config(config_address(), Identifier::new("VMConfig").unwrap()));
    assert_eq!(ap.address, AccountAddress(0xA550C18));
    assert_ne!(ap, ConfigID(CONFIG_ADDRESS_STR, "DiemVersion").access_path().unwrap());
    assert!(ConfigID("zz", "VMConfig").access_path().is_none());
    assert!(ConfigID("0x1", "no-such").access_path().is_none());
}

#[test]
fn config_never_written_is_absent() {
    let store = StateStore::new();
    assert_eq!(DiemVersion::fetch_config(&store), None);
    assert!(Mvm::new(StateStore::new(), Bank::new()).is_none());
}

#[test]
fn stored_config_is_read() {
    let mut store = StateStore::new();
    let ap = VMConfig::config_id().access_path().unwrap();
    store.insert(ap, encode_value(&Value::U64(3), Layout::U64).unwrap());
    let cfg = VMConfig::fetch_config(&store).unwrap();
    assert_eq!(cfg.gas_schedule.intrinsic_gas_per_byte, 3);
    assert!(Mvm::new(store, Bank::new()).is_some());
}

#[test]
fn undecodable_config_is_absent() {
    let mut store = StateStore::new();
    let ap = DiemVersion::config_id().access_path().unwrap();
    store.insert(ap, vec![1, 2]);
    assert_eq!(DiemVersion::fetch_config(&store), None);
}

#[test]
fn payload_lookup() {
    let payload = OnChainConfigPayload::new(
        4,
        vec![(DiemVersion::config_id(), vec![2, 0, 0, 0, 0, 0, 0, 0]), (VMConfig::config_id(), vec![9])],
    );
    assert_eq!(payload.epoch(), 4);
    assert_eq!(payload.configs().len(), 2);
    assert_eq!(payload.get::<DiemVersion>(), Ok(DiemVersion { major: 2 }));
    assert_eq!(payload.get::<VMConfig>(), Err(ConfigError::Malformed));
    let empty = OnChainConfigPayload::new(0, vec![]);
    assert_eq!(empty.get::<DiemVersion>(), Err(ConfigError::NotInPayload));
}

#[test]
fn registry_lists_the_configs() {
    let ids = on_chain_config_registry();
    assert_eq!(ids.len(), 4);
    assert_eq!(ids[0], VMConfig::config_id());
    assert_eq!(ids[2], DiemVersion::config_id());
    assert_eq!(ids[3], ConfigID(CONFIG_ADDRESS_STR, "RegisteredCurrencies"));
    for id in &ids {
        assert!(id.access_path().is_some());
    }
}

#[test]
fn config_id_in_words() {
    assert_eq!(
        ConfigID(CONFIG_ADDRESS_STR, "VMConfig").to_string(),
        "OnChain config ID [address: 0xA550C18, identifier: VMConfig]"
    );
}

#[test]
fn payload_in_words() {
    let payload = OnChainConfigPayload::new(120, vec![(DiemVersion::config_id(), vec![])]);
    assert_eq!(
        payload.to_string(),
        "OnChainConfigPayload [epoch: 120, configs: OnChain config ID [address: 0xA550C18, identifier: DiemVersion]]"
    );
    assert_eq!(OnChainConfigPayload::new(0, vec![]).to_string(), "OnChainConfigPayload [epoch: 0, configs: ]");
}
