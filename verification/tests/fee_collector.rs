use cl8y_dex_bots::errors::StdFault;
use cl8y_dex_bots::fee_collector::{migrate, ContractError, FeeCollector, CANONICAL_TREASURY, CONTRACT_NAME, CONTRACT_VERSION};

fn setup() -> FeeCollector {
    FeeCollector::instantiate(
        "governance".to_string(),
        "registry".to_string(),
        "keeper".to_string(),
        "treasury".to_string(),
        false,
    )
    .unwrap()
}

#[test]
fn only_keeper_can_collect() {
    let mut collector = setup();
    let err = collector.collect(&"attacker".to_string(), "vault".to_string(), 1, 10).unwrap_err();
    assert_eq!(err, ContractError::Unauthorized);
    assert_eq!(collector.query_vault_shares(&"vault".to_string(), 1), 0);
}

#[test]
fn collect_redeems_into_treasury_and_books_ledger() {
    let mut collector = setup();
    let redeem = collector.collect(&"keeper".to_string(), "vault".to_string(), 1, 250_000).unwrap();
    assert_eq!(redeem.vault, "vault");
    assert_eq!(redeem.bot_id, 1);
    assert_eq!(redeem.recipient, "treasury");
    assert_eq!(collector.query_vault_shares(&"vault".to_string(), 1), 250_000);
    collector.collect(&"keeper".to_string(), "vault".to_string(), 1, 5).unwrap();
    assert_eq!(collector.query_vault_shares(&"vault".to_string(), 1), 250_005);
    assert_eq!(collector.query_vault_shares(&"vault".to_string(), 2), 0);
    assert_eq!(collector.query_vault_shares(&"other".to_string(), 1), 0);
}

#[test]
fn collect_with_no_entitlement_errors() {
    let mut collector = setup();
    let err = collector.collect(&"keeper".to_string(), "vault".to_string(), 99, 0).unwrap_err();
    assert!(matches!(err, ContractError::NoEntitlement { .. }));
    assert_eq!(err, ContractError::NoEntitlement { vault: "vault".to_string(), shares: 0 });
}

#[test]
fn update_config_is_governance_only() {
    let mut collector = setup();
    let err = collector.update_config(&"attacker".to_string(), None, None, None, None, false).unwrap_err();
    assert_eq!(err, ContractError::Unauthorized);
    collector
        .update_config(&"governance".to_string(), None, None, None, Some("treasury2".to_string()), false)
        .unwrap();
    assert_eq!(collector.config.treasury, "treasury2");
    assert_eq!(collector.config.keeper, "keeper");
}

#[test]
fn frozen_initial_release_is_queryable_and_repeat_migration_preserves_state() {
    let stored = Some((CONTRACT_NAME.to_string(), "0.1.0".to_string()));
    assert_eq!(migrate(&stored), Ok(false));
    assert_eq!(migrate(&stored), Ok(false));
    let collector = setup();
    assert_eq!(collector.config.keeper, "keeper");
}

#[test]
fn wrong_name_and_newer_version_are_rejected_without_mutation() {
    let wrong = Some(("wrong".to_string(), "0.0.1".to_string()));
    assert_eq!(migrate(&wrong).err(), Some(ContractError::Std(StdFault::WrongContract)));
    let newer = Some((CONTRACT_NAME.to_string(), "99.0.0".to_string()));
    assert_eq!(migrate(&newer).err(), Some(ContractError::Std(StdFault::NewerVersion)));
    assert_eq!(migrate(&None).err(), Some(ContractError::Std(StdFault::NotFound)));
    assert_eq!(CONTRACT_VERSION, "0.1.0");
}

fn mainnet_collector(treasury: &str) -> Result<FeeCollector, ContractError> {
    FeeCollector::instantiate(
        "governance".to_string(),
        "registry".to_string(),
        "keeper".to_string(),
        treasury.to_string(),
        true,
    )
}

fn is_pin_refusal(err: &ContractError, pinned: &str) -> bool {
    matches!(err, ContractError::NonCanonicalAddress { field, .. } if field == pinned)
}

#[test]
fn mainnet_lock_instantiate_rejects_fake_treasury() {
    let err = mainnet_collector("fake-treasury").err().unwrap();
    assert!(is_pin_refusal(&err, "treasury"));
}

#[test]
fn instantiate_with_canonical_treasury_succeeds() {
    let collector = mainnet_collector(CANONICAL_TREASURY).unwrap();
    assert_eq!(collector.config.treasury, CANONICAL_TREASURY);
}

#[test]
fn update_config_refuses_to_repoint_treasury() {
    let mut collector = mainnet_collector(CANONICAL_TREASURY).unwrap();
    let err = collector
        .update_config(&"governance".to_string(), None, None, None, Some("fake-treasury".to_string()), true)
        .unwrap_err();
    assert!(is_pin_refusal(&err, "treasury"));
    assert_eq!(collector.config.treasury, CANONICAL_TREASURY);
}

#[test]
fn update_config_still_allows_governance_and_keeper() {
    let mut collector = mainnet_collector(CANONICAL_TREASURY).unwrap();
    collector
        .update_config(&"governance".to_string(), Some("next-governance".to_string()), None, Some("next-keeper".to_string()), None, true)
        .unwrap();
    assert_eq!(collector.config.governance, "next-governance");
    assert_eq!(collector.config.keeper, "next-keeper");
    assert_eq!(collector.config.treasury, CANONICAL_TREASURY);
}
