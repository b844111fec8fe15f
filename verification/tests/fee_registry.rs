use cl8y_dex_bots::errors::StdFault;
use cl8y_dex_bots::fee_registry::{
    assert_not_reserved, effective_fee, migrate, ContractError, FeeRegistry, Holding, TierEntry,
    PinnedField, TierSource, CANONICAL_CL8Y, CANONICAL_TREASURY, CONTRACT_NAME, CONTRACT_VERSION, ONE_CL8Y,
};

const MAX_BPS: u16 = 10_000;

const LADDER: [(u8, u128, u16); 9] = [
    (1, 1, 250),
    (2, 5, 1_000),
    (3, 20, 2_000),
    (4, 75, 3_500),
    (5, 200, 5_000),
    (6, 500, 6_000),
    (7, 1_500, 7_500),
    (8, 3_500, 8_500),
    (9, 7_500, 9_500),
];

fn gov() -> String {
    "governance".to_string()
}

fn setup_with(base_fee_bps: u16) -> FeeRegistry {
    FeeRegistry::instantiate(gov(), "cl8y".to_string(), "treasury".to_string(), "collector".to_string(), base_fee_bps, false)
        .unwrap()
}

fn reference_discount(pool: &[TierEntry], balance: u128) -> (u16, Option<u8>) {
    let mut best: (u16, Option<u8>) = (0, None);
    for t in pool {
        if t.governance_only {
            continue;
        }
        if balance >= t.min_cl8y_balance && t.discount_bps > best.0 {
            best = (t.discount_bps, Some(t.tier_id));
        }
    }
    best
}

fn reference_fee(base: u16, discount: u16) -> u16 {
    (u32::from(base) * (u32::from(MAX_BPS) - u32::from(discount)) / u32::from(MAX_BPS)) as u16
}

#[test]
fn instantiate_seeds_standard_ladder() {
    let registry = setup_with(180);
    assert_eq!(registry.config.base_fee_bps, 180);
    assert_eq!(registry.config.ladder_version, 1);
    assert_eq!(registry.config.treasury, "treasury");
    let tiers = registry.query_tiers();
    assert_eq!(tiers.len(), 11);
    let tier9 = tiers.iter().find(|t| t.tier_id == 9).unwrap();
    assert_eq!(tier9.min_cl8y_balance, ONE_CL8Y * 7_500);
    assert_eq!(tier9.discount_bps, 9_500);
    assert!(!tier9.governance_only);
    let tier0 = tiers.iter().find(|t| t.tier_id == 0).unwrap();
    assert!(tier0.governance_only);
}

#[test]
fn instantiate_rejects_base_fee_above_max() {
    let err = FeeRegistry::instantiate(gov(), "c".to_string(), "t".to_string(), "f".to_string(), 10_001, false)
        .err()
        .unwrap();
    assert_eq!(err, ContractError::InvalidDiscountBps { value: 10_001 });
}

#[test]
fn every_seeded_tier_resolves_at_its_exact_boundary() {
    let registry = setup_with(1_800);
    for (tier_id, min_weis, discount_bps) in LADDER {
        let fee = registry.query_effective_fee(&format!("tier{tier_id}"), Some(ONE_CL8Y * min_weis));
        assert_eq!(fee.source, TierSource::Live);
        assert_eq!(fee.tier_id, Some(tier_id), "tier {tier_id} exact boundary");
        assert_eq!(fee.discount_bps, discount_bps);
        assert_eq!(fee.fee_bps, reference_fee(1_800, discount_bps));
    }
}

#[test]
fn below_each_minimum_hits_the_next_lower_tier() {
    let registry = setup_with(1_000);
    for i in 1..LADDER.len() {
        let (tier_id, min_weis, _) = LADDER[i];
        let (prev_tier, _, _) = LADDER[i - 1];
        let fee = registry.query_effective_fee(&format!("below{tier_id}"), Some(ONE_CL8Y * min_weis - 1));
        assert_eq!(fee.tier_id, Some(prev_tier), "a balance 1 wei below tier {tier_id} must fall to tier {prev_tier}");
    }
}

#[test]
fn full_matrix_agrees_with_reference_resolution() {
    let registry = setup_with(1_800);
    let pool = registry.query_tiers();
    let mut samples: Vec<u128> = vec![
        0u128,
        1,
        ONE_CL8Y - 1,
        ONE_CL8Y,
        2 * ONE_CL8Y,
        5 * ONE_CL8Y - 1,
        5 * ONE_CL8Y,
        19 * ONE_CL8Y,
        20 * ONE_CL8Y,
        200 * ONE_CL8Y,
        499 * ONE_CL8Y,
        500 * ONE_CL8Y,
        7_499 * ONE_CL8Y,
        7_500 * ONE_CL8Y,
        7_500 * ONE_CL8Y + 123,
    ];
    for (_, min, _) in LADDER {
        samples.push(min * ONE_CL8Y);
        samples.push(min * ONE_CL8Y + 7);
    }
    for (i, balance) in samples.iter().enumerate() {
        let fee = registry.query_effective_fee(&format!("s{i}"), Some(*balance));
        let (exp_disc, exp_tier) = reference_discount(&pool, *balance);
        assert_eq!(fee.discount_bps, exp_disc, "discount at balance {balance}");
        assert_eq!(fee.tier_id, exp_tier, "tier at balance {balance}");
        assert_eq!(fee.fee_bps, reference_fee(1_800, exp_disc), "fee at balance {balance}");
        assert!(fee.fee_bps as u32 <= 1_800, "never above base fee at balance {balance}");
        assert_eq!(fee.source, TierSource::Live);
    }
}

#[test]
fn base_fee_edge_cases_map_to_exact_fees() {
    for base in [0u16, 1, 180, 1_800, 5_000, 10_000] {
        let registry = setup_with(base);
        let fee = registry.query_effective_fee(&"zero".to_string(), Some(0));
        assert_eq!(fee.source, TierSource::Live);
        assert_eq!(fee.discount_bps, 0);
        assert_eq!(fee.tier_id, None);
        assert_eq!(fee.fee_bps, base, "zero-balance fee equals base {base}");
        assert_eq!(fee.fee_bps, reference_fee(base, 0));
    }
}

#[test]
fn no_discount_ever_over_charges() {
    let mut registry = setup_with(1_800);
    registry.add_tier(&gov(), 99, 1, 10_000, false).unwrap();
    let fee = registry.query_effective_fee(&"mm".to_string(), Some(1));
    assert_eq!(fee.discount_bps, 10_000);
    assert_eq!(fee.fee_bps, 0);
}

#[test]
fn reserved_tiers_are_never_addable_as_holder_tiers() {
    let mut registry = setup_with(1_000);
    for tier_id in [0u8, 255u8] {
        let err = registry.add_tier(&gov(), tier_id, 0, 0, false).unwrap_err();
        assert!(matches!(err, ContractError::ReservedTierId { .. }));
    }
    let err = registry.update_tier(&gov(), 0, None, None, Some(false)).unwrap_err();
    assert_eq!(err, ContractError::ReservedTierId { tier_id: 0 });
}

#[test]
fn tier_crud_bumps_ladder_and_revalidates_base() {
    let mut registry = setup_with(1_000);
    let before = registry.config.ladder_version;
    registry.add_tier(&gov(), 77, 9, 400, false).unwrap();
    registry.update_config(&gov(), None, None, None, None, Some(5_000), false).unwrap();
    assert_eq!(registry.config.base_fee_bps, 5_000);
    assert!(registry.config.ladder_version > before);
    let err = registry.update_config(&gov(), None, None, None, None, Some(10_001), false).unwrap_err();
    assert!(matches!(err, ContractError::InvalidDiscountBps { .. }));
}

#[test]
fn holding_never_cleared_on_transient_live_failure() {
    let mut registry = setup_with(1_000);
    let trader = "trader".to_string();
    assert!(registry.refresh_holding(&trader, Some(500 * ONE_CL8Y), 12));
    registry.update_config(&gov(), None, Some("dead".to_string()), None, None, None, false).unwrap();
    let fee = registry.query_effective_fee(&trader, None);
    assert_eq!(fee.source, TierSource::Cached);
    assert_eq!(fee.tier_id, Some(6));
    assert_eq!(fee.fee_bps, reference_fee(1_000, 6_000));
    assert_eq!(fee.holding, Some(500 * ONE_CL8Y));
    assert!(!registry.refresh_holding(&trader, None, 13));
    assert_eq!(registry.holding(&trader), Some(Holding { amount: 500 * ONE_CL8Y, at_height: 12 }));
}

#[test]
fn effective_fee_reads_live_holding() {
    let mut registry = setup_with(180);
    let trader = "trader".to_string();
    registry.refresh_holding(&trader, Some(200 * ONE_CL8Y), 1);
    let fee = registry.query_effective_fee(&trader, Some(200 * ONE_CL8Y));
    assert_eq!(fee.source, TierSource::Live);
    assert_eq!(fee.tier_id, Some(5));
    assert_eq!(fee.discount_bps, 5_000);
    assert_eq!(fee.fee_bps, 90);
    assert_eq!(fee.holding, Some(200 * ONE_CL8Y));
}

#[test]
fn effective_fee_falls_back_to_saved_holding_when_live_read_fails() {
    let mut registry = setup_with(180);
    let trader = "trader".to_string();
    registry.refresh_holding(&trader, Some(200 * ONE_CL8Y), 1);
    registry.update_config(&gov(), None, Some("dead-token".to_string()), None, None, None, false).unwrap();
    let fee = registry.query_effective_fee(&trader, None);
    assert_eq!(fee.source, TierSource::Cached);
    assert_eq!(fee.tier_id, Some(5));
    assert_eq!(fee.fee_bps, 90);
    assert_eq!(fee.holding, Some(200 * ONE_CL8Y));
    let fee = registry.query_effective_fee(&"stranger".to_string(), None);
    assert_eq!(fee.source, TierSource::Lowest);
    assert_eq!(fee.fee_bps, 180);
}

#[test]
fn effective_fee_live_read_without_persisted_holding() {
    let registry = setup_with(180);
    let fee = registry.query_effective_fee(&"trader".to_string(), Some(0));
    assert_eq!(fee.source, TierSource::Live);
    assert_eq!(fee.discount_bps, 0);
    assert_eq!(fee.fee_bps, 180);
    assert_eq!(fee.tier_id, None);
}

#[test]
fn governance_only_tiers_never_auto_applied() {
    let mut registry = setup_with(180);
    let trader = "trader".to_string();
    registry.refresh_holding(&trader, Some(0), 1);
    let fee = registry.query_effective_fee(&trader, Some(0));
    assert_eq!(fee.discount_bps, 0);
    assert_eq!(fee.fee_bps, 180);
}

#[test]
fn tier_crud_is_governance_only_and_bumps_ladder() {
    let mut registry = setup_with(180);
    let err = registry.add_tier(&"attacker".to_string(), 10, 100, 500, false).unwrap_err();
    assert_eq!(err, ContractError::Unauthorized);
    registry.add_tier(&gov(), 10, 100, 500, false).unwrap();
    assert_eq!(registry.query_tiers().len(), 12);
    assert_eq!(registry.config.ladder_version, 2);
    registry.update_tier(&gov(), 10, None, Some(700), None).unwrap();
    assert_eq!(registry.query_tier(10).unwrap().discount_bps, 700);
    registry.remove_tier(&gov(), 10).unwrap();
    assert_eq!(registry.query_tiers().len(), 11);
    assert_eq!(registry.query_tier(10).err(), Some(StdFault::NotFound));
}

#[test]
fn tier_crud_reports_missing_and_duplicate_tiers() {
    let mut registry = setup_with(180);
    assert_eq!(registry.add_tier(&gov(), 5, 1, 1, false).err(), Some(ContractError::TierAlreadyExists { tier_id: 5 }));
    assert_eq!(registry.update_tier(&gov(), 42, None, Some(1), None).err(), Some(ContractError::TierNotFound { tier_id: 42 }));
    assert_eq!(registry.remove_tier(&gov(), 42).err(), Some(ContractError::TierNotFound { tier_id: 42 }));
    assert_eq!(registry.config.ladder_version, 1);
}

#[test]
fn reserved_tier_ids_must_be_governance_only() {
    let mut registry = setup_with(180);
    let err = registry.add_tier(&gov(), 0, 0, 10_000, false).unwrap_err();
    assert_eq!(err, ContractError::ReservedTierId { tier_id: 0 });
}

#[test]
fn invalid_discount_rejected() {
    let mut registry = setup_with(180);
    let err = registry.add_tier(&gov(), 11, 1, 10_001, false).unwrap_err();
    assert_eq!(err, ContractError::InvalidDiscountBps { value: 10_001 });
}

#[test]
fn integration_update_config_is_governance_only() {
    let mut registry = setup_with(180);
    let err = registry.update_config(&"attacker".to_string(), None, None, None, None, Some(50), false).unwrap_err();
    assert_eq!(err, ContractError::Unauthorized);
    registry.update_config(&gov(), None, None, None, None, Some(50), false).unwrap();
    assert_eq!(registry.config.base_fee_bps, 50);
}

#[test]
fn holding_query_returns_persisted_value() {
    let mut registry = setup_with(180);
    let trader = "trader".to_string();
    assert_eq!(registry.holding(&trader), None);
    registry.refresh_holding(&trader, Some(7_500 * ONE_CL8Y), 3);
    assert_eq!(registry.holding(&trader).unwrap().amount, 7_500 * ONE_CL8Y);
}

#[test]
fn reserved_ids_and_fee_arithmetic() {
    assert!(assert_not_reserved(0, false).is_err());
    assert!(assert_not_reserved(255, false).is_err());
    assert!(assert_not_reserved(0, true).is_ok());
    assert!(assert_not_reserved(7, false).is_ok());
    assert_eq!(effective_fee(180, 5_000), 90);
    assert_eq!(effective_fee(1_800, 250), 1_755);
    assert_eq!(effective_fee(1_800, 10_000), 0);
    assert_eq!(effective_fee(3, 5_000), 1);
}

#[test]
fn migration_accepts_same_or_older_version_only() {
    let same = Some((CONTRACT_NAME.to_string(), CONTRACT_VERSION.to_string()));
    assert_eq!(migrate(&same), Ok(false));
    let older = Some((CONTRACT_NAME.to_string(), "0.0.1".to_string()));
    assert_eq!(migrate(&older), Ok(true));
    let newer = Some((CONTRACT_NAME.to_string(), "99.0.0".to_string()));
    assert_eq!(migrate(&newer).err(), Some(ContractError::Std(StdFault::NewerVersion)));
    let wrong = Some(("wrong".to_string(), "0.0.1".to_string()));
    assert_eq!(migrate(&wrong).err(), Some(ContractError::Std(StdFault::WrongContract)));
    let malformed = Some((CONTRACT_NAME.to_string(), "nope".to_string()));
    assert_eq!(migrate(&malformed).err(), Some(ContractError::Std(StdFault::InvalidVersion)));
}

fn mainnet_registry(cl8y: &str, treasury: &str) -> Result<FeeRegistry, ContractError> {
    FeeRegistry::instantiate(gov(), cl8y.to_string(), treasury.to_string(), "collector".to_string(), 180, true)
}

#[test]
fn instantiate_rejects_fake_cl8y() {
    let err = mainnet_registry("fake-cl8y", CANONICAL_TREASURY).err().unwrap();
    assert_eq!(err, ContractError::NonCanonicalAddress { field: PinnedField::Cl8y });
}

#[test]
fn instantiate_rejects_fake_treasury() {
    let err = mainnet_registry(CANONICAL_CL8Y, "fake-treasury").err().unwrap();
    assert_eq!(err, ContractError::NonCanonicalAddress { field: PinnedField::Treasury });
}

#[test]
fn instantiate_with_canonical_addresses_succeeds() {
    let registry = mainnet_registry(CANONICAL_CL8Y, CANONICAL_TREASURY).unwrap();
    assert_eq!(registry.config.cl8y, CANONICAL_CL8Y);
    assert_eq!(registry.config.treasury, CANONICAL_TREASURY);
}

#[test]
fn update_config_refuses_to_repoint_pinned_fields() {
    let mut registry = mainnet_registry(CANONICAL_CL8Y, CANONICAL_TREASURY).unwrap();
    let err = registry.update_config(&gov(), None, Some("fake-cl8y".to_string()), None, None, None, true).unwrap_err();
    assert_eq!(err, ContractError::NonCanonicalAddress { field: PinnedField::Cl8y });
    let err = registry.update_config(&gov(), None, None, Some("fake-treasury".to_string()), None, None, true).unwrap_err();
    assert_eq!(err, ContractError::NonCanonicalAddress { field: PinnedField::Treasury });
    assert_eq!(registry.config.cl8y, CANONICAL_CL8Y);
    assert_eq!(registry.config.treasury, CANONICAL_TREASURY);
}

#[test]
fn update_config_still_allows_governance_and_base_fee() {
    let mut registry = mainnet_registry(CANONICAL_CL8Y, CANONICAL_TREASURY).unwrap();
    registry
        .update_config(&gov(), Some("next-governance".to_string()), None, None, Some("new-collector".to_string()), Some(150), true)
        .unwrap();
    assert_eq!(registry.config.governance, "next-governance");
    assert_eq!(registry.config.fee_collector, "new-collector");
    assert_eq!(registry.config.base_fee_bps, 150);
}
