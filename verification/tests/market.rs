use cl8y_dex_bots::errors::StdFault;
use cl8y_dex_bots::market::{
    allocation_deviation, expected_return, fee_shares_for_value, grid_cell, planned_offer,
    ratio_deviation, relative_deviation, target_weight_bps, valid_twap_window,
    validate_allocation_tolerance, validate_pool_safety, validate_rebalance_outcome,
    validate_risk_controls, MarketError, MarketPins, PendingSwap, PinnedAddress,
};
use cl8y_dex_bots::grid_types::{AssetInfo, PairInfo};
use cl8y_dex_bots::market_setup::{MarketReads, MarketSetup};
use cl8y_dex_bots::market_vault::{
    check_pair_code, migrate_decision, minimum_return, plan_rebalance, pro_rata, swap_route, ConfigUpdate, FeeCharge, FeeOrigin, MarketConfig,
    MarketVault, RegistryFee, SwapRoute, CONTRACT_NAME, CONTRACT_VERSION, REBALANCE_REPLY_ID,
};
use cl8y_dex_bots::math::{Decimal, Wide};

const UNIT: u128 = 1_000_000_000_000_000_000;

fn whole(n: u128) -> Decimal {
    Decimal::raw(n * UNIT)
}

fn milli(n: u128) -> Decimal {
    Decimal::raw(n * UNIT / 1000)
}

fn cell_config(grid_count: u32) -> MarketConfig {
    MarketConfig {
        admin: "admin".to_string(),
        pending_admin: None,
        factory: "factory".to_string(),
        pair: "pair".to_string(),
        pair_code_id: 1,
        asset_tokens: ["t0".to_string(), "t1".to_string()],
        decimals: 6,
        twap_window_seconds: 300,
        grid_count,
        lower_price: whole(100),
        upper_price: whole(200),
        allocation_tolerance_bps: 100,
        max_trade_bps: 2_500,
        max_execution_deviation_bps: 500,
        quote_slippage_bps: 200,
        max_spot_twap_deviation_bps: 500,
        max_trade_pool_bps: 1_000,
        max_spread: Decimal::percent(5),
        reference_price: whole(150),
        last_cell: 2,
        fee_registry: None,
        fee_collector: None,
        proxy: None,
    }
}

fn empty_update() -> ConfigUpdate {
    ConfigUpdate {
        grid_count: None,
        lower_price: None,
        upper_price: None,
        allocation_tolerance_bps: None,
        max_trade_bps: None,
        max_execution_deviation_bps: None,
        quote_slippage_bps: None,
        max_spot_twap_deviation_bps: None,
        max_trade_pool_bps: None,
        max_spread: None,
        fee_registry: None,
        fee_collector: None,
        proxy: None,
    }
}

fn deviation(config: &MarketConfig, holdings: [u128; 2], price: Decimal) -> u16 {
    allocation_deviation(holdings, price, config.lower_price, config.upper_price, config.grid_count)
        .unwrap()
}

#[test]
fn admin_can_pause_and_resume() {
    let mut vault = MarketVault::new(cell_config(4));
    vault.pause(false, &"admin".to_string()).unwrap();
    let err = vault.check_rebalance(false, 10, u64::MAX, 1).unwrap_err();
    assert!(err.message().contains("paused"), "{:?}", err);
    vault.resume(false, &"admin".to_string()).unwrap();
    assert!(vault.check_rebalance(false, 10, u64::MAX, 1).is_ok());
}

#[test]
fn non_admin_cannot_update_config() {
    let mut vault = MarketVault::new(cell_config(4));
    let mut update = empty_update();
    update.grid_count = Some(8);
    let err = vault.update_config(false, &"depositor".to_string(), &update, &None).unwrap_err();
    assert!(err.message().contains("unauthorized"), "{:?}", err);
    assert_eq!(vault.config.grid_count, 4);
}

#[test]
fn update_config_can_clear_fee_settings() {
    let mut config = cell_config(4);
    config.fee_registry = Some("registry".to_string());
    config.fee_collector = Some("collector".to_string());
    let mut vault = MarketVault::new(config);
    let mut update = empty_update();
    update.fee_registry = Some(None);
    update.fee_collector = Some(None);
    vault.update_config(false, &"admin".to_string(), &update, &None).unwrap();
    assert!(vault.config.fee_registry.is_none());
    assert!(vault.config.fee_collector.is_none());
}

#[test]
fn update_config_rejects_out_of_range_values() {
    let mut vault = MarketVault::new(cell_config(4));
    let mut update = empty_update();
    update.grid_count = Some(0);
    assert_eq!(
        vault.update_config(false, &"admin".to_string(), &update, &None).err(), Some(MarketError::InvalidGridCount));
    let mut update = empty_update();
    update.lower_price = Some(whole(300));
    assert_eq!(
        vault.update_config(false, &"admin".to_string(), &update, &None).err(), Some(MarketError::InvalidGrid));
    let mut update = empty_update();
    update.max_trade_bps = Some(5_001);
    assert_eq!(
        vault.update_config(false, &"admin".to_string(), &update, &None).err(), Some(MarketError::InvalidRiskControl));
    assert_eq!(vault.config.lower_price, whole(100));
}

#[test]
fn paused_withdrawal_remains_available_unless_a_swap_is_pending() {
    let mut vault = MarketVault::new(cell_config(4));
    vault.paused = true;
    vault.pending = Some(PendingSwap {
        captured_twap: Decimal::one(),
        balances: [1, 1],
        pre_deviation_bps: 1,
        offer_index: 0,
        amount: 1,
        min_return: 1,
    });
    assert_eq!(
        vault.withdraw(false, &"holder".to_string(), 1, [1, 1]).err(), Some(MarketError::RebalancePending));
}

#[test]
fn deposit_then_withdraw_while_paused_returns_pro_rata() {
    let mut vault = MarketVault::new(cell_config(4));
    let admin = "admin".to_string();
    let index = vault.check_deposit(&"t1".to_string(), &admin, 90, 1).unwrap();
    assert_eq!(index, 1);
    let minted = vault.apply_deposit(&admin, 1, 90, whole(1), [0, 90]).unwrap();
    assert_eq!(minted, 90);
    assert_eq!(vault.total_shares, 90);
    vault.pause(false, &admin).unwrap();
    let paid = vault.withdraw(false, &admin, 30, [0, 90]).unwrap();
    assert_eq!(paid, [0, 30]);
    assert_eq!(vault.total_shares, 60);
}

#[test]
fn deposit_checks_report_each_refusal() {
    let vault = MarketVault::new(cell_config(4));
    let admin = "admin".to_string();
    assert_eq!(vault.check_deposit(&"t0".to_string(), &admin, 0, 1).err(), Some(MarketError::ZeroAmount));
    assert_eq!(
        vault.check_deposit(&"t0".to_string(), &"stranger".to_string(), 5, 1).err(), Some(MarketError::Unauthorized));
    assert_eq!(
        vault.check_deposit(&"t9".to_string(), &admin, 5, 1).err(), Some(MarketError::UnsupportedToken));
    assert_eq!(
        vault.check_deposit(&"t0".to_string(), &admin, 5, 2).err(), Some(MarketError::Std(StdFault::PairCodeMismatch)));
}

#[test]
fn ratio_deviation_uses_reference_basis() {
    assert_eq!(ratio_deviation(Wide::from_u128(45), Wide::from_u128(55)).unwrap(), 1_818);
    assert_eq!(ratio_deviation(Wide::from_u128(95), Wide::from_u128(100)).unwrap(), 500);
}

#[test]
fn relative_deviation_of_spot_against_twap() {
    assert_eq!(relative_deviation(milli(1_200), milli(1_500)).unwrap(), 2_000);
    assert_eq!(relative_deviation(whole(1), Decimal::zero()).err(), Some(StdFault::EmptyReference));
}

#[test]
fn grid_cell_clamps_to_bounds() {
    let config = cell_config(4);
    let cell = |p: u128| grid_cell(whole(p), config.lower_price, config.upper_price, config.grid_count);
    assert_eq!(cell(99), 0);
    assert_eq!(cell(201), 4);
    assert_eq!(cell(150), 2);
    assert_eq!(cell(175), 3);
    assert_eq!(cell(100), 0);
    assert_eq!(cell(200), 4);
}

#[test]
fn target_weight_is_linear_across_cells() {
    assert_eq!(target_weight_bps(0, 4), 0);
    assert_eq!(target_weight_bps(2, 4), 5_000);
    assert_eq!(target_weight_bps(4, 4), 10_000);
    assert_eq!(target_weight_bps(1, 10), 1_000);
}

#[test]
fn target_weight_clamps_at_ten_thousand_bps() {
    assert_eq!(target_weight_bps(99, 4), 10_000);
    assert_eq!(target_weight_bps(4, 4), 10_000);
}

#[test]
fn planned_offer_caps_at_max_trade_bps() {
    let holdings = [60_000_000_000u128, 60_000_000_000];
    let (index, amount) = planned_offer(holdings, milli(1_750), 3, 4, 2_500).unwrap().unwrap();
    assert_eq!(index, 0);
    assert_eq!(amount, 15_000_000_000);
}

#[test]
fn planned_offer_skips_when_balanced() {
    let holdings = [60_000_000_000u128, 90_000_000_000];
    assert!(planned_offer(holdings, milli(1_500), 2, 4, 2_500).unwrap().is_none());
}

#[test]
fn planned_offer_reaches_each_target_in_one_ideal_trade() {
    let price = milli(1_500);
    let holdings = [400u128, 600];
    for cell in 0..=4u32 {
        let target = 1_200u128 * cell as u128 / 4;
        let offer = planned_offer(holdings, price, cell, 4, 10_000).unwrap();
        let resulting_token1 = match offer {
            None => holdings[1],
            Some((0, amount)) => holdings[1] + expected_return(amount, 0, price).unwrap(),
            Some((1, amount)) => holdings[1] - amount,
            Some((_, _)) => unreachable!(),
        };
        assert_eq!(resulting_token1, target, "cell {cell}");
    }
}

#[test]
fn allocation_deviation_is_bounded_and_relative() {
    let config = cell_config(4);
    assert_eq!(deviation(&config, [1_000_000_000, 150_000_000_000], whole(150)), 0);
    assert_eq!(deviation(&config, [0, 100_000_000_000], whole(150)), 10_000);
}

#[test]
fn zero_target_deviation_and_offer_are_valid_at_or_below_lower_price() {
    let config = cell_config(4);
    for price in [whole(100), whole(99)] {
        assert_eq!(deviation(&config, [10, 0], price), 0);
        assert_eq!(deviation(&config, [10, 20], price), 10_000);
        let offer = planned_offer([10, 20], price, 0, config.grid_count, 5_000).unwrap();
        assert_eq!(offer, Some((1, 10)));
    }
}

#[test]
fn fee_shares_track_nav_and_never_overcharge() {
    for (asset_value, supply) in [
        (500_000u128, 1_000_000u128),
        (1_000_000, 1_000_000),
        (2_000_000, 1_000_000),
        (1_234_567, 765_432),
    ] {
        let fee = asset_value * 180 / 10_000;
        let shares = fee_shares_for_value(fee, asset_value, supply).unwrap();
        let claim = shares * asset_value / (supply + shares);
        assert!(claim <= fee);

        let second = fee_shares_for_value(fee, asset_value, supply + shares).unwrap();
        let total_claim = (shares + second) * asset_value / (supply + shares + second);
        assert!(total_claim <= fee * 2);
    }
    assert_eq!(fee_shares_for_value(1, 10, 0).unwrap(), 0);
    assert_eq!(fee_shares_for_value(10, 10, 10).unwrap(), 0);
}

#[test]
fn fee_shares_exact_value() {
    // 18 of 1_000 in value against 1_000 shares: 18 * 1000 / (1000 - 18).
    assert_eq!(fee_shares_for_value(18, 1_000, 1_000).unwrap(), 18);
}

#[test]
fn migrate_validates_metadata_then_requires_redeployment() {
    assert_eq!(
        migrate_decision(Some((CONTRACT_NAME.to_string(), "0.1.0".to_string()))),
        MarketError::LegacySchemaRequiresRedeploy
    );
    for (contract, version) in [
        (CONTRACT_NAME, CONTRACT_VERSION),
        (CONTRACT_NAME, "999.0.0"),
        (CONTRACT_NAME, "not-semver"),
        ("wrong-contract", "0.1.0"),
    ] {
        assert_eq!(
            migrate_decision(Some((contract.to_string(), version.to_string()))),
            MarketError::InvalidMigration
        );
    }
    assert_eq!(migrate_decision(None), MarketError::InvalidMigration);
}

#[test]
fn validate_pool_safety_rejects_spot_twap_drift() {
    let err = validate_pool_safety(
        [1_000_000_000_000, 1_200_000_000_000],
        milli(1_500),
        0,
        10_000_000_000,
        500,
        1_000,
    )
    .unwrap_err();
    assert!(matches!(err, MarketError::UnsafePoolPrice));
}

#[test]
fn validate_pool_safety_rejects_oversized_trade() {
    let err = validate_pool_safety([1_000_000_000, 1_500_000_000], milli(1_500), 0, 300_000_000, 500, 1_000)
        .unwrap_err();
    assert!(matches!(err, MarketError::InsufficientPoolDepth));
}

#[test]
fn validate_pool_safety_accepts_small_trade_at_twap() {
    assert!(validate_pool_safety([1_000_000_000, 1_500_000_000], milli(1_500), 0, 10_000_000, 500, 1_000).is_ok());
}

#[test]
fn validate_rebalance_outcome_requires_improvement() {
    assert!(matches!(validate_rebalance_outcome(100, 400, 300), Err(MarketError::AllocationDidNotImprove)));
    assert!(validate_rebalance_outcome(100, 250, 300).unwrap());
    assert!(validate_rebalance_outcome(300, 100, 200).unwrap());
    assert!(!validate_rebalance_outcome(300, 250, 200).unwrap());
}

#[test]
fn parameter_bounds_are_inclusive() {
    assert!(valid_twap_window(1));
    assert!(valid_twap_window(86_400));
    assert!(!valid_twap_window(0));
    assert!(!valid_twap_window(86_401));
    assert!(validate_allocation_tolerance(2_000).is_ok());
    assert_eq!(validate_allocation_tolerance(0).err(), Some(MarketError::InvalidRiskControl));
    assert!(validate_risk_controls(5_000, 1_000, 500, 1_000, 2_000, Decimal::percent(10)).is_ok());
    assert_eq!(
        validate_risk_controls(5_000, 1_000, 500, 1_000, 2_000, Decimal::percent(11)).err(), Some(MarketError::InvalidRiskControl));
}

#[test]
fn pro_rata_splits_each_balance() {
    assert_eq!(pro_rata([100, 7], 1, 4), [25, 1]);
    assert_eq!(pro_rata([100, 7], 4, 4), [100, 7]);
}

fn harness_config() -> MarketConfig {
    let mut config = cell_config(4);
    config.lower_price = whole(1);
    config.upper_price = whole(2);
    config.reference_price = milli(1_500);
    config.last_cell = 2;
    config
}

fn admin() -> String {
    "admin".to_string()
}

fn seeded(twap: Decimal, t0: u128, t1: u128) -> MarketVault {
    let mut vault = MarketVault::new(harness_config());
    vault.apply_deposit(&admin(), 0, t0, twap, [t0, 0]).unwrap();
    vault.apply_deposit(&admin(), 1, t1, twap, [t0, t1]).unwrap();
    vault
}

#[test]
fn deposit_mints_shares_from_twap() {
    let vault = seeded(milli(1_500), 50_000_000_000, 75_000_000_000);
    assert_eq!(vault.shares.amount(&admin()), 100_000_000_000);
    assert_eq!(vault.total_shares, 100_000_000_000);
}

#[test]
fn rebalance_not_required_when_price_in_cell() {
    let mut vault = seeded(milli(1_500), 60_000_000_000, 90_000_000_000);
    let plan = plan_rebalance(&vault.config, milli(1_500), [60_000_000_000, 90_000_000_000]).unwrap();
    assert!(!plan.should_rebalance);
    let err = vault.start_rebalance(&plan, None, [1_000_000_000_000, 1_500_000_000_000]).unwrap_err();
    assert!(err.message().contains("not required"), "{:?}", err);
}

#[test]
fn rebalance_swaps_toward_target_cell() {
    let twap = milli(1_750);
    let holdings = [60_000_000_000u128, 60_000_000_000];
    let mut vault = seeded(milli(1_500), holdings[0], holdings[1]);
    vault.check_rebalance(false, 10, u64::MAX, 1).unwrap();
    let plan = plan_rebalance(&vault.config, twap, holdings).unwrap();
    assert!(plan.should_rebalance);
    assert_eq!(plan.current_cell, 3);
    assert_eq!(plan.offer, Some((0, 15_000_000_000)));
    let simulated = expected_return(15_000_000_000, 0, twap).unwrap();
    assert_eq!(simulated, 26_250_000_000);
    let min_return = minimum_return(&vault.config, 0, 15_000_000_000, twap, simulated).unwrap();
    assert_eq!(min_return, 25_725_000_000);
    let pending = vault
        .start_rebalance(&plan, Some(min_return), [1_000_000_000_000, 1_750_000_000_000])
        .unwrap();
    assert_eq!(pending.amount, 15_000_000_000);
    assert_eq!(vault.check_rebalance(false, 10, u64::MAX, 1).err(), Some(MarketError::RebalancePending));
    let outcome = vault.complete_rebalance(REBALANCE_REPLY_ID, [45_000_000_000, 86_250_000_000]).unwrap();
    assert!(vault.pending.is_none());
    assert_eq!(outcome.value_in_token0, 15_000_000_000);
    assert_eq!(outcome.asset_value_in_token0, 45_000_000_000 + 86_250_000_000 * 1_000 / 1_750);
}

#[test]
fn withdraw_burns_shares_pro_rata() {
    let mut vault = seeded(milli(1_500), 60_000_000_000, 90_000_000_000);
    let before = vault.shares.amount(&admin());
    let half = before / 2;
    vault.withdraw(false, &admin(), half, [60_000_000_000, 90_000_000_000]).unwrap();
    assert_eq!(vault.shares.amount(&admin()), before - half);
}

#[test]
fn deposit_prices_against_vault_nav() {
    let mut vault = seeded(milli(1_500), 60_000_000_000, 90_000_000_000);
    assert_eq!(vault.shares.amount(&admin()), 120_000_000_000);
    let got_shares = vault
        .apply_deposit(&admin(), 0, 60_000_000_000, whole(1), [120_000_000_000, 90_000_000_000])
        .unwrap();
    assert_eq!(got_shares, 48_000_000_000);
    let paid = vault.withdraw(false, &admin(), got_shares, [120_000_000_000, 90_000_000_000]).unwrap();
    let value = paid[0] + paid[1];
    assert!(value <= 60_000_000_000 && value >= 59_900_000_000, "must not extract value (got {value})");
}

#[test]
fn rebalance_mints_fee_lp_to_collector() {
    let mut config = harness_config();
    config.fee_registry = Some("registry".to_string());
    config.fee_collector = Some("collector".to_string());
    let mut vault = MarketVault::new(config);
    vault.apply_deposit(&admin(), 0, 1_000_000, whole(1), [1_000_000, 0]).unwrap();
    assert_eq!(vault.fee_subject(100_000), Some(admin()));
    assert_eq!(vault.fee_subject(0), None);
    let applied = match vault.charge_fee(100_000, 1_000_000, Some(RegistryFee { fee_bps: 180, tier_id: None })).unwrap() {
        FeeCharge::Applied(f) => f,
        _ => panic!("fee must be minted"),
    };
    // F = 100_000 * 180 / 10_000 = 1_800; x = 1_800 * 1_000_000 / (1_000_000 - 1_800).
    assert_eq!(applied.fee_bps, 180);
    assert_eq!(applied.shares, 1_803);
    assert_eq!(applied.origin, FeeOrigin::Registry);
    assert_eq!(vault.shares.amount(&"collector".to_string()), 1_803);
    assert_eq!(vault.total_shares, 1_001_803);
    // The collector's claim right after the mint is at most the fee.
    assert!(1_803u128 * 1_000_000 / 1_001_803 <= 1_800);
}

#[test]
fn rebalance_fee_falls_back_to_the_cached_rate() {
    let mut config = harness_config();
    config.fee_registry = Some("registry".to_string());
    config.fee_collector = Some("collector".to_string());
    let mut vault = MarketVault::new(config);
    vault.apply_deposit(&admin(), 0, 1_000_000, whole(1), [1_000_000, 0]).unwrap();
    assert!(matches!(vault.charge_fee(100_000, 1_000_000, Some(RegistryFee { fee_bps: 9, tier_id: Some(9) })).unwrap(), FeeCharge::Applied(_)));
    let cached = match vault.charge_fee(100_000, 1_000_000, None).unwrap() {
        FeeCharge::Applied(f) => f,
        _ => panic!("the cached rate must apply"),
    };
    assert_eq!(cached.fee_bps, 9);
    assert_eq!(cached.tier, Some(9));
    assert_eq!(cached.origin, FeeOrigin::VaultCached);
}

#[test]
fn rebalance_is_non_blocking_when_fee_registry_is_unreachable() {
    let mut config = harness_config();
    config.fee_registry = Some("dead-fee-registry".to_string());
    config.fee_collector = Some("collector".to_string());
    let mut vault = MarketVault::new(config);
    vault.apply_deposit(&admin(), 0, 1_000_000, whole(1), [1_000_000, 0]).unwrap();
    assert!(matches!(vault.charge_fee(100_000, 1_000_000, None).unwrap(), FeeCharge::Skipped));
    assert_eq!(vault.total_shares, 1_000_000);
    assert_eq!(vault.shares.amount(&"collector".to_string()), 0);
}

#[test]
fn single_user_is_billed_at_the_admin_tier() {
    let mut config = harness_config();
    config.fee_registry = Some("registry".to_string());
    config.fee_collector = Some("collector".to_string());
    let mut vault = MarketVault::new(config);
    vault.apply_deposit(&admin(), 0, 1_000_000, whole(1), [1_000_000, 0]).unwrap();
    assert_eq!(vault.fee_subject(100_000), Some(admin()));
    let fee = match vault.charge_fee(1_000_000, 10_000_000, Some(RegistryFee { fee_bps: 9, tier_id: Some(9) })).unwrap() {
        FeeCharge::Applied(f) => f,
        _ => panic!("fee must be minted"),
    };
    // F = 1_000_000 * 9 / 10_000 = 900; x = 900 * 1_000_000 / (10_000_000 - 900) = 90.
    assert_eq!(fee.fee_bps, 9);
    assert_eq!(fee.tier, Some(9));
    assert_eq!(fee.holders, 1);
    assert_eq!(fee.shares, 90);
    assert_eq!(vault.shares.amount(&"collector".to_string()), 90);
}

#[test]
fn no_fee_without_registry_and_collector() {
    let mut vault = MarketVault::new(harness_config());
    vault.apply_deposit(&admin(), 0, 1_000_000, whole(1), [1_000_000, 0]).unwrap();
    assert!(matches!(vault.charge_fee(100_000, 1_000_000, Some(RegistryFee { fee_bps: 180, tier_id: None })).unwrap(), FeeCharge::Nothing));
    assert_eq!(vault.total_shares, 1_000_000);
}

fn setup_msg() -> MarketSetup {
    MarketSetup {
        admin: "admin".to_string(),
        factory: "factory".to_string(),
        pair: "pair".to_string(),
        pair_code_id: 7,
        twap_window_seconds: 300,
        grid_count: 4,
        lower_price: whole(1),
        upper_price: whole(2),
        allocation_tolerance_bps: None,
        max_trade_bps: None,
        max_execution_deviation_bps: None,
        quote_slippage_bps: None,
        max_spot_twap_deviation_bps: None,
        max_trade_pool_bps: None,
        max_spread: None,
        fee_registry: None,
        fee_collector: None,
        proxy: None,
    }
}

fn pair_info(addr: &str) -> PairInfo {
    PairInfo {
        asset_infos: [
            AssetInfo::Token { contract_addr: "t0".to_string() },
            AssetInfo::Token { contract_addr: "t1".to_string() },
        ],
        contract_addr: addr.to_string(),
        liquidity_token: "lp".to_string(),
    }
}

fn market_reads() -> MarketReads {
    // Cumulative prices 300 seconds apart averaging 1.5.
    MarketReads {
        code_id: Some(7),
        pair_info: Some(pair_info("pair")),
        registered: Some(pair_info("pair")),
        decimals: [Some(6), Some(6)],
        cumulatives: Some(vec![1_000 * UNIT + 450 * UNIT, 1_000 * UNIT]),
    }
}

#[test]
fn instantiate_applies_defaults_and_twap_cell() {
    let vault = MarketVault::instantiate(&setup_msg(), &market_reads(), &None).unwrap();
    assert_eq!(vault.config.asset_tokens, ["t0".to_string(), "t1".to_string()]);
    assert_eq!(vault.config.reference_price, milli(1_500));
    assert_eq!(vault.config.last_cell, 2);
    assert_eq!(vault.config.allocation_tolerance_bps, 100);
    assert_eq!(vault.config.max_trade_bps, 2_500);
    assert_eq!(vault.config.max_spread, Decimal::percent(5));
    assert_eq!(vault.total_shares, 0);
    assert!(!vault.paused);
}

#[test]
fn instantiate_refuses_bad_pairs_and_parameters() {
    let mut setup = setup_msg();
    setup.pair_code_id = 0;
    assert_eq!(MarketVault::instantiate(&setup, &market_reads(), &None).err(), Some(MarketError::InvalidPair));
    let mut reads = market_reads();
    reads.code_id = Some(8);
    assert_eq!(MarketVault::instantiate(&setup_msg(), &reads, &None).err(), Some(MarketError::InvalidPair));
    let mut reads = market_reads();
    reads.registered = Some(pair_info("other"));
    assert_eq!(MarketVault::instantiate(&setup_msg(), &reads, &None).err(), Some(MarketError::InvalidPair));
    let mut reads = market_reads();
    reads.decimals = [Some(6), Some(18)];
    assert_eq!(MarketVault::instantiate(&setup_msg(), &reads, &None).err(), Some(MarketError::DecimalMismatch));
    let mut setup = setup_msg();
    setup.grid_count = 0;
    assert_eq!(MarketVault::instantiate(&setup, &market_reads(), &None).err(), Some(MarketError::InvalidGridCount));
    let mut setup = setup_msg();
    setup.twap_window_seconds = 0;
    assert_eq!(MarketVault::instantiate(&setup, &market_reads(), &None).err(), Some(MarketError::InvalidTwapWindow));
    let mut setup = setup_msg();
    setup.max_trade_bps = Some(0);
    assert_eq!(MarketVault::instantiate(&setup, &market_reads(), &None).err(), Some(MarketError::InvalidRiskControl));
    let mut reads = market_reads();
    reads.cumulatives = Some(vec![5, 5]);
    assert_eq!(
        MarketVault::instantiate(&setup_msg(), &reads, &None).err(),
        Some(MarketError::Std(StdFault::EmptyTwapHistory))
    );
    let mut reads = market_reads();
    reads.decimals = [None, Some(6)];
    assert_eq!(
        MarketVault::instantiate(&setup_msg(), &reads, &None).err(),
        Some(MarketError::Std(StdFault::QueryFailed))
    );
}

#[test]
fn swap_goes_to_the_pair_unless_a_proxy_is_configured() {
    let mut config = cell_config(4);
    match swap_route(&config, 500, 480, 77) {
        SwapRoute::Pair { pair, amount, max_spread, min_return, deadline } => {
            assert_eq!((pair.as_str(), amount, max_spread, min_return, deadline), ("pair", 500, Decimal::percent(5), 480, 77));
        },
        SwapRoute::Proxy { .. } => panic!("no proxy is configured"),
    }
    config.proxy = Some("proxy".to_string());
    match swap_route(&config, 500, 480, 77) {
        SwapRoute::Proxy { proxy, pair, min_return, max_spread, deadline } => {
            assert_eq!((proxy.as_str(), pair.as_str(), min_return, max_spread, deadline), ("proxy", "pair", 480, Decimal::percent(5), 77));
        },
        SwapRoute::Pair { .. } => panic!("the proxy is configured"),
    }
}

#[test]
fn tier9_rebalance_through_zero_fee_proxy_collector_gets_exact_9bps() {
    let mut config = harness_config();
    config.fee_registry = Some("registry".to_string());
    config.fee_collector = Some("collector".to_string());
    config.proxy = Some("proxy".to_string());
    let mut vault = MarketVault::new(config);
    vault.apply_deposit(&admin(), 0, 1_000_000, whole(1), [1_000_000, 0]).unwrap();
    assert!(matches!(swap_route(&vault.config, 500, 480, 77), SwapRoute::Proxy { .. }));
    let fee = match vault.charge_fee(2_000_000, 10_000_000, Some(RegistryFee { fee_bps: 9, tier_id: Some(9) })).unwrap() {
        FeeCharge::Applied(f) => f,
        _ => panic!("a tier-9 fee must be minted"),
    };
    // F = 2_000_000 * 9 / 10_000 = 1_800; x = 1_800 * 1_000_000 / (10_000_000 - 1_800) = 180.
    assert_eq!(fee.fee_bps, 9);
    assert_eq!(fee.tier, Some(9));
    assert_eq!(fee.origin, FeeOrigin::Registry);
    assert_eq!(fee.shares, 180);
    assert_eq!(vault.shares.amount(&"collector".to_string()), fee.shares);
    assert!(fee.shares > 0);
}

#[test]
fn rebalance_routes_through_shared_proxy() {
    let mut config = harness_config();
    config.proxy = Some("shared-proxy".to_string());
    match swap_route(&config, 1_000, 990, 123) {
        SwapRoute::Proxy { proxy, pair, min_return, deadline, .. } => {
            assert_eq!(proxy, "shared-proxy");
            assert_eq!(pair, config.pair);
            assert_eq!(min_return, 990);
            assert_eq!(deadline, 123);
        },
        SwapRoute::Pair { .. } => panic!("the swap must go through the proxy"),
    }
}

#[test]
fn frozen_0_1_0_provenance_schema_requires_redeployment_without_mutation() {
    let stored = Some((CONTRACT_NAME.to_string(), "0.1.0".to_string()));
    assert_eq!(migrate_decision(stored.clone()), MarketError::LegacySchemaRequiresRedeploy);
    assert_eq!(migrate_decision(stored), MarketError::LegacySchemaRequiresRedeploy);
}

#[test]
fn wrong_name_and_non_older_versions_leave_legacy_state_unchanged() {
    for (contract, version) in [("wrong", "0.1.0"), (CONTRACT_NAME, "0.2.0"), (CONTRACT_NAME, "not-semver")] {
        assert_eq!(migrate_decision(Some((contract.to_string(), version.to_string()))), MarketError::InvalidMigration);
    }
}

#[test]
fn pair_code_must_match_the_pinned_code() {
    let config = harness_config();
    assert!(check_pair_code(&config, config.pair_code_id).is_ok());
    assert_eq!(check_pair_code(&config, config.pair_code_id + 1), Err(StdFault::PairCodeMismatch));
}

#[test]
fn grid_cell_never_falls_as_the_price_rises() {
    let mut last = 0;
    for step in 0..=40u128 {
        let price = Decimal { atomics: 500_000_000_000_000_000 + step * 50_000_000_000_000_000 };
        let cell = grid_cell(price, whole(1), whole(2), 4);
        assert!(cell >= last);
        last = cell;
    }
    assert_eq!(last, 4);
}

#[test]
fn rebalance_mints_fee_lp_to_collector_and_can_redistribute_to_treasury() {
    let mut config = harness_config();
    config.fee_registry = Some("registry".to_string());
    config.fee_collector = Some("collector".to_string());
    let mut vault = MarketVault::new(config);
    vault.apply_deposit(&admin(), 0, 1_000_000, whole(1), [1_000_000, 0]).unwrap();
    let fee = match vault.charge_fee(100_000, 1_000_000, Some(RegistryFee { fee_bps: 180, tier_id: None })).unwrap() {
        FeeCharge::Applied(f) => f,
        _ => panic!("fee must be > 0 per executed swap"),
    };
    assert!(fee.shares > 0);
    assert_eq!(vault.shares.amount(&"collector".to_string()), fee.shares);
    // Other holders are untouched in the single-user model.
    assert_eq!(vault.shares.amount(&admin()), 1_000_000);
    // Only the collector may redeem, and it gets its pro-rata slice.
    assert!(vault.redeem_shares(false, &"intruder".to_string(), [1_000_000, 0]).is_err());
    let paid = vault.redeem_shares(false, &"collector".to_string(), [1_000_000, 0]).unwrap();
    assert_eq!(paid, [1_000_000 * fee.shares / (1_000_000 + fee.shares), 0]);
    assert_eq!(vault.shares.amount(&"collector".to_string()), 0);
    assert_eq!(vault.total_shares, 1_000_000);
}

fn pins() -> Option<MarketPins> {
    Some(MarketPins { fee_registry: "registry".to_string(), fee_collector: "collector".to_string(), proxy: "proxy".to_string() })
}

#[test]
fn mainnet_instantiate_requires_canonical_fee_and_proxy_addresses() {
    let mut setup = setup_msg();
    assert_eq!(
        MarketVault::instantiate(&setup, &market_reads(), &pins()).err(),
        Some(MarketError::NonCanonicalAddress { field: PinnedAddress::FeeRegistry })
    );
    setup.fee_registry = Some("registry".to_string());
    setup.fee_collector = Some("fake-collector".to_string());
    assert_eq!(
        MarketVault::instantiate(&setup, &market_reads(), &pins()).err(),
        Some(MarketError::NonCanonicalAddress { field: PinnedAddress::FeeCollector })
    );
    setup.fee_collector = Some("collector".to_string());
    assert_eq!(
        MarketVault::instantiate(&setup, &market_reads(), &pins()).err(),
        Some(MarketError::NonCanonicalAddress { field: PinnedAddress::Proxy })
    );
    setup.proxy = Some("proxy".to_string());
    assert!(MarketVault::instantiate(&setup, &market_reads(), &pins()).is_ok());
    // Without pins any address is accepted.
    assert!(MarketVault::instantiate(&setup_msg(), &market_reads(), &None).is_ok());
}

#[test]
fn mainnet_update_config_refuses_to_repoint_pinned_addresses() {
    let mut setup = setup_msg();
    setup.fee_registry = Some("registry".to_string());
    setup.fee_collector = Some("collector".to_string());
    setup.proxy = Some("proxy".to_string());
    let mut vault = MarketVault::instantiate(&setup, &market_reads(), &pins()).unwrap();
    let mut update = empty_update();
    update.proxy = Some(Some("fake-proxy".to_string()));
    assert_eq!(
        vault.update_config(false, &"admin".to_string(), &update, &pins()).err(),
        Some(MarketError::NonCanonicalAddress { field: PinnedAddress::Proxy })
    );
    let mut clear = empty_update();
    clear.fee_registry = Some(None);
    assert_eq!(
        vault.update_config(false, &"admin".to_string(), &clear, &pins()).err(),
        Some(MarketError::NonCanonicalAddress { field: PinnedAddress::FeeRegistry })
    );
    assert_eq!(vault.config.proxy, Some("proxy".to_string()));
}
