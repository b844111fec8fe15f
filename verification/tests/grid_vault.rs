use cl8y_dex_bots::errors::StdFault;
use cl8y_dex_bots::grid_math::{
    assert_fee_collector_canonical_mainnet, assert_fee_registry_canonical_mainnet, deposit_shares,
    grid_prices, paid_amount, pool_price, require_populated, rung_side,
};
use cl8y_dex_bots::fee_registry::{EffectiveFeeResponse, TierSource};
use cl8y_dex_bots::grid_reconcile::{FeeDecision, ReconcileReads};
use cl8y_dex_bots::grid_replies::{ReplyOutcome, SubReply};
use cl8y_dex_bots::grid_solvency::SolvencyWarning;
use cl8y_dex_bots::grid_types::{
    Asset, AssetInfo, Coin, ContractError, ExpiredLimitRefundResponse, GridOrder, LimitOrderResponse, LimitOrderSide, OrderStatus,
    PairInfo, PlacementPlan, Rung, VaultMode,
};
use cl8y_dex_bots::grid_vault::{
    migrate, AllocationStep, Bot, GridVault, PairReads, VaultConfig, BOT_ID, CONTRACT_NAME,
    CONTRACT_VERSION,
};
use cl8y_dex_bots::math::Decimal;

const CONTRACT: &str = "vault_contract";

fn s(v: &str) -> String {
    v.to_string()
}

fn default_config() -> VaultConfig {
    VaultConfig {
        admin: s("admin"),
        owner: s("alice"),
        pending_admin: None,
        keeper: s("keeper"),
        factory: s("factory"),
        gas_denom: s("uluna"),
        keeper_reward: 20,
        minimum_gas_reserve: 100,
        order_timeout_seconds: 86_400,
        max_grid_count: 20,
        max_orders_per_reconcile: 10,
        max_active_orders_per_bot: 40,
        fee_registry: None,
        fee_collector: None,
    }
}

fn instantiate_default() -> GridVault {
    GridVault::instantiate(false, default_config()).unwrap()
}

fn token(addr: &str) -> AssetInfo {
    AssetInfo::Token { contract_addr: s(addr) }
}

fn pair_reads() -> PairReads {
    PairReads {
        pair_info: Some(PairInfo {
            asset_infos: [token("token_a"), token("token_b")],
            contract_addr: s("pair"),
            liquidity_token: s("lp"),
        }),
        code_id: Some(7),
        registered_pair: Some(s("pair")),
        decimals: [Some(6), Some(6)],
        max_batch_rungs: Some(20),
        pool: Some([Asset { info: token("token_a"), amount: 1_000 }, Asset { info: token("token_b"), amount: 2_000 }]),
    }
}

fn gas(amount: u128) -> Vec<Coin> {
    vec![Coin { denom: s("uluna"), amount }]
}

fn create_bot_as(vault: &mut GridVault, owner: &str) -> Result<(), ContractError> {
    vault.create_bot(&s(owner), &gas(200), s("pair"), Decimal::one(), Decimal::percent(300), 5, &pair_reads())
}

fn test_bot(owner: &str, active_orders: u32) -> Bot {
    Bot {
        owner: s(owner),
        pair: s("pair"),
        pair_code_id: 7,
        asset_tokens: [s("token_a"), s("token_b")],
        lower_price: Decimal::one(),
        upper_price: Decimal::percent(300),
        grid_count: 5,
        reference_price: Decimal::percent(200),
        free_balances: [0, 0],
        total_shares: 0,
        gas_credit: 200,
        active_orders,
        pair_batch_limit: 20,
    }
}

fn standard_rungs() -> Vec<Rung> {
    vec![
        Rung { price: Decimal::percent(100), side: Some(LimitOrderSide::Bid) },
        Rung { price: Decimal::percent(150), side: Some(LimitOrderSide::Bid) },
        Rung { price: Decimal::percent(200), side: None },
        Rung { price: Decimal::percent(250), side: Some(LimitOrderSide::Ask) },
        Rung { price: Decimal::percent(300), side: Some(LimitOrderSide::Ask) },
    ]
}

fn vault_with_bot(bot: Bot) -> GridVault {
    let mut vault = instantiate_default();
    vault.has_bot = true;
    vault.bot = bot;
    vault.rungs = standard_rungs();
    vault.next_bot_id = 2;
    vault
}

fn active_report(order_id: u64, remaining: u128) -> LimitOrderResponse {
    LimitOrderResponse {
        order_id,
        owner: s(CONTRACT),
        side: LimitOrderSide::Ask,
        price: Decimal::percent(250),
        remaining,
        expires_at: None,
        prev: None,
        next: None,
    }
}

#[test]
fn creates_only_bot_one_and_rejects_a_second_bot() {
    let mut vault = instantiate_default();
    create_bot_as(&mut vault, "alice").unwrap();
    let error = create_bot_as(&mut vault, "bob").unwrap_err();
    assert_eq!(error, ContractError::BotAlreadyExists);
    assert!(vault.has_bot);
    assert_eq!(vault.bot.owner, "alice");
    assert_eq!(vault.bot.gas_credit, 200);
    assert_eq!(vault.bot.reference_price, Decimal::percent(200));
    assert_eq!(vault.next_bot_id, BOT_ID + 1);
    let sides: Vec<Option<LimitOrderSide>> = vault.rungs.iter().map(|r| r.side).collect();
    assert_eq!(
        sides,
        vec![Some(LimitOrderSide::Bid), Some(LimitOrderSide::Bid), None, Some(LimitOrderSide::Ask), Some(LimitOrderSide::Ask)]
    );
}

#[test]
fn contract_rejects_prices_outside_standard_pair_bounds() {
    let mut vault = instantiate_default();
    let error = vault
        .create_bot(&s("alice"), &gas(200), s("pair"), Decimal::zero(), Decimal::percent(300), 5, &pair_reads())
        .unwrap_err();
    assert_eq!(error, ContractError::InvalidGrid);
    assert!(!vault.has_bot);
}

#[test]
fn create_bot_reports_gas_and_owner_errors() {
    let mut vault = instantiate_default();
    let reads = pair_reads();
    assert_eq!(
        vault.create_bot(&s("bob"), &gas(200), s("pair"), Decimal::one(), Decimal::percent(300), 5, &reads).err(), Some(ContractError::Unauthorized));
    assert_eq!(
        vault.create_bot(&s("alice"), &gas(119), s("pair"), Decimal::one(), Decimal::percent(300), 5, &reads).err(), Some(ContractError::InsufficientGasCredit));
    let mixed = vec![Coin { denom: s("uluna"), amount: 200 }, Coin { denom: s("uusd"), amount: 1 }];
    assert_eq!(
        vault.create_bot(&s("alice"), &mixed, s("pair"), Decimal::one(), Decimal::percent(300), 5, &reads).err(), Some(ContractError::UnexpectedFunds));
    let mut other_pair = pair_reads();
    other_pair.registered_pair = Some(s("impostor"));
    assert_eq!(
        vault.create_bot(&s("alice"), &gas(200), s("pair"), Decimal::one(), Decimal::percent(300), 5, &other_pair).err(), Some(ContractError::InvalidPair));
    // A reference price outside the band leaves one side empty.
    assert_eq!(
        vault.create_bot(&s("alice"), &gas(200), s("pair"), Decimal::percent(250), Decimal::percent(300), 5, &reads).err(), Some(ContractError::InvalidGrid));
    assert!(!vault.has_bot);
}

#[test]
fn instantiate_refuses_invalid_limits_and_funds() {
    assert_eq!(GridVault::instantiate(true, default_config()).err(), Some(ContractError::UnexpectedFunds));
    let mut config = default_config();
    config.gas_denom = s("   ");
    assert_eq!(GridVault::instantiate(false, config).err(), Some(ContractError::InvalidGrid));
    let mut config = default_config();
    config.max_grid_count = 1;
    assert_eq!(GridVault::instantiate(false, config).err(), Some(ContractError::InvalidGrid));
    let mut config = default_config();
    config.keeper_reward = 0;
    assert_eq!(GridVault::instantiate(false, config).err(), Some(ContractError::InvalidGrid));
}

#[test]
fn deposit_share_conversion_reports_overflow_without_panicking() {
    let minimum_price = Decimal::raw(1);
    assert_eq!(deposit_shares(u128::MAX, 1, minimum_price).unwrap_err(), ContractError::ArithmeticOutOfRange);
    assert_eq!(deposit_shares(0, 1, Decimal::one()).unwrap(), 0);
    assert_eq!(deposit_shares(25, 1, Decimal::percent(50)).unwrap(), 50);
    assert_eq!(deposit_shares(25, 0, Decimal::percent(50)).unwrap(), 25);
}

#[test]
fn migration_accepts_live_vault_without_inventory_gate() {
    let mut vault = vault_with_bot(test_bot("alice", 0));
    vault
        .orders
        .insert(77, GridOrder { rung_index: 3, side: LimitOrderSide::Ask, price: Decimal::percent(250), remaining: 10 });
    migrate(&s(CONTRACT_NAME), &s("0.1.0")).unwrap();
    assert!(vault.orders.contains(77));
    assert_eq!(vault.bot.owner, "alice");
    assert_eq!(vault.bot.active_orders, 0);
}

#[test]
fn migration_is_repeat_safe() {
    migrate(&s(CONTRACT_NAME), &s("0.1.0")).unwrap();
    assert_eq!(migrate(&s(CONTRACT_NAME), &s(CONTRACT_VERSION)).unwrap_err(), ContractError::UnsupportedMigrationSource);
}

#[test]
fn migration_rejects_wrong_malformed_same_and_newer_sources_without_mutation() {
    for (contract, version) in [
        ("wrong-contract", "0.1.0"),
        (CONTRACT_NAME, "not-semver"),
        (CONTRACT_NAME, "0.0.9"),
        (CONTRACT_NAME, CONTRACT_VERSION),
        (CONTRACT_NAME, "99.0.0"),
    ] {
        assert_eq!(migrate(&s(contract), &s(version)).unwrap_err(), ContractError::UnsupportedMigrationSource);
    }
}

#[test]
fn frozen_0_1_0_migrates_and_config_remains_queryable() {
    let vault = instantiate_default();
    migrate(&s(CONTRACT_NAME), &s("0.1.0")).unwrap();
    assert_eq!(vault.config.owner, "alice");
    assert_eq!(vault.config.minimum_gas_reserve, 100);
}

#[test]
fn wrong_versions_name_and_repeat_are_rejected_without_mutation() {
    for (contract, version) in [
        ("wrong", "0.1.0"),
        ("crates.io:cl8y-grid-vault", "0.0.9"),
        ("crates.io:cl8y-grid-vault", "0.1.1"),
        ("crates.io:cl8y-grid-vault", "99.0.0"),
    ] {
        assert_eq!(migrate(&s(contract), &s(version)).err(), Some(ContractError::UnsupportedMigrationSource));
    }
}

#[test]
fn empty_pre_bot_migration_remains_unlocked_and_can_create_bot() {
    let mut vault = instantiate_default();
    migrate(&s(CONTRACT_NAME), &s("0.1.0")).unwrap();
    create_bot_as(&mut vault, "alice").unwrap();
    assert!(vault.has_bot);
}

#[test]
fn owner_can_recover_a_positively_verified_forgotten_active_order() {
    let mut vault = vault_with_bot(test_bot("alice", 0));
    let status = OrderStatus::Active(active_report(77, 90));
    vault.recover_order(false, &s("alice"), &s(CONTRACT), BOT_ID, 77, 3, Some(7), &status).unwrap();
    assert_eq!(vault.orders.get(77).unwrap().remaining, 90);
    assert_eq!(vault.bot.active_orders, 1);
}

#[test]
fn recover_order_refuses_unverified_or_foreign_orders() {
    let mut vault = vault_with_bot(test_bot("alice", 0));
    let status = OrderStatus::Active(active_report(77, 90));
    assert_eq!(
        vault.recover_order(false, &s("bob"), &s(CONTRACT), BOT_ID, 77, 3, Some(7), &status).err(), Some(ContractError::Unauthorized));
    assert_eq!(
        vault.recover_order(false, &s("alice"), &s(CONTRACT), BOT_ID, 77, 3, Some(8), &status).err(), Some(ContractError::PairCodeMismatch));
    assert_eq!(
        vault.recover_order(false, &s("alice"), &s(CONTRACT), BOT_ID, 77, 3, Some(7), &OrderStatus::Unverifiable).err(), Some(ContractError::OrderStatusUnverifiable));
    let mut foreign = active_report(77, 90);
    foreign.owner = s("someone");
    assert_eq!(
        vault.recover_order(false, &s("alice"), &s(CONTRACT), BOT_ID, 77, 3, Some(7), &OrderStatus::Active(foreign)).err(), Some(ContractError::InvalidOrderOwner));
    // Rung 2 rests at the reference price and takes no side.
    assert_eq!(
        vault.recover_order(false, &s("alice"), &s(CONTRACT), BOT_ID, 77, 2, Some(7), &status).err(), Some(ContractError::InvalidOrder));
    assert!(!vault.orders.contains(77));
}

#[test]
fn contract_failed_single_opposite_placement_returns_free_balance() {
    let mut bot = test_bot("alice", 1);
    bot.total_shares = 1_000;
    let mut vault = vault_with_bot(bot);
    vault.placements.insert(
        7,
        PlacementPlan { bot_id: 1, side: LimitOrderSide::Bid, rungs: vec![1], gross_amounts: vec![25] },
    );
    let outcome = vault
        .reply(7, &SubReply::Failed(s("book walk exhausted")), &s(CONTRACT), &vec![], 10)
        .unwrap();
    assert_eq!(vault.bot.free_balances, [0, 25]);
    assert_eq!(vault.bot.active_orders, 0);
    assert!(!vault.placements.contains(7));
    assert!(matches!(outcome, ReplyOutcome::Deferred(_)));
}

#[test]
fn reply_with_unknown_id_is_refused() {
    let mut vault = vault_with_bot(test_bot("alice", 0));
    assert!(matches!(
        vault.reply(99, &SubReply::Failed(s("x")), &s(CONTRACT), &vec![], 10),
        Err(ContractError::UnknownReply)
    ));
}

#[test]
fn contract_deposits_and_allocates_each_asset_by_its_own_grid_count() {
    let mut vault = instantiate_default();
    create_bot_as(&mut vault, "alice").unwrap();
    let ask = vault.deposit(&s("token_a"), &s("alice"), 1_000, 1, Some(7), Some(1_000), 0).unwrap();
    let bid = vault.deposit(&s("token_b"), &s("alice"), 4_000, 1, Some(7), Some(4_000), 0).unwrap();
    assert!(matches!(ask.step, AllocationStep::Placed(_)));
    assert!(matches!(bid.step, AllocationStep::Placed(_)));
    assert_eq!(vault.bot.free_balances, [0, 0]);
    let ask_plan = vault.placements.get(1).unwrap();
    let bid_plan = vault.placements.get(2).unwrap();
    assert_eq!(bid_plan.gross_amounts, vec![2_000; 2]);
    assert_eq!(ask_plan.gross_amounts, vec![500; 2]);
    assert_eq!(vault.shares.amount(&s("alice")), 3_000);
    assert_eq!(ask.minted, 1_000);
    assert_eq!(bid.minted, 2_000);
    match bid.step {
        AllocationStep::Placed(request) => {
            assert_eq!(request.token, "token_b");
            assert_eq!(request.amount, 4_000);
            assert_eq!(request.orders.len(), 2);
            assert_eq!(request.orders[0].expires_at, Some(86_400));
        },
        _ => unreachable!(),
    }
}

#[test]
fn contract_bot_owner_cannot_deposit_into_another_users_bot() {
    let mut vault = instantiate_default();
    create_bot_as(&mut vault, "alice").unwrap();
    let error = vault.deposit(&s("token_a"), &s("bob"), 100, 1, Some(7), Some(100), 0).err().unwrap();
    assert_eq!(error, ContractError::Unauthorized);
    assert_eq!(vault.bot.free_balances[0], 0);
}

#[test]
fn rejects_deposit_when_cw20_balance_delta_is_not_exact() {
    let mut vault = instantiate_default();
    create_bot_as(&mut vault, "alice").unwrap();
    let error = vault.deposit(&s("token_a"), &s("alice"), 100, 1, Some(7), Some(99), 0).err().unwrap();
    assert_eq!(error, ContractError::UnsupportedTokenBehavior);
    assert_eq!(vault.bot.free_balances, [0, 0]);
    assert_eq!(vault.bot.total_shares, 0);
}

#[test]
fn withdrawal_is_isolated_by_contract_instance() {
    let mut vaults: Vec<GridVault> = vec![];
    for owner in ["alice", "bob"] {
        let mut bot = test_bot(owner, 0);
        bot.free_balances = [1_000, 2_000];
        bot.total_shares = 1_000;
        let mut vault = vault_with_bot(bot);
        vault.shares.set_amount(&s(owner), 1_000);
        vaults.push(vault);
    }
    let paid = vaults[0].withdraw(false, &s("alice"), 1, 500).unwrap();
    assert_eq!(paid, [500, 1_000]);
    assert_eq!(vaults[0].bot.free_balances, [500, 1_000]);
    assert_eq!(vaults[1].bot.free_balances, [1_000, 2_000]);
    assert_eq!(vaults[0].shares.amount(&s("alice")), 500);
    assert_eq!(vaults[1].shares.amount(&s("bob")), 1_000);
}

#[test]
fn admin_transfer_pause_and_exit_are_authorized() {
    let mut vault = vault_with_bot(test_bot("alice", 0));
    assert_eq!(vault.pause(false, &s("alice")).unwrap_err(), ContractError::Unauthorized);
    vault.transfer_admin(false, &s("admin"), s("next_admin")).unwrap();
    assert_eq!(vault.accept_admin(false, &s("alice")).unwrap_err(), ContractError::Unauthorized);
    vault.accept_admin(false, &s("next_admin")).unwrap();
    vault.pause(false, &s("next_admin")).unwrap();
    assert_eq!(vault.mode, VaultMode::Paused);
    assert_eq!(vault.enter_exit(false, &s("bob"), BOT_ID).unwrap_err(), ContractError::Unauthorized);
    vault.enter_exit(false, &s("alice"), BOT_ID).unwrap();
    assert_eq!(vault.mode, VaultMode::Exit);
    assert_eq!(vault.resume(false, &s("next_admin")).unwrap_err(), ContractError::InvalidMode);
}

#[test]
fn emergency_exit_retains_all_orders_when_one_status_is_indeterminate() {
    let mut bot = test_bot("alice", 3);
    bot.total_shares = 1_000;
    bot.free_balances = [999_999, 999_999];
    let mut vault = vault_with_bot(bot);
    vault.shares.set_amount(&s("alice"), 1_000);
    for order_id in [77, 78, 79] {
        vault.orders.insert(
            order_id,
            GridOrder { rung_index: 3, side: LimitOrderSide::Ask, price: Decimal::percent(250), remaining: 100 },
        );
    }
    let statuses = vec![
        OrderStatus::Active(active_report(77, 25)),
        OrderStatus::Unverifiable,
        OrderStatus::Parked(None),
    ];
    vault.enter_exit(false, &s("alice"), BOT_ID).unwrap();
    assert_eq!(
        vault.emergency_cancel(false, &s("keeper"), &s(CONTRACT), BOT_ID, Some(7), &statuses).err(),
        Some(ContractError::Unauthorized)
    );
    let error = vault.emergency_cancel(false, &s("alice"), &s(CONTRACT), BOT_ID, Some(7), &statuses).err().unwrap();
    assert_eq!(error, ContractError::OrderStatusUnverifiable);
    assert!(vault.orders.contains(77));
    assert!(vault.orders.contains(78));
    assert!(vault.orders.contains(79));
    assert_eq!(vault.bot.active_orders, 3);
    assert_eq!(
        vault.emergency_withdraw(false, &s("alice"), BOT_ID, [Some(123), Some(456)]).unwrap_err(),
        ContractError::ExitOrdersRemain
    );
}

#[test]
fn emergency_withdraw_pays_the_whole_balance_once_no_order_is_tracked() {
    let mut bot = test_bot("alice", 0);
    bot.total_shares = 1_000;
    let mut vault = vault_with_bot(bot);
    vault.shares.set_amount(&s("alice"), 1_000);
    assert_eq!(
        vault.emergency_withdraw(false, &s("alice"), BOT_ID, [Some(123), Some(456)]).unwrap_err(),
        ContractError::InvalidMode
    );
    vault.enter_exit(false, &s("alice"), BOT_ID).unwrap();
    let paid = vault.emergency_withdraw(false, &s("alice"), BOT_ID, [Some(123), Some(456)]).unwrap();
    assert_eq!(paid, [123, 456]);
    assert_eq!(vault.bot.total_shares, 0);
    assert_eq!(vault.shares.amount(&s("alice")), 0);
}

#[test]
fn update_pair_code_is_admin_only() {
    let mut vault = vault_with_bot(test_bot("alice", 0));
    assert_eq!(vault.update_pair_code(false, &s("alice"), BOT_ID, 8).err(), Some(ContractError::Unauthorized));
    assert_eq!(vault.bot.pair_code_id, 7);
    vault.update_pair_code(false, &s("admin"), BOT_ID, 8).unwrap();
    assert_eq!(vault.bot.pair_code_id, 8);
    assert_eq!(vault.update_pair_code(false, &s("admin"), BOT_ID, 0).err(), Some(ContractError::InvalidPair));
}

#[test]
fn create_bot_rejects_token_outside_allowlist() {
    let mut vault = instantiate_default();
    vault.add_allowed_token(false, &s("admin"), &s("token_a")).unwrap();
    assert_eq!(create_bot_as(&mut vault, "alice").err(), Some(ContractError::TokenNotAllowed));
    assert!(!vault.has_bot);
    vault.add_allowed_token(false, &s("admin"), &s("token_b")).unwrap();
    create_bot_as(&mut vault, "alice").unwrap();
    assert!(vault.has_bot);
}

#[test]
fn first_pair_seeds_fail_closed_token_policy() {
    let mut vault = instantiate_default();
    assert!(!vault.token_policy_enabled);
    create_bot_as(&mut vault, "alice").unwrap();
    assert!(vault.token_policy_enabled);
    assert!(vault.allowed_tokens.contains(&s("token_a")));
    assert!(vault.allowed_tokens.contains(&s("token_b")));
    vault.remove_allowed_token(false, &s("admin"), &s("token_a")).unwrap();
    vault.remove_allowed_token(false, &s("admin"), &s("token_b")).unwrap();
    assert_eq!(vault.require_token_available(&s("token_a")).err(), Some(ContractError::TokenNotAllowed));
}

#[test]
fn quarantined_token_blocks_create_bot_and_deposit() {
    let mut vault = instantiate_default();
    vault.add_allowed_token(false, &s("admin"), &s("token_a")).unwrap();
    vault.add_allowed_token(false, &s("admin"), &s("token_b")).unwrap();
    vault.quarantine_token(false, &s("admin"), &s("token_a")).unwrap();
    assert_eq!(create_bot_as(&mut vault, "alice").err(), Some(ContractError::TokenQuarantined));
    vault.unquarantine_token(false, &s("admin"), &s("token_a")).unwrap();
    create_bot_as(&mut vault, "alice").unwrap();
    vault.quarantine_token(false, &s("admin"), &s("token_a")).unwrap();
    assert_eq!(
        vault.deposit(&s("token_a"), &s("alice"), 100, 1, Some(7), Some(100), 0).err(),
        Some(ContractError::TokenQuarantined)
    );
    assert_eq!(vault.bot.free_balances[0], 0);
}

#[test]
fn token_policy_admin_is_restricted_and_query_reflects_changes() {
    let mut vault = instantiate_default();
    assert_eq!(vault.add_allowed_token(false, &s("alice"), &s("token_a")).err(), Some(ContractError::Unauthorized));
    vault.add_allowed_token(false, &s("admin"), &s("token_a")).unwrap();
    vault.quarantine_token(false, &s("admin"), &s("token_b")).unwrap();
    let policy = vault.query_token_policy();
    assert_eq!(policy.allowed_tokens, vec![s("token_a")]);
    assert_eq!(policy.quarantined_tokens, vec![s("token_b")]);
    vault.remove_allowed_token(false, &s("admin"), &s("token_a")).unwrap();
    vault.unquarantine_token(false, &s("admin"), &s("token_b")).unwrap();
    let policy = vault.query_token_policy();
    assert!(policy.allowed_tokens.is_empty());
    assert!(policy.quarantined_tokens.is_empty());
}

#[test]
fn collector_pin_rejects_non_canonical_and_none() {
    let canonical = s(require_populated("terra1collector"));
    assert!(assert_fee_collector_canonical_mainnet(Some(&canonical), &canonical).is_ok());
    assert!(assert_fee_collector_canonical_mainnet(Some(&s("terra1fake")), &canonical).is_err());
    assert!(assert_fee_collector_canonical_mainnet(None, &canonical).is_err());
    assert_eq!(
        assert_fee_collector_canonical_mainnet(None, &canonical).err(), Some(ContractError::NonCanonicalAddress { field: s("fee_collector"), expected: canonical.clone() }));
}

#[test]
fn registry_pin_rejects_non_canonical_and_none() {
    let canonical = s(require_populated("terra1registry"));
    assert!(assert_fee_registry_canonical_mainnet(Some(&canonical), &canonical).is_ok());
    assert!(assert_fee_registry_canonical_mainnet(Some(&s("terra1fake")), &canonical).is_err());
    assert!(assert_fee_registry_canonical_mainnet(None, &canonical).is_err());
}

#[test]
fn grid_prices_are_evenly_spaced() {
    let prices = grid_prices(Decimal::one(), Decimal::percent(300), 5).unwrap();
    assert_eq!(
        prices,
        vec![Decimal::percent(100), Decimal::percent(150), Decimal::percent(200), Decimal::percent(250), Decimal::percent(300)]
    );
    assert_eq!(grid_prices(Decimal::one(), Decimal::percent(300), 1).err(), Some(ContractError::InvalidGrid));
}

#[test]
fn pool_price_and_sides() {
    assert_eq!(pool_price([1_000, 2_000]).unwrap(), Decimal::percent(200));
    assert_eq!(pool_price([0, 2_000]).err(), Some(ContractError::InvalidPair));
    assert_eq!(rung_side(Decimal::percent(150), Decimal::percent(200)), Some(LimitOrderSide::Bid));
    assert_eq!(rung_side(Decimal::percent(250), Decimal::percent(200)), Some(LimitOrderSide::Ask));
    assert_eq!(rung_side(Decimal::percent(200), Decimal::percent(200)), None);
}

#[test]
fn paid_amount_sums_the_gas_denom_only() {
    assert_eq!(paid_amount(&gas(200), &s("uluna")), Ok(200));
    assert_eq!(paid_amount(&vec![], &s("uluna")), Ok(0));
    let mixed = vec![Coin { denom: s("uluna"), amount: 1 }, Coin { denom: s("uusd"), amount: 1 }];
    assert_eq!(paid_amount(&mixed, &s("uluna")).err(), Some(ContractError::UnexpectedFunds));
    let _ = StdFault::NotFound;
}

fn rungs_by_index() -> Vec<Rung> {
    (0..5u64)
        .map(|index| Rung {
            price: Decimal::percent(100 + index * 50),
            side: if index < 2 {
                Some(LimitOrderSide::Bid)
            } else if index > 2 {
                Some(LimitOrderSide::Ask)
            } else {
                None
            },
        })
        .collect()
}

fn reads(code_id: Option<u64>, balances: [Option<u128>; 2], statuses: Vec<OrderStatus>) -> ReconcileReads {
    ReconcileReads { code_id, balances, statuses, fee: Err(s("no registry")), batch_limit: Some(20) }
}

fn parked_refund(order_id: u64, remaining: u128, expires_at: u64) -> OrderStatus {
    OrderStatus::Parked(Some(ExpiredLimitRefundResponse {
        order_id,
        owner: s(CONTRACT),
        side: LimitOrderSide::Ask,
        remaining,
        expires_at: Some(expires_at),
    }))
}

#[test]
fn partial_fill_credits_only_the_observed_vault_balance() {
    let mut bot = test_bot("alice", 1);
    bot.total_shares = 1_000;
    let mut vault = vault_with_bot(bot);
    vault.rungs = rungs_by_index();
    vault.orders.insert(
        77,
        GridOrder { rung_index: 1, side: LimitOrderSide::Bid, price: Decimal::percent(150), remaining: 100 },
    );
    let mut report = active_report(77, 99);
    report.side = LimitOrderSide::Bid;
    report.price = Decimal::percent(150);
    let outcome = vault
        .reconcile(&s("permissionless_caller"), false, &s(CONTRACT), 1, &vec![77], &reads(
            Some(7),
            [Some(1), Some(0)],
            vec![OrderStatus::Active(report.clone())],
        ))
        .unwrap();
    assert_eq!(vault.orders.get(77).unwrap().remaining, 99);
    assert_eq!(vault.bot.free_balances, [1, 0]);
    assert_eq!(vault.placements.len(), 0);
    assert_eq!(vault.bot.gas_credit, 200);
    assert!(outcome.pages.is_empty());
    assert_eq!(outcome.keeper_reward, None);
    assert_eq!(outcome.credited, [1, 0]);
    assert_eq!(outcome.changed_orders, 1);
    let repeated = vault
        .reconcile(&s("another_caller"), false, &s(CONTRACT), 1, &vec![77], &reads(
            Some(7),
            [Some(1), Some(0)],
            vec![OrderStatus::Active(report)],
        ))
        .err()
        .unwrap();
    assert_eq!(repeated, ContractError::NothingToReconcile);
}

#[test]
fn parked_refund_is_claimed_without_indexed_fill_history() {
    let mut vault = vault_with_bot(test_bot("alice", 1));
    vault.orders.insert(
        77,
        GridOrder { rung_index: 3, side: LimitOrderSide::Ask, price: Decimal::percent(250), remaining: 100 },
    );
    let outcome = vault
        .reconcile(&s("permissionless"), false, &s(CONTRACT), 1, &vec![77], &reads(
            Some(7),
            [Some(0), Some(0)],
            vec![parked_refund(77, 40, 1)],
        ))
        .unwrap();
    assert_eq!(outcome.pages.len(), 1);
    assert_eq!(vault.bot.free_balances, [0, 0]);
    assert!(vault.orders.contains(77));
    let page = &outcome.pages[0];
    assert_eq!(page.order_ids, vec![77]);
    vault.reply(page.reply_id, &SubReply::Succeeded(vec![]), &s(CONTRACT), &vec![], 50).unwrap();
    assert_eq!(vault.bot.free_balances, [40, 0]);
    assert!(!vault.orders.contains(77));
}

#[test]
fn contract_keeper_is_not_paid_for_empty_fill_report() {
    let mut vault = vault_with_bot(test_bot("alice", 0));
    let error = vault
        .reconcile(&s("keeper"), false, &s(CONTRACT), 1, &vec![], &reads(Some(7), [Some(0), Some(0)], vec![]))
        .err()
        .unwrap();
    assert_eq!(error, ContractError::InvalidFillReport);
    assert_eq!(vault.bot.gas_credit, 200);
}

#[test]
fn reconcile_rejects_mismatched_pair_code() {
    let mut vault = vault_with_bot(test_bot("alice", 1));
    vault.orders.insert(
        77,
        GridOrder { rung_index: 3, side: LimitOrderSide::Ask, price: Decimal::percent(250), remaining: 100 },
    );
    let error = vault
        .reconcile(&s("permissionless"), false, &s(CONTRACT), 1, &vec![77], &reads(
            Some(9),
            [Some(0), Some(0)],
            vec![OrderStatus::Active(active_report(77, 100))],
        ))
        .err()
        .unwrap();
    assert_eq!(error, ContractError::PairCodeMismatch);
}

#[test]
fn solvency_query_sums_vault_and_pair_escrow() {
    let mut bot = test_bot("alice", 2);
    bot.free_balances = [100, 200];
    let mut vault = vault_with_bot(bot);
    vault.orders.insert(
        7,
        GridOrder { rung_index: 3, side: LimitOrderSide::Ask, price: Decimal::percent(250), remaining: 40 },
    );
    vault.orders.insert(
        8,
        GridOrder { rung_index: 3, side: LimitOrderSide::Bid, price: Decimal::percent(150), remaining: 60 },
    );
    let ask = active_report(7, 35);
    let mut bid = active_report(8, 55);
    bid.side = LimitOrderSide::Bid;
    bid.price = Decimal::percent(150);
    let response = vault
        .check_solvency(&s(CONTRACT), 1, &vec![OrderStatus::Active(ask), OrderStatus::Active(bid)], [Some(105), Some(205)])
        .unwrap();
    assert_eq!(response.token_0_expected, 140);
    assert_eq!(response.token_0_actual, 140);
    assert_eq!(response.token_1_expected, 260);
    assert_eq!(response.token_1_actual, 260);
    assert_eq!(response.active_escrow_orders, 2);
    assert_eq!(response.parked_refund_orders, 0);
    assert!(response.warnings.is_empty());
}

#[test]
fn solvency_query_warns_when_order_escrow_cannot_be_verified() {
    let mut bot = test_bot("alice", 1);
    bot.free_balances = [100, 0];
    let mut vault = vault_with_bot(bot);
    vault.orders.insert(
        7,
        GridOrder { rung_index: 3, side: LimitOrderSide::Ask, price: Decimal::percent(250), remaining: 40 },
    );
    let response =
        vault.check_solvency(&s(CONTRACT), 1, &vec![OrderStatus::Unverifiable], [Some(0), Some(0)]).unwrap();
    assert_eq!(response.token_0_expected, 140);
    assert_eq!(response.token_0_actual, 0);
    assert_eq!(response.unverifiable_orders, 1);
    assert_eq!(response.warnings.len(), 1);
    assert_eq!(response.warnings[0], SolvencyWarning::EscrowUnverifiable(7));
}

#[test]
fn solvency_query_includes_valid_parked_refund() {
    let mut bot = test_bot("alice", 1);
    bot.free_balances = [100, 0];
    let mut vault = vault_with_bot(bot);
    vault.orders.insert(
        7,
        GridOrder { rung_index: 3, side: LimitOrderSide::Ask, price: Decimal::percent(250), remaining: 40 },
    );
    let response =
        vault.check_solvency(&s(CONTRACT), 1, &vec![parked_refund(7, 35, 100)], [Some(105), Some(0)]).unwrap();
    assert_eq!(response.token_0_expected, 140);
    assert_eq!(response.token_0_actual, 140);
    assert_eq!(response.active_escrow_orders, 0);
    assert_eq!(response.parked_refund_orders, 1);
    assert_eq!(response.executed_orders, 0);
    assert_eq!(response.cancelled_orders, 0);
    assert_eq!(response.unverifiable_orders, 0);
    assert!(response.warnings.is_empty());
}

#[test]
fn solvency_of_a_missing_bot_is_not_found() {
    let vault = instantiate_default();
    assert!(matches!(vault.check_solvency(&s(CONTRACT), 1, &vec![], [Some(0), Some(0)]), Err(StdFault::NotFound)));
}

#[test]
fn cancelled_page_failure_reverts_accounting_and_allows_retry() {
    let mut vault = vault_with_bot(test_bot("alice", 1));
    vault.orders.insert(
        77,
        GridOrder { rung_index: 3, side: LimitOrderSide::Ask, price: Decimal::percent(250), remaining: 100 },
    );
    let reports = vec![Some(active_report(77, 100))];
    let cancel = vault.cancel_all(false, &s("alice"), &s(CONTRACT), 1, Some(7), &reports, Some(20)).unwrap();
    assert_eq!(cancel.len(), 1);
    let failed = vault
        .reply(cancel[0].reply_id, &SubReply::Failed(s("pair reverted")), &s(CONTRACT), &vec![], 10)
        .unwrap();
    match failed {
        ReplyOutcome::Reverted(reason) => assert_eq!(reason, "pair reverted"),
        _ => panic!("expected a reverted page"),
    }
    assert_eq!(vault.pending_pages.len(), 0);
    assert_eq!(vault.bot.active_orders, 1);
    assert_eq!(vault.bot.free_balances, [0, 0]);
    assert!(vault.orders.contains(77));

    let retry = vault.cancel_all(false, &s("alice"), &s(CONTRACT), 1, Some(7), &reports, Some(20)).unwrap();
    for page in retry.iter() {
        vault.reply(page.reply_id, &SubReply::Succeeded(vec![]), &s(CONTRACT), &vec![], 11).unwrap();
    }
    assert_eq!(vault.orders.len(), 0);
    assert_eq!(vault.bot.active_orders, 0);
    assert_eq!(vault.bot.free_balances, [100, 0]);
    assert!(vault.cancelled.contains(77));
    let page = vault.query_cancelled_orders(1, None, None);
    assert_eq!(page.rows.len(), 1);
    assert_eq!(page.rows[0].0, 77);
    assert_eq!(page.rows[0].1.remaining, 100);
}

#[test]
fn allocate_spreads_each_side_evenly_and_keeps_the_remainder_free() {
    let mut bot = test_bot("alice", 0);
    bot.free_balances = [1_001, 2_001];
    let mut vault = vault_with_bot(bot);
    let next = vault.next_reply_id;

    let (bid, ask) = vault.allocate(false, &s("alice"), BOT_ID, Some(7), 100).unwrap();
    assert_eq!(vault.bot.free_balances, [1, 1]);
    assert_eq!(vault.bot.active_orders, 4);
    assert_eq!(vault.next_reply_id, next + 2);
    match bid {
        AllocationStep::Placed(request) => {
            assert_eq!(request.reply_id, next);
            assert_eq!(request.token, "token_b");
            assert_eq!(request.pair, "pair");
            assert_eq!(request.amount, 2_000);
            let prices: Vec<Decimal> = request.orders.iter().map(|o| o.price).collect();
            assert_eq!(prices, vec![Decimal::percent(100), Decimal::percent(150)]);
            assert!(request.orders.iter().all(|o| o.amount == 1_000 && o.expires_at == Some(86_500)));
        },
        _ => unreachable!(),
    }
    match ask {
        AllocationStep::Placed(request) => {
            assert_eq!(request.reply_id, next + 1);
            assert_eq!(request.token, "token_a");
            assert_eq!(request.amount, 1_000);
            let prices: Vec<Decimal> = request.orders.iter().map(|o| o.price).collect();
            assert_eq!(prices, vec![Decimal::percent(250), Decimal::percent(300)]);
        },
        _ => unreachable!(),
    }
    let bid_plan = vault.placements.get(next).unwrap();
    assert_eq!(bid_plan.rungs, vec![0, 1]);
    assert_eq!(bid_plan.gross_amounts, vec![1_000; 2]);
    let ask_plan = vault.placements.get(next + 1).unwrap();
    assert_eq!(ask_plan.rungs, vec![3, 4]);
    assert_eq!(ask_plan.gross_amounts, vec![500; 2]);
}

#[test]
fn reconcile_fee_mints_nav_priced_shares_to_the_collector() {
    let mut bot = test_bot("alice", 1);
    bot.total_shares = 1_000_000;
    bot.free_balances = [1_000_000, 0];
    let mut vault = vault_with_bot(bot);
    vault.config.fee_registry = Some(s("registry"));
    vault.config.fee_collector = Some(s("collector"));
    vault.shares.set_amount(&s("alice"), 1_000_000);
    vault.orders.insert(
        77,
        GridOrder { rung_index: 3, side: LimitOrderSide::Ask, price: Decimal::percent(250), remaining: 100_000 },
    );
    let mut fee_reads = reads(Some(7), [Some(1_000_000), Some(100_000)], vec![OrderStatus::Active(active_report(77, 50_000))]);
    fee_reads.fee = Ok(EffectiveFeeResponse { fee_bps: 180, discount_bps: 0, tier_id: None, holding: None, source: TierSource::Lowest });
    let outcome = vault.reconcile(&s("anyone"), false, &s(CONTRACT), 1, &vec![77], &fee_reads).unwrap();
    // V = 100_000 / 2 = 50_000 and F = 900; A = 1_000_000 + 50_000 escrow + 100_000 / 2 = 1_100_000;
    // x = 900 * 1_000_000 / (1_100_000 - 900) = 818.
    match outcome.fee {
        FeeDecision::Applied { fee_bps, shares, .. } => {
            assert_eq!(fee_bps, 180);
            assert_eq!(shares, 818);
        },
        _ => panic!("the fee must be minted"),
    }
    assert_eq!(vault.shares.amount(&s("collector")), 818);
    assert_eq!(vault.bot.total_shares, 1_000_818);
    // The collector's claim right after the mint is at most the fee.
    assert!(818u128 * 1_100_000 / 1_000_818 <= 900);
}

#[test]
fn concurrent_fills_on_one_order_credited_once_on_reconcile() {
    let mut vault = vault_with_bot(test_bot("alice", 2));
    vault.rungs = rungs_by_index();
    vault.orders.insert(77, GridOrder { rung_index: 3, side: LimitOrderSide::Ask, price: Decimal::percent(250), remaining: 500 });
    vault.orders.insert(78, GridOrder { rung_index: 4, side: LimitOrderSide::Ask, price: Decimal::percent(300), remaining: 500 });
    // Three fills consumed order 77 (100 + 250 + 150 in, 50 + 125 + 75 out) before one reconcile.
    let mut other = active_report(78, 500);
    other.price = Decimal::percent(300);
    vault
        .reconcile(&s("anyone"), false, &s(CONTRACT), 1, &vec![77, 78], &reads(
            Some(7),
            [Some(0), Some(250)],
            vec![OrderStatus::Parked(None), OrderStatus::Active(other)],
        ))
        .unwrap();
    assert_eq!(vault.bot.free_balances[1], 250);
    assert_eq!(vault.bot.active_orders, 1);
    assert!(!vault.orders.contains(77));
    let remaining = vault.orders.get(78).unwrap();
    assert_eq!(remaining.remaining, 500);
    assert_eq!(remaining.side, LimitOrderSide::Ask);
}

#[test]
fn allowlist_and_quarantine_block_usage_until_cleared() {
    let mut vault = instantiate_default();
    vault.add_allowed_token(false, &s("admin"), &s("token_a")).unwrap();
    assert_eq!(create_bot_as(&mut vault, "alice").err(), Some(ContractError::TokenNotAllowed));
    vault.add_allowed_token(false, &s("admin"), &s("token_b")).unwrap();
    create_bot_as(&mut vault, "alice").unwrap();
    vault.quarantine_token(false, &s("admin"), &s("token_a")).unwrap();
    assert_eq!(
        vault.deposit(&s("token_a"), &s("alice"), 1_000, 1, Some(7), Some(1_000), 0).err(),
        Some(ContractError::TokenQuarantined)
    );
    let policy = vault.query_token_policy();
    assert_eq!(policy.quarantined_tokens, vec![s("token_a")]);
    vault.unquarantine_token(false, &s("admin"), &s("token_a")).unwrap();
    vault.deposit(&s("token_a"), &s("alice"), 1_000, 1, Some(7), Some(1_000), 0).unwrap();
}

#[test]
fn placement_reply_ids_are_read_as_unsigned_decimal_text() {
    for bad in ["-1", "", "+", "7a", " 7", "18446744073709551616"] {
        assert!(bad.parse::<u64>().is_err());
        let mut vault = vault_with_bot(test_bot("alice", 1));
        vault.next_reply_id = 10;
        vault.placements.insert(9, PlacementPlan { bot_id: 1, side: LimitOrderSide::Ask, rungs: vec![3], gross_amounts: vec![500] });
        let err = vault
            .reply(9, &SubReply::Succeeded(vec![s(bad)]), &s(CONTRACT), &vec![Some(active_report(77, 500))], 1)
            .err()
            .unwrap();
        assert_eq!(err, ContractError::InvalidPlacementReply);
    }
    for good in ["+77", "077", "77"] {
        assert_eq!(good.parse::<u64>(), Ok(77));
        let mut vault = vault_with_bot(test_bot("alice", 1));
        vault.next_reply_id = 10;
        vault.placements.insert(9, PlacementPlan { bot_id: 1, side: LimitOrderSide::Ask, rungs: vec![3], gross_amounts: vec![500] });
        let outcome = vault.reply(9, &SubReply::Succeeded(vec![s(good)]), &s(CONTRACT), &vec![Some(active_report(77, 500))], 1).unwrap();
        assert!(matches!(outcome, ReplyOutcome::Recorded));
        assert!(vault.orders.contains(77));
    }
}

fn order_report(order_id: u64, side: LimitOrderSide, price: Decimal, remaining: u128) -> LimitOrderResponse {
    LimitOrderResponse { order_id, owner: s(CONTRACT), side, price, remaining, expires_at: None, prev: None, next: None }
}

/// A bot funded with 1 000 of token 0 on two asks and 2 000 of token 1 on two
/// bids, every placement recorded: asks 11, 12 at 2.5 and 3, bids 21, 22 at 1
/// and 1.5.
fn funded_vault() -> GridVault {
    let mut vault = instantiate_default();
    create_bot_as(&mut vault, "alice").unwrap();
    vault.deposit(&s("token_a"), &s("alice"), 1_000, 1, Some(7), Some(1_000), 0).unwrap();
    vault.deposit(&s("token_b"), &s("alice"), 2_000, 1, Some(7), Some(2_000), 0).unwrap();
    let asks = vec![
        Some(order_report(11, LimitOrderSide::Ask, Decimal::percent(250), 500)),
        Some(order_report(12, LimitOrderSide::Ask, Decimal::percent(300), 500)),
    ];
    vault.reply(1, &SubReply::Succeeded(vec![s("11"), s("12")]), &s(CONTRACT), &asks, 1).unwrap();
    let bids = vec![
        Some(order_report(21, LimitOrderSide::Bid, Decimal::percent(100), 1_000)),
        Some(order_report(22, LimitOrderSide::Bid, Decimal::percent(150), 1_000)),
    ];
    vault.reply(2, &SubReply::Succeeded(vec![s("21"), s("22")]), &s(CONTRACT), &bids, 1).unwrap();
    assert_eq!(vault.bot.active_orders, 4);
    assert_eq!(vault.bot.total_shares, 2_000);
    vault
}

#[test]
fn full_lifecycle_with_fill_reconcile_cancel_withdraw() {
    let mut vault = funded_vault();
    // Ask 11 sold 200 of token 0 for 100 of token 1; bid 21 was filled whole
    // and its 1 000 of token 1 bought 500 of token 0.
    let statuses = vec![
        OrderStatus::Active(order_report(11, LimitOrderSide::Ask, Decimal::percent(250), 300)),
        OrderStatus::Active(order_report(12, LimitOrderSide::Ask, Decimal::percent(300), 500)),
        OrderStatus::Parked(None),
        OrderStatus::Active(order_report(22, LimitOrderSide::Bid, Decimal::percent(150), 1_000)),
    ];
    vault.reconcile(&s("keeper"), false, &s(CONTRACT), 1, &vec![11, 12, 21, 22], &reads(Some(7), [Some(500), Some(100)], statuses)).unwrap();
    assert_eq!(vault.bot.free_balances, [500, 100]);
    assert_eq!(vault.bot.active_orders, 3);
    assert_eq!(vault.orders.get(11).unwrap().remaining, 300);
    // Cancel all: the remaining escrow comes back once the pair confirms.
    let reports = vec![
        Some(order_report(11, LimitOrderSide::Ask, Decimal::percent(250), 300)),
        Some(order_report(12, LimitOrderSide::Ask, Decimal::percent(300), 500)),
        Some(order_report(22, LimitOrderSide::Bid, Decimal::percent(150), 1_000)),
    ];
    let pages = vault.cancel_all(false, &s("alice"), &s(CONTRACT), 1, Some(7), &reports, Some(20)).unwrap();
    for page in &pages {
        vault.reply(page.reply_id, &SubReply::Succeeded(vec![]), &s(CONTRACT), &vec![], 2).unwrap();
    }
    assert_eq!(vault.bot.active_orders, 0);
    assert_eq!(vault.bot.free_balances, [1_300, 1_100]);
    let paid = vault.withdraw(false, &s("alice"), 1, vault.bot.total_shares).unwrap();
    assert_eq!(paid, [1_300, 1_100]);
}

#[test]
fn parking_expiry_and_dust_reconcile_claims_refund() {
    let mut vault = funded_vault();
    let statuses = vec![
        OrderStatus::Parked(Some(ExpiredLimitRefundResponse { order_id: 11, owner: s(CONTRACT), side: LimitOrderSide::Ask, remaining: 500, expires_at: Some(1) })),
        OrderStatus::Active(order_report(12, LimitOrderSide::Ask, Decimal::percent(300), 500)),
        OrderStatus::Parked(Some(ExpiredLimitRefundResponse { order_id: 21, owner: s(CONTRACT), side: LimitOrderSide::Bid, remaining: 1_000, expires_at: Some(1) })),
        OrderStatus::Active(order_report(22, LimitOrderSide::Bid, Decimal::percent(150), 1_000)),
    ];
    let outcome = vault
        .reconcile(&s("keeper"), false, &s(CONTRACT), 1, &vec![11, 12, 21, 22], &reads(Some(7), [Some(0), Some(0)], statuses))
        .unwrap();
    for page in &outcome.pages {
        vault.reply(page.reply_id, &SubReply::Succeeded(vec![]), &s(CONTRACT), &vec![], 2).unwrap();
    }
    assert_eq!(vault.bot.active_orders, 2);
    assert_eq!(vault.bot.free_balances, [500, 1_000]);
    assert_eq!(vault.orders.len(), 2);
    assert!(!vault.orders.contains(11) && !vault.orders.contains(21));
}

#[test]
fn malicious_token_lying_balance_rejected_on_deposit() {
    let mut vault = instantiate_default();
    create_bot_as(&mut vault, "alice").unwrap();
    // The token reports 100 more than the transfer moved.
    let err = vault.deposit(&s("token_a"), &s("alice"), 500, 1, Some(7), Some(600), 0).err().unwrap();
    assert_eq!(err, ContractError::UnsupportedTokenBehavior);
    assert_eq!(vault.bot.free_balances[0], 0);
    assert_eq!(vault.bot.total_shares, 0);
    assert_eq!(vault.bot.active_orders, 0);
}

#[test]
fn unsolicited_transfer_can_be_synchronized_without_minting_shares() {
    let mut vault = instantiate_default();
    create_bot_as(&mut vault, "alice").unwrap();
    vault.sync_balances(false, &s("alice"), 1, [Some(100), Some(0)]).unwrap();
    assert_eq!(vault.bot.free_balances[0], 100);
    assert_eq!(vault.bot.total_shares, 0);
    let out = vault.deposit(&s("token_a"), &s("alice"), 500, 1, Some(7), Some(600), 0).unwrap();
    assert!(matches!(out.step, AllocationStep::Placed(_)));
}

#[test]
fn generic_pair_query_error_treated_as_terminal_without_panic() {
    let mut vault = funded_vault();
    // The pair's answer for bid 21 failed: it is taken as ended with no refund.
    let statuses = vec![
        OrderStatus::Active(order_report(11, LimitOrderSide::Ask, Decimal::percent(250), 500)),
        OrderStatus::Active(order_report(12, LimitOrderSide::Ask, Decimal::percent(300), 500)),
        OrderStatus::Parked(None),
        OrderStatus::Active(order_report(22, LimitOrderSide::Bid, Decimal::percent(150), 1_000)),
    ];
    vault.reconcile(&s("keeper"), false, &s(CONTRACT), 1, &vec![11, 12, 21, 22], &reads(Some(7), [Some(0), Some(0)], statuses)).unwrap();
    assert_eq!(vault.bot.active_orders, 3);
    assert_eq!(vault.orders.len(), 3);
    assert_eq!(vault.bot.free_balances[0], 0);
}

#[test]
fn property_conservation_holds_across_random_walk() {
    let mut vault = funded_vault();
    let mut seed: u64 = 42;
    let mut remaining: u128 = 500;
    let mut received: u128 = 0;
    for _ in 0..8 {
        seed = seed.wrapping_mul(6_364_136_223_846_793_005).wrapping_add(1_442_695_040_888_963_407);
        let sold = ((seed >> 33) as u128 % 60).min(remaining.saturating_sub(1));
        if sold == 0 {
            continue;
        }
        remaining -= sold;
        received += sold * 5 / 2;
        let statuses = vec![OrderStatus::Active(order_report(11, LimitOrderSide::Ask, Decimal::percent(250), remaining))];
        vault.reconcile(&s("anyone"), false, &s(CONTRACT), 1, &vec![11], &reads(Some(7), [Some(0), Some(received)], statuses)).unwrap();
        // Token 0: free balance plus ask escrow is what was deposited less what was sold.
        let escrow0: u128 = vault.orders.entries.iter().filter(|(_, o)| o.side == LimitOrderSide::Ask).map(|(_, o)| o.remaining).sum();
        assert_eq!(vault.bot.free_balances[0] + escrow0, 1_000 - (500 - remaining));
        // Token 1: free balance plus bid escrow is what was deposited plus what was bought.
        let escrow1: u128 = vault.orders.entries.iter().filter(|(_, o)| o.side == LimitOrderSide::Bid).map(|(_, o)| o.remaining).sum();
        assert_eq!(vault.bot.free_balances[1] + escrow1, 2_000 + received);
        assert_eq!(vault.bot.active_orders as usize, vault.orders.len());
    }
}

#[test]
fn independent_bots_realize_exact_round_trip_spread_profit() {
    let mut first = funded_vault();
    let second = funded_vault();
    // Ask 11 at 2.5 sells 200 of token 0 for 500 of token 1; bid 21 at 1 buys
    // 500 of token 0 with those 500.
    let statuses = vec![
        OrderStatus::Active(order_report(11, LimitOrderSide::Ask, Decimal::percent(250), 300)),
        OrderStatus::Active(order_report(21, LimitOrderSide::Bid, Decimal::percent(100), 500)),
    ];
    first.reconcile(&s("anyone"), false, &s(CONTRACT), 1, &vec![11, 21], &reads(Some(7), [Some(500), Some(500)], statuses)).unwrap();
    let reports = vec![
        Some(order_report(11, LimitOrderSide::Ask, Decimal::percent(250), 300)),
        Some(order_report(12, LimitOrderSide::Ask, Decimal::percent(300), 500)),
        Some(order_report(21, LimitOrderSide::Bid, Decimal::percent(100), 500)),
        Some(order_report(22, LimitOrderSide::Bid, Decimal::percent(150), 1_000)),
    ];
    let pages = first.cancel_all(false, &s("alice"), &s(CONTRACT), 1, Some(7), &reports, Some(20)).unwrap();
    for page in &pages {
        first.reply(page.reply_id, &SubReply::Succeeded(vec![]), &s(CONTRACT), &vec![], 2).unwrap();
    }
    assert_eq!(first.bot.free_balances, [1_000 + 300, 2_000]);
    // The other vault is untouched.
    assert_eq!(second.bot.free_balances, [0, 0]);
    assert_eq!(second.bot.active_orders, 4);
}

#[test]
fn blank_gas_denom_is_what_trim_empties() {
    for code in 0u32..0x3100 {
        let Some(c) = char::from_u32(code) else { continue };
        let mut config = default_config();
        config.gas_denom = format!("{c}{c}");
        let refused = GridVault::instantiate(false, config).is_err();
        assert_eq!(refused, format!("{c}{c}").trim().is_empty(), "code point {code:#x}");
    }
    let mut config = default_config();
    config.gas_denom = s(" uluna\t");
    assert!(GridVault::instantiate(false, config).is_ok());
}

#[test]
fn token_policy_lists_tokens_in_ascending_order() {
    let mut vault = instantiate_default();
    for token in ["token_c", "token_a", "token_b", "token_a"] {
        vault.add_allowed_token(false, &s("admin"), &s(token)).unwrap();
        vault.quarantine_token(false, &s("admin"), &s(token)).unwrap();
    }
    let policy = vault.query_token_policy();
    assert_eq!(policy.allowed_tokens, vec![s("token_a"), s("token_b"), s("token_c")]);
    assert_eq!(policy.quarantined_tokens, vec![s("token_a"), s("token_b"), s("token_c")]);
    vault.remove_allowed_token(false, &s("admin"), &s("token_b")).unwrap();
    assert_eq!(vault.query_token_policy().allowed_tokens, vec![s("token_a"), s("token_c")]);
}

#[test]
fn id_set_tells_a_repeated_order_id_from_a_fresh_one() {
    let mut seen = cl8y_dex_bots::id_set::IdSet::new();
    assert!(seen.insert(7));
    assert!(seen.insert(8));
    assert!(!seen.insert(7));
}

#[test]
fn reconcile_refuses_an_order_id_reported_twice() {
    let mut bot = test_bot("alice", 1);
    bot.total_shares = 1_000;
    let mut vault = vault_with_bot(bot);
    vault.rungs = rungs_by_index();
    vault.orders.insert(
        77,
        GridOrder { rung_index: 1, side: LimitOrderSide::Bid, price: Decimal::percent(150), remaining: 100 },
    );
    let mut report = active_report(77, 99);
    report.side = LimitOrderSide::Bid;
    report.price = Decimal::percent(150);
    let error = vault
        .reconcile(&s("keeper"), false, &s(CONTRACT), 1, &vec![77, 77], &reads(
            Some(7),
            [Some(1), Some(0)],
            vec![OrderStatus::Active(report.clone()), OrderStatus::Active(report)],
        ))
        .err()
        .unwrap();
    assert_eq!(error, ContractError::InvalidFillReport);
    assert_eq!(vault.orders.get(77).unwrap().remaining, 100);
}
