use cl8y_dex_bots::book::Book;
use cl8y_dex_bots::errors::StdFault;
use cl8y_dex_bots::grid_manager::{
    id_batches, manager_deposit_shares, validate_indexed_report, BotRecord, GridManager, ManagedBot, ManagerConfig,
    ManagerPairReads, OrderFillReport,
};
use cl8y_dex_bots::grid_replies::{ReplyOutcome, SubReply};
use cl8y_dex_bots::grid_types::{
    Asset, AssetInfo, Coin, ContractError, ExpiredLimitRefundResponse, GridOrder, LimitOrderResponse, LimitOrderSide,
    OrderStatus, PairInfo, PlacementPlan, Rung,
};
use cl8y_dex_bots::grid_vault::AllocationStep;
use cl8y_dex_bots::id_table::IdTable;
use cl8y_dex_bots::math::Decimal;

const MANAGER: &str = "cosmos2contract";

fn s(v: &str) -> String {
    v.to_string()
}

fn manager_config() -> ManagerConfig {
    ManagerConfig {
        admin: s("admin"),
        keeper: s("keeper"),
        factory: s("factory"),
        gas_denom: s("uluna"),
        keeper_reward: 20,
        minimum_gas_reserve: 100,
        max_grid_count: 20,
        max_orders_per_reconcile: 10,
        max_active_orders_per_bot: 40,
    }
}

fn instantiate_manager() -> GridManager {
    GridManager::instantiate(false, manager_config()).unwrap()
}

fn token(addr: &str) -> AssetInfo {
    AssetInfo::Token { contract_addr: s(addr) }
}

fn manager_pair_reads() -> ManagerPairReads {
    ManagerPairReads {
        pair_info: Some(PairInfo {
            asset_infos: [token("token_a"), token("token_b")],
            contract_addr: s("pair"),
            liquidity_token: s("lp"),
        }),
        registered_pair: Some(s("pair")),
        decimals: [Some(6), Some(6)],
        max_batch_rungs: Some(20),
        pool: Some([Asset { info: token("token_a"), amount: 1_000 }, Asset { info: token("token_b"), amount: 2_000 }]),
    }
}

fn uluna(amount: u128) -> Vec<Coin> {
    vec![Coin { denom: s("uluna"), amount }]
}

fn create_managed_bot(manager: &mut GridManager, owner: &str) -> Result<u64, ContractError> {
    manager.create_bot(&s(owner), &uluna(200), s("pair"), Decimal::one(), Decimal::percent(300), 5, &manager_pair_reads())
}

fn managed_bot(owner: &str, free: [u128; 2], total_shares: u128, active_orders: u32) -> ManagedBot {
    ManagedBot {
        owner: s(owner),
        pair: s("pair"),
        asset_tokens: [s("token_a"), s("token_b")],
        lower_price: Decimal::one(),
        upper_price: Decimal::percent(300),
        grid_count: 5,
        reference_price: Decimal::percent(200),
        free_balances: free,
        total_shares,
        gas_credit: 200,
        active_orders,
        pair_batch_limit: 20,
    }
}

fn manager_rungs() -> Vec<Rung> {
    (0..5u64)
        .map(|index| Rung {
            price: Decimal::percent(100 + index * 50),
            side: if index < 2 {
                Some(LimitOrderSide::Bid)
            } else if index > 2 {
                Some(LimitOrderSide::Ask)
            } else {
                None
            },
        })
        .collect()
}

fn record(bot: ManagedBot) -> BotRecord {
    BotRecord { bot, rungs: manager_rungs(), orders: IdTable::new(), shares: Book::new() }
}

fn fill(order_id: u64, input: u128, output: u128, fills: u32) -> OrderFillReport {
    OrderFillReport { pair: s("pair"), order_id, input_amount: input, output_amount: output, fill_count: fills }
}

fn bid_at_rung_one(remaining: u128) -> GridOrder {
    GridOrder { rung_index: 1, side: LimitOrderSide::Bid, price: Decimal::percent(150), remaining }
}

fn on_pair(order_id: u64, side: LimitOrderSide, price: Decimal, remaining: u128) -> LimitOrderResponse {
    LimitOrderResponse { order_id, owner: s(MANAGER), side, price, remaining, expires_at: None, prev: None, next: None }
}

#[test]
fn creates_user_owned_grid_with_separate_gas_credit() {
    let mut manager = instantiate_manager();
    assert_eq!(create_managed_bot(&mut manager, "alice"), Ok(1));
    assert_eq!(create_managed_bot(&mut manager, "bob"), Ok(2));

    let alice = &manager.bots[0].bot;
    let bob = &manager.bots[1].bot;
    assert_eq!(alice.owner, "alice");
    assert_eq!(bob.owner, "bob");
    assert_eq!(alice.gas_credit, 200);
    assert_eq!(bob.gas_credit, 200);
    assert_eq!(alice.reference_price, Decimal::percent(200));

    let sides: Vec<Option<LimitOrderSide>> = manager.bots[0].rungs.iter().map(|r| r.side).collect();
    assert_eq!(
        sides,
        vec![Some(LimitOrderSide::Bid), Some(LimitOrderSide::Bid), None, Some(LimitOrderSide::Ask), Some(LimitOrderSide::Ask)]
    );
}

#[test]
fn rejects_prices_outside_standard_pair_bounds() {
    let mut manager = instantiate_manager();
    let error = manager
        .create_bot(&s("alice"), &uluna(200), s("pair"), Decimal::zero(), Decimal::percent(300), 5, &manager_pair_reads())
        .unwrap_err();
    assert_eq!(error, ContractError::InvalidGrid);
    assert_eq!(manager.bots.len(), 0);
}

#[test]
fn failed_single_opposite_placement_returns_free_balance() {
    let mut manager = instantiate_manager();
    let mut rec = record(managed_bot("alice", [0, 0], 1_000, 1));
    rec.shares.set_amount(&s("alice"), 1_000);
    manager.bots.push(rec);
    manager.next_reply_id = 8;
    manager.placements.insert(
        7,
        PlacementPlan { bot_id: 1, side: LimitOrderSide::Bid, rungs: vec![1], gross_amounts: vec![25] },
    );

    let outcome = manager.reply(7, &SubReply::Failed(s("book walk exhausted")), &s(MANAGER), &vec![]).unwrap();
    let bot = &manager.bots[0].bot;
    assert_eq!(bot.free_balances, [0, 25]);
    assert_eq!(bot.active_orders, 0);
    assert!(!manager.placements.contains(7));
    assert!(matches!(outcome, ReplyOutcome::Deferred(_)));
}

#[test]
fn deposits_and_allocates_each_asset_by_its_own_grid_count() {
    let mut manager = instantiate_manager();
    create_managed_bot(&mut manager, "alice").unwrap();

    let (ask_minted, ask_step) = manager.deposit(&s("token_a"), &s("alice"), 1_000, 1).unwrap();
    let (bid_minted, bid_step) = manager.deposit(&s("token_b"), &s("alice"), 4_000, 1).unwrap();

    assert!(matches!(ask_step, AllocationStep::Placed(_)));
    assert!(matches!(bid_step, AllocationStep::Placed(_)));
    assert_eq!(ask_minted + bid_minted, 3_000);
    let bot = &manager.bots[0].bot;
    assert_eq!(bot.free_balances, [0, 0]);
    let ask = manager.placements.get(1).unwrap();
    let bid = manager.placements.get(2).unwrap();
    assert_eq!(bid.gross_amounts, vec![2_000u128; 2]);
    assert_eq!(ask.gross_amounts, vec![500u128; 2]);
    assert_eq!(manager.bots[0].shares.amount(&s("alice")), 3_000);
}

#[test]
fn bot_owner_cannot_deposit_into_another_users_bot() {
    let mut manager = instantiate_manager();
    create_managed_bot(&mut manager, "alice").unwrap();

    let error = manager.deposit(&s("token_a"), &s("bob"), 100, 1).unwrap_err();
    assert_eq!(error, ContractError::Unauthorized);
    assert_eq!(manager.bots[0].bot.free_balances[0], 0);
}

#[test]
fn withdrawal_burns_only_that_bots_shares() {
    let mut manager = instantiate_manager();
    for owner in ["alice", "bob"] {
        let mut rec = record(managed_bot(owner, [1_000, 2_000], 1_000, 0));
        rec.shares.set_amount(&s(owner), 1_000);
        manager.bots.push(rec);
    }

    let paid = manager.withdraw(false, &s("alice"), 1, 500).unwrap();
    assert_eq!(paid, [500, 1_000]);
    assert_eq!(paid.iter().filter(|amount| **amount > 0).count(), 2);
    assert_eq!(manager.bots[0].bot.free_balances, [500, 1_000]);
    assert_eq!(manager.bots[1].bot.free_balances, [1_000, 2_000]);
    assert_eq!(manager.bots[0].shares.amount(&s("alice")), 500);
    assert_eq!(manager.bots[1].shares.amount(&s("bob")), 1_000);
}

#[test]
fn partial_bid_uses_exact_output_when_escrow_rounding_is_not_invertible() {
    let mut manager = instantiate_manager();
    let mut rec = record(managed_bot("alice", [0, 0], 1_000, 1));
    rec.shares.set_amount(&s("alice"), 1_000);
    rec.orders.insert(77, bid_at_rung_one(100));
    manager.bots.push(rec);
    let statuses = vec![OrderStatus::Active(on_pair(77, LimitOrderSide::Bid, Decimal::percent(150), 99))];

    let outcome = manager
        .reconcile(&s("keeper"), false, &s(MANAGER), 1, &vec![fill(77, 1, 1, 1)], &statuses, None)
        .unwrap();
    assert_eq!(manager.bots[0].orders.get(77).unwrap().remaining, 99);
    let opposite = manager.placements.get(1).unwrap();
    assert_eq!(opposite.side, LimitOrderSide::Ask);
    assert_eq!(opposite.rungs, vec![2]);
    assert_eq!(opposite.gross_amounts, vec![1u128]);
    assert_eq!(manager.bots[0].bot.gas_credit, 180);
    // One opposite placement and the keeper's reward.
    assert_eq!(outcome.steps.len(), 1);
    assert!(matches!(outcome.steps[0], AllocationStep::Placed(_)));
    assert_eq!(outcome.keeper_reward, 20);
}

#[test]
fn keeper_is_not_paid_for_empty_fill_report() {
    let mut manager = instantiate_manager();
    manager.bots.push(record(managed_bot("alice", [0, 0], 0, 0)));
    let error = manager.reconcile(&s("keeper"), false, &s(MANAGER), 1, &vec![], &vec![], Some(20)).unwrap_err();
    assert_eq!(error, ContractError::InvalidFillReport);
    assert_eq!(manager.bots[0].bot.gas_credit, 200);
}

#[test]
fn manager_instantiate_refuses_a_zero_keeper_reward_and_funds() {
    let mut config = manager_config();
    config.keeper_reward = 0;
    assert_eq!(GridManager::instantiate(false, config).err(), Some(ContractError::InvalidGrid));
    assert_eq!(GridManager::instantiate(true, manager_config()).err(), Some(ContractError::UnexpectedFunds));
}

#[test]
fn manager_reconcile_is_keeper_only_and_changes_nothing_when_refused() {
    let mut manager = instantiate_manager();
    let mut rec = record(managed_bot("alice", [0, 0], 0, 1));
    rec.orders.insert(77, bid_at_rung_one(100));
    manager.bots.push(rec);
    let statuses = vec![OrderStatus::Active(on_pair(77, LimitOrderSide::Bid, Decimal::percent(150), 99))];
    let error = manager
        .reconcile(&s("alice"), false, &s(MANAGER), 1, &vec![fill(77, 1, 1, 1)], &statuses, Some(20))
        .unwrap_err();
    assert_eq!(error, ContractError::Unauthorized);
    let error = manager
        .reconcile(&s("keeper"), false, &s(MANAGER), 2, &vec![fill(77, 1, 1, 1)], &statuses, Some(20))
        .unwrap_err();
    assert_eq!(error, ContractError::Std(StdFault::NotFound));
    assert_eq!(manager.bots[0].orders.get(77).unwrap().remaining, 100);
    assert_eq!(manager.bots[0].bot.gas_credit, 200);
}

#[test]
fn manager_reconcile_refuses_a_report_that_claims_more_than_was_consumed() {
    let mut manager = instantiate_manager();
    let mut rec = record(managed_bot("alice", [0, 0], 0, 1));
    rec.orders.insert(77, bid_at_rung_one(100));
    manager.bots.push(rec);
    let statuses = vec![OrderStatus::Active(on_pair(77, LimitOrderSide::Bid, Decimal::percent(150), 99))];
    let error = manager
        .reconcile(&s("keeper"), false, &s(MANAGER), 1, &vec![fill(77, 2, 3, 1)], &statuses, Some(20))
        .unwrap_err();
    assert_eq!(error, ContractError::InvalidFillReport);
    let error = manager
        .reconcile(&s("keeper"), false, &s(MANAGER), 1, &vec![fill(77, 1, 1, 1), fill(77, 1, 1, 1)], &statuses, Some(20))
        .unwrap_err();
    assert_eq!(error, ContractError::InvalidFillReport);
    assert_eq!(manager.bots[0].bot.free_balances, [0, 0]);
}

#[test]
fn manager_reconcile_claims_parked_escrow_of_an_ended_order() {
    let mut manager = instantiate_manager();
    let mut rec = record(managed_bot("alice", [0, 0], 0, 1));
    rec.orders.insert(77, bid_at_rung_one(100));
    manager.bots.push(rec);
    let parked = ExpiredLimitRefundResponse {
        order_id: 77,
        owner: s(MANAGER),
        side: LimitOrderSide::Bid,
        remaining: 40,
        expires_at: None,
    };
    let statuses = vec![OrderStatus::Parked(Some(parked))];
    // 60 of token_b consumed for 40 of token_a at 1.5.
    let outcome = manager
        .reconcile(&s("keeper"), false, &s(MANAGER), 1, &vec![fill(77, 60, 40, 1)], &statuses, Some(20))
        .unwrap();
    assert_eq!(outcome.claim_batches, vec![vec![77u64]]);
    assert!(!manager.bots[0].orders.contains(77));
    assert_eq!(manager.bots[0].bot.active_orders, 1);
    // The refund stays free on the bid side; the 40 of token_a went out as an ask.
    assert_eq!(manager.bots[0].bot.free_balances, [0, 40]);
    assert_eq!(manager.placements.get(1).unwrap().gross_amounts, vec![40u128]);
    assert_eq!(manager.placements.get(1).unwrap().rungs, vec![2]);
}

#[test]
fn manager_indexed_report_rejects_output_above_the_floor() {
    let order = bid_at_rung_one(100);
    assert_eq!(validate_indexed_report(&order, &fill(77, 1, 1, 1), false), Ok((1, 1)));
    assert_eq!(validate_indexed_report(&order, &fill(77, 3, 1, 1), false).err(), Some(ContractError::InvalidFillReport));
    assert_eq!(validate_indexed_report(&order, &fill(77, 0, 0, 0), true), Ok((0, 0)));
    assert_eq!(validate_indexed_report(&order, &fill(77, 0, 0, 0), false).err(), Some(ContractError::InvalidFillReport));
}

#[test]
fn manager_id_batches_split_by_size() {
    assert_eq!(id_batches(&vec![1, 2, 3, 4, 5], 2), vec![vec![1u64, 2], vec![3, 4], vec![5]]);
    assert_eq!(id_batches(&vec![], 3), Vec::<Vec<u64>>::new());
}

#[test]
fn manager_deposit_shares_value_the_quote_token_at_the_inverse_price() {
    assert_eq!(manager_deposit_shares(1_000, 0, Decimal::percent(200)), Ok(1_000));
    assert_eq!(manager_deposit_shares(4_000, 1, Decimal::percent(200)), Ok(2_000));
    assert_eq!(manager_deposit_shares(4_000, 1, Decimal::zero()).err(), Some(ContractError::InvalidPair));
}

#[test]
fn manager_fund_and_withdraw_gas_keep_the_floor() {
    let mut manager = instantiate_manager();
    create_managed_bot(&mut manager, "alice").unwrap();
    // With no shares and no orders all gas may go.
    assert_eq!(manager.withdraw_gas(false, &s("alice"), 1, 200), Ok(()));
    assert_eq!(manager.fund_gas(&uluna(250), 1), Ok(250));
    manager.deposit(&s("token_a"), &s("alice"), 1_000, 1).unwrap();
    assert_eq!(manager.withdraw_gas(false, &s("alice"), 1, 131).err(), Some(ContractError::InsufficientGasCredit));
    assert_eq!(manager.withdraw_gas(false, &s("bob"), 1, 10).err(), Some(ContractError::Unauthorized));
    assert_eq!(manager.withdraw_gas(false, &s("alice"), 1, 130), Ok(()));
    assert_eq!(manager.bots[0].bot.gas_credit, 120);
}

#[test]
fn manager_allocate_spreads_each_side_evenly_and_keeps_the_remainder_free() {
    let mut manager = instantiate_manager();
    manager.bots.push(record(managed_bot("alice", [1_001, 2_001], 0, 0)));
    let next = manager.next_reply_id;

    let (bid, ask) = manager.allocate(false, &s("alice"), 1).unwrap();
    let bot = &manager.bots[0].bot;
    assert_eq!(bot.free_balances, [1, 1]);
    assert_eq!(bot.active_orders, 4);
    assert_eq!(manager.next_reply_id, next + 2);
    match bid {
        AllocationStep::Placed(request) => {
            assert_eq!(request.reply_id, next);
            assert_eq!(request.token, "token_b");
            assert_eq!(request.amount, 2_000);
            let prices: Vec<Decimal> = request.orders.iter().map(|o| o.price).collect();
            assert_eq!(prices, vec![Decimal::percent(100), Decimal::percent(150)]);
            assert!(request.orders.iter().all(|o| o.amount == 1_000 && o.expires_at.is_none()));
        },
        _ => unreachable!(),
    }
    match ask {
        AllocationStep::Placed(request) => {
            assert_eq!(request.reply_id, next + 1);
            assert_eq!(request.token, "token_a");
            assert_eq!(request.amount, 1_000);
        },
        _ => unreachable!(),
    }
    assert_eq!(manager.placements.get(next).unwrap().rungs, vec![0, 1]);
    assert_eq!(manager.placements.get(next + 1).unwrap().gross_amounts, vec![500; 2]);
    assert_eq!(manager.allocate(false, &s("alice"), 1).unwrap_err(), ContractError::NothingToAllocate);
}
