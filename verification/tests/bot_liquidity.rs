use cl8y_dex_bots::bot_liquidity::{
    nav, BotLiquidity, Config, ContractError, PendingOperation, SwapParams, WithdrawPlan,
    WithdrawalType, LOCKED_INITIAL_SHARES,
};
use cl8y_dex_bots::errors::StdFault;
use cl8y_dex_bots::math::Decimal;

fn setup() -> BotLiquidity {
    BotLiquidity::new(Config {
        vault: "vault".to_string(),
        asset_tokens: ["t0".to_string(), "t1".to_string()],
        minimum_initial_deposit: 10_000,
    })
}

#[test]
fn nav_values_token1_at_fixed_price() {
    let value = nav([100, 200], Decimal::percent(200)).unwrap();
    assert_eq!(value, 200);
}

#[test]
fn nav_rejects_zero_price() {
    assert_eq!(nav([1, 1], Decimal::zero()).unwrap_err(), ContractError::InvalidVault);
}

#[test]
fn nav_reports_overflow() {
    assert_eq!(nav([u128::MAX, 1], Decimal::one()).unwrap_err(), ContractError::Std(StdFault::Overflow));
}

#[test]
fn first_deposit_locks_shares_and_mints_the_rest() {
    let mut lp = setup();
    let alice = "alice".to_string();
    lp.begin_deposit(&alice, [50_000, 0], 1, 100, 10, &None, [0, 0], Decimal::one(), 0).unwrap();
    let settlement = lp.complete_deposit([50_000, 0], 0, 100).unwrap();
    assert_eq!(settlement.depositor, "alice");
    assert_eq!(settlement.deposit_value, 50_000);
    assert_eq!(settlement.user_shares, 50_000 - LOCKED_INITIAL_SHARES);
    assert_eq!(settlement.locked_shares, Some(LOCKED_INITIAL_SHARES));
    assert!(lp.pending.is_none());
}

#[test]
fn later_deposit_is_priced_at_the_pool_share_price() {
    let mut lp = setup();
    let bob = "bob".to_string();
    // Pool worth 2_000 (1_000 t0 + 2_000 t1 at price 2) with 1_000 shares.
    lp.begin_deposit(&bob, [500, 0], 0, 100, 10, &None, [1_000, 2_000], Decimal::percent(200), 1_000).unwrap();
    let settlement = lp.complete_deposit([1_500, 2_000], 0, 100).unwrap();
    assert_eq!(settlement.deposit_value, 500);
    assert_eq!(settlement.user_shares, 250);
    assert_eq!(settlement.locked_shares, None);
}

#[test]
fn deposit_errors_are_reported_in_order() {
    let mut lp = setup();
    let alice = "alice".to_string();
    assert_eq!(
        lp.begin_deposit(&alice, [0, 0], 0, 100, 10, &None, [0, 0], Decimal::one(), 0).err(), Some(ContractError::ZeroAmount));
    assert_eq!(
        lp.begin_deposit(&alice, [5, 0], 0, 9, 10, &None, [0, 0], Decimal::one(), 0).err(), Some(ContractError::Expired));
    let bad_swap = Some(SwapParams { offer_token: "t0".to_string(), amount: 6, deadline: 50 });
    assert_eq!(
        lp.begin_deposit(&alice, [5, 0], 0, 100, 10, &bad_swap, [0, 0], Decimal::one(), 0).err(), Some(ContractError::InvalidDepositSwap));
    lp.begin_deposit(&alice, [5, 0], 0, 100, 10, &None, [0, 0], Decimal::one(), 0).unwrap();
    assert_eq!(
        lp.begin_deposit(&alice, [5, 0], 0, 100, 10, &None, [0, 0], Decimal::one(), 0).err(), Some(ContractError::OperationPending));
    assert_eq!(lp.complete_deposit([5, 0], 0, 100).err(), Some(ContractError::InitialDepositTooSmall));
    assert_eq!(lp.complete_deposit([5, 0], 101, 100).err(), Some(ContractError::AllocationOutsideTolerance));
    assert!(matches!(lp.pending, Some(PendingOperation::Deposit { .. })));
}

#[test]
fn pro_rata_withdrawal_claims_each_balance() {
    let mut lp = setup();
    let plan = lp
        .plan_withdraw(250, 500, 1_000, 100, 10, [4_000, 800], &"alice".to_string(), &WithdrawalType::ProRata {
            min_assets: [1_000, 200],
        })
        .unwrap();
    match plan {
        WithdrawPlan::ProRata { claims } => assert_eq!(claims, [1_000, 200]),
        _ => panic!("expected a pro-rata plan"),
    }
    assert_eq!(
        lp.plan_withdraw(250, 500, 1_000, 100, 10, [4_000, 800], &"alice".to_string(), &WithdrawalType::ProRata {
            min_assets: [1_001, 0],
        }).err(), Some(ContractError::MinimumNotMet));
    assert_eq!(
        lp.plan_withdraw(501, 500, 1_000, 100, 10, [4_000, 800], &"alice".to_string(), &WithdrawalType::ProRata {
            min_assets: [0, 0],
        }).err(), Some(ContractError::InsufficientShares));
}

#[test]
fn single_token_withdrawal_waits_for_the_swap() {
    let mut lp = setup();
    let output = WithdrawalType::Token0 {
        min_amount: 1_300,
        swap: SwapParams { offer_token: "t1".to_string(), amount: 200, deadline: 50 },
    };
    let plan = lp.plan_withdraw(250, 500, 1_000, 100, 10, [4_000, 800], &"alice".to_string(), &output).unwrap();
    assert!(matches!(plan, WithdrawPlan::Single { claims: [1_000, 200], .. }));
    // The vault held 4_000 t0 before; after burning and swapping it holds 4_350.
    let payout = lp.complete_single_withdraw(4_350).unwrap();
    assert_eq!(payout.recipient, "alice");
    assert_eq!(payout.token, "t0");
    assert_eq!(payout.amount, 1_350);
    assert!(lp.pending.is_none());
}

#[test]
fn single_token_withdrawal_enforces_its_minimum() {
    let mut lp = setup();
    let output = WithdrawalType::Token1 {
        min_amount: 1_000,
        swap: SwapParams { offer_token: "t0".to_string(), amount: 1_000, deadline: 50 },
    };
    lp.plan_withdraw(250, 500, 1_000, 100, 10, [4_000, 800], &"alice".to_string(), &output).unwrap();
    assert_eq!(lp.complete_single_withdraw(900).err(), Some(ContractError::MinimumNotMet));
    assert_eq!(lp.complete_single_withdraw(700).err(), Some(ContractError::InvalidDepositSettlement));
    let wrong = WithdrawalType::Token1 {
        min_amount: 0,
        swap: SwapParams { offer_token: "t0".to_string(), amount: 999, deadline: 50 },
    };
    let mut fresh = setup();
    assert_eq!(
        fresh.plan_withdraw(250, 500, 1_000, 100, 10, [4_000, 800], &"alice".to_string(), &wrong).err(), Some(ContractError::InvalidWithdrawalSwap));
}
