//! Messages, records and errors of the single-bot limit-grid vault and of the
//! CL8Y pair it trades on.
use vstd::prelude::*;
use crate::errors::StdFault;
use crate::math::Decimal;

verus! {

#[derive(Clone, Copy, Debug, PartialEq, Eq, Structural)]
pub enum LimitOrderSide {
    Bid,
    Ask,
}

#[derive(Clone, Copy, Debug, PartialEq, Eq, Structural)]
pub enum VaultMode {
    Active,
    Paused,
    Exit,
}

#[derive(Clone, Copy, Debug, PartialEq, Eq, Structural)]
pub enum VaultModeResponse {
    Active,
    Paused,
    Exit,
}

#[derive(Clone, Copy, Debug, PartialEq, Eq, Structural)]
pub enum PageKind {
    Cancel,
    Claim,
}

#[derive(Clone, Debug, PartialEq, Eq)]
pub enum AssetInfo {
    Token { contract_addr: String },
    NativeToken { denom: String },
}

#[derive(Clone, Debug)]
pub struct Asset {
    pub info: AssetInfo,
    pub amount: u128,
}

#[derive(Clone, Debug)]
pub struct PairInfo {
    pub asset_infos: [AssetInfo; 2],
    pub contract_addr: String,
    pub liquidity_token: String,
}

#[derive(Clone, Debug)]
pub struct PairResponse {
    pub pair: PairInfo,
}

#[derive(Clone, Debug)]
pub enum FactoryQueryMsg {
    Pair { asset_infos: [AssetInfo; 2] },
}

#[derive(Clone, Copy, Debug, PartialEq, Eq, Structural)]
pub enum ReceiveMsg {
    Deposit { bot_id: u64 },
}

#[derive(Clone, Copy, Debug, PartialEq, Eq, Structural)]
pub struct LimitOrderConfigResponse {
    pub max_batch_rungs: u32,
}

#[derive(Clone, Debug)]
pub struct TokenPolicyResponse {
    pub enabled: bool,
    pub allowed_tokens: Vec<String>,
    pub quarantined_tokens: Vec<String>,
}

#[derive(Clone, Debug)]
pub enum QueryMsg {
    Config {},
    Bot { bot_id: u64 },
    Rungs { bot_id: u64 },
    Orders { bot_id: u64 },
    CancelledOrders { bot_id: u64, start_after: Option<u64>, limit: Option<u32> },
    Shares { bot_id: u64, address: String },
    Solvency { bot_id: u64 },
    TokenPolicy {},
}

#[derive(Clone, Copy, Debug, PartialEq, Eq, Structural)]
pub struct MigrateMsg {}

/// An active limit order as the pair reports it.
#[derive(Clone, Debug)]
pub struct LimitOrderResponse {
    pub order_id: u64,
    pub owner: String,
    pub side: LimitOrderSide,
    pub price: Decimal,
    pub remaining: u128,
    pub expires_at: Option<u64>,
    pub prev: Option<u64>,
    pub next: Option<u64>,
}

/// An expired order whose escrow the pair holds for its owner to claim.
#[derive(Clone, Debug)]
pub struct ExpiredLimitRefundResponse {
    pub order_id: u64,
    pub owner: String,
    pub side: LimitOrderSide,
    pub remaining: u128,
    pub expires_at: Option<u64>,
}

/// What the pair says of one tracked order: active, parked (with or without a
/// refund), or unknown because a read failed.
#[derive(Clone, Debug)]
pub enum OrderStatus {
    Active(LimitOrderResponse),
    Parked(Option<ExpiredLimitRefundResponse>),
    Unverifiable,
}

#[derive(Clone, Debug)]
pub struct Coin {
    pub denom: String,
    pub amount: u128,
}

/// One rung of the grid: its price, and the side an order there takes (none at
/// the reference price).
#[derive(Clone, Copy, Debug, PartialEq, Eq, Structural)]
pub struct Rung {
    pub price: Decimal,
    pub side: Option<LimitOrderSide>,
}

#[derive(Clone, Copy, Debug, PartialEq, Eq, Structural)]
pub struct GridOrder {
    pub rung_index: u32,
    pub side: LimitOrderSide,
    pub price: Decimal,
    pub remaining: u128,
}

#[derive(Clone, Copy, Debug, PartialEq, Eq, Structural)]
pub struct CancelledOrder {
    pub rung_index: u32,
    pub side: LimitOrderSide,
    pub price: Decimal,
    pub remaining: u128,
    pub cancelled_at: u64,
}

#[derive(Clone, Debug)]
pub struct PlacementPlan {
    pub bot_id: u64,
    pub side: LimitOrderSide,
    pub rungs: Vec<u32>,
    pub gross_amounts: Vec<u128>,
}

#[derive(Clone, Copy, Debug, PartialEq, Eq, Structural)]
pub struct PendingPageEntry {
    pub order_id: u64,
    pub token_index: u8,
    pub refund: u128,
}

#[derive(Clone, Debug)]
pub struct PendingPage {
    pub bot_id: u64,
    pub kind: PageKind,
    pub entries: Vec<PendingPageEntry>,
}

#[derive(Clone, Copy, Debug, PartialEq, Eq, Structural)]
pub struct LimitOrderPlacementItem {
    pub price: Decimal,
    pub amount: u128,
    pub max_adjust_steps: u32,
    pub expires_at: Option<u64>,
    pub hint_after_order_id: Option<u64>,
}

#[derive(Clone, Debug, PartialEq, Eq)]
pub enum ContractError {
    Std(StdFault),
    Overflow,
    Unauthorized,
    InvalidGrid,
    InvalidPair,
    PairCodeMismatch,
    UnsupportedAsset,
    UnexpectedFunds,
    MissingGasFunds,
    UnsupportedToken,
    TokenNotAllowed,
    TokenQuarantined,
    ZeroAmount,
    EmptySide,
    NothingToAllocate,
    NothingToReconcile,
    InsufficientGasCredit,
    InvalidOrderOwner,
    InvalidOrder,
    InvalidPlacementReply,
    UnknownReply,
    InsufficientBalance,
    ActiveOrders,
    InsufficientShares,
    ActiveOrderLimit,
    InvalidFillReport,
    UnsupportedTokenBehavior,
    UnsettledOrder,
    BotAlreadyExists,
    InvalidMode,
    ExitOrdersRemain,
    OrderStatusUnverifiable,
    ArithmeticOutOfRange,
    UnsupportedMigrationSource,
    NonCanonicalAddress { field: String, expected: String },
}

/// The token an order of `side` escrows: token 0 for asks, token 1 for bids.
pub open spec fn input_index(side: LimitOrderSide) -> int {
    match side {
        LimitOrderSide::Ask => 0,
        LimitOrderSide::Bid => 1,
    }
}

pub fn side_input_index(side: LimitOrderSide) -> (r: usize)
    ensures
        r == input_index(side),
{
    match side {
        LimitOrderSide::Ask => 0,
        LimitOrderSide::Bid => 1,
    }
}

/// Two asset descriptions name the same asset.
pub open spec fn same_asset(a: AssetInfo, b: AssetInfo) -> bool {
    match (a, b) {
        (AssetInfo::Token { contract_addr: x }, AssetInfo::Token { contract_addr: y }) => x@ == y@,
        (AssetInfo::NativeToken { denom: x }, AssetInfo::NativeToken { denom: y }) => x@ == y@,
        _ => false,
    }
}

pub fn assets_match(a: &AssetInfo, b: &AssetInfo) -> (r: bool)
    ensures
        r == same_asset(*a, *b),
{
    match (a, b) {
        (AssetInfo::Token { contract_addr: x }, AssetInfo::Token { contract_addr: y }) => *x == *y,
        (AssetInfo::NativeToken { denom: x }, AssetInfo::NativeToken { denom: y }) => *x == *y,
        _ => false,
    }
}

} // verus!
