//! The limit-grid vault: one bot per vault, trading a CL8Y pair with a ladder
//! of limit orders between a lower and an upper price.
//!
//! The vault's storage is the `GridVault` value. What the chain reports (pair
//! metadata, token balances, order status, the fee registry's quote) reaches
//! each operation as plain arguments read beforehand; each operation returns the
//! messages to send and leaves the state unchanged when it fails.
use vstd::prelude::*;
use vstd::string::StrSliceExecFns;
use crate::book::{text_lt, Book, TextSet};
use crate::errors::StdFault;
use crate::grid_types::{
    assets_match,
    input_index, side_input_index, AssetInfo, CancelledOrder, Coin, ContractError, ExpiredLimitRefundResponse,
    Asset, GridOrder, LimitOrderPlacementItem, PairInfo, LimitOrderResponse, LimitOrderSide, OrderStatus, PageKind,
    PendingPage, PendingPageEntry, PlacementPlan, Rung, TokenPolicyResponse, VaultMode,
};
use crate::id_table::IdTable;
use crate::limits::{valid_vault_limits, vault_limits_ok};
use crate::grid_math::{
    grid_prices, paid_amount, paid_in, pool_price, rung_price, rung_side, side_at, MAX_RUNG_ATOMICS,
    MIN_RUNG_ATOMICS,
};
use crate::math::{ratio, unit, Decimal, MAX_BPS};
use crate::versioning::{semver_less, semver_parses, text_is, version_less, version_parses};

verus! {

pub const CONTRACT_NAME: &'static str = "crates.io:cl8y-grid-vault";

pub const CONTRACT_VERSION: &'static str = "0.1.1";

/// The oldest stored version a migration accepts.
pub const MIN_MIGRATION_VERSION: &'static str = "0.1.0";

pub const FIRST_REPLY_ID: u64 = 1;

/// How many book steps the pair may move a placed order to find its rung.
pub const MAX_ADJUST_STEPS: u32 = 64;

/// The id of the vault's only bot.
pub const BOT_ID: u64 = 1;

pub const MAX_CANCELLED_ORDERS_PAGE_SIZE: u32 = 100;

/// Unicode `White_Space`, the characters `str::trim` strips.
pub open spec fn white_space(c: char) -> bool {
    ||| '\u{9}' <= c <= '\u{D}'
    ||| c == ' '
    ||| c == '\u{85}'
    ||| c == '\u{A0}'
    ||| c == '\u{1680}'
    ||| '\u{2000}' <= c <= '\u{200A}'
    ||| c == '\u{2028}'
    ||| c == '\u{2029}'
    ||| c == '\u{202F}'
    ||| c == '\u{205F}'
    ||| c == '\u{3000}'
}

/// A text that is empty once trimmed: white space only.
pub open spec fn blank(s: Seq<char>) -> bool {
    forall|i: int| 0 <= i < s.len() ==> white_space(#[trigger] s[i])
}

fn is_white_space(c: char) -> (r: bool)
    ensures
        r == white_space(c),
{
    ('\u{9}' <= c && c <= '\u{D}') || c == ' ' || c == '\u{85}' || c == '\u{A0}' || c == '\u{1680}' || ('\u{2000}' <= c
        && c <= '\u{200A}') || c == '\u{2028}' || c == '\u{2029}' || c == '\u{202F}' || c == '\u{205F}' || c == '\u{3000}'
}

/// Whether `s` is white space only, as `s.trim().is_empty()` says.
pub(crate) fn is_blank(s: &str) -> (r: bool)
    ensures
        r == blank(s@),
{
    let n = s.unicode_len();
    let mut i: usize = 0;
    while i < n
        invariant
            n == s@.len(),
            i <= n,
            forall|j: int| 0 <= j < i ==> white_space(#[trigger] s@[j]),
        decreases n - i,
    {
        let c = s.get_char(i);
        if !is_white_space(c) {
            return false;
        }
        i = i + 1;
    }
    true
}

pub struct VaultConfig {
    pub admin: String,
    pub owner: String,
    pub pending_admin: Option<String>,
    pub keeper: String,
    pub factory: String,
    pub gas_denom: String,
    pub keeper_reward: u128,
    pub minimum_gas_reserve: u128,
    pub order_timeout_seconds: u64,
    pub max_grid_count: u32,
    pub max_orders_per_reconcile: u32,
    pub max_active_orders_per_bot: u32,
    pub fee_registry: Option<String>,
    pub fee_collector: Option<String>,
}

pub struct Bot {
    pub owner: String,
    pub pair: String,
    pub pair_code_id: u64,
    pub asset_tokens: [String; 2],
    pub lower_price: Decimal,
    pub upper_price: Decimal,
    pub grid_count: u32,
    pub reference_price: Decimal,
    pub free_balances: [u128; 2],
    pub total_shares: u128,
    pub gas_credit: u128,
    pub active_orders: u32,
    pub pair_batch_limit: u32,
}

pub struct GridVault {
    pub config: VaultConfig,
    pub mode: VaultMode,
    pub next_bot_id: u64,
    pub next_reply_id: u64,
    /// Whether bot `BOT_ID` exists; `bot` holds it when it does.
    pub has_bot: bool,
    pub bot: Bot,
    /// Rung `i` of the bot's grid.
    pub rungs: Vec<Rung>,
    pub orders: IdTable<GridOrder>,
    pub cancelled: IdTable<CancelledOrder>,
    pub shares: Book<u128>,
    pub placements: IdTable<PlacementPlan>,
    pub pending_pages: IdTable<PendingPage>,
    pub token_policy_enabled: bool,
    pub allowed_tokens: TextSet,
    pub quarantine: TextSet,
}

/// The gas a bot must keep funded: the reserve plus one keeper reward.
pub open spec fn gas_floor(config: VaultConfig) -> int {
    config.minimum_gas_reserve + config.keeper_reward
}

/// The gas floor, or an overflow error.
fn required_gas(config: &VaultConfig) -> (r: Result<u128, ContractError>)
    ensures
        r is Ok <==> gas_floor(*config) <= u128::MAX,
        r matches Ok(v) ==> v == gas_floor(*config),
        r is Err ==> r == Err::<u128, ContractError>(ContractError::Overflow),
{
    if config.minimum_gas_reserve > u128::MAX - config.keeper_reward {
        return Err(ContractError::Overflow);
    }
    Ok(config.minimum_gas_reserve + config.keeper_reward)
}


/// What the chain reports about a pair before a bot is created on it; `None`
/// marks a read that failed. Addresses are as the chain's address check
/// normalised them.
pub struct PairReads {
    /// The pair's own description.
    pub pair_info: Option<PairInfo>,
    /// The code id the pair runs.
    pub code_id: Option<u64>,
    /// The pair the factory registers for the same assets.
    pub registered_pair: Option<String>,
    /// The decimals of each asset token.
    pub decimals: [Option<u8>; 2],
    /// The largest rung batch the pair accepts.
    pub max_batch_rungs: Option<u32>,
    /// The pool's two assets and amounts.
    pub pool: Option<[Asset; 2]>,
}

/// The contract address of a CW20 asset; none for a native one.
pub open spec fn token_of(a: AssetInfo) -> Option<Seq<char>> {
    match a {
        AssetInfo::Token { contract_addr } => Some(contract_addr@),
        AssetInfo::NativeToken { .. } => None,
    }
}

/// Every rung price lies within the pair's bounds.
pub open spec fn prices_in_bounds(lower: int, upper: int, count: int) -> bool {
    forall|i: int| 0 <= i < count ==> MIN_RUNG_ATOMICS <= #[trigger] rung_price(lower, upper, count, i) <= MAX_RUNG_ATOMICS
}

/// No two neighbouring rungs share a price.
pub open spec fn prices_distinct(lower: int, upper: int, count: int) -> bool {
    forall|i: int| 0 <= i < count - 1 ==> #[trigger] rung_price(lower, upper, count, i) != rung_price(lower, upper, count, i + 1)
}

/// Some rung takes `side` against `reference`.
pub open spec fn has_side(lower: int, upper: int, count: int, reference: int, side: LimitOrderSide) -> bool {
    exists|i: int| 0 <= i < count && side_at(#[trigger] rung_price(lower, upper, count, i), reference) == Some(side)
}



/// Every entry names token 0 or token 1.
pub open spec fn entries_indexed(s: Seq<PendingPageEntry>) -> bool {
    forall|k: int| 0 <= k < s.len() ==> (#[trigger] s[k]).token_index < 2
}

/// Some rung of `rungs` takes `side`.
pub open spec fn rung_side_present(rungs: Seq<Rung>, side: LimitOrderSide) -> bool {
    exists|i: int| 0 <= i < rungs.len() && (#[trigger] rungs[i]).side == Some(side)
}

/// The indices, ascending, of the rungs among the first `n` that take `side`.
pub open spec fn side_indices(rungs: Seq<Rung>, side: LimitOrderSide, n: int) -> Seq<u32>
    decreases n,
{
    if n <= 0 {
        Seq::empty()
    } else {
        let before = side_indices(rungs, side, n - 1);
        if rungs[n - 1].side == Some(side) {
            before.push((n - 1) as u32)
        } else {
            before
        }
    }
}

pub proof fn lemma_side_indices(rungs: Seq<Rung>, side: LimitOrderSide, n: int)
    requires
        0 <= n <= rungs.len(),
        n <= u32::MAX + 1,
    ensures
        side_indices(rungs, side, n).len() <= n,
        forall|k: int| 0 <= k < side_indices(rungs, side, n).len() ==> (#[trigger] side_indices(rungs, side, n)[k]) < n
            && rungs[side_indices(rungs, side, n)[k] as int].side == Some(side),
        (exists|i: int| 0 <= i < n && (#[trigger] rungs[i]).side == Some(side)) ==> side_indices(rungs, side, n).len() > 0,
    decreases n,
{
    if n > 0 {
        lemma_side_indices(rungs, side, n - 1);
        if exists|i: int| 0 <= i < n && (#[trigger] rungs[i]).side == Some(side) {
            let i = choose|i: int| 0 <= i < n && (#[trigger] rungs[i]).side == Some(side);
            if i < n - 1 {
                assert(exists|i: int| 0 <= i < n - 1 && (#[trigger] rungs[i]).side == Some(side));
            }
        }
    }
}

/// The order a placement asks for at one rung.
pub open spec fn placement_item(price: Decimal, amount: u128, expires_at: u64) -> LimitOrderPlacementItem {
    LimitOrderPlacementItem {
        price,
        amount,
        max_adjust_steps: MAX_ADJUST_STEPS,
        expires_at: Some(expires_at),
        hint_after_order_id: None,
    }
}

/// A batch of limit orders sent to the pair, escrowing `amount` of `token`; the
/// pair's reply comes back under `reply_id`.
#[derive(Debug)]
pub struct PlacementRequest {
    pub reply_id: u64,
    pub token: String,
    pub pair: String,
    pub amount: u128,
    pub side: LimitOrderSide,
    pub orders: Vec<LimitOrderPlacementItem>,
}

/// What allocating one side did: sent a placement, deferred it because the
/// bot is at its active-order cap, or nothing (no free balance per rung).
#[derive(Debug)]
pub enum AllocationStep {
    Placed(PlacementRequest),
    Deferred,
    Nothing,
}

/// A deposit's minted shares and what its allocation did.
pub struct DepositOutcome {
    pub minted: u128,
    pub step: AllocationStep,
}

/// The outcome of the checks of a bot creation, in the order they are made:
/// the gas credit paid, or the first error.
pub open spec fn create_bot_check(
    v: GridVault,
    sender: Seq<char>,
    funds: Seq<Coin>,
    pair: Seq<char>,
    lower: Decimal,
    upper: Decimal,
    count: u32,
    reads: PairReads,
) -> Result<u128, ContractError> {
    if v.mode != VaultMode::Active {
        Err(ContractError::InvalidMode)
    } else if v.has_bot {
        Err(ContractError::BotAlreadyExists)
    } else if sender != v.config.owner@ {
        Err(ContractError::Unauthorized)
    } else if count < 2 || count > v.config.max_grid_count || lower.atomics >= upper.atomics {
        Err(ContractError::InvalidGrid)
    } else if reads.pair_info is None {
        Err(ContractError::Std(StdFault::QueryFailed))
    } else if reads.pair_info->0.contract_addr@ != pair {
        Err(ContractError::InvalidPair)
    } else if reads.code_id is None {
        Err(ContractError::Std(StdFault::QueryFailed))
    } else if reads.code_id->0 == 0 {
        Err(ContractError::InvalidPair)
    } else if reads.registered_pair is None {
        Err(ContractError::Std(StdFault::QueryFailed))
    } else if reads.registered_pair->0@ != pair {
        Err(ContractError::InvalidPair)
    } else {
        let infos = reads.pair_info->0.asset_infos;
        if token_of(infos[0]) is None || token_of(infos[1]) is None {
            Err(ContractError::UnsupportedAsset)
        } else {
            let t0 = token_of(infos[0])->0;
            let t1 = token_of(infos[1])->0;
            let policy_was_on = v.token_policy_enabled;
            if t0 == t1 {
                Err(ContractError::InvalidPair)
            } else if v.quarantine@.contains(t0) {
                Err(ContractError::TokenQuarantined)
            } else if policy_was_on && !v.allowed_tokens@.contains(t0) {
                Err(ContractError::TokenNotAllowed)
            } else if v.quarantine@.contains(t1) {
                Err(ContractError::TokenQuarantined)
            } else if policy_was_on && !v.allowed_tokens@.contains(t1) {
                Err(ContractError::TokenNotAllowed)
            } else if reads.decimals[0] is None || reads.decimals[1] is None {
                Err(ContractError::Std(StdFault::QueryFailed))
            } else if reads.decimals[0]->0 != reads.decimals[1]->0 {
                Err(ContractError::InvalidPair)
            } else if reads.max_batch_rungs is None {
                Err(ContractError::Std(StdFault::QueryFailed))
            } else if count > reads.max_batch_rungs->0 {
                Err(ContractError::InvalidGrid)
            } else if reads.pool is None {
                Err(ContractError::Std(StdFault::QueryFailed))
            } else {
                let pool = reads.pool->0;
                let a0 = pool[0].amount as int;
                let a1 = pool[1].amount as int;
                if !same_asset_spec(pool[0].info, infos[0]) || !same_asset_spec(pool[1].info, infos[1]) {
                    Err(ContractError::InvalidPair)
                } else if a0 == 0 || a1 == 0 {
                    Err(ContractError::InvalidPair)
                } else if ratio(a1, unit(), a0) > u128::MAX {
                    Err(ContractError::ArithmeticOutOfRange)
                } else {
                    let reference = ratio(a1, unit(), a0);
                    let lo = lower.atomics as int;
                    let hi = upper.atomics as int;
                    if reference <= lo || reference >= hi {
                        Err(ContractError::InvalidGrid)
                    } else if !prices_in_bounds(lo, hi, count as int) || !prices_distinct(lo, hi, count as int) {
                        Err(ContractError::InvalidGrid)
                    } else if !has_side(lo, hi, count as int, reference, LimitOrderSide::Bid) || !has_side(
                        lo,
                        hi,
                        count as int,
                        reference,
                        LimitOrderSide::Ask,
                    ) {
                        Err(ContractError::EmptySide)
                    } else if exists|i: int| 0 <= i < funds.len() && (#[trigger] funds[i]).denom@ != v.config.gas_denom@ {
                        Err(ContractError::UnexpectedFunds)
                    } else if gas_floor(v.config) > u128::MAX {
                        Err(ContractError::Overflow)
                    } else if paid_in(funds, v.config.gas_denom@) < gas_floor(v.config) {
                        Err(ContractError::InsufficientGasCredit)
                    } else {
                        Ok(paid_in(funds, v.config.gas_denom@) as u128)
                    }
                }
            }
        }
    }
}

pub open spec fn same_asset_spec(a: AssetInfo, b: AssetInfo) -> bool {
    crate::grid_types::same_asset(a, b)
}

impl GridVault {
    pub open spec fn wf(&self) -> bool {
        &&& self.orders.wf()
        &&& self.cancelled.wf()
        &&& self.placements.wf()
        &&& self.pending_pages.wf()
        &&& self.shares.wf()
        &&& self.allowed_tokens.wf()
        &&& self.quarantine.wf()
        &&& self.has_bot ==> self.rungs@.len() == self.bot.grid_count
        &&& self.has_bot ==> rung_side_present(self.rungs@, LimitOrderSide::Bid) && rung_side_present(self.rungs@, LimitOrderSide::Ask)
        &&& forall|id: u64| #[trigger] self.pending_pages@.contains_key(id) ==> entries_indexed(self.pending_pages@[id].entries@)
        &&& self.mode != VaultMode::Exit ==> self.shares.total() == (if self.has_bot {
            self.bot.total_shares as int
        } else {
            0
        })
    }

    /// Whether `bot_id` names the existing bot.
    pub open spec fn bot_exists(&self, bot_id: u64) -> bool {
        bot_id == BOT_ID && self.has_bot
    }

    /// Everything but the configuration is as in `other`.
    pub open spec fn same_but_config(&self, other: &GridVault) -> bool {
        &&& self.mode == other.mode
        &&& self.next_bot_id == other.next_bot_id
        &&& self.next_reply_id == other.next_reply_id
        &&& self.has_bot == other.has_bot
        &&& self.bot == other.bot
        &&& self.rungs == other.rungs
        &&& self.orders == other.orders
        &&& self.cancelled == other.cancelled
        &&& self.shares == other.shares
        &&& self.placements == other.placements
        &&& self.pending_pages == other.pending_pages
        &&& self.token_policy_enabled == other.token_policy_enabled
        &&& self.allowed_tokens == other.allowed_tokens
        &&& self.quarantine == other.quarantine
    }

    /// A new vault with no bot, in active mode, with the token policy off. A blank
    /// gas denom, limits outside the manager's bounds, a zero keeper reward or a
    /// zero order timeout are refused as an invalid grid; native funds are refused.
    /// The vault starts with no pending admin, whatever the config holds.
    pub fn instantiate(has_funds: bool, config: VaultConfig) -> (r: Result<GridVault, ContractError>)
        ensures
            has_funds ==> r == Err::<GridVault, ContractError>(ContractError::UnexpectedFunds),
            !has_funds && (blank(config.gas_denom@) || !vault_limits_ok(
                config.max_grid_count,
                config.max_orders_per_reconcile,
                config.max_active_orders_per_bot,
            ) || config.keeper_reward == 0 || config.order_timeout_seconds == 0) ==> r == Err::<
                GridVault,
                ContractError,
            >(ContractError::InvalidGrid),
            r is Ok <==> !has_funds && !blank(config.gas_denom@) && vault_limits_ok(
                config.max_grid_count,
                config.max_orders_per_reconcile,
                config.max_active_orders_per_bot,
            ) && config.keeper_reward != 0 && config.order_timeout_seconds != 0,
            r matches Ok(v) ==> {
                &&& v.wf()
                &&& v.config == (VaultConfig { pending_admin: None, ..config })
                &&& v.mode == VaultMode::Active
                &&& v.next_bot_id == 1
                &&& v.next_reply_id == FIRST_REPLY_ID
                &&& !v.has_bot
                &&& !v.token_policy_enabled
                &&& v.orders@.len() == 0
                &&& v.shares@ == Map::<Seq<char>, u128>::empty()
            },
    {
        if has_funds {
            return Err(ContractError::UnexpectedFunds);
        }
        if is_blank(config.gas_denom.as_str()) || !valid_vault_limits(
            config.max_grid_count,
            config.max_orders_per_reconcile,
            config.max_active_orders_per_bot,
        ) || config.keeper_reward == 0 || config.order_timeout_seconds == 0 {
            return Err(ContractError::InvalidGrid);
        }
        let mut config = config;
        config.pending_admin = None;
        let placeholder = Bot {
            owner: String::new(),
            pair: String::new(),
            pair_code_id: 0,
            asset_tokens: [String::new(), String::new()],
            lower_price: Decimal { atomics: 0 },
            upper_price: Decimal { atomics: 0 },
            grid_count: 0,
            reference_price: Decimal { atomics: 0 },
            free_balances: [0, 0],
            total_shares: 0,
            gas_credit: 0,
            active_orders: 0,
            pair_batch_limit: 0,
        };
        let shares: Book<u128> = Book::new();
        proof {
            assert(shares.entries@ =~= Seq::<(String, u128)>::empty());
        }
        Ok(
            GridVault {
                config,
                mode: VaultMode::Active,
                next_bot_id: 1,
                next_reply_id: FIRST_REPLY_ID,
                has_bot: false,
                bot: placeholder,
                rungs: Vec::new(),
                orders: IdTable::new(),
                cancelled: IdTable::new(),
                shares,
                placements: IdTable::new(),
                pending_pages: IdTable::new(),
                token_policy_enabled: false,
                allowed_tokens: TextSet::new(),
                quarantine: TextSet::new(),
            },
        )
    }

    /// Replace the keeper; admin only.
    pub fn update_keeper(&mut self, has_funds: bool, sender: &String, keeper: String) -> (r: Result<(), ContractError>)
        requires
            old(self).wf(),
        ensures
            final(self).wf(),
            old(self).mode == VaultMode::Exit ==> final(self).mode == VaultMode::Exit,
            has_funds ==> r == Err::<(), ContractError>(ContractError::UnexpectedFunds),
            !has_funds && sender@ != old(self).config.admin@ ==> r == Err::<(), ContractError>(
                ContractError::Unauthorized,
            ),
            r is Ok <==> !has_funds && sender@ == old(self).config.admin@,
            r is Err ==> *final(self) == *old(self),
            r is Ok ==> final(self).config.keeper == keeper && final(self).same_but_config(old(self))
                && final(self).config.admin == old(self).config.admin && final(self).config.pending_admin == old(self).config.pending_admin && final(self).config.fee_registry == old(self).config.fee_registry
                && final(self).config.fee_collector == old(self).config.fee_collector,
    {
        if has_funds {
            return Err(ContractError::UnexpectedFunds);
        }
        if *sender != self.config.admin {
            return Err(ContractError::Unauthorized);
        }
        self.config.keeper = keeper;
        Ok(())
    }

    /// Re-pin the pair's code id of a bot; admin only, and never to zero.
    pub fn update_pair_code(&mut self, has_funds: bool, sender: &String, bot_id: u64, code_id: u64) -> (r: Result<
        (),
        ContractError,
    >)
        requires
            old(self).wf(),
        ensures
            final(self).wf(),
            old(self).mode == VaultMode::Exit ==> final(self).mode == VaultMode::Exit,
            r == (if has_funds {
                Err(ContractError::UnexpectedFunds)
            } else if sender@ != old(self).config.admin@ {
                Err(ContractError::Unauthorized)
            } else if code_id == 0 {
                Err(ContractError::InvalidPair)
            } else if !old(self).bot_exists(bot_id) {
                Err(ContractError::Std(StdFault::NotFound))
            } else {
                Ok(())
            }),
            r is Err ==> *final(self) == *old(self),
            r is Ok ==> final(self).bot.pair_code_id == code_id && final(self).bot.owner == old(self).bot.owner
                && final(self).bot.pair == old(self).bot.pair && final(self).bot.free_balances == old(self).bot.free_balances && final(self).bot.total_shares == old(self).bot.total_shares,
    {
        if has_funds {
            return Err(ContractError::UnexpectedFunds);
        }
        if *sender != self.config.admin {
            return Err(ContractError::Unauthorized);
        }
        if code_id == 0 {
            return Err(ContractError::InvalidPair);
        }
        if bot_id != BOT_ID || !self.has_bot {
            return Err(ContractError::Std(StdFault::NotFound));
        }
        self.bot.pair_code_id = code_id;
        Ok(())
    }

    /// Propose a new admin; admin only. The proposal waits for acceptance.
    pub fn transfer_admin(&mut self, has_funds: bool, sender: &String, admin: String) -> (r: Result<(), ContractError>)
        requires
            old(self).wf(),
        ensures
            final(self).wf(),
            old(self).mode == VaultMode::Exit ==> final(self).mode == VaultMode::Exit,
            has_funds ==> r == Err::<(), ContractError>(ContractError::UnexpectedFunds),
            !has_funds && sender@ != old(self).config.admin@ ==> r == Err::<(), ContractError>(
                ContractError::Unauthorized,
            ),
            r is Ok <==> !has_funds && sender@ == old(self).config.admin@,
            r is Err ==> *final(self) == *old(self),
            r is Ok ==> final(self).config.pending_admin == Some(admin) && final(self).config.admin == old(self).config.admin && final(self).same_but_config(old(self)),
    {
        if has_funds {
            return Err(ContractError::UnexpectedFunds);
        }
        if *sender != self.config.admin {
            return Err(ContractError::Unauthorized);
        }
        self.config.pending_admin = Some(admin);
        Ok(())
    }

    /// The proposed admin takes over.
    pub fn accept_admin(&mut self, has_funds: bool, sender: &String) -> (r: Result<(), ContractError>)
        requires
            old(self).wf(),
        ensures
            final(self).wf(),
            old(self).mode == VaultMode::Exit ==> final(self).mode == VaultMode::Exit,
            has_funds ==> r == Err::<(), ContractError>(ContractError::UnexpectedFunds),
            r is Ok <==> !has_funds && (old(self).config.pending_admin matches Some(p) && p@ == sender@),
            !has_funds && r is Err ==> r == Err::<(), ContractError>(ContractError::Unauthorized),
            r is Err ==> *final(self) == *old(self),
            r is Ok ==> final(self).config.admin == *sender && final(self).config.pending_admin is None
                && final(self).same_but_config(old(self)),
    {
        if has_funds {
            return Err(ContractError::UnexpectedFunds);
        }
        let accepted = match &self.config.pending_admin {
            Some(p) => *p == *sender,
            None => false,
        };
        if !accepted {
            return Err(ContractError::Unauthorized);
        }
        self.config.admin = sender.clone();
        self.config.pending_admin = None;
        Ok(())
    }

    /// Pause an active vault; admin only.
    pub fn pause(&mut self, has_funds: bool, sender: &String) -> (r: Result<(), ContractError>)
        requires
            old(self).wf(),
        ensures
            final(self).wf(),
            old(self).mode == VaultMode::Exit ==> final(self).mode == VaultMode::Exit,
            r == (if has_funds {
                Err(ContractError::UnexpectedFunds)
            } else if sender@ != old(self).config.admin@ {
                Err(ContractError::Unauthorized)
            } else if old(self).mode != VaultMode::Active {
                Err(ContractError::InvalidMode)
            } else {
                Ok(())
            }),
            final(self).mode == (if r is Ok { VaultMode::Paused } else { old(self).mode }),
            final(self).config == old(self).config,
            final(self).bot == old(self).bot,
            final(self).shares == old(self).shares,
            final(self).orders == old(self).orders,
    {
        if has_funds {
            return Err(ContractError::UnexpectedFunds);
        }
        if *sender != self.config.admin {
            return Err(ContractError::Unauthorized);
        }
        if self.mode != VaultMode::Active {
            return Err(ContractError::InvalidMode);
        }
        self.mode = VaultMode::Paused;
        Ok(())
    }

    /// Resume a paused vault; admin only.
    pub fn resume(&mut self, has_funds: bool, sender: &String) -> (r: Result<(), ContractError>)
        requires
            old(self).wf(),
        ensures
            final(self).wf(),
            old(self).mode == VaultMode::Exit ==> final(self).mode == VaultMode::Exit,
            r == (if has_funds {
                Err(ContractError::UnexpectedFunds)
            } else if sender@ != old(self).config.admin@ {
                Err(ContractError::Unauthorized)
            } else if old(self).mode != VaultMode::Paused {
                Err(ContractError::InvalidMode)
            } else {
                Ok(())
            }),
            final(self).mode == (if r is Ok { VaultMode::Active } else { old(self).mode }),
            final(self).config == old(self).config,
            final(self).bot == old(self).bot,
            final(self).shares == old(self).shares,
            final(self).orders == old(self).orders,
    {
        if has_funds {
            return Err(ContractError::UnexpectedFunds);
        }
        if *sender != self.config.admin {
            return Err(ContractError::Unauthorized);
        }
        if self.mode != VaultMode::Paused {
            return Err(ContractError::InvalidMode);
        }
        self.mode = VaultMode::Active;
        Ok(())
    }

    /// The bot owner puts the vault into emergency exit, from which it never
    /// leaves.
    pub fn enter_exit(&mut self, has_funds: bool, sender: &String, bot_id: u64) -> (r: Result<(), ContractError>)
        requires
            old(self).wf(),
        ensures
            final(self).wf(),
            old(self).mode == VaultMode::Exit ==> final(self).mode == VaultMode::Exit,
            r == (if has_funds {
                Err(ContractError::UnexpectedFunds)
            } else if !old(self).bot_exists(bot_id) {
                Err(ContractError::Std(StdFault::NotFound))
            } else if sender@ != old(self).bot.owner@ {
                Err(ContractError::Unauthorized)
            } else if old(self).mode == VaultMode::Exit {
                Err(ContractError::InvalidMode)
            } else {
                Ok(())
            }),
            final(self).mode == (if r is Ok { VaultMode::Exit } else { old(self).mode }),
            final(self).config == old(self).config,
            final(self).bot == old(self).bot,
            final(self).shares == old(self).shares,
            final(self).orders == old(self).orders,
    {
        if has_funds {
            return Err(ContractError::UnexpectedFunds);
        }
        if bot_id != BOT_ID || !self.has_bot {
            return Err(ContractError::Std(StdFault::NotFound));
        }
        if *sender != self.bot.owner {
            return Err(ContractError::Unauthorized);
        }
        if self.mode == VaultMode::Exit {
            return Err(ContractError::InvalidMode);
        }
        self.mode = VaultMode::Exit;
        Ok(())
    }

    /// A token may be used unless quarantined or, with the policy on, not allowed.
    pub open spec fn token_available(&self, token: Seq<char>) -> bool {
        !self.quarantine@.contains(token) && (!self.token_policy_enabled || self.allowed_tokens@.contains(token))
    }

    pub fn require_token_available(&self, token: &String) -> (r: Result<(), ContractError>)
        requires
            self.wf(),
        ensures
            self.quarantine@.contains(token@) ==> r == Err::<(), ContractError>(ContractError::TokenQuarantined),
            !self.quarantine@.contains(token@) && !self.token_available(token@) ==> r == Err::<(), ContractError>(
                ContractError::TokenNotAllowed,
            ),
            r is Ok <==> self.token_available(token@),
    {
        if self.quarantine.contains(token) {
            return Err(ContractError::TokenQuarantined);
        }
        if self.token_policy_enabled && !self.allowed_tokens.contains(token) {
            return Err(ContractError::TokenNotAllowed);
        }
        Ok(())
    }

    /// Admin edits of the token policy: allow (which switches the policy on),
    /// disallow, quarantine, release.
    pub fn add_allowed_token(&mut self, has_funds: bool, sender: &String, token: &String) -> (r: Result<(), ContractError>)
        requires
            old(self).wf(),
        ensures
            final(self).wf(),
            old(self).mode == VaultMode::Exit ==> final(self).mode == VaultMode::Exit,
            has_funds ==> r == Err::<(), ContractError>(ContractError::UnexpectedFunds),
            !has_funds && sender@ != old(self).config.admin@ ==> r == Err::<(), ContractError>(
                ContractError::Unauthorized,
            ),
            r is Ok <==> !has_funds && sender@ == old(self).config.admin@,
            r is Err ==> *final(self) == *old(self),
            r is Ok ==> final(self).allowed_tokens@ == old(self).allowed_tokens@.insert(token@)
                && final(self).token_policy_enabled && final(self).quarantine == old(self).quarantine
                && final(self).config == old(self).config && final(self).bot == old(self).bot,
    {
        if has_funds {
            return Err(ContractError::UnexpectedFunds);
        }
        if *sender != self.config.admin {
            return Err(ContractError::Unauthorized);
        }
        self.allowed_tokens.insert(token);
        self.token_policy_enabled = true;
        Ok(())
    }

    pub fn remove_allowed_token(&mut self, has_funds: bool, sender: &String, token: &String) -> (r: Result<
        (),
        ContractError,
    >)
        requires
            old(self).wf(),
        ensures
            final(self).wf(),
            old(self).mode == VaultMode::Exit ==> final(self).mode == VaultMode::Exit,
            has_funds ==> r == Err::<(), ContractError>(ContractError::UnexpectedFunds),
            !has_funds && sender@ != old(self).config.admin@ ==> r == Err::<(), ContractError>(
                ContractError::Unauthorized,
            ),
            r is Ok <==> !has_funds && sender@ == old(self).config.admin@,
            r is Err ==> *final(self) == *old(self),
            r is Ok ==> final(self).allowed_tokens@ == old(self).allowed_tokens@.remove(token@)
                && final(self).token_policy_enabled == old(self).token_policy_enabled && final(self).quarantine == old(self).quarantine && final(self).config == old(self).config && final(self).bot == old(self).bot,
    {
        if has_funds {
            return Err(ContractError::UnexpectedFunds);
        }
        if *sender != self.config.admin {
            return Err(ContractError::Unauthorized);
        }
        self.allowed_tokens.remove(token);
        Ok(())
    }

    pub fn quarantine_token(&mut self, has_funds: bool, sender: &String, token: &String) -> (r: Result<(), ContractError>)
        requires
            old(self).wf(),
        ensures
            final(self).wf(),
            old(self).mode == VaultMode::Exit ==> final(self).mode == VaultMode::Exit,
            has_funds ==> r == Err::<(), ContractError>(ContractError::UnexpectedFunds),
            !has_funds && sender@ != old(self).config.admin@ ==> r == Err::<(), ContractError>(
                ContractError::Unauthorized,
            ),
            r is Ok <==> !has_funds && sender@ == old(self).config.admin@,
            r is Err ==> *final(self) == *old(self),
            r is Ok ==> final(self).quarantine@ == old(self).quarantine@.insert(token@) && final(self).allowed_tokens == old(self).allowed_tokens && final(self).token_policy_enabled == old(self).token_policy_enabled && final(self).config == old(self).config && final(self).bot == old(self).bot,
    {
        if has_funds {
            return Err(ContractError::UnexpectedFunds);
        }
        if *sender != self.config.admin {
            return Err(ContractError::Unauthorized);
        }
        self.quarantine.insert(token);
        Ok(())
    }

    pub fn unquarantine_token(&mut self, has_funds: bool, sender: &String, token: &String) -> (r: Result<
        (),
        ContractError,
    >)
        requires
            old(self).wf(),
        ensures
            final(self).wf(),
            old(self).mode == VaultMode::Exit ==> final(self).mode == VaultMode::Exit,
            has_funds ==> r == Err::<(), ContractError>(ContractError::UnexpectedFunds),
            !has_funds && sender@ != old(self).config.admin@ ==> r == Err::<(), ContractError>(
                ContractError::Unauthorized,
            ),
            r is Ok <==> !has_funds && sender@ == old(self).config.admin@,
            r is Err ==> *final(self) == *old(self),
            r is Ok ==> final(self).quarantine@ == old(self).quarantine@.remove(token@) && final(self).allowed_tokens == old(self).allowed_tokens && final(self).token_policy_enabled == old(self).token_policy_enabled && final(self).config == old(self).config && final(self).bot == old(self).bot,
    {
        if has_funds {
            return Err(ContractError::UnexpectedFunds);
        }
        if *sender != self.config.admin {
            return Err(ContractError::Unauthorized);
        }
        self.quarantine.remove(token);
        Ok(())
    }

    /// The token-policy query: the allowed and the quarantined tokens, each in
    /// ascending order.
    pub fn query_token_policy(&self) -> (r: TokenPolicyResponse)
        requires
            self.wf(),
        ensures
            r.enabled == self.token_policy_enabled,
            r.allowed_tokens@ == self.allowed_tokens.items@,
            r.quarantined_tokens@ == self.quarantine.items@,
            forall|i: int, j: int| 0 <= i < j < r.allowed_tokens@.len() ==> text_lt(
                #[trigger] r.allowed_tokens@[i]@,
                #[trigger] r.allowed_tokens@[j]@,
            ),
            forall|i: int, j: int| 0 <= i < j < r.quarantined_tokens@.len() ==> text_lt(
                #[trigger] r.quarantined_tokens@[i]@,
                #[trigger] r.quarantined_tokens@[j]@,
            ),
    {
        let mut allowed: Vec<String> = Vec::new();
        let mut i: usize = 0;
        while i < self.allowed_tokens.items.len()
            invariant
                i <= self.allowed_tokens.items@.len(),
                allowed@ == self.allowed_tokens.items@.take(i as int),
            decreases self.allowed_tokens.items@.len() - i,
        {
            allowed.push(self.allowed_tokens.items[i].clone());
            proof {
                assert(self.allowed_tokens.items@.take(i + 1) =~= self.allowed_tokens.items@.take(i as int).push(
                    self.allowed_tokens.items@[i as int],
                ));
            }
            i = i + 1;
        }
        let mut quarantined: Vec<String> = Vec::new();
        let mut j: usize = 0;
        while j < self.quarantine.items.len()
            invariant
                j <= self.quarantine.items@.len(),
                quarantined@ == self.quarantine.items@.take(j as int),
            decreases self.quarantine.items@.len() - j,
        {
            quarantined.push(self.quarantine.items[j].clone());
            proof {
                assert(self.quarantine.items@.take(j + 1) =~= self.quarantine.items@.take(j as int).push(
                    self.quarantine.items@[j as int],
                ));
            }
            j = j + 1;
        }
        proof {
            assert(self.allowed_tokens.items@.take(self.allowed_tokens.items@.len() as int) =~= self.allowed_tokens.items@);
            assert(self.quarantine.items@.take(self.quarantine.items@.len() as int) =~= self.quarantine.items@);
        }
        TokenPolicyResponse { enabled: self.token_policy_enabled, allowed_tokens: allowed, quarantined_tokens: quarantined }
    }
}



/// Whether the rung prices lie within the pair's bounds with no two neighbours
/// equal.
pub(crate) fn rung_prices_acceptable(prices: &Vec<Decimal>, Ghost(lo): Ghost<int>, Ghost(hi): Ghost<int>) -> (r: bool)
    requires
        prices@.len() >= 2,
        forall|k: int| 0 <= k < prices@.len() ==> (#[trigger] prices@[k]).atomics == rung_price(lo, hi, prices@.len() as int, k),
    ensures
        r == (prices_in_bounds(lo, hi, prices@.len() as int) && prices_distinct(lo, hi, prices@.len() as int)),
{
    let ghost n = prices@.len() as int;
    let mut i: usize = 0;
    while i < prices.len()
        invariant
            prices@.len() == n,
            i <= n,
            forall|k: int| 0 <= k < n ==> (#[trigger] prices@[k]).atomics == rung_price(lo, hi, n, k),
            forall|k: int| 0 <= k < i ==> MIN_RUNG_ATOMICS <= #[trigger] rung_price(lo, hi, n, k) <= MAX_RUNG_ATOMICS,
            forall|k: int| 0 <= k < i && k + 1 < n ==> #[trigger] rung_price(lo, hi, n, k) != rung_price(lo, hi, n, k + 1),
        decreases n - i,
    {
        let p = prices[i].atomics;
        proof {
            assert(prices@[i as int].atomics == rung_price(lo, hi, n, i as int));
            if i + 1 < n {
                assert(prices@[i + 1].atomics == rung_price(lo, hi, n, i + 1));
            }
        }
        if p < MIN_RUNG_ATOMICS || p > MAX_RUNG_ATOMICS {
            return false;
        }
        if i + 1 < prices.len() && prices[i + 1].atomics == p {
            return false;
        }
        i = i + 1;
    }
    true
}

/// The rungs at `prices` with their sides against `reference`, and whether
/// some rung bids and some asks.
pub(crate) fn build_rungs(prices: &Vec<Decimal>, reference_price: Decimal, Ghost(lo): Ghost<int>, Ghost(hi): Ghost<int>) -> (r: (Vec<Rung>, bool, bool))
    requires
        forall|k: int| 0 <= k < prices@.len() ==> (#[trigger] prices@[k]).atomics == rung_price(lo, hi, prices@.len() as int, k),
    ensures
        r.0@.len() == prices@.len(),
        forall|k: int| 0 <= k < prices@.len() ==> (#[trigger] r.0@[k]) == (Rung {
            price: Decimal { atomics: rung_price(lo, hi, prices@.len() as int, k) as u128 },
            side: side_at(rung_price(lo, hi, prices@.len() as int, k), reference_price.atomics as int),
        }),
        r.1 == has_side(lo, hi, prices@.len() as int, reference_price.atomics as int, LimitOrderSide::Bid),
        r.2 == has_side(lo, hi, prices@.len() as int, reference_price.atomics as int, LimitOrderSide::Ask),
{
    let ghost n = prices@.len() as int;
    let ghost reference = reference_price.atomics as int;
    let mut rungs: Vec<Rung> = Vec::new();
    let mut has_bid = false;
    let mut has_ask = false;
    let mut j: usize = 0;
    while j < prices.len()
        invariant
            prices@.len() == n,
            j <= n,
            reference == reference_price.atomics,
            forall|k: int| 0 <= k < n ==> (#[trigger] prices@[k]).atomics == rung_price(lo, hi, n, k),
            rungs@.len() == j,
            forall|k: int| 0 <= k < j ==> (#[trigger] rungs@[k]) == (Rung {
                price: Decimal { atomics: rung_price(lo, hi, n, k) as u128 },
                side: side_at(rung_price(lo, hi, n, k), reference),
            }),
            has_bid <==> exists|k: int| 0 <= k < j && side_at(#[trigger] rung_price(lo, hi, n, k), reference) == Some(LimitOrderSide::Bid),
            has_ask <==> exists|k: int| 0 <= k < j && side_at(#[trigger] rung_price(lo, hi, n, k), reference) == Some(LimitOrderSide::Ask),
        decreases n - j,
    {
        let side = rung_side(prices[j], reference_price);
        proof {
            assert(prices@[j as int].atomics == rung_price(lo, hi, n, j as int));
        }
        match side {
            Some(LimitOrderSide::Bid) => {
                has_bid = true;
            },
            Some(LimitOrderSide::Ask) => {
                has_ask = true;
            },
            None => {},
        }
        rungs.push(Rung { price: prices[j], side });
        j = j + 1;
    }
    (rungs, has_bid, has_ask)
}

impl GridVault {
    /// Create the vault's only bot on `pair`, with `grid_count` rungs spread
    /// from `lower_price` to `upper_price`; the bot owner only, paying the gas
    /// credit in the gas denom. The rungs below the pool's spot price bid, those
    /// above ask, one at the spot price rests. The first bot switches the token
    /// policy on with the pair's two tokens allowed.
    pub fn create_bot(
        &mut self,
        sender: &String,
        funds: &Vec<Coin>,
        pair: String,
        lower_price: Decimal,
        upper_price: Decimal,
        grid_count: u32,
        reads: &PairReads,
    ) -> (r: Result<(), ContractError>)
        requires
            old(self).wf(),
        ensures
            final(self).wf(),
            old(self).mode == VaultMode::Exit ==> final(self).mode == VaultMode::Exit,
            r is Ok <==> create_bot_check(*old(self), sender@, funds@, pair@, lower_price, upper_price, grid_count, *reads) is Ok,
            r matches Err(e) ==> create_bot_check(*old(self), sender@, funds@, pair@, lower_price, upper_price, grid_count, *reads)
                == Err::<u128, ContractError>(e) && *final(self) == *old(self),
            r is Ok ==> {
                let infos = reads.pair_info->0.asset_infos;
                let pool = reads.pool->0;
                let reference = ratio(pool[1].amount as int, unit(), pool[0].amount as int);
                let t0 = token_of(infos[0])->0;
                let t1 = token_of(infos[1])->0;
                let b = final(self).bot;
                &&& final(self).has_bot
                &&& final(self).next_bot_id == BOT_ID + 1
                &&& b.owner@ == sender@
                &&& b.pair@ == pair@
                &&& b.pair_code_id == reads.code_id->0
                &&& b.asset_tokens[0]@ == t0 && b.asset_tokens[1]@ == t1
                &&& b.lower_price == lower_price && b.upper_price == upper_price
                &&& b.grid_count == grid_count
                &&& b.reference_price.atomics == reference
                &&& b.free_balances == [0u128, 0u128]
                &&& b.total_shares == 0 && b.active_orders == 0
                &&& b.gas_credit == create_bot_check(*old(self), sender@, funds@, pair@, lower_price, upper_price, grid_count, *reads)->Ok_0
                &&& b.pair_batch_limit == reads.max_batch_rungs->0
                &&& final(self).rungs@.len() == grid_count
                &&& forall|i: int| 0 <= i < grid_count ==> (#[trigger] final(self).rungs@[i]) == (Rung {
                    price: Decimal { atomics: rung_price(lower_price.atomics as int, upper_price.atomics as int, grid_count as int, i) as u128 },
                    side: side_at(rung_price(lower_price.atomics as int, upper_price.atomics as int, grid_count as int, i), reference),
                })
                &&& final(self).token_policy_enabled
                &&& final(self).allowed_tokens@ == (if old(self).token_policy_enabled { old(self).allowed_tokens@ } else {
                    old(self).allowed_tokens@.insert(t0).insert(t1)
                })
                &&& final(self).quarantine == old(self).quarantine
                &&& final(self).config == old(self).config
                &&& final(self).mode == old(self).mode
                &&& final(self).orders == old(self).orders
                &&& final(self).shares == old(self).shares
            },
    {
        let ghost spec_result = create_bot_check(*self, sender@, funds@, pair@, lower_price, upper_price, grid_count, *reads);
        if self.mode != VaultMode::Active {
            return Err(ContractError::InvalidMode);
        }
        if self.has_bot {
            return Err(ContractError::BotAlreadyExists);
        }
        if *sender != self.config.owner {
            return Err(ContractError::Unauthorized);
        }
        if grid_count < 2 || grid_count > self.config.max_grid_count || lower_price.atomics >= upper_price.atomics {
            return Err(ContractError::InvalidGrid);
        }
        let info = match &reads.pair_info {
            Some(i) => i,
            None => return Err(ContractError::Std(StdFault::QueryFailed)),
        };
        if info.contract_addr != pair {
            return Err(ContractError::InvalidPair);
        }
        let code_id = match reads.code_id {
            Some(c) => c,
            None => return Err(ContractError::Std(StdFault::QueryFailed)),
        };
        if code_id == 0 {
            return Err(ContractError::InvalidPair);
        }
        match &reads.registered_pair {
            Some(p) => {
                if *p != pair {
                    return Err(ContractError::InvalidPair);
                }
            },
            None => return Err(ContractError::Std(StdFault::QueryFailed)),
        }
        let t0 = match &info.asset_infos[0] {
            AssetInfo::Token { contract_addr } => contract_addr.clone(),
            AssetInfo::NativeToken { .. } => return Err(ContractError::UnsupportedAsset),
        };
        let t1 = match &info.asset_infos[1] {
            AssetInfo::Token { contract_addr } => contract_addr.clone(),
            AssetInfo::NativeToken { .. } => return Err(ContractError::UnsupportedAsset),
        };
        if t0 == t1 {
            return Err(ContractError::InvalidPair);
        }
        let policy_was_on = self.token_policy_enabled;
        if self.quarantine.contains(&t0) {
            return Err(ContractError::TokenQuarantined);
        }
        if policy_was_on && !self.allowed_tokens.contains(&t0) {
            return Err(ContractError::TokenNotAllowed);
        }
        if self.quarantine.contains(&t1) {
            return Err(ContractError::TokenQuarantined);
        }
        if policy_was_on && !self.allowed_tokens.contains(&t1) {
            return Err(ContractError::TokenNotAllowed);
        }
        let (d0, d1) = match (reads.decimals[0], reads.decimals[1]) {
            (Some(a), Some(b)) => (a, b),
            _ => return Err(ContractError::Std(StdFault::QueryFailed)),
        };
        if d0 != d1 {
            return Err(ContractError::InvalidPair);
        }
        let max_batch_rungs = match reads.max_batch_rungs {
            Some(m) => m,
            None => return Err(ContractError::Std(StdFault::QueryFailed)),
        };
        if grid_count > max_batch_rungs {
            return Err(ContractError::InvalidGrid);
        }
        let pool = match &reads.pool {
            Some(p) => p,
            None => return Err(ContractError::Std(StdFault::QueryFailed)),
        };
        if !assets_match(&pool[0].info, &info.asset_infos[0]) || !assets_match(&pool[1].info, &info.asset_infos[1]) {
            return Err(ContractError::InvalidPair);
        }
        let reference_price = match pool_price([pool[0].amount, pool[1].amount]) {
            Ok(p) => p,
            Err(e) => return Err(e),
        };
        if reference_price.atomics <= lower_price.atomics || reference_price.atomics >= upper_price.atomics {
            return Err(ContractError::InvalidGrid);
        }
        let prices = match grid_prices(lower_price, upper_price, grid_count) {
            Ok(p) => p,
            Err(e) => return Err(e),
        };
        if !rung_prices_acceptable(&prices, Ghost(lower_price.atomics as int), Ghost(upper_price.atomics as int)) {
            return Err(ContractError::InvalidGrid);
        }
        let (rungs, has_bid, has_ask) = build_rungs(&prices, reference_price, Ghost(lower_price.atomics as int), Ghost(upper_price.atomics as int));
        if !has_bid || !has_ask {
            return Err(ContractError::EmptySide);
        }
        let gas_credit = match paid_amount(funds, &self.config.gas_denom) {
            Ok(a) => a,
            Err(e) => return Err(e),
        };
        let required = match required_gas(&self.config) {
            Ok(v) => v,
            Err(e) => return Err(e),
        };
        if gas_credit < required {
            return Err(ContractError::InsufficientGasCredit);
        }
        assert(spec_result == Ok::<u128, ContractError>(gas_credit));
        if !self.token_policy_enabled {
            self.allowed_tokens.insert(&t0);
            self.allowed_tokens.insert(&t1);
            self.token_policy_enabled = true;
        }
        self.next_bot_id = BOT_ID + 1;
        self.bot = Bot {
            owner: sender.clone(),
            pair,
            pair_code_id: code_id,
            asset_tokens: [t0, t1],
            lower_price,
            upper_price,
            grid_count,
            reference_price,
            free_balances: [0, 0],
            total_shares: 0,
            gas_credit,
            active_orders: 0,
            pair_batch_limit: max_batch_rungs,
        };
        self.has_bot = true;
        self.rungs = rungs;
        proof {
            let lo = lower_price.atomics as int;
            let hi = upper_price.atomics as int;
            let n = grid_count as int;
            let reference = reference_price.atomics as int;
            let ib = choose|i: int| 0 <= i < n && side_at(#[trigger] rung_price(lo, hi, n, i), reference) == Some(LimitOrderSide::Bid);
            assert(self.rungs@[ib].side == Some(LimitOrderSide::Bid));
            let ia = choose|i: int| 0 <= i < n && side_at(#[trigger] rung_price(lo, hi, n, i), reference) == Some(LimitOrderSide::Ask);
            assert(self.rungs@[ia].side == Some(LimitOrderSide::Ask));
        }
        Ok(())
    }
}


impl GridVault {
    /// The ascending indices of the rungs that take `side`.
    pub fn side_rungs(&self, side: LimitOrderSide) -> (r: Vec<u32>)
        requires
            self.wf(),
            self.has_bot,
        ensures
            r@ == side_indices(self.rungs@, side, self.bot.grid_count as int),
    {
        let mut out: Vec<u32> = Vec::new();
        let mut i: u32 = 0;
        while i < self.bot.grid_count
            invariant
                self.wf(),
                self.has_bot,
                i <= self.bot.grid_count,
                out@ == side_indices(self.rungs@, side, i as int),
            decreases self.bot.grid_count - i,
        {
            if self.rungs[i as usize].side == Some(side) {
                out.push(i);
            }
            i = i + 1;
        }
        out
    }

    /// Spread the free balance that `side` escrows evenly over that side's
    /// rungs in one batch placement. Nothing happens when the share per rung is
    /// zero; the placement is deferred when it would take the bot past its
    /// active-order cap.
    pub fn allocate_side(&mut self, side: LimitOrderSide, expires_at: u64) -> (r: Result<AllocationStep, ContractError>)
        requires
            old(self).wf(),
            old(self).has_bot,
        ensures
            final(self).wf(),
            old(self).mode == VaultMode::Exit ==> final(self).mode == VaultMode::Exit,
            ({
                let idx = side_indices(old(self).rungs@, side, old(self).bot.grid_count as int);
                let k = input_index(side);
                let free = old(self).bot.free_balances[k] as int;
                let each = free / idx.len() as int;
                let unchanged = *final(self) == *old(self);
                &&& idx.len() > 0
                &&& each == 0 ==> (r matches Ok(AllocationStep::Nothing)) && unchanged
                &&& each > 0 && old(self).bot.active_orders + idx.len() > old(self).config.max_active_orders_per_bot
                    ==> (r matches Ok(AllocationStep::Deferred)) && unchanged
                &&& each > 0 && old(self).bot.active_orders + idx.len() <= old(self).config.max_active_orders_per_bot
                    && old(self).next_reply_id == u64::MAX ==> r == Err::<AllocationStep, ContractError>(
                    ContractError::Std(StdFault::Overflow)) && unchanged
                &&& each > 0 && old(self).bot.active_orders + idx.len() <= old(self).config.max_active_orders_per_bot
                    && old(self).next_reply_id < u64::MAX ==> {
                    &&& r matches Ok(AllocationStep::Placed(req)) && {
                        &&& req.reply_id == old(self).next_reply_id
                        &&& req.token == old(self).bot.asset_tokens[k]
                        &&& req.pair == old(self).bot.pair
                        &&& req.amount == each * idx.len()
                        &&& req.side == side
                        &&& req.orders@.len() == idx.len()
                        &&& forall|i: int| 0 <= i < idx.len() ==> #[trigger] req.orders@[i] == placement_item(
                            old(self).rungs@[idx[i] as int].price, each as u128, expires_at)
                    }
                    &&& final(self).bot.free_balances[k] == free - each * idx.len()
                    &&& final(self).bot.free_balances[1 - k] == old(self).bot.free_balances[1 - k]
                    &&& final(self).bot.active_orders == old(self).bot.active_orders + idx.len()
                    &&& final(self).bot.total_shares == old(self).bot.total_shares
                    &&& final(self).bot.gas_credit == old(self).bot.gas_credit
                    &&& final(self).bot.owner == old(self).bot.owner
                    &&& final(self).next_reply_id == old(self).next_reply_id + 1
                    &&& final(self).placements@.contains_key(old(self).next_reply_id)
                    &&& final(self).placements@[old(self).next_reply_id].side == side
                    &&& final(self).placements@[old(self).next_reply_id].rungs@ == idx
                    &&& final(self).placements@[old(self).next_reply_id].gross_amounts@ == Seq::new(idx.len(), |i: int| each as u128)
                    &&& final(self).placements@.remove(old(self).next_reply_id) == old(self).placements@.remove(old(self).next_reply_id)
                    &&& final(self).shares == old(self).shares && final(self).orders == old(self).orders
                    &&& final(self).config == old(self).config && final(self).mode == old(self).mode
                    &&& final(self).rungs == old(self).rungs && final(self).has_bot
                    &&& final(self).bot.asset_tokens == old(self).bot.asset_tokens
                    &&& final(self).bot.pair == old(self).bot.pair
                    &&& final(self).bot.grid_count == old(self).bot.grid_count
                }
            }),
    {
        let rungs = self.side_rungs(side);
        proof {
            lemma_side_indices(self.rungs@, side, self.bot.grid_count as int);
            let w = choose|i: int| 0 <= i < self.rungs@.len() && (#[trigger] self.rungs@[i]).side == Some(side);
            assert(exists|i: int| 0 <= i < self.bot.grid_count as int && (#[trigger] self.rungs@[i]).side == Some(side));
        }
        if rungs.len() == 0 {
            return Err(ContractError::EmptySide);
        }
        let k = side_input_index(side);
        let count = rungs.len();
        let free = self.bot.free_balances[k];
        let each = free / (count as u128);
        if each == 0 {
            return Ok(AllocationStep::Nothing);
        }
        proof {
            assert(each * count <= free) by (nonlinear_arith)
                requires each == free / (count as u128), count > 0;
        }
        let total = each * (count as u128);
        if (self.bot.active_orders as u64) + (count as u64) > self.config.max_active_orders_per_bot as u64 {
            return Ok(AllocationStep::Deferred);
        }
        if self.next_reply_id == u64::MAX {
            return Err(ContractError::Std(StdFault::Overflow));
        }
        let mut orders: Vec<LimitOrderPlacementItem> = Vec::new();
        let mut gross: Vec<u128> = Vec::new();
        let mut i: usize = 0;
        while i < count
            invariant
                self.wf(),
                self.has_bot,
                count == rungs@.len(),
                rungs@ == side_indices(self.rungs@, side, self.bot.grid_count as int),
                forall|j: int| 0 <= j < rungs@.len() ==> (#[trigger] rungs@[j]) < self.bot.grid_count,
                i <= count,
                orders@.len() == i,
                gross@.len() == i,
                forall|j: int| 0 <= j < i ==> #[trigger] orders@[j] == placement_item(self.rungs@[rungs@[j] as int].price, each, expires_at),
                forall|j: int| 0 <= j < i ==> #[trigger] gross@[j] == each,
            decreases count - i,
        {
            let rung = self.rungs[rungs[i] as usize];
            orders.push(
                LimitOrderPlacementItem {
                    price: rung.price,
                    amount: each,
                    max_adjust_steps: MAX_ADJUST_STEPS,
                    expires_at: Some(expires_at),
                    hint_after_order_id: None,
                },
            );
            gross.push(each);
            i = i + 1;
        }
        let reply_id = self.next_reply_id;
        self.next_reply_id = reply_id + 1;
        self.bot.free_balances = if k == 0 {
            [free - total, self.bot.free_balances[1]]
        } else {
            [self.bot.free_balances[0], free - total]
        };
        self.bot.active_orders = self.bot.active_orders + count as u32;
        proof {
            assert(gross@ =~= Seq::new(count as nat, |j: int| each));
        }
        if self.placements.contains(reply_id) {
            self.placements.replace(reply_id, PlacementPlan { bot_id: BOT_ID, side, rungs: rungs.clone(), gross_amounts: gross });
        } else {
            self.placements.insert(reply_id, PlacementPlan { bot_id: BOT_ID, side, rungs: rungs.clone(), gross_amounts: gross });
        }
        Ok(
            AllocationStep::Placed(
                PlacementRequest {
                    reply_id,
                    token: self.bot.asset_tokens[k].clone(),
                    pair: self.bot.pair.clone(),
                    amount: total,
                    side,
                    orders,
                },
            ),
        )
    }
}


/// The placement of `side` an allocation sends with `reply_id`: every rung of
/// the side gets an equal share of `free`, expiring at `expires_at`.
pub open spec fn allocation_request(v: GridVault, side: LimitOrderSide, free: int, reply_id: int, expires_at: u64, step: AllocationStep) -> bool {
    let idx = side_indices(v.rungs@, side, v.bot.grid_count as int);
    let each = free / idx.len() as int;
    step matches AllocationStep::Placed(req) ==> {
        &&& req.reply_id == reply_id
        &&& req.token == v.bot.asset_tokens[input_index(side)]
        &&& req.pair == v.bot.pair
        &&& req.amount == each * idx.len()
        &&& req.side == side
        &&& req.orders@.len() == idx.len()
        &&& forall|i: int| 0 <= i < idx.len() ==> #[trigger] req.orders@[i] == placement_item(
            v.rungs@[idx[i] as int].price, each as u128, expires_at)
    }
}

/// What is left of `free` once `placed` spread it evenly over the side's rungs.
pub open spec fn free_after(v: GridVault, side: LimitOrderSide, free: int, placed: bool) -> int {
    let idx = side_indices(v.rungs@, side, v.bot.grid_count as int);
    if placed { free - (free / idx.len() as int) * idx.len() } else { free }
}

/// Every plan but those under `a` and `b` is kept as it was.
pub open spec fn plans_kept(before: Map<u64, PlacementPlan>, after: Map<u64, PlacementPlan>, a: int, b: int) -> bool {
    forall|id: u64| id != a && id != b ==> (#[trigger] after.contains_key(id) == before.contains_key(id))
        && (before.contains_key(id) ==> after[id] == before[id])
}

/// The plan recorded under `reply_id` for a placement of `side` spreading
/// `free` over the side's rungs.
pub open spec fn allocation_plan(v: GridVault, side: LimitOrderSide, free: int, plans: Map<u64, PlacementPlan>, reply_id: u64) -> bool {
    let idx = side_indices(v.rungs@, side, v.bot.grid_count as int);
    let each = free / idx.len() as int;
    &&& plans.contains_key(reply_id)
    &&& plans[reply_id].side == side
    &&& plans[reply_id].rungs@ == idx
    &&& plans[reply_id].gross_amounts@ == Seq::new(idx.len(), |i: int| each as u128)
}

/// The side a deposit of token `k` funds: token 0 asks, token 1 bids.
pub open spec fn funded_side(k: int) -> LimitOrderSide {
    if k == 0 { LimitOrderSide::Ask } else { LimitOrderSide::Bid }
}

/// Whether a deposit of `amount` of token `k` places its side at once: each
/// rung gets something and the bot stays within its active-order cap.
pub open spec fn deposit_places(v: GridVault, k: int, amount: u128) -> bool {
    let idx = side_indices(v.rungs@, funded_side(k), v.bot.grid_count as int);
    &&& (v.bot.free_balances[k] + amount) / idx.len() as int > 0
    &&& v.bot.active_orders + idx.len() <= v.config.max_active_orders_per_bot
}

/// The checks a deposit of token `k` makes once the transfer is confirmed, in
/// order: the shares it mints, or the first error.
pub open spec fn deposit_finish(v: GridVault, k: int, depositor: Seq<char>, amount: u128, now: u64) -> Result<int, ContractError> {
    match deposit_mint(amount, k, v.bot.reference_price) {
        Err(e) => Err(e),
        Ok(minted) => if minted == 0 {
            Err(ContractError::ZeroAmount)
        } else if v.bot.total_shares + minted > u128::MAX {
            Err(ContractError::Overflow)
        } else if v.shares.amount_of(depositor) + minted > u128::MAX {
            Err(ContractError::Overflow)
        } else if now + v.config.order_timeout_seconds > u64::MAX {
            Err(ContractError::InvalidGrid)
        } else if deposit_places(v, k, amount) && v.next_reply_id == u64::MAX {
            Err(ContractError::Std(StdFault::Overflow))
        } else {
            Ok(minted)
        },
    }
}

/// The checks of a deposit of `amount` of `token` by `depositor`, in order:
/// the token's index, or the first error. `code_id` is the pair's current code
/// id and `balance` the vault's balance of the token after the transfer, as read.
pub open spec fn deposit_check(
    v: GridVault,
    token: Seq<char>,
    depositor: Seq<char>,
    amount: u128,
    bot_id: u64,
    code_id: Option<u64>,
    balance: Option<u128>,
) -> Result<int, ContractError> {
    if v.mode != VaultMode::Active {
        Err(ContractError::InvalidMode)
    } else if amount == 0 {
        Err(ContractError::ZeroAmount)
    } else if !v.bot_exists(bot_id) {
        Err(ContractError::Std(StdFault::NotFound))
    } else if depositor != v.bot.owner@ {
        Err(ContractError::Unauthorized)
    } else if code_id is None {
        Err(ContractError::Std(StdFault::QueryFailed))
    } else if code_id->0 != v.bot.pair_code_id {
        Err(ContractError::PairCodeMismatch)
    } else if gas_floor(v.config) > u128::MAX {
        Err(ContractError::Overflow)
    } else if v.bot.gas_credit < gas_floor(v.config) {
        Err(ContractError::InsufficientGasCredit)
    } else if token != v.bot.asset_tokens[0]@ && token != v.bot.asset_tokens[1]@ {
        Err(ContractError::UnsupportedToken)
    } else if v.quarantine@.contains(token) {
        Err(ContractError::TokenQuarantined)
    } else {
        let k: int = if token == v.bot.asset_tokens[0]@ { 0 } else { 1 };
        if balance is None {
            Err(ContractError::Std(StdFault::QueryFailed))
        } else if v.bot.free_balances[k] + amount > u128::MAX {
            Err(ContractError::Overflow)
        } else if balance->0 != v.bot.free_balances[k] + amount {
            Err(ContractError::UnsupportedTokenBehavior)
        } else {
            Ok(k)
        }
    }
}

/// Shares a deposit of `amount` into token `k` mints, or the error.
pub open spec fn deposit_mint(amount: u128, k: int, price: Decimal) -> Result<int, ContractError> {
    if k == 0 {
        Ok(amount as int)
    } else if price.atomics == 0 {
        Err(ContractError::InvalidPair)
    } else if ratio(amount as int, unit(), price.atomics as int) > u128::MAX {
        Err(ContractError::ArithmeticOutOfRange)
    } else {
        Ok(ratio(amount as int, unit(), price.atomics as int))
    }
}

impl GridVault {
    /// The bot owner deposits `amount` of one of the bot's tokens (`token` is the
    /// token contract that reports the transfer). The vault's balance must have
    /// grown by exactly the amount; shares are minted (token 0 one for one,
    /// token 1 at the reference price) and the token's side is allocated at once,
    /// with orders expiring `order_timeout_seconds` after `now`.
    pub fn deposit(
        &mut self,
        token: &String,
        depositor: &String,
        amount: u128,
        bot_id: u64,
        code_id: Option<u64>,
        balance: Option<u128>,
        now: u64,
    ) -> (r: Result<DepositOutcome, ContractError>)
        requires
            old(self).wf(),
        ensures
            final(self).wf(),
            old(self).mode == VaultMode::Exit ==> final(self).mode == VaultMode::Exit,
            deposit_check(*old(self), token@, depositor@, amount, bot_id, code_id, balance) matches Err(e) ==> r == Err::<
                DepositOutcome,
                ContractError,
            >(e),
            r is Err ==> *final(self) == *old(self),
            deposit_check(*old(self), token@, depositor@, amount, bot_id, code_id, balance) matches Ok(k) ==> match deposit_finish(
                *old(self), k, depositor@, amount, now) {
                Err(e) => r == Err::<DepositOutcome, ContractError>(e),
                Ok(minted) => r is Ok && r->Ok_0.minted == minted,
            },
            r matches Ok(out) ==> {
                let k = deposit_check(*old(self), token@, depositor@, amount, bot_id, code_id, balance)->Ok_0;
                let side = funded_side(k);
                let free = old(self).bot.free_balances[k] + amount;
                let idx = side_indices(old(self).rungs@, side, old(self).bot.grid_count as int);
                let placed = deposit_places(*old(self), k, amount);
                let next = old(self).next_reply_id;
                &&& deposit_mint(amount, k, old(self).bot.reference_price) == Ok::<int, ContractError>(out.minted as int)
                &&& out.minted > 0
                &&& final(self).bot.total_shares == old(self).bot.total_shares + out.minted
                &&& final(self).shares.amount_of(depositor@) == old(self).shares.amount_of(depositor@) + out.minted
                &&& final(self).shares@.remove(depositor@) == old(self).shares@.remove(depositor@)
                &&& (out.step is Placed) == placed
                &&& (out.step is Nothing) == (free / idx.len() as int == 0)
                &&& allocation_request(*old(self), side, free, next as int, (now + old(self).config.order_timeout_seconds) as u64, out.step)
                &&& final(self).bot.free_balances[k] == free_after(*old(self), side, free, placed)
                &&& final(self).bot.free_balances[1 - k] == old(self).bot.free_balances[1 - k]
                &&& final(self).bot.active_orders == old(self).bot.active_orders + if placed { idx.len() as int } else { 0 }
                &&& final(self).next_reply_id == next + if placed { 1int } else { 0 }
                &&& placed ==> allocation_plan(*old(self), side, free, final(self).placements@, next)
                &&& plans_kept(old(self).placements@, final(self).placements@, next as int, next as int)
                &&& final(self).bot.owner == old(self).bot.owner
                &&& final(self).config == old(self).config
                &&& final(self).mode == old(self).mode
                &&& final(self).orders == old(self).orders
                &&& final(self).rungs == old(self).rungs
            },
    {
        if self.mode != VaultMode::Active {
            return Err(ContractError::InvalidMode);
        }
        if amount == 0 {
            return Err(ContractError::ZeroAmount);
        }
        if bot_id != BOT_ID || !self.has_bot {
            return Err(ContractError::Std(StdFault::NotFound));
        }
        if *depositor != self.bot.owner {
            return Err(ContractError::Unauthorized);
        }
        match code_id {
            None => return Err(ContractError::Std(StdFault::QueryFailed)),
            Some(c) => {
                if c != self.bot.pair_code_id {
                    return Err(ContractError::PairCodeMismatch);
                }
            },
        }
        let required = match required_gas(&self.config) {
            Ok(v) => v,
            Err(e) => return Err(e),
        };
        if self.bot.gas_credit < required {
            return Err(ContractError::InsufficientGasCredit);
        }
        let k: usize = if *token == self.bot.asset_tokens[0] {
            0
        } else if *token == self.bot.asset_tokens[1] {
            1
        } else {
            return Err(ContractError::UnsupportedToken);
        };
        if self.quarantine.contains(token) {
            return Err(ContractError::TokenQuarantined);
        }
        let actual = match balance {
            Some(b) => b,
            None => return Err(ContractError::Std(StdFault::QueryFailed)),
        };
        let free = self.bot.free_balances[k];
        if free > u128::MAX - amount {
            return Err(ContractError::Overflow);
        }
        if actual != free + amount {
            return Err(ContractError::UnsupportedTokenBehavior);
        }
        let minted = match crate::grid_math::deposit_shares(amount, k, self.bot.reference_price) {
            Ok(m) => m,
            Err(e) => return Err(e),
        };
        if minted == 0 {
            return Err(ContractError::ZeroAmount);
        }
        if self.bot.total_shares > u128::MAX - minted {
            return Err(ContractError::Overflow);
        }
        let held = self.shares.amount(depositor);
        if held > u128::MAX - minted {
            return Err(ContractError::Overflow);
        }
        if now > u64::MAX - self.config.order_timeout_seconds {
            return Err(ContractError::InvalidGrid);
        }
        let expires_at = now + self.config.order_timeout_seconds;
        let side = if k == 0 { LimitOrderSide::Ask } else { LimitOrderSide::Bid };
        let indices = self.side_rungs(side);
        proof {
            lemma_side_indices(self.rungs@, side, self.bot.grid_count as int);
            let w = choose|i: int| 0 <= i < self.rungs@.len() && (#[trigger] self.rungs@[i]).side == Some(side);
            assert(exists|i: int| 0 <= i < self.bot.grid_count as int && (#[trigger] self.rungs@[i]).side == Some(side));
        }
        let count = indices.len() as u128;
        let each = (free + amount) / count;
        if each > 0 && (self.bot.active_orders as u64) + (indices.len() as u64) <= self.config.max_active_orders_per_bot as u64
            && self.next_reply_id == u64::MAX {
            return Err(ContractError::Std(StdFault::Overflow));
        }
        self.bot.free_balances = if k == 0 {
            [free + amount, self.bot.free_balances[1]]
        } else {
            [self.bot.free_balances[0], free + amount]
        };
        self.bot.total_shares = self.bot.total_shares + minted;
        self.shares.set_amount(depositor, held + minted);
        let ghost v1 = *self;
        let step = match self.allocate_side(side, expires_at) {
            Ok(s) => s,
            Err(e) => return Err(e),
        };
        proof {
            let next = v1.next_reply_id;
            assert(v1.rungs@ == old(self).rungs@);
            assert(allocation_request(v1, side, v1.bot.free_balances[k as int] as int, next as int, expires_at, step)
                == allocation_request(*old(self), side, v1.bot.free_balances[k as int] as int, next as int, expires_at, step));
            assert(allocation_plan(v1, side, v1.bot.free_balances[k as int] as int, self.placements@, next)
                == allocation_plan(*old(self), side, v1.bot.free_balances[k as int] as int, self.placements@, next));
            assert forall|id: u64| id != next implies (#[trigger] self.placements@.contains_key(id) == v1.placements@.contains_key(id))
                && (v1.placements@.contains_key(id) ==> self.placements@[id] == v1.placements@[id]) by {
                if step is Placed {
                    assert(self.placements@.remove(next).contains_key(id) == self.placements@.contains_key(id));
                    assert(v1.placements@.remove(next).contains_key(id) == v1.placements@.contains_key(id));
                    if v1.placements@.contains_key(id) {
                        assert(self.placements@.remove(next)[id] == self.placements@[id]);
                        assert(v1.placements@.remove(next)[id] == v1.placements@[id]);
                    }
                }
            }
            assert(plans_kept(v1.placements@, self.placements@, next as int, next as int));
        }
        Ok(DepositOutcome { minted, step })
    }
}

/// A migration is accepted only from this contract at a version from
/// `MIN_MIGRATION_VERSION` up to, but not including, the current one.
pub open spec fn migration_allowed(stored_name: Seq<char>, stored_version: Seq<char>) -> bool {
    &&& stored_name == CONTRACT_NAME@
    &&& semver_parses(stored_version)
    &&& semver_parses(CONTRACT_VERSION@)
    &&& semver_parses(MIN_MIGRATION_VERSION@)
    &&& !semver_less(stored_version, MIN_MIGRATION_VERSION@)
    &&& semver_less(stored_version, CONTRACT_VERSION@)
}

/// Migrate the vault from the stored contract record (name, version).
pub fn migrate(stored_name: &String, stored_version: &String) -> (r: Result<(), ContractError>)
    ensures
        r is Ok <==> migration_allowed(stored_name@, stored_version@),
        r is Err ==> r == Err::<(), ContractError>(ContractError::UnsupportedMigrationSource),
        // A migration from the current version, as a repeated one would be, is refused.
        stored_version@ == CONTRACT_VERSION@ ==> r is Err,
{
    if !text_is(stored_name, CONTRACT_NAME) {
        return Err(ContractError::UnsupportedMigrationSource);
    }
    if !version_parses(stored_version.as_str()) || !version_parses(CONTRACT_VERSION) || !version_parses(
        MIN_MIGRATION_VERSION,
    ) {
        return Err(ContractError::UnsupportedMigrationSource);
    }
    if version_less(stored_version.as_str(), MIN_MIGRATION_VERSION) || !version_less(
        stored_version.as_str(),
        CONTRACT_VERSION,
    ) {
        return Err(ContractError::UnsupportedMigrationSource);
    }
    Ok(())
}

} // verus!
