//! The multi-bot grid manager: any user creates grid bots on CL8Y pairs, each
//! with its own rungs, orders, shares, free balances and gas credit. The keeper
//! reconciles reported fills, places the opposite orders and is paid from the
//! bot's gas credit. Bot `b` is held at position `b - 1`; bots are never
//! removed.
use vstd::prelude::*;
use crate::book::Book;
use crate::id_set::IdSet;
use crate::errors::StdFault;
use crate::grid_math::{grid_prices, order_matches, paid_amount, paid_in, pool_price, rung_price, side_at, validate_order};
use crate::grid_types::{
    assets_match, input_index, same_asset, side_input_index, AssetInfo, Asset, Coin, ContractError, GridOrder,
    LimitOrderPlacementItem, LimitOrderSide, PairInfo, PlacementPlan, Rung,
};
use crate::grid_vault::{
    build_rungs, has_side, lemma_side_indices, prices_distinct, prices_in_bounds, rung_prices_acceptable, rung_side_present,
    side_indices, token_of, AllocationStep, PlacementRequest, MAX_ADJUST_STEPS,
};
use crate::grid_replies::{
    failure_reason, lemma_record_err, lemma_record_ok_prefix, parse_all, placed_count, record_placed, ReplyOutcome, SubReply,
};
use crate::grid_types::{ExpiredLimitRefundResponse, LimitOrderResponse, OrderStatus};
use crate::grid_vault::GridVault;
use crate::grid_vault::{funded_side, plans_kept};
use crate::id_table::IdTable;
use crate::limits::{valid_vault_limits, vault_limits_ok};
use crate::math::{ratio, unit, Decimal};

verus! {

pub const MANAGER_CONTRACT_NAME: &'static str = "crates.io:cl8y-grid-manager-experimental";

pub struct ManagerConfig {
    pub admin: String,
    pub keeper: String,
    pub factory: String,
    pub gas_denom: String,
    pub keeper_reward: u128,
    pub minimum_gas_reserve: u128,
    pub max_grid_count: u32,
    pub max_orders_per_reconcile: u32,
    pub max_active_orders_per_bot: u32,
}

pub struct ManagedBot {
    pub owner: String,
    pub pair: String,
    pub asset_tokens: [String; 2],
    pub lower_price: Decimal,
    pub upper_price: Decimal,
    pub grid_count: u32,
    pub reference_price: Decimal,
    pub free_balances: [u128; 2],
    pub total_shares: u128,
    pub gas_credit: u128,
    pub active_orders: u32,
    pub pair_batch_limit: u32,
}

/// One bot with its rungs, its tracked orders and its shareholders.
pub struct BotRecord {
    pub bot: ManagedBot,
    pub rungs: Vec<Rung>,
    pub orders: IdTable<GridOrder>,
    pub shares: Book<u128>,
}

pub struct GridManager {
    pub config: ManagerConfig,
    pub next_reply_id: u64,
    pub bots: Vec<BotRecord>,
    pub placements: IdTable<PlacementPlan>,
}

/// What the chain reports about a pair when a bot is created on it; `None`
/// marks a read that failed.
pub struct ManagerPairReads {
    pub pair_info: Option<PairInfo>,
    /// The pair the factory registers for the same assets.
    pub registered_pair: Option<String>,
    pub decimals: [Option<u8>; 2],
    pub max_batch_rungs: Option<u32>,
    pub pool: Option<[Asset; 2]>,
}

/// The gas a bot must keep: the reserve plus one keeper reward.
pub open spec fn manager_gas_floor(c: ManagerConfig) -> int {
    c.minimum_gas_reserve + c.keeper_reward
}

impl BotRecord {
    pub open spec fn wf(&self) -> bool {
        &&& self.orders.wf()
        &&& self.shares.wf()
        &&& self.rungs@.len() == self.bot.grid_count
        &&& self.bot.grid_count >= 2
        &&& self.shares.total() == self.bot.total_shares
        &&& rung_side_present(self.rungs@, LimitOrderSide::Bid)
        &&& rung_side_present(self.rungs@, LimitOrderSide::Ask)
        &&& forall|id: u64| #[trigger] self.orders@.contains_key(id) ==> self.orders@[id].rung_index < self.bot.grid_count
    }
}

impl GridManager {
    pub open spec fn wf(&self) -> bool {
        &&& self.placements.wf()
        &&& forall|i: int| 0 <= i < self.bots@.len() ==> (#[trigger] self.bots@[i]).wf()
        &&& forall|id: u64| #[trigger] self.placements@.contains_key(id) ==> id < self.next_reply_id
    }

    /// Whether bot `bot_id` exists.
    pub open spec fn has_bot(&self, bot_id: u64) -> bool {
        1 <= bot_id <= self.bots@.len()
    }

    /// The record of bot `bot_id`.
    pub open spec fn record(&self, bot_id: u64) -> BotRecord {
        self.bots@[bot_id - 1]
    }

    /// The id the next bot gets.
    pub open spec fn next_bot_id(&self) -> int {
        self.bots@.len() as int + 1
    }
}

/// The gas floor, or an overflow error.
fn manager_required_gas(config: &ManagerConfig) -> (r: Result<u128, ContractError>)
    ensures
        r is Ok <==> manager_gas_floor(*config) <= u128::MAX,
        r matches Ok(v) ==> v == manager_gas_floor(*config),
        r is Err ==> r == Err::<u128, ContractError>(ContractError::Overflow),
{
    if config.minimum_gas_reserve > u128::MAX - config.keeper_reward {
        return Err(ContractError::Overflow);
    }
    Ok(config.minimum_gas_reserve + config.keeper_reward)
}

/// Position of bot `bot_id`, or `NotFound`.
fn bot_position(bots: &Vec<BotRecord>, bot_id: u64) -> (r: Result<usize, ContractError>)
    ensures
        r is Ok <==> 1 <= bot_id <= bots@.len(),
        r matches Ok(i) ==> i == bot_id - 1,
        r is Err ==> r == Err::<usize, ContractError>(ContractError::Std(StdFault::NotFound)),
{
    if bot_id == 0 || bot_id > bots.len() as u64 {
        return Err(ContractError::Std(StdFault::NotFound));
    }
    Ok((bot_id - 1) as usize)
}

/// The checks of a bot creation, in the order they are made: the gas credit
/// paid, or the first error.
pub open spec fn manager_create_check(
    m: GridManager,
    funds: Seq<Coin>,
    pair: Seq<char>,
    lower: Decimal,
    upper: Decimal,
    count: u32,
    reads: ManagerPairReads,
) -> Result<u128, ContractError> {
    if count < 2 || count > m.config.max_grid_count || lower.atomics >= upper.atomics {
        Err(ContractError::InvalidGrid)
    } else if reads.pair_info is None {
        Err(ContractError::Std(StdFault::QueryFailed))
    } else if reads.pair_info->0.contract_addr@ != pair {
        Err(ContractError::InvalidPair)
    } else if reads.registered_pair is None {
        Err(ContractError::Std(StdFault::QueryFailed))
    } else if reads.registered_pair->0@ != pair {
        Err(ContractError::InvalidPair)
    } else {
        let infos = reads.pair_info->0.asset_infos;
        if token_of(infos[0]) is None || token_of(infos[1]) is None {
            Err(ContractError::UnsupportedAsset)
        } else if token_of(infos[0])->0 == token_of(infos[1])->0 {
            Err(ContractError::InvalidPair)
        } else if reads.decimals[0] is None || reads.decimals[1] is None {
            Err(ContractError::Std(StdFault::QueryFailed))
        } else if reads.decimals[0]->0 != reads.decimals[1]->0 {
            Err(ContractError::InvalidPair)
        } else if reads.max_batch_rungs is None {
            Err(ContractError::Std(StdFault::QueryFailed))
        } else if count > reads.max_batch_rungs->0 {
            Err(ContractError::InvalidGrid)
        } else if reads.pool is None {
            Err(ContractError::Std(StdFault::QueryFailed))
        } else {
            let pool = reads.pool->0;
            let a0 = pool[0].amount as int;
            let a1 = pool[1].amount as int;
            if !same_asset(pool[0].info, infos[0]) || !same_asset(pool[1].info, infos[1]) {
                Err(ContractError::InvalidPair)
            } else if a0 == 0 || a1 == 0 {
                Err(ContractError::InvalidPair)
            } else {
                let reference = ratio(a1, unit(), a0);
                let lo = lower.atomics as int;
                let hi = upper.atomics as int;
                if reference <= lo || reference >= hi {
                    Err(ContractError::InvalidGrid)
                } else if !prices_in_bounds(lo, hi, count as int) || !prices_distinct(lo, hi, count as int) {
                    Err(ContractError::InvalidGrid)
                } else if !has_side(lo, hi, count as int, reference, LimitOrderSide::Bid) || !has_side(
                    lo,
                    hi,
                    count as int,
                    reference,
                    LimitOrderSide::Ask,
                ) {
                    Err(ContractError::EmptySide)
                } else if exists|i: int| 0 <= i < funds.len() && (#[trigger] funds[i]).denom@ != m.config.gas_denom@ {
                    Err(ContractError::UnexpectedFunds)
                } else if manager_gas_floor(m.config) > u128::MAX {
                    Err(ContractError::Overflow)
                } else if paid_in(funds, m.config.gas_denom@) < manager_gas_floor(m.config) {
                    Err(ContractError::InsufficientGasCredit)
                } else if m.next_bot_id() >= u64::MAX {
                    Err(ContractError::Std(StdFault::Overflow))
                } else {
                    Ok(paid_in(funds, m.config.gas_denom@) as u128)
                }
            }
        }
    }
}

impl GridManager {
    /// A manager with no bots. A blank gas denom, limits outside the manager's
    /// bounds or a zero keeper reward are refused as an invalid grid; native
    /// funds are refused.
    pub fn instantiate(has_funds: bool, config: ManagerConfig) -> (r: Result<GridManager, ContractError>)
        ensures
            has_funds ==> r == Err::<GridManager, ContractError>(ContractError::UnexpectedFunds),
            r is Ok <==> !has_funds && !crate::grid_vault::blank(config.gas_denom@) && vault_limits_ok(
                config.max_grid_count,
                config.max_orders_per_reconcile,
                config.max_active_orders_per_bot,
            ) && config.keeper_reward != 0,
            !has_funds && r is Err ==> r == Err::<GridManager, ContractError>(ContractError::InvalidGrid),
            r matches Ok(m) ==> m.wf() && m.config == config && m.bots@.len() == 0 && m.next_reply_id == 1
                && m.placements@ == Map::<u64, PlacementPlan>::empty(),
    {
        if has_funds {
            return Err(ContractError::UnexpectedFunds);
        }
        if crate::grid_vault::is_blank(config.gas_denom.as_str()) || !valid_vault_limits(
            config.max_grid_count,
            config.max_orders_per_reconcile,
            config.max_active_orders_per_bot,
        ) || config.keeper_reward == 0 {
            return Err(ContractError::InvalidGrid);
        }
        Ok(GridManager { config, next_reply_id: 1, bots: Vec::new(), placements: IdTable::new() })
    }

    /// Create a bot owned by `sender` on `pair`, with `grid_count` rungs spread
    /// from `lower_price` to `upper_price`, paying its gas credit in the gas
    /// denom. Rungs below the pool's spot price bid, those above ask, one at
    /// the spot price rests. Returns the new bot's id.
    pub fn create_bot(
        &mut self,
        sender: &String,
        funds: &Vec<Coin>,
        pair: String,
        lower_price: Decimal,
        upper_price: Decimal,
        grid_count: u32,
        reads: &ManagerPairReads,
    ) -> (r: Result<u64, ContractError>)
        requires
            old(self).wf(),
            (match reads.pool {
                Some(p) => p[0].amount != 0 && p[1].amount != 0 ==> ratio(p[1].amount as int, unit(), p[0].amount as int)
                    <= u128::MAX,
                None => true,
            }),
        ensures
            final(self).wf(),
            r is Ok <==> manager_create_check(*old(self), funds@, pair@, lower_price, upper_price, grid_count, *reads) is Ok,
            r matches Err(e) ==> manager_create_check(*old(self), funds@, pair@, lower_price, upper_price, grid_count, *reads)
                == Err::<u128, ContractError>(e) && *final(self) == *old(self),
            r matches Ok(id) ==> {
                let infos = reads.pair_info->0.asset_infos;
                let pool = reads.pool->0;
                let reference = ratio(pool[1].amount as int, unit(), pool[0].amount as int);
                let rec = final(self).bots@.last();
                let b = rec.bot;
                &&& id == old(self).next_bot_id()
                &&& final(self).bots@.len() == old(self).bots@.len() + 1
                &&& final(self).bots@.drop_last() == old(self).bots@
                &&& b.owner@ == sender@
                &&& b.pair@ == pair@
                &&& b.asset_tokens[0]@ == token_of(infos[0])->0 && b.asset_tokens[1]@ == token_of(infos[1])->0
                &&& b.lower_price == lower_price && b.upper_price == upper_price
                &&& b.grid_count == grid_count
                &&& b.reference_price.atomics == reference
                &&& b.free_balances == [0u128, 0u128]
                &&& b.total_shares == 0 && b.active_orders == 0
                &&& b.gas_credit == manager_create_check(*old(self), funds@, pair@, lower_price, upper_price, grid_count, *reads)->Ok_0
                &&& b.pair_batch_limit == reads.max_batch_rungs->0
                &&& rec.orders@ == Map::<u64, GridOrder>::empty()
                &&& rec.shares.view() == Map::<Seq<char>, u128>::empty()
                &&& forall|i: int| 0 <= i < grid_count ==> (#[trigger] rec.rungs@[i]) == (Rung {
                    price: Decimal { atomics: rung_price(lower_price.atomics as int, upper_price.atomics as int, grid_count as int, i) as u128 },
                    side: side_at(rung_price(lower_price.atomics as int, upper_price.atomics as int, grid_count as int, i), reference),
                })
                &&& final(self).config == old(self).config
                &&& final(self).placements == old(self).placements
                &&& final(self).next_reply_id == old(self).next_reply_id
            },
    {
        let ghost spec_result = manager_create_check(*self, funds@, pair@, lower_price, upper_price, grid_count, *reads);
        if grid_count < 2 || grid_count > self.config.max_grid_count || lower_price.atomics >= upper_price.atomics {
            return Err(ContractError::InvalidGrid);
        }
        let info = match &reads.pair_info {
            Some(i) => i,
            None => return Err(ContractError::Std(StdFault::QueryFailed)),
        };
        if info.contract_addr != pair {
            return Err(ContractError::InvalidPair);
        }
        match &reads.registered_pair {
            Some(p) => {
                if *p != pair {
                    return Err(ContractError::InvalidPair);
                }
            },
            None => return Err(ContractError::Std(StdFault::QueryFailed)),
        }
        let t0 = match &info.asset_infos[0] {
            AssetInfo::Token { contract_addr } => contract_addr.clone(),
            AssetInfo::NativeToken { .. } => return Err(ContractError::UnsupportedAsset),
        };
        let t1 = match &info.asset_infos[1] {
            AssetInfo::Token { contract_addr } => contract_addr.clone(),
            AssetInfo::NativeToken { .. } => return Err(ContractError::UnsupportedAsset),
        };
        if t0 == t1 {
            return Err(ContractError::InvalidPair);
        }
        let (d0, d1) = match (reads.decimals[0], reads.decimals[1]) {
            (Some(a), Some(b)) => (a, b),
            _ => return Err(ContractError::Std(StdFault::QueryFailed)),
        };
        if d0 != d1 {
            return Err(ContractError::InvalidPair);
        }
        let max_batch_rungs = match reads.max_batch_rungs {
            Some(m) => m,
            None => return Err(ContractError::Std(StdFault::QueryFailed)),
        };
        if grid_count > max_batch_rungs {
            return Err(ContractError::InvalidGrid);
        }
        let pool = match &reads.pool {
            Some(p) => p,
            None => return Err(ContractError::Std(StdFault::QueryFailed)),
        };
        if !assets_match(&pool[0].info, &info.asset_infos[0]) || !assets_match(&pool[1].info, &info.asset_infos[1]) {
            return Err(ContractError::InvalidPair);
        }
        let reference_price = match pool_price([pool[0].amount, pool[1].amount]) {
            Ok(p) => p,
            Err(e) => return Err(e),
        };
        if reference_price.atomics <= lower_price.atomics || reference_price.atomics >= upper_price.atomics {
            return Err(ContractError::InvalidGrid);
        }
        let prices = match grid_prices(lower_price, upper_price, grid_count) {
            Ok(p) => p,
            Err(e) => return Err(e),
        };
        if !rung_prices_acceptable(&prices, Ghost(lower_price.atomics as int), Ghost(upper_price.atomics as int)) {
            return Err(ContractError::InvalidGrid);
        }
        let (rungs, has_bid, has_ask) = build_rungs(&prices, reference_price, Ghost(lower_price.atomics as int), Ghost(upper_price.atomics as int));
        if !has_bid || !has_ask {
            return Err(ContractError::EmptySide);
        }
        let gas_credit = match paid_amount(funds, &self.config.gas_denom) {
            Ok(a) => a,
            Err(e) => return Err(e),
        };
        let required = match manager_required_gas(&self.config) {
            Ok(v) => v,
            Err(e) => return Err(e),
        };
        if gas_credit < required {
            return Err(ContractError::InsufficientGasCredit);
        }
        if self.bots.len() as u64 >= u64::MAX - 1 {
            return Err(ContractError::Std(StdFault::Overflow));
        }
        assert(spec_result == Ok::<u128, ContractError>(gas_credit));
        let bot_id = self.bots.len() as u64 + 1;
        let record = BotRecord {
            bot: ManagedBot {
                owner: sender.clone(),
                pair,
                asset_tokens: [t0, t1],
                lower_price,
                upper_price,
                grid_count,
                reference_price,
                free_balances: [0, 0],
                total_shares: 0,
                gas_credit,
                active_orders: 0,
                pair_batch_limit: max_batch_rungs,
            },
            rungs,
            orders: IdTable::new(),
            shares: Book::new(),
        };
        proof {
            assert(record.shares.entries@ =~= Seq::<(String, u128)>::empty());
        }
        proof {
            let lo = lower_price.atomics as int;
            let hi = upper_price.atomics as int;
            let n = grid_count as int;
            let reference = reference_price.atomics as int;
            let ib = choose|i: int| 0 <= i < n && side_at(#[trigger] rung_price(lo, hi, n, i), reference) == Some(LimitOrderSide::Bid);
            assert(record.rungs@[ib].side == Some(LimitOrderSide::Bid));
            let ia = choose|i: int| 0 <= i < n && side_at(#[trigger] rung_price(lo, hi, n, i), reference) == Some(LimitOrderSide::Ask);
            assert(record.rungs@[ia].side == Some(LimitOrderSide::Ask));
        }
        let ghost old_bots = self.bots@;
        self.bots.push(record);
        proof {
            assert(self.bots@.drop_last() =~= old_bots);
            assert forall|i: int| 0 <= i < self.bots@.len() implies (#[trigger] self.bots@[i]).wf() by {
                if i < old_bots.len() {
                    assert(self.bots@[i] == old_bots[i]);
                }
            }
        }
        Ok(bot_id)
    }
}


/// The order a manager placement asks for at one rung; it never expires.
pub open spec fn manager_item(price: Decimal, amount: u128) -> LimitOrderPlacementItem {
    LimitOrderPlacementItem { price, amount, max_adjust_steps: MAX_ADJUST_STEPS, expires_at: None, hint_after_order_id: None }
}

impl BotRecord {
    /// The ascending indices of the rungs that take `side`.
    pub fn side_rungs(&self, side: LimitOrderSide) -> (r: Vec<u32>)
        requires
            self.wf(),
        ensures
            r@ == side_indices(self.rungs@, side, self.bot.grid_count as int),
    {
        let mut out: Vec<u32> = Vec::new();
        let mut i: u32 = 0;
        while i < self.bot.grid_count
            invariant
                self.wf(),
                i <= self.bot.grid_count,
                out@ == side_indices(self.rungs@, side, i as int),
            decreases self.bot.grid_count - i,
        {
            if self.rungs[i as usize].side == Some(side) {
                out.push(i);
            }
            i = i + 1;
        }
        out
    }

    /// Place `each` at every rung of `rungs` on `side` in one batch, escrowing
    /// the total from the free balance; nothing when either is empty, deferred
    /// when the bot would pass its active-order cap. The placement is recorded
    /// under the next reply id.
    pub fn place(
        &mut self,
        bot_id: u64,
        config: &ManagerConfig,
        next_reply_id: &mut u64,
        placements: &mut IdTable<PlacementPlan>,
        side: LimitOrderSide,
        rungs: Vec<u32>,
        each: u128,
    ) -> (r: Result<AllocationStep, ContractError>)
        requires
            old(self).wf(),
            old(placements).wf(),
            forall|id: u64| #[trigger] old(placements)@.contains_key(id) ==> id < *old(next_reply_id),
            forall|j: int| 0 <= j < rungs@.len() ==> (#[trigger] rungs@[j]) < old(self).bot.grid_count,
        ensures
            final(self).wf(),
            final(placements).wf(),
            forall|id: u64| #[trigger] final(placements)@.contains_key(id) ==> id < *final(next_reply_id),
            ({
                let n = rungs@.len() as int;
                let k = input_index(side);
                let free = old(self).bot.free_balances[k] as int;
                let unchanged = *final(self) == *old(self) && *final(next_reply_id) == *old(next_reply_id)
                    && *final(placements) == *old(placements);
                &&& (each == 0 || n == 0) ==> (r matches Ok(AllocationStep::Nothing)) && unchanged
                &&& each > 0 && n > 0 && each * n > u128::MAX ==> r == Err::<AllocationStep, ContractError>(ContractError::Overflow) && unchanged
                &&& each > 0 && n > 0 && each * n <= u128::MAX && old(self).bot.active_orders + n > config.max_active_orders_per_bot
                    ==> (r matches Ok(AllocationStep::Deferred)) && unchanged
                &&& each > 0 && n > 0 && each * n <= u128::MAX && old(self).bot.active_orders + n <= config.max_active_orders_per_bot
                    && each * n > free ==> r == Err::<AllocationStep, ContractError>(ContractError::InsufficientBalance) && unchanged
                &&& each > 0 && n > 0 && each * n <= free && old(self).bot.active_orders + n <= config.max_active_orders_per_bot
                    && *old(next_reply_id) == u64::MAX ==> r == Err::<AllocationStep, ContractError>(ContractError::Std(StdFault::Overflow))
                    && unchanged
                &&& each > 0 && n > 0 && each * n <= free && old(self).bot.active_orders + n <= config.max_active_orders_per_bot
                    && *old(next_reply_id) < u64::MAX ==> {
                    &&& r matches Ok(AllocationStep::Placed(req)) && {
                        &&& req.reply_id == *old(next_reply_id)
                        &&& req.token == old(self).bot.asset_tokens[k]
                        &&& req.pair == old(self).bot.pair
                        &&& req.amount == each * n
                        &&& req.side == side
                        &&& req.orders@.len() == n
                        &&& forall|i: int| 0 <= i < n ==> #[trigger] req.orders@[i] == manager_item(
                            old(self).rungs@[rungs@[i] as int].price, each)
                    }
                    &&& final(self).bot.free_balances[k] == free - each * n
                    &&& final(self).bot.free_balances[1 - k] == old(self).bot.free_balances[1 - k]
                    &&& final(self).bot.active_orders == old(self).bot.active_orders + n
                    &&& final(self).bot.total_shares == old(self).bot.total_shares
                    &&& final(self).bot.gas_credit == old(self).bot.gas_credit
                    &&& final(self).bot.owner == old(self).bot.owner
                    &&& final(self).bot.pair == old(self).bot.pair
                    &&& final(self).bot.asset_tokens == old(self).bot.asset_tokens
                    &&& final(self).bot.grid_count == old(self).bot.grid_count
                    &&& final(self).bot.reference_price == old(self).bot.reference_price
                    &&& final(self).rungs == old(self).rungs
                    &&& final(self).orders == old(self).orders
                    &&& final(self).shares == old(self).shares
                    &&& *final(next_reply_id) == *old(next_reply_id) + 1
                    &&& final(placements)@ == old(placements)@.insert(*old(next_reply_id), PlacementPlan {
                        bot_id,
                        side,
                        rungs: final(placements)@[*old(next_reply_id)].rungs,
                        gross_amounts: final(placements)@[*old(next_reply_id)].gross_amounts,
                    })
                    &&& final(placements)@[*old(next_reply_id)].rungs@ == rungs@
                    &&& final(placements)@[*old(next_reply_id)].gross_amounts@ == Seq::new(n as nat, |i: int| each)
                }
            }),
    {
        let count = rungs.len();
        if each == 0 || count == 0 {
            return Ok(AllocationStep::Nothing);
        }
        if each > u128::MAX / (count as u128) {
            proof {
                assert(each * count > u128::MAX) by (nonlinear_arith)
                    requires each > u128::MAX / (count as u128), count > 0;
            }
            return Err(ContractError::Overflow);
        }
        proof {
            assert(each * count <= u128::MAX) by (nonlinear_arith)
                requires each <= u128::MAX / (count as u128), count > 0;
        }
        let total = each * (count as u128);
        let k = side_input_index(side);
        if (self.bot.active_orders as u128) + (count as u128) > config.max_active_orders_per_bot as u128 {
            return Ok(AllocationStep::Deferred);
        }
        let free = self.bot.free_balances[k];
        if total > free {
            return Err(ContractError::InsufficientBalance);
        }
        if *next_reply_id == u64::MAX {
            return Err(ContractError::Std(StdFault::Overflow));
        }
        let mut orders: Vec<LimitOrderPlacementItem> = Vec::new();
        let mut gross: Vec<u128> = Vec::new();
        let mut i: usize = 0;
        while i < count
            invariant
                self.wf(),
                count == rungs@.len(),
                forall|j: int| 0 <= j < rungs@.len() ==> (#[trigger] rungs@[j]) < self.bot.grid_count,
                i <= count,
                orders@.len() == i,
                gross@.len() == i,
                forall|j: int| 0 <= j < i ==> #[trigger] orders@[j] == manager_item(self.rungs@[rungs@[j] as int].price, each),
                forall|j: int| 0 <= j < i ==> #[trigger] gross@[j] == each,
            decreases count - i,
        {
            let rung = self.rungs[rungs[i] as usize];
            orders.push(
                LimitOrderPlacementItem {
                    price: rung.price,
                    amount: each,
                    max_adjust_steps: MAX_ADJUST_STEPS,
                    expires_at: None,
                    hint_after_order_id: None,
                },
            );
            gross.push(each);
            i = i + 1;
        }
        let reply_id = *next_reply_id;
        *next_reply_id = reply_id + 1;
        self.bot.free_balances = if k == 0 {
            [free - total, self.bot.free_balances[1]]
        } else {
            [self.bot.free_balances[0], free - total]
        };
        self.bot.active_orders = self.bot.active_orders + count as u32;
        proof {
            assert(gross@ =~= Seq::new(count as nat, |j: int| each));
        }
        let ghost rs = rungs@;
        placements.insert(reply_id, PlacementPlan { bot_id, side, rungs, gross_amounts: gross });
        Ok(
            AllocationStep::Placed(
                PlacementRequest {
                    reply_id,
                    token: self.bot.asset_tokens[k].clone(),
                    pair: self.bot.pair.clone(),
                    amount: total,
                    side,
                    orders,
                },
            ),
        )
    }
}


/// Putting back a record taken out at `i` is an update at `i`.
proof fn lemma_put_back<A>(s: Seq<A>, i: int, x: A)
    requires
        0 <= i < s.len(),
    ensures
        s.remove(i).insert(i, x) == s.update(i, x),
{
    assert(s.remove(i).insert(i, x) =~= s.update(i, x));
}

impl GridManager {
    /// Bot `bot_id`'s record is replaced by `rec`, which is well formed.
    proof fn lemma_wf_update(&self, other: &GridManager, i: int, rec: BotRecord)
        requires
            self.wf(),
            0 <= i < self.bots@.len(),
            rec.wf(),
            other.bots@ == self.bots@.update(i, rec),
            other.placements == self.placements,
            other.next_reply_id == self.next_reply_id,
        ensures
            other.wf(),
    {
        assert forall|j: int| 0 <= j < other.bots@.len() implies (#[trigger] other.bots@[j]).wf() by {
            if j != i {
                assert(other.bots@[j] == self.bots@[j]);
            }
        }
    }

    /// Credit gas paid in the gas denom to bot `bot_id`.
    pub fn fund_gas(&mut self, funds: &Vec<Coin>, bot_id: u64) -> (r: Result<u128, ContractError>)
        requires
            old(self).wf(),
        ensures
            final(self).wf(),
            r == (if exists|i: int| 0 <= i < funds@.len() && (#[trigger] funds@[i]).denom@ != old(self).config.gas_denom@ {
                Err(ContractError::UnexpectedFunds)
            } else if paid_in(funds@, old(self).config.gas_denom@) == 0 {
                Err(ContractError::MissingGasFunds)
            } else if !old(self).has_bot(bot_id) {
                Err(ContractError::Std(StdFault::NotFound))
            } else if old(self).record(bot_id).bot.gas_credit + paid_in(funds@, old(self).config.gas_denom@) > u128::MAX {
                Err(ContractError::Overflow)
            } else {
                Ok(paid_in(funds@, old(self).config.gas_denom@) as u128)
            }),
            r is Err ==> *final(self) == *old(self),
            r matches Ok(a) ==> {
                let rec = old(self).record(bot_id);
                &&& final(self).bots@ == old(self).bots@.update(bot_id - 1, BotRecord {
                    bot: ManagedBot { gas_credit: (rec.bot.gas_credit + a) as u128, ..rec.bot },
                    ..rec
                })
                &&& final(self).config == old(self).config
                &&& final(self).placements == old(self).placements
                &&& final(self).next_reply_id == old(self).next_reply_id
            },
    {
        let amount = match paid_amount(funds, &self.config.gas_denom) {
            Ok(a) => a,
            Err(e) => return Err(e),
        };
        if amount == 0 {
            return Err(ContractError::MissingGasFunds);
        }
        let i = match bot_position(&self.bots, bot_id) {
            Ok(i) => i,
            Err(e) => return Err(e),
        };
        if self.bots[i].bot.gas_credit > u128::MAX - amount {
            return Err(ContractError::Overflow);
        }
        let ghost pre = *self;
        let mut rec = self.bots.remove(i);
        rec.bot.gas_credit = rec.bot.gas_credit + amount;
        let ghost updated = rec;
        self.bots.insert(i, rec);
        proof {
            lemma_put_back(pre.bots@, i as int, updated);
            pre.lemma_wf_update(self, i as int, updated);
        }
        Ok(amount)
    }

    /// The bot owner takes back `amount` of gas credit; while the bot has
    /// orders or shares the credit must stay at the gas floor.
    pub fn withdraw_gas(&mut self, has_funds: bool, sender: &String, bot_id: u64, amount: u128) -> (r: Result<(), ContractError>)
        requires
            old(self).wf(),
        ensures
            final(self).wf(),
            ({
                let rec = old(self).record(bot_id);
                let floor = manager_gas_floor(old(self).config);
                r == (if has_funds {
                    Err(ContractError::UnexpectedFunds)
                } else if amount == 0 {
                    Err(ContractError::ZeroAmount)
                } else if !old(self).has_bot(bot_id) {
                    Err(ContractError::Std(StdFault::NotFound))
                } else if sender@ != rec.bot.owner@ {
                    Err(ContractError::Unauthorized)
                } else if amount > rec.bot.gas_credit {
                    Err(ContractError::Overflow)
                } else if floor > u128::MAX {
                    Err(ContractError::Overflow)
                } else if (rec.bot.active_orders != 0 || rec.bot.total_shares != 0) && rec.bot.gas_credit - amount < floor {
                    Err(ContractError::InsufficientGasCredit)
                } else {
                    Ok(())
                })
            }),
            r is Err ==> *final(self) == *old(self),
            r is Ok ==> {
                let rec = old(self).record(bot_id);
                &&& final(self).bots@ == old(self).bots@.update(bot_id - 1, BotRecord {
                    bot: ManagedBot { gas_credit: (rec.bot.gas_credit - amount) as u128, ..rec.bot },
                    ..rec
                })
                &&& final(self).config == old(self).config
                &&& final(self).placements == old(self).placements
                &&& final(self).next_reply_id == old(self).next_reply_id
            },
    {
        if has_funds {
            return Err(ContractError::UnexpectedFunds);
        }
        if amount == 0 {
            return Err(ContractError::ZeroAmount);
        }
        let i = match bot_position(&self.bots, bot_id) {
            Ok(i) => i,
            Err(e) => return Err(e),
        };
        if *sender != self.bots[i].bot.owner {
            return Err(ContractError::Unauthorized);
        }
        if amount > self.bots[i].bot.gas_credit {
            return Err(ContractError::Overflow);
        }
        let remaining = self.bots[i].bot.gas_credit - amount;
        let required = match manager_required_gas(&self.config) {
            Ok(v) => v,
            Err(e) => return Err(e),
        };
        if (self.bots[i].bot.active_orders != 0 || self.bots[i].bot.total_shares != 0) && remaining < required {
            return Err(ContractError::InsufficientGasCredit);
        }
        let ghost pre = *self;
        let mut rec = self.bots.remove(i);
        rec.bot.gas_credit = remaining;
        let ghost updated = rec;
        self.bots.insert(i, rec);
        proof {
            lemma_put_back(pre.bots@, i as int, updated);
            pre.lemma_wf_update(self, i as int, updated);
        }
        Ok(())
    }

    /// The bot owner burns `shares` of bot `bot_id` for the pro-rata slice of
    /// its free balances; only while the bot has no active orders.
    pub fn withdraw(&mut self, has_funds: bool, sender: &String, bot_id: u64, shares: u128) -> (r: Result<[u128; 2], ContractError>)
        requires
            old(self).wf(),
        ensures
            final(self).wf(),
            ({
                let rec = old(self).record(bot_id);
                &&& r is Err ==> *final(self) == *old(self)
                &&& has_funds ==> r == Err::<[u128; 2], ContractError>(ContractError::UnexpectedFunds)
                &&& !has_funds && !old(self).has_bot(bot_id) ==> r == Err::<[u128; 2], ContractError>(ContractError::Std(StdFault::NotFound))
                &&& !has_funds && old(self).has_bot(bot_id) ==> (r == if sender@ != rec.bot.owner@ {
                    Err::<[u128; 2], ContractError>(ContractError::Unauthorized)
                } else if rec.bot.active_orders != 0 {
                    Err(ContractError::ActiveOrders)
                } else if shares == 0 {
                    Err(ContractError::ZeroAmount)
                } else if shares > rec.shares.amount_of(sender@) || shares > rec.bot.total_shares {
                    Err(ContractError::InsufficientShares)
                } else {
                    Ok([
                        ratio(rec.bot.free_balances[0] as int, shares as int, rec.bot.total_shares as int) as u128,
                        ratio(rec.bot.free_balances[1] as int, shares as int, rec.bot.total_shares as int) as u128,
                    ])
                })
            }),
            r matches Ok(paid) ==> {
                let rec = old(self).record(bot_id);
                let new_rec = final(self).record(bot_id);
                &&& final(self).bots@.len() == old(self).bots@.len()
                &&& forall|j: int| 0 <= j < old(self).bots@.len() && j != bot_id - 1 ==> final(self).bots@[j] == old(self).bots@[j]
                &&& new_rec.bot.free_balances[0] == rec.bot.free_balances[0] - paid[0]
                &&& new_rec.bot.free_balances[1] == rec.bot.free_balances[1] - paid[1]
                &&& paid[0] <= rec.bot.free_balances[0] && paid[1] <= rec.bot.free_balances[1]
                &&& new_rec.bot.total_shares == rec.bot.total_shares - shares
                &&& new_rec.shares.view() == rec.shares.view().insert(sender@, (rec.shares.amount_of(sender@) - shares) as u128)
                &&& new_rec.bot.owner == rec.bot.owner && new_rec.bot.gas_credit == rec.bot.gas_credit
                &&& new_rec.orders == rec.orders && new_rec.rungs == rec.rungs
                &&& final(self).config == old(self).config
                &&& final(self).placements == old(self).placements
                &&& final(self).next_reply_id == old(self).next_reply_id
            },
    {
        if has_funds {
            return Err(ContractError::UnexpectedFunds);
        }
        let i = match bot_position(&self.bots, bot_id) {
            Ok(i) => i,
            Err(e) => return Err(e),
        };
        if *sender != self.bots[i].bot.owner {
            return Err(ContractError::Unauthorized);
        }
        if self.bots[i].bot.active_orders != 0 {
            return Err(ContractError::ActiveOrders);
        }
        if shares == 0 {
            return Err(ContractError::ZeroAmount);
        }
        let owner_shares = self.bots[i].shares.amount(sender);
        let total = self.bots[i].bot.total_shares;
        if shares > owner_shares || shares > total {
            return Err(ContractError::InsufficientShares);
        }
        let free = self.bots[i].bot.free_balances;
        proof {
            crate::math::lemma_ratio_le(free[0] as int, shares as int, total as int);
            crate::math::lemma_ratio_le(free[1] as int, shares as int, total as int);
            self.bots@[i as int].shares.lemma_amount_le_total(sender@);
        }
        let a0 = match crate::math::checked_ratio(free[0], shares, total) {
            Some(v) => v,
            None => 0,
        };
        let a1 = match crate::math::checked_ratio(free[1], shares, total) {
            Some(v) => v,
            None => 0,
        };
        let ghost pre = *self;
        let mut rec = self.bots.remove(i);
        rec.bot.free_balances = [free[0] - a0, free[1] - a1];
        rec.bot.total_shares = total - shares;
        rec.shares.set_amount(sender, owner_shares - shares);
        let ghost updated = rec;
        self.bots.insert(i, rec);
        proof {
            lemma_put_back(pre.bots@, i as int, updated);
            pre.lemma_wf_update(self, i as int, updated);
        }
        Ok([a0, a1])
    }

    /// Replace the keeper; admin only.
    pub fn update_keeper(&mut self, has_funds: bool, sender: &String, keeper: String) -> (r: Result<(), ContractError>)
        requires
            old(self).wf(),
        ensures
            final(self).wf(),
            r == (if has_funds {
                Err(ContractError::UnexpectedFunds)
            } else if sender@ != old(self).config.admin@ {
                Err(ContractError::Unauthorized)
            } else {
                Ok(())
            }),
            r is Err ==> *final(self) == *old(self),
            r is Ok ==> final(self).config.keeper == keeper && final(self).config.admin == old(self).config.admin
                && final(self).bots == old(self).bots && final(self).placements == old(self).placements
                && final(self).next_reply_id == old(self).next_reply_id,
    {
        if has_funds {
            return Err(ContractError::UnexpectedFunds);
        }
        if *sender != self.config.admin {
            return Err(ContractError::Unauthorized);
        }
        self.config.keeper = keeper;
        Ok(())
    }
}


/// The shares a manager deposit of `amount` of token `k` mints at `price`:
/// token 0 one for one, token 1 times the inverse price (`None` for a zero price).
pub open spec fn manager_mint(amount: int, k: int, price: int) -> Option<int> {
    if k == 0 {
        Some(amount)
    } else if price == 0 {
        None
    } else {
        Some(ratio(amount, (unit() * unit()) / price, unit()))
    }
}


/// Shares of a manager deposit; `InvalidPair` for a token-1 deposit at a zero price.
pub fn manager_deposit_shares(amount: u128, token_index: usize, price: Decimal) -> (r: Result<u128, ContractError>)
    requires
        token_index <= 1,
        manager_mint(amount as int, token_index as int, price.atomics as int) matches Some(v) ==> v <= u128::MAX,
    ensures
        match manager_mint(amount as int, token_index as int, price.atomics as int) {
            Some(v) => r == Ok::<u128, ContractError>(v as u128),
            None => r == Err::<u128, ContractError>(ContractError::InvalidPair),
        },
{
    if token_index == 0 {
        return Ok(amount);
    }
    let inverse = match price.inv() {
        Some(d) => d,
        None => return Err(ContractError::InvalidPair),
    };
    match crate::math::mul_amount(amount, inverse) {
        Some(v) => Ok(v),
        None => Err(ContractError::InvalidPair),
    }
}

/// The placement of `side` a manager allocation sends with `reply_id`: every
/// rung of the side gets an equal share of `free`.
pub open spec fn side_request(rec: BotRecord, side: LimitOrderSide, free: int, reply_id: int, step: AllocationStep) -> bool {
    let idx = side_indices(rec.rungs@, side, rec.bot.grid_count as int);
    let each = free / idx.len() as int;
    step matches AllocationStep::Placed(req) ==> {
        &&& req.reply_id == reply_id
        &&& req.token == rec.bot.asset_tokens[input_index(side)]
        &&& req.pair == rec.bot.pair
        &&& req.amount == each * idx.len()
        &&& req.side == side
        &&& req.orders@.len() == idx.len()
        &&& forall|i: int| 0 <= i < idx.len() ==> #[trigger] req.orders@[i] == manager_item(rec.rungs@[idx[i] as int].price, each as u128)
    }
}

/// The plan recorded under `reply_id` for the bot's placement of `side`,
/// spreading `free` over the side's rungs.
pub open spec fn side_plan(rec: BotRecord, side: LimitOrderSide, free: int, plans: Map<u64, PlacementPlan>, bot_id: u64, reply_id: u64) -> bool {
    let idx = side_indices(rec.rungs@, side, rec.bot.grid_count as int);
    let each = free / idx.len() as int;
    &&& plans.contains_key(reply_id)
    &&& plans[reply_id].bot_id == bot_id
    &&& plans[reply_id].side == side
    &&& plans[reply_id].rungs@ == idx
    &&& plans[reply_id].gross_amounts@ == Seq::new(idx.len(), |i: int| each as u128)
}

/// What is left of `free` once `placed` spread it evenly over the side's rungs.
pub open spec fn spread_left(rec: BotRecord, side: LimitOrderSide, free: int, placed: bool) -> int {
    let n = side_indices(rec.rungs@, side, rec.bot.grid_count as int).len() as int;
    if placed { free - (free / n) * n } else { free }
}

impl BotRecord {
    /// Whether allocating `side` would place, given `active` orders counted.
    pub open spec fn would_place(&self, config: ManagerConfig, side: LimitOrderSide, active: int) -> bool {
        self.would_place_with(config, side, active, self.bot.free_balances[input_index(side)] as int)
    }

    /// Whether allocating `side` would place with `free` of its token.
    pub open spec fn would_place_with(&self, config: ManagerConfig, side: LimitOrderSide, active: int, free: int) -> bool {
        let n = side_indices(self.rungs@, side, self.bot.grid_count as int).len() as int;
        &&& n > 0
        &&& free / n > 0
        &&& active + n <= config.max_active_orders_per_bot
    }

    /// Spread the free balance `side` escrows evenly over that side's rungs.
    pub fn allocate_side(
        &mut self,
        bot_id: u64,
        config: &ManagerConfig,
        next_reply_id: &mut u64,
        placements: &mut IdTable<PlacementPlan>,
        side: LimitOrderSide,
    ) -> (r: Result<AllocationStep, ContractError>)
        requires
            old(self).wf(),
            old(placements).wf(),
            forall|id: u64| #[trigger] old(placements)@.contains_key(id) ==> id < *old(next_reply_id),
        ensures
            final(self).wf(),
            final(placements).wf(),
            forall|id: u64| #[trigger] final(placements)@.contains_key(id) ==> id < *final(next_reply_id),
            ({
                let idx = side_indices(old(self).rungs@, side, old(self).bot.grid_count as int);
                let k = input_index(side);
                let each = old(self).bot.free_balances[k] as int / idx.len() as int;
                let unchanged = *final(self) == *old(self) && *final(next_reply_id) == *old(next_reply_id)
                    && *final(placements) == *old(placements);
                &&& idx.len() > 0
                &&& !old(self).would_place(*config, side, old(self).bot.active_orders as int) ==> unchanged
                    && (r matches Ok(s) && !(s is Placed))
                &&& old(self).would_place(*config, side, old(self).bot.active_orders as int) && *old(next_reply_id) == u64::MAX
                    ==> r == Err::<AllocationStep, ContractError>(ContractError::Std(StdFault::Overflow)) && unchanged
                &&& old(self).would_place(*config, side, old(self).bot.active_orders as int) && *old(next_reply_id) < u64::MAX ==> {
                    &&& r matches Ok(AllocationStep::Placed(req)) && req.reply_id == *old(next_reply_id) && req.amount == each * idx.len()
                        && req.side == side && req.token == old(self).bot.asset_tokens[k]
                    &&& side_request(*old(self), side, old(self).bot.free_balances[k] as int, *old(next_reply_id) as int, r->Ok_0)
                    &&& side_plan(*old(self), side, old(self).bot.free_balances[k] as int, final(placements)@, bot_id, *old(next_reply_id))
                    &&& final(self).bot.free_balances[k] == old(self).bot.free_balances[k] - each * idx.len()
                    &&& final(self).bot.free_balances[1 - k] == old(self).bot.free_balances[1 - k]
                    &&& final(self).bot.active_orders == old(self).bot.active_orders + idx.len()
                    &&& *final(next_reply_id) == *old(next_reply_id) + 1
                    &&& final(placements)@.contains_key(*old(next_reply_id))
                    &&& final(placements)@[*old(next_reply_id)].rungs@ == idx
                    &&& final(placements)@[*old(next_reply_id)].side == side
                    &&& final(placements)@[*old(next_reply_id)].bot_id == bot_id
                    &&& final(placements)@.remove(*old(next_reply_id)) == old(placements)@
                }
                &&& final(self).bot.total_shares == old(self).bot.total_shares
                &&& final(self).bot.owner == old(self).bot.owner
                &&& final(self).bot.gas_credit == old(self).bot.gas_credit
                &&& final(self).bot.asset_tokens == old(self).bot.asset_tokens
                &&& final(self).bot.reference_price == old(self).bot.reference_price
                &&& final(self).bot.grid_count == old(self).bot.grid_count
                &&& final(self).bot.pair == old(self).bot.pair
                &&& final(self).shares == old(self).shares
                &&& final(self).orders == old(self).orders
                &&& final(self).rungs == old(self).rungs
            }),
    {
        let rungs = self.side_rungs(side);
        proof {
            lemma_side_indices(self.rungs@, side, self.bot.grid_count as int);
            let w = choose|i: int| 0 <= i < self.rungs@.len() && (#[trigger] self.rungs@[i]).side == Some(side);
            assert(exists|i: int| 0 <= i < self.bot.grid_count as int && (#[trigger] self.rungs@[i]).side == Some(side));
        }
        let k = side_input_index(side);
        let count = rungs.len();
        let free = self.bot.free_balances[k];
        let each = free / (count as u128);
        proof {
            assert(each * count <= free) by (nonlinear_arith)
                requires each == free / (count as u128), count > 0;
            let fresh = *old(placements);
            assert(forall|i: int| 0 <= i < rungs@.len() ==> (#[trigger] rungs@[i]) < self.bot.grid_count);
        }
        let ghost pre = *placements;
        let r = self.place(bot_id, config, next_reply_id, placements, side, rungs, each);
        proof {
            if let Ok(AllocationStep::Placed(_)) = r {
                let id = *old(next_reply_id);
                assert(!pre@.contains_key(id));
                assert(placements@.remove(id) =~= pre@);
            }
        }
        r
    }
}

impl GridManager {
    /// The bot owner allocates both sides' free balances, bids first. Nothing
    /// to place at all is an error.
    pub fn allocate(&mut self, has_funds: bool, sender: &String, bot_id: u64) -> (r: Result<(AllocationStep, AllocationStep), ContractError>)
        requires
            old(self).wf(),
        ensures
            final(self).wf(),
            ({
                let rec = old(self).record(bot_id);
                let pre: Result<(), ContractError> = if has_funds {
                    Err(ContractError::UnexpectedFunds)
                } else if !old(self).has_bot(bot_id) {
                    Err(ContractError::Std(StdFault::NotFound))
                } else if sender@ != rec.bot.owner@ {
                    Err(ContractError::Unauthorized)
                } else {
                    Ok(())
                };
                let bid = rec.would_place(old(self).config, LimitOrderSide::Bid, rec.bot.active_orders as int);
                let bid_len = side_indices(rec.rungs@, LimitOrderSide::Bid, rec.bot.grid_count as int).len();
                let ask = rec.would_place(old(self).config, LimitOrderSide::Ask, rec.bot.active_orders + if bid { bid_len as int } else { 0 });
                &&& pre matches Err(e) ==> r == Err::<(AllocationStep, AllocationStep), ContractError>(e)
                &&& pre is Ok && !bid && !ask ==> r == Err::<(AllocationStep, AllocationStep), ContractError>(ContractError::NothingToAllocate)
                &&& pre is Ok && (bid || ask) && old(self).next_reply_id + (if bid { 1int } else { 0 }) + (if ask { 1int } else { 0 })
                    > u64::MAX ==> r == Err::<(AllocationStep, AllocationStep), ContractError>(ContractError::Std(StdFault::Overflow))
                &&& r is Ok <==> pre is Ok && (bid || ask) && old(self).next_reply_id + (if bid { 1int } else { 0 }) + (if ask { 1int } else { 0 }) <= u64::MAX
                &&& r is Err ==> *final(self) == *old(self)
                &&& r matches Ok((b, a)) ==> {
                    let new_rec = final(self).record(bot_id);
                    let next = old(self).next_reply_id as int;
                    let ask_id = next + if bid { 1int } else { 0 };
                    let ask_len = side_indices(rec.rungs@, LimitOrderSide::Ask, rec.bot.grid_count as int).len();
                    &&& (b is Placed <==> bid) && (a is Placed <==> ask)
                    &&& side_request(rec, LimitOrderSide::Bid, rec.bot.free_balances[1] as int, next, b)
                    &&& side_request(rec, LimitOrderSide::Ask, rec.bot.free_balances[0] as int, ask_id, a)
                    &&& new_rec.bot.free_balances[1] == spread_left(rec, LimitOrderSide::Bid, rec.bot.free_balances[1] as int, bid)
                    &&& new_rec.bot.free_balances[0] == spread_left(rec, LimitOrderSide::Ask, rec.bot.free_balances[0] as int, ask)
                    &&& new_rec.bot.active_orders == rec.bot.active_orders + (if bid { bid_len as int } else { 0 })
                        + (if ask { ask_len as int } else { 0 })
                    &&& final(self).next_reply_id == ask_id + if ask { 1int } else { 0 }
                    &&& bid ==> side_plan(rec, LimitOrderSide::Bid, rec.bot.free_balances[1] as int, final(self).placements@, bot_id,
                        next as u64)
                    &&& ask ==> side_plan(rec, LimitOrderSide::Ask, rec.bot.free_balances[0] as int, final(self).placements@, bot_id,
                        ask_id as u64)
                    &&& plans_kept(old(self).placements@, final(self).placements@, next, ask_id)
                    &&& final(self).bots@.len() == old(self).bots@.len()
                    &&& forall|j: int| 0 <= j < old(self).bots@.len() && j != bot_id - 1 ==> final(self).bots@[j] == old(self).bots@[j]
                    &&& new_rec.shares == rec.shares
                    &&& new_rec.bot.total_shares == rec.bot.total_shares
                    &&& new_rec.bot.gas_credit == rec.bot.gas_credit
                    &&& new_rec.orders == rec.orders
                    &&& new_rec.rungs == rec.rungs
                    &&& final(self).config == old(self).config
                }
            }),
    {
        if has_funds {
            return Err(ContractError::UnexpectedFunds);
        }
        let i = match bot_position(&self.bots, bot_id) {
            Ok(i) => i,
            Err(e) => return Err(e),
        };
        if *sender != self.bots[i].bot.owner {
            return Err(ContractError::Unauthorized);
        }
        let (bid, bid_len) = self.bots[i].places(&self.config, LimitOrderSide::Bid, self.bots[i].bot.active_orders);
        let active_after_bid: u32 = if bid { self.bots[i].bot.active_orders + bid_len } else { self.bots[i].bot.active_orders };
        let (ask, _) = self.bots[i].places(&self.config, LimitOrderSide::Ask, active_after_bid);
        if !bid && !ask {
            return Err(ContractError::NothingToAllocate);
        }
        let needed: u64 = (if bid { 1 } else { 0 }) + (if ask { 1 } else { 0 });
        if self.next_reply_id > u64::MAX - needed {
            return Err(ContractError::Std(StdFault::Overflow));
        }
        let ghost pre = *self;
        let mut rec = self.bots.remove(i);
        let ghost r0 = rec;
        let ghost p0 = self.placements@;
        let b = rec.allocate_side(bot_id, &self.config, &mut self.next_reply_id, &mut self.placements, LimitOrderSide::Bid);
        let ghost r1 = rec;
        let ghost p1 = self.placements@;
        let ghost next = pre.next_reply_id;
        let ghost ask_id = self.next_reply_id;
        let a = rec.allocate_side(bot_id, &self.config, &mut self.next_reply_id, &mut self.placements, LimitOrderSide::Ask);
        proof {
            assert(r1.rungs@ == r0.rungs@);
            assert(side_request(r1, LimitOrderSide::Ask, r1.bot.free_balances[0] as int, ask_id as int, a->Ok_0) ==
                side_request(r0, LimitOrderSide::Ask, r0.bot.free_balances[0] as int, ask_id as int, a->Ok_0));
            assert(side_plan(r1, LimitOrderSide::Ask, r1.bot.free_balances[0] as int, self.placements@, bot_id, ask_id) ==
                side_plan(r0, LimitOrderSide::Ask, r0.bot.free_balances[0] as int, self.placements@, bot_id, ask_id));
            if bid && ask {
                assert(self.placements@.remove(ask_id).contains_key(next));
                assert(self.placements@[next] == self.placements@.remove(ask_id)[next]);
            }
            assert forall|id: u64| id != next && id != ask_id implies (#[trigger] self.placements@.contains_key(id)
                == p0.contains_key(id)) && (p0.contains_key(id) ==> self.placements@[id] == p0[id]) by {
                if ask {
                    assert(self.placements@.remove(ask_id).contains_key(id) == self.placements@.contains_key(id));
                    assert(p1.remove(ask_id).contains_key(id) == p1.contains_key(id));
                    if p1.contains_key(id) {
                        assert(self.placements@.remove(ask_id)[id] == self.placements@[id]);
                        assert(p1.remove(ask_id)[id] == p1[id]);
                    }
                }
                if bid {
                    assert(p1.remove(next).contains_key(id) == p1.contains_key(id));
                    assert(p0.remove(next).contains_key(id) == p0.contains_key(id));
                    if p0.contains_key(id) {
                        assert(p1.remove(next)[id] == p1[id]);
                        assert(p0.remove(next)[id] == p0[id]);
                    }
                }
            }
            assert(plans_kept(p0, self.placements@, next as int, ask_id as int));
        }
        let ghost updated = rec;
        self.bots.insert(i, rec);
        proof {
            lemma_put_back(pre.bots@, i as int, updated);
            assert forall|j: int| 0 <= j < self.bots@.len() implies (#[trigger] self.bots@[j]).wf() by {
                if j != i {
                    assert(self.bots@[j] == pre.bots@[j]);
                }
            }
        }
        match (b, a) {
            (Ok(b), Ok(a)) => Ok((b, a)),
            _ => Err(ContractError::Std(StdFault::Overflow)),
        }
    }
}

impl BotRecord {
    /// Whether allocating `side` would place, computed; and the side's rung count.
    fn places(&self, config: &ManagerConfig, side: LimitOrderSide, active: u32) -> (r: (bool, u32))
        requires
            self.wf(),
        ensures
            r.0 == self.would_place(*config, side, active as int),
            r.1 == side_indices(self.rungs@, side, self.bot.grid_count as int).len(),
    {
        self.places_with(config, side, active, self.bot.free_balances[side_input_index(side)])
    }

    /// Whether allocating `side` would place with `free` of its token, computed.
    fn places_with(&self, config: &ManagerConfig, side: LimitOrderSide, active: u32, free: u128) -> (r: (bool, u32))
        requires
            self.wf(),
        ensures
            r.0 == self.would_place_with(*config, side, active as int, free as int),
            r.1 == side_indices(self.rungs@, side, self.bot.grid_count as int).len(),
    {
        let idx = self.side_rungs(side);
        proof {
            lemma_side_indices(self.rungs@, side, self.bot.grid_count as int);
        }
        let n = idx.len();
        if n == 0 {
            return (false, 0);
        }
        let each = free / (n as u128);
        (each > 0 && (active as u128) + (n as u128) <= config.max_active_orders_per_bot as u128, n as u32)
    }
}


/// The checks of a manager deposit, in order: the deposited token's index, or
/// the first error.
pub open spec fn manager_deposit_check(m: GridManager, token: Seq<char>, depositor: Seq<char>, amount: u128, bot_id: u64) -> Result<int, ContractError> {
    let rec = m.record(bot_id);
    let floor = manager_gas_floor(m.config);
    if amount == 0 {
        Err(ContractError::ZeroAmount)
    } else if !m.has_bot(bot_id) {
        Err(ContractError::Std(StdFault::NotFound))
    } else if depositor != rec.bot.owner@ {
        Err(ContractError::Unauthorized)
    } else if floor > u128::MAX {
        Err(ContractError::Overflow)
    } else if rec.bot.gas_credit < floor {
        Err(ContractError::InsufficientGasCredit)
    } else if token != rec.bot.asset_tokens[0]@ && token != rec.bot.asset_tokens[1]@ {
        Err(ContractError::UnsupportedToken)
    } else {
        let k: int = if token == rec.bot.asset_tokens[0]@ { 0 } else { 1 };
        if rec.bot.free_balances[k] + amount > u128::MAX {
            Err(ContractError::Overflow)
        } else {
            match manager_mint(amount as int, k, rec.bot.reference_price.atomics as int) {
                None => Err(ContractError::InvalidPair),
                Some(minted) => if minted == 0 {
                    Err(ContractError::ZeroAmount)
                } else if rec.bot.total_shares + minted > u128::MAX {
                    Err(ContractError::Overflow)
                } else {
                    Ok(k)
                },
            }
        }
    }
}

impl GridManager {
    /// The bot owner deposits `amount` of one of the bot's tokens (`token` is
    /// the token contract reporting the transfer): shares are minted and the
    /// token's side is allocated at once.
    pub fn deposit(&mut self, token: &String, depositor: &String, amount: u128, bot_id: u64) -> (r: Result<(u128, AllocationStep), ContractError>)
        requires
            old(self).wf(),
            old(self).has_bot(bot_id) && token@ == old(self).record(bot_id).bot.asset_tokens[1]@ ==> (manager_mint(
                amount as int, 1, old(self).record(bot_id).bot.reference_price.atomics as int) matches Some(v) ==> v <= u128::MAX),
        ensures
            final(self).wf(),
            manager_deposit_check(*old(self), token@, depositor@, amount, bot_id) matches Err(e) ==> r == Err::<(u128, AllocationStep), ContractError>(e),
            manager_deposit_check(*old(self), token@, depositor@, amount, bot_id) matches Ok(k) ==> ({
                let rec = old(self).record(bot_id);
                let places = rec.would_place_with(old(self).config, funded_side(k), rec.bot.active_orders as int,
                    rec.bot.free_balances[k] + amount);
                &&& places && old(self).next_reply_id == u64::MAX ==> r == Err::<(u128, AllocationStep), ContractError>(
                    ContractError::Std(StdFault::Overflow))
                &&& !(places && old(self).next_reply_id == u64::MAX) ==> r is Ok
            }),
            r is Err ==> *final(self) == *old(self),
            r matches Ok((minted, step)) ==> {
                let rec = old(self).record(bot_id);
                let k = manager_deposit_check(*old(self), token@, depositor@, amount, bot_id)->Ok_0;
                let new_rec = final(self).record(bot_id);
                &&& Some(minted as int) == manager_mint(amount as int, k, rec.bot.reference_price.atomics as int)
                &&& new_rec.bot.total_shares == rec.bot.total_shares + minted
                &&& new_rec.shares.view() == rec.shares.view().insert(depositor@, (rec.shares.amount_of(depositor@) + minted) as u128)
                &&& new_rec.bot.free_balances[1 - k] == rec.bot.free_balances[1 - k]
                &&& step is Placed ==> ({
                    let n = side_indices(rec.rungs@, funded_side(k), rec.bot.grid_count as int).len() as int;
                    new_rec.bot.free_balances[k] == rec.bot.free_balances[k] + amount - ((rec.bot.free_balances[k] + amount) / n) * n
                        && new_rec.bot.active_orders == rec.bot.active_orders + n
                })
                &&& (step is Placed) == rec.would_place_with(old(self).config, funded_side(k), rec.bot.active_orders as int,
                    rec.bot.free_balances[k] + amount)
                &&& !(step is Placed) ==> new_rec.bot.free_balances[k] == rec.bot.free_balances[k] + amount
                &&& side_request(rec, funded_side(k), rec.bot.free_balances[k] + amount, old(self).next_reply_id as int, step)
                &&& step is Placed ==> side_plan(rec, funded_side(k), rec.bot.free_balances[k] + amount, final(self).placements@, bot_id,
                    old(self).next_reply_id)
                &&& final(self).next_reply_id == old(self).next_reply_id + if step is Placed { 1int } else { 0 }
                &&& plans_kept(old(self).placements@, final(self).placements@, old(self).next_reply_id as int, old(self).next_reply_id as int)
                &&& final(self).bots@.len() == old(self).bots@.len()
                &&& forall|j: int| 0 <= j < old(self).bots@.len() && j != bot_id - 1 ==> final(self).bots@[j] == old(self).bots@[j]
            },
    {
        if amount == 0 {
            return Err(ContractError::ZeroAmount);
        }
        let i = match bot_position(&self.bots, bot_id) {
            Ok(i) => i,
            Err(e) => return Err(e),
        };
        if *depositor != self.bots[i].bot.owner {
            return Err(ContractError::Unauthorized);
        }
        let required = match manager_required_gas(&self.config) {
            Ok(v) => v,
            Err(e) => return Err(e),
        };
        if self.bots[i].bot.gas_credit < required {
            return Err(ContractError::InsufficientGasCredit);
        }
        let k: usize = if *token == self.bots[i].bot.asset_tokens[0] {
            0
        } else if *token == self.bots[i].bot.asset_tokens[1] {
            1
        } else {
            return Err(ContractError::UnsupportedToken);
        };
        let free = self.bots[i].bot.free_balances[k];
        if free > u128::MAX - amount {
            return Err(ContractError::Overflow);
        }
        let minted = match manager_deposit_shares(amount, k, self.bots[i].bot.reference_price) {
            Ok(m) => m,
            Err(e) => return Err(e),
        };
        if minted == 0 {
            return Err(ContractError::ZeroAmount);
        }
        let total = self.bots[i].bot.total_shares;
        if total > u128::MAX - minted {
            return Err(ContractError::Overflow);
        }
        let side = if k == 0 { LimitOrderSide::Ask } else { LimitOrderSide::Bid };
        let (will_place, _) = self.bots[i].places_with(&self.config, side, self.bots[i].bot.active_orders, free + amount);
        if will_place && self.next_reply_id == u64::MAX {
            return Err(ContractError::Std(StdFault::Overflow));
        }
        let held = self.bots[i].shares.amount(depositor);
        proof {
            self.bots@[i as int].shares.lemma_amount_le_total(depositor@);
        }
        let ghost pre = *self;
        let mut rec = self.bots.remove(i);
        rec.bot.free_balances = if k == 0 { [free + amount, rec.bot.free_balances[1]] } else { [rec.bot.free_balances[0], free + amount] };
        rec.bot.total_shares = total + minted;
        rec.shares.set_amount(depositor, held + minted);
        let ghost funded = rec;
        let ghost p0 = self.placements@;
        let step = rec.allocate_side(bot_id, &self.config, &mut self.next_reply_id, &mut self.placements, side);
        proof {
            let next = pre.next_reply_id;
            let free = funded.bot.free_balances[k as int] as int;
            if step is Ok {
                let s = step->Ok_0;
                assert(side_request(funded, side, free, next as int, s) == side_request(pre.bots@[i as int], side, free, next as int, s));
                assert(side_plan(funded, side, free, self.placements@, bot_id, next) == side_plan(pre.bots@[i as int], side, free,
                    self.placements@, bot_id, next));
            }
            assert forall|id: u64| id != next implies (#[trigger] self.placements@.contains_key(id) == p0.contains_key(id))
                && (p0.contains_key(id) ==> self.placements@[id] == p0[id]) by {
                if step is Ok && step->Ok_0 is Placed {
                    assert(self.placements@.remove(next).contains_key(id) == self.placements@.contains_key(id));
                    assert(p0.remove(next).contains_key(id) == p0.contains_key(id));
                    if p0.contains_key(id) {
                        assert(self.placements@.remove(next)[id] == self.placements@[id]);
                        assert(p0.remove(next)[id] == p0[id]);
                    }
                }
            }
            assert(plans_kept(p0, self.placements@, next as int, next as int));
        }
        let ghost updated = rec;
        self.bots.insert(i, rec);
        proof {
            lemma_put_back(pre.bots@, i as int, updated);
            assert forall|j: int| 0 <= j < self.bots@.len() implies (#[trigger] self.bots@[j]).wf() by {
                if j != i {
                    assert(self.bots@[j] == pre.bots@[j]);
                }
            }
        }
        match step {
            Ok(s) => Ok((minted, s)),
            Err(e) => Err(e),
        }
    }
}


/// What restoring the manager's single-rung placement `reply_id` does: its
/// gross amount goes back to its bot's free balance of its token and the order
/// stops counting, and the outcome carries `reason`; an unknown reply, a plan
/// without an amount, a missing bot, an overflow or no active order is refused
/// and changes nothing.
pub open spec fn manager_placement_restored(
    m: GridManager,
    after: GridManager,
    reply_id: u64,
    reason: Seq<char>,
    r: Result<ReplyOutcome, ContractError>,
) -> bool {
    if !m.placements@.contains_key(reply_id) {
        r == Err::<ReplyOutcome, ContractError>(ContractError::UnknownReply) && after == m
    } else {
        let plan = m.placements@[reply_id];
        let k = input_index(plan.side);
        let rec = m.record(plan.bot_id);
        &&& plan.gross_amounts@.len() == 0 ==> r == Err::<ReplyOutcome, ContractError>(ContractError::InvalidPlacementReply)
        &&& plan.gross_amounts@.len() > 0 && !m.has_bot(plan.bot_id) ==> r == Err::<ReplyOutcome, ContractError>(
            ContractError::Std(StdFault::NotFound))
        &&& r is Ok <==> plan.gross_amounts@.len() > 0 && m.has_bot(plan.bot_id)
            && rec.bot.free_balances[k] + plan.gross_amounts@[0] <= u128::MAX && rec.bot.active_orders > 0
        &&& r is Err ==> after == m
        &&& r is Ok ==> {
            let new_rec = after.record(plan.bot_id);
            &&& r matches Ok(ReplyOutcome::Deferred(t)) && t@ == reason
            &&& new_rec.bot.free_balances[k] == rec.bot.free_balances[k] + plan.gross_amounts@[0]
            &&& new_rec.bot.free_balances[1 - k] == rec.bot.free_balances[1 - k]
            &&& new_rec.bot.active_orders == rec.bot.active_orders - 1
            &&& new_rec.orders == rec.orders && new_rec.shares == rec.shares
            &&& new_rec.bot.total_shares == rec.bot.total_shares
            &&& after.placements@ == m.placements@.remove(reply_id)
            &&& after.bots@.len() == m.bots@.len()
            &&& forall|j: int| 0 <= j < m.bots@.len() && j != plan.bot_id - 1 ==> after.bots@[j] == m.bots@[j]
        }
    }
}

/// Orders recorded from a placement sit at rungs of the grid.
pub proof fn lemma_recorded_rungs(
    orders: Map<u64, GridOrder>,
    rungs: Seq<Rung>,
    plan: PlacementPlan,
    ids: Seq<u64>,
    reports: Seq<Option<LimitOrderResponse>>,
    contract: Seq<char>,
    n: int,
)
    requires
        record_placed(orders, rungs, plan, ids, reports, contract, n) is Ok,
        forall|id: u64| #[trigger] orders.contains_key(id) ==> orders[id].rung_index < rungs.len(),
    ensures
        ({
            let m = record_placed(orders, rungs, plan, ids, reports, contract, n)->Ok_0;
            forall|id: u64| #[trigger] m.contains_key(id) ==> m[id].rung_index < rungs.len()
        }),
    decreases n,
{
    if n > 0 {
        lemma_recorded_rungs(orders, rungs, plan, ids, reports, contract, n - 1);
    }
}

impl BotRecord {
    /// Check each order a placement reported against its rung, before any is
    /// recorded.
    pub fn check_placement(
        &self,
        plan: &PlacementPlan,
        ids: &Vec<u64>,
        reports: &Vec<Option<LimitOrderResponse>>,
        contract: &String,
    ) -> (r: Result<(), ContractError>)
        requires
            self.wf(),
            ids@.len() == plan.rungs@.len(),
        ensures
            ({
                let rec = record_placed(self.orders@, self.rungs@, *plan, ids@, reports@, contract@, placed_count(*plan, ids@));
                &&& r is Ok <==> rec is Ok
                &&& r matches Err(e) ==> rec == Err::<Map<u64, GridOrder>, ContractError>(e)
            }),
    {
        let ghost orders0 = self.orders@;
        let n: usize = if ids.len() <= plan.gross_amounts.len() { ids.len() } else { plan.gross_amounts.len() };
        let side = plan.side;
        let mut seen: Vec<u64> = Vec::new();
        let mut k: usize = 0;
        while k < n
            invariant
                self.wf(),
                orders0 == self.orders@,
                n == placed_count(*plan, ids@),
                ids@.len() == plan.rungs@.len(),
                plan.side == side,
                k <= n,
                record_placed(orders0, self.rungs@, *plan, ids@, reports@, contract@, k as int) is Ok,
                seen@ == ids@.take(k as int),
                forall|id: u64| #[trigger] record_placed(orders0, self.rungs@, *plan, ids@, reports@, contract@, k as int)->Ok_0.contains_key(id)
                    <==> (orders0.contains_key(id) || ids@.take(k as int).contains(id)),
            decreases n - k,
        {
            let id = ids[k];
            let mut dup = self.orders.contains(id);
            let mut t: usize = 0;
            while t < k
                invariant
                    t <= k,
                    seen@.len() == k,
                    dup ==> (orders0.contains_key(id) || seen@.take(t as int).contains(id)),
                    !dup ==> (orders0.contains_key(id) == false && !seen@.take(t as int).contains(id)),
                decreases k - t,
            {
                proof {
                    assert(seen@.take(t + 1) =~= seen@.take(t as int).push(seen@[t as int]));
                }
                if seen[t] == id {
                    dup = true;
                    proof {
                        assert(seen@.take(t + 1)[t as int] == id);
                    }
                }
                t = t + 1;
            }
            proof {
                assert(seen@.take(k as int) =~= seen@);
                if dup {
                    assert(record_placed(orders0, self.rungs@, *plan, ids@, reports@, contract@, k as int)->Ok_0.contains_key(id));
                } else {
                    assert(!record_placed(orders0, self.rungs@, *plan, ids@, reports@, contract@, k as int)->Ok_0.contains_key(id));
                }
            }
            if dup {
                proof {
                    lemma_record_err(orders0, self.rungs@, *plan, ids@, reports@, contract@, k + 1, n as int);
                }
                return Err(ContractError::InvalidPlacementReply);
            }
            let rung_index = plan.rungs[k];
            let gross = plan.gross_amounts[k];
            let oc = if k < reports.len() {
                match &reports[k] {
                    Some(oc) => oc,
                    None => {
                        proof {
                            lemma_record_err(orders0, self.rungs@, *plan, ids@, reports@, contract@, k + 1, n as int);
                        }
                        return Err(ContractError::Std(StdFault::QueryFailed));
                    },
                }
            } else {
                proof {
                    lemma_record_err(orders0, self.rungs@, *plan, ids@, reports@, contract@, k + 1, n as int);
                }
                return Err(ContractError::Std(StdFault::QueryFailed));
            };
            if rung_index as usize >= self.rungs.len() {
                proof {
                    lemma_record_err(orders0, self.rungs@, *plan, ids@, reports@, contract@, k + 1, n as int);
                }
                return Err(ContractError::Std(StdFault::NotFound));
            }
            if oc.owner != *contract || oc.side != side || oc.price.atomics != self.rungs[rung_index as usize].price.atomics
                || oc.remaining > gross {
                proof {
                    lemma_record_err(orders0, self.rungs@, *plan, ids@, reports@, contract@, k + 1, n as int);
                }
                return Err(ContractError::InvalidOrder);
            }
            seen.push(id);
            proof {
                assert(ids@.take(k + 1) =~= ids@.take(k as int).push(id));
                let m = record_placed(orders0, self.rungs@, *plan, ids@, reports@, contract@, k as int)->Ok_0;
                let m2 = record_placed(orders0, self.rungs@, *plan, ids@, reports@, contract@, k + 1)->Ok_0;
                assert forall|x: u64| #[trigger] m2.contains_key(x) <==> (orders0.contains_key(x) || ids@.take(k + 1).contains(x)) by {
                    if x == id {
                        assert(ids@.take(k + 1)[k as int] == id);
                    } else {
                        if ids@.take(k + 1).contains(x) {
                            let q = choose|q: int| 0 <= q < ids@.take(k + 1).len() && #[trigger] ids@.take(k + 1)[q] == x;
                            assert(q < k);
                            assert(ids@.take(k as int)[q] == x);
                        }
                        if ids@.take(k as int).contains(x) {
                            let q = choose|q: int| 0 <= q < ids@.take(k as int).len() && #[trigger] ids@.take(k as int)[q] == x;
                            assert(ids@.take(k + 1)[q] == x);
                        }
                    }
                }
            }
            k = k + 1;
        }
        proof {
            assert(n as int == placed_count(*plan, ids@));
        }
        Ok(())
    }

    /// Record the orders a placement reported, all of which passed the check.
    pub fn apply_placement(
        &mut self,
        plan: &PlacementPlan,
        ids: &Vec<u64>,
        reports: &Vec<Option<LimitOrderResponse>>,
        contract: &String,
    )
        requires
            old(self).wf(),
            ids@.len() == plan.rungs@.len(),
            record_placed(old(self).orders@, old(self).rungs@, *plan, ids@, reports@, contract@, placed_count(*plan, ids@)) is Ok,
        ensures
            final(self).wf(),
            final(self).orders@ == record_placed(old(self).orders@, old(self).rungs@, *plan, ids@, reports@, contract@, placed_count(*plan, ids@))->Ok_0,
            final(self).bot == old(self).bot,
            final(self).rungs == old(self).rungs,
            final(self).shares == old(self).shares,
    {
        let ghost orders0 = self.orders@;
        let n: usize = if ids.len() <= plan.gross_amounts.len() { ids.len() } else { plan.gross_amounts.len() };
        let side = plan.side;
        let mut j: usize = 0;
        while j < n
            invariant
                self.wf(),
                self.bot == old(self).bot,
                self.rungs == old(self).rungs,
                self.shares == old(self).shares,
                orders0 == old(self).orders@,
                n == placed_count(*plan, ids@),
                ids@.len() == plan.rungs@.len(),
                plan.side == side,
                j <= n,
                record_placed(orders0, self.rungs@, *plan, ids@, reports@, contract@, n as int) is Ok,
                self.orders@ == record_placed(orders0, self.rungs@, *plan, ids@, reports@, contract@, j as int)->Ok_0,
            decreases n - j,
        {
            proof {
                lemma_record_ok_prefix(orders0, self.rungs@, *plan, ids@, reports@, contract@, j + 1, n as int);
            }
            let id = ids[j];
            let rung_index = plan.rungs[j];
            match &reports[j] {
                Some(oc) => {
                    self.orders.insert(id, GridOrder { rung_index, side, price: oc.price, remaining: oc.remaining });
                },
                None => {},
            }
            j = j + 1;
        }
        proof {
            lemma_recorded_rungs(orders0, self.rungs@, *plan, ids@, reports@, contract@, n as int);
        }
    }
}

impl GridManager {
    /// Put the escrow of a failed single-rung placement back: the free balance
    /// of its side grows by the placed amount and one active order goes.
    pub fn restore_single_placement(&mut self, reply_id: u64, reason: String) -> (r: Result<ReplyOutcome, ContractError>)
        requires
            old(self).wf(),
        ensures
            final(self).wf(),
            manager_placement_restored(*old(self), *final(self), reply_id, reason@, r),
    {
        let (amount, side, bot_id) = match self.placements.get(reply_id) {
            Some(plan) => {
                if plan.gross_amounts.len() == 0 {
                    return Err(ContractError::InvalidPlacementReply);
                }
                (plan.gross_amounts[0], plan.side, plan.bot_id)
            },
            None => return Err(ContractError::UnknownReply),
        };
        let i = match bot_position(&self.bots, bot_id) {
            Ok(i) => i,
            Err(e) => return Err(e),
        };
        let k = side_input_index(side);
        if self.bots[i].bot.free_balances[k] > u128::MAX - amount {
            return Err(ContractError::Overflow);
        }
        if self.bots[i].bot.active_orders == 0 {
            return Err(ContractError::InvalidOrder);
        }
        let ghost pre = *self;
        let mut rec = self.bots.remove(i);
        let grown = rec.bot.free_balances[k] + amount;
        rec.bot.free_balances = if k == 0 { [grown, rec.bot.free_balances[1]] } else { [rec.bot.free_balances[0], grown] };
        rec.bot.active_orders = rec.bot.active_orders - 1;
        let ghost updated = rec;
        self.bots.insert(i, rec);
        self.placements.remove(reply_id);
        proof {
            lemma_put_back(pre.bots@, i as int, updated);
            assert forall|j: int| 0 <= j < self.bots@.len() implies (#[trigger] self.bots@[j]).wf() by {
                if j != i {
                    assert(self.bots@[j] == pre.bots@[j]);
                }
            }
        }
        Ok(ReplyOutcome::Deferred(reason))
    }

    /// Handle the pair's reply to placement `reply_id`: record the placed
    /// orders, or, for a single rung that failed or was skipped, return its
    /// escrow to the free balance. `reports` are the pair's answers for the
    /// reported ids, in order.
    pub fn reply(
        &mut self,
        reply_id: u64,
        result: &SubReply,
        contract: &String,
        reports: &Vec<Option<LimitOrderResponse>>,
    ) -> (r: Result<ReplyOutcome, ContractError>)
        requires
            old(self).wf(),
        ensures
            final(self).wf(),
            r is Err ==> *final(self) == *old(self),
            !old(self).placements@.contains_key(reply_id) ==> r == Err::<ReplyOutcome, ContractError>(ContractError::UnknownReply),
            old(self).placements@.contains_key(reply_id) && old(self).placements@[reply_id].rungs@.len() == 1 && result is Failed
                ==> manager_placement_restored(*old(self), *final(self), reply_id, failure_reason(*result), r),
            old(self).placements@.contains_key(reply_id) && old(self).placements@[reply_id].rungs@.len() == 1 && (
            result matches SubReply::Succeeded(values) && parse_all(values@) == Some(Seq::<u64>::empty()))
                ==> manager_placement_restored(*old(self), *final(self), reply_id, "pair skipped the placement"@, r),
            old(self).placements@.contains_key(reply_id) ==> ({
                let plan = old(self).placements@[reply_id];
                &&& result is Failed && plan.rungs@.len() != 1 ==> r == Err::<ReplyOutcome, ContractError>(
                    ContractError::Std(StdFault::SubmessageFailed))
                &&& result matches SubReply::Succeeded(values) ==> {
                    let ids = parse_all(values@);
                    &&& ids is None ==> r == Err::<ReplyOutcome, ContractError>(ContractError::InvalidPlacementReply)
                    &&& ids is Some && !(ids->0.len() == 0 && plan.rungs@.len() == 1) && ids->0.len() != plan.rungs@.len()
                        ==> r == Err::<ReplyOutcome, ContractError>(ContractError::InvalidPlacementReply)
                    &&& ids is Some && ids->0.len() == plan.rungs@.len() && ids->0.len() > 0 ==> {
                        let ids = ids->0;
                        let rec = old(self).record(plan.bot_id);
                        let recorded = record_placed(rec.orders@, rec.rungs@, plan, ids, reports@, contract@, placed_count(plan, ids));
                        &&& !old(self).has_bot(plan.bot_id) ==> r == Err::<ReplyOutcome, ContractError>(ContractError::Std(StdFault::NotFound))
                        &&& old(self).has_bot(plan.bot_id) && recorded is Err ==> r == Err::<ReplyOutcome, ContractError>(recorded->Err_0)
                        &&& old(self).has_bot(plan.bot_id) && recorded is Ok ==> r == Ok::<ReplyOutcome, ContractError>(ReplyOutcome::Recorded)
                            && final(self).record(plan.bot_id).orders@ == recorded->Ok_0
                            && final(self).record(plan.bot_id).bot == rec.bot
                            && final(self).placements@ == old(self).placements@.remove(reply_id)
                    }
                }
            }),
    {
        let (bot_id, rung_count) = match self.placements.get(reply_id) {
            Some(plan) => (plan.bot_id, plan.rungs.len()),
            None => return Err(ContractError::UnknownReply),
        };
        let values = match result {
            SubReply::Failed(reason) => {
                if rung_count == 1 {
                    return self.restore_single_placement(reply_id, reason.clone());
                }
                return Err(ContractError::Std(StdFault::SubmessageFailed));
            },
            SubReply::Succeeded(values) => values,
        };
        let ids = match GridVault::parse_ids(values) {
            Some(ids) => ids,
            None => return Err(ContractError::InvalidPlacementReply),
        };
        if ids.len() == 0 && rung_count == 1 {
            return self.restore_single_placement(reply_id, "pair skipped the placement".to_string());
        }
        if ids.len() != rung_count {
            return Err(ContractError::InvalidPlacementReply);
        }
        let i = match bot_position(&self.bots, bot_id) {
            Ok(i) => i,
            Err(e) => return Err(e),
        };
        let checked = match self.placements.get(reply_id) {
            Some(plan) => self.bots[i].check_placement(plan, &ids, reports, contract),
            None => Err(ContractError::UnknownReply),
        };
        if let Err(e) = checked {
            return Err(e);
        }
        let ghost pre = *self;
        let mut rec = self.bots.remove(i);
        match self.placements.get(reply_id) {
            Some(plan) => rec.apply_placement(plan, &ids, reports, contract),
            None => {},
        }
        let ghost updated = rec;
        self.bots.insert(i, rec);
        self.placements.remove(reply_id);
        proof {
            lemma_put_back(pre.bots@, i as int, updated);
            assert forall|j: int| 0 <= j < self.bots@.len() implies (#[trigger] self.bots@[j]).wf() by {
                if j != i {
                    assert(self.bots@[j] == pre.bots@[j]);
                }
            }
        }
        Ok(ReplyOutcome::Recorded)
    }
}


/// Batch `j` of `s` cut into batches of `size`.
pub open spec fn batch_at(s: Seq<u64>, size: int, j: int) -> Seq<u64> {
    let lo = j * size;
    let hi = if (j + 1) * size < s.len() { (j + 1) * size } else { s.len() as int };
    s.subrange(lo, hi)
}

/// `ids` cut into consecutive batches of `size` (at least one), the last one
/// shorter; one message is sent per batch.
pub fn id_batches(ids: &Vec<u64>, size: u32) -> (r: Vec<Vec<u64>>)
    requires
        size >= 1,
    ensures
        ids@.len() == 0 ==> r@.len() == 0,
        ids@.len() > 0 ==> (r@.len() - 1) * size < ids@.len() <= r@.len() * size,
        forall|j: int| 0 <= j < r@.len() ==> (#[trigger] r@[j])@ == batch_at(ids@, size as int, j),
{
    let n = ids.len();
    let sz = size as usize;
    let mut out: Vec<Vec<u64>> = Vec::new();
    let mut p: usize = 0;
    proof {
        assert(out@.len() * sz == 0) by (nonlinear_arith) requires out@.len() == 0;
    }
    while p < n
        invariant
            n == ids@.len(),
            sz == size,
            sz >= 1,
            p <= n,
            p == out@.len() * sz || (p == n && (out@.len() - 1) * sz < n <= out@.len() * sz),
            p < n ==> p == out@.len() * sz,
            forall|j: int| 0 <= j < out@.len() ==> (#[trigger] out@[j])@ == batch_at(ids@, size as int, j),
        decreases n - p,
    {
        let end: usize = if n - p > sz { p + sz } else { n };
        let mut batch: Vec<u64> = Vec::new();
        let mut q: usize = p;
        while q < end
            invariant
                p <= q <= end <= n,
                n == ids@.len(),
                batch@ == ids@.subrange(p as int, q as int),
            decreases end - q,
        {
            batch.push(ids[q]);
            proof {
                assert(ids@.subrange(p as int, q + 1) =~= ids@.subrange(p as int, q as int).push(ids@[q as int]));
            }
            q = q + 1;
        }
        proof {
            let j = out@.len() as int;
            assert(p == j * sz);
            assert((j + 1) * sz == p + sz) by (nonlinear_arith) requires p == j * sz;
        }
        out.push(batch);
        proof {
            let j = out@.len() - 1;
            assert(j * sz == p);
            assert((j + 1) * sz == p + sz) by (nonlinear_arith) requires p == j * sz;
        }
        p = end;
        proof {
            let m = out@.len() as int;
            assert(m * sz == (m - 1) * sz + sz) by (nonlinear_arith);
        }
    }
    proof {
        let m = out@.len() as int;
        if n == 0 {
            assert(m * sz == 0);
            assert(m == 0) by (nonlinear_arith) requires m * sz == 0, sz >= 1, m >= 0;
        } else {
            if p == m * sz {
                assert((m - 1) * sz == m * sz - sz) by (nonlinear_arith);
            }
        }
    }
    out
}

/// The cancel walk over the first tracked orders `w`, given the pair's
/// answers `reports`, from free balances `free`: the free balances after each
/// order's escrow returns, or the first error.
pub open spec fn cancel_walk(contract: Seq<char>, w: Seq<(u64, GridOrder)>, reports: Seq<Option<LimitOrderResponse>>, free: [u128; 2], n: int) -> Result<(int, int), ContractError>
    decreases n,
{
    if n <= 0 {
        Ok((free[0] as int, free[1] as int))
    } else {
        match cancel_walk(contract, w, reports, free, n - 1) {
            Err(e) => Err(e),
            Ok((f0, f1)) => {
                let (id, order) = w[n - 1];
                if n - 1 >= reports.len() || reports[n - 1] is None {
                    Err(ContractError::UnsettledOrder)
                } else {
                    let oc = reports[n - 1]->0;
                    if oc.owner@ != contract {
                        Err(ContractError::InvalidOrderOwner)
                    } else if !order_matches(contract, id, order, oc) {
                        Err(ContractError::InvalidOrder)
                    } else if oc.remaining != order.remaining {
                        Err(ContractError::UnsettledOrder)
                    } else if input_index(order.side) == 0 {
                        if f0 + oc.remaining > u128::MAX { Err(ContractError::Overflow) } else { Ok((f0 + oc.remaining, f1)) }
                    } else {
                        if f1 + oc.remaining > u128::MAX { Err(ContractError::Overflow) } else { Ok((f0, f1 + oc.remaining)) }
                    }
                }
            },
        }
    }
}

/// The escrow the pair still holds for the first `n` orders of `w` that are on
/// `side`, by the pair's answers.
pub open spec fn escrow_on_side(w: Seq<(u64, GridOrder)>, reports: Seq<Option<LimitOrderResponse>>, side: LimitOrderSide, n: int) -> int
    decreases n,
{
    if n <= 0 {
        0
    } else {
        escrow_on_side(w, reports, side, n - 1) + if w[n - 1].1.side == side { reports[n - 1]->0.remaining as int } else { 0 }
    }
}

/// Cancelling returns each order's escrow to the token it was paid in: token 0
/// grows by what the pair holds for the cancelled asks, token 1 by what it
/// holds for the cancelled bids, and by nothing else.
pub proof fn law_cancel_returns_escrow_to_its_input_token(
    contract: Seq<char>,
    w: Seq<(u64, GridOrder)>,
    reports: Seq<Option<LimitOrderResponse>>,
    free: [u128; 2],
    n: int,
)
    requires
        0 <= n <= w.len(),
        cancel_walk(contract, w, reports, free, n) is Ok,
    ensures
        cancel_walk(contract, w, reports, free, n)->Ok_0.0 == free[0] + escrow_on_side(w, reports, LimitOrderSide::Ask, n),
        cancel_walk(contract, w, reports, free, n)->Ok_0.1 == free[1] + escrow_on_side(w, reports, LimitOrderSide::Bid, n),
    decreases n,
{
    if n > 0 {
        law_cancel_returns_escrow_to_its_input_token(contract, w, reports, free, n - 1);
    }
}

pub proof fn lemma_cancel_walk_err(contract: Seq<char>, w: Seq<(u64, GridOrder)>, reports: Seq<Option<LimitOrderResponse>>, free: [u128; 2], n0: int, n: int)
    requires
        0 <= n0 <= n,
        cancel_walk(contract, w, reports, free, n0) is Err,
    ensures
        cancel_walk(contract, w, reports, free, n) == cancel_walk(contract, w, reports, free, n0),
    decreases n - n0,
{
    if n > n0 {
        lemma_cancel_walk_err(contract, w, reports, free, n0, n - 1);
    }
}

/// The orders with the lowest `limit` ids, ascending.
pub open spec fn first_orders(rec: BotRecord, limit: u32) -> Seq<(u64, GridOrder)> {
    let s = rec.orders.entries@;
    if limit < s.len() { s.take(limit as int) } else { s }
}

impl BotRecord {
    fn first_orders_exec(&self, limit: u32) -> (r: Vec<(u64, GridOrder)>)
        ensures
            r@ == first_orders(*self, limit),
    {
        let n: usize = if (limit as usize) < self.orders.entries.len() { limit as usize } else { self.orders.entries.len() };
        let mut out: Vec<(u64, GridOrder)> = Vec::new();
        let mut i: usize = 0;
        while i < n
            invariant
                n <= self.orders.entries@.len(),
                n == (if limit < self.orders.entries@.len() { limit as int } else { self.orders.entries@.len() as int }),
                i <= n,
                out@ == self.orders.entries@.take(i as int),
            decreases n - i,
        {
            out.push(self.orders.entries[i]);
            proof {
                assert(self.orders.entries@.take(i + 1) =~= self.orders.entries@.take(i as int).push(self.orders.entries@[i as int]));
            }
            i = i + 1;
        }
        proof {
            assert(self.orders.entries@.take(n as int) =~= first_orders(*self, limit));
        }
        out
    }
}

/// The ids of `w`.
pub open spec fn walk_ids(w: Seq<(u64, GridOrder)>) -> Seq<u64> {
    w.map_values(|e: (u64, GridOrder)| e.0)
}

impl GridManager {
    /// The bot owner cancels the tracked orders with the lowest ids (at most
    /// `max_orders_per_reconcile`); each must be active on the pair and
    /// unchanged, and its escrow returns to the free balance at once.
    /// `reports` are the pair's answers for them, in order; `batch_limit` is
    /// the pair's largest batch. Returns the cancel batches sent.
    pub fn cancel_all(
        &mut self,
        has_funds: bool,
        sender: &String,
        contract: &String,
        bot_id: u64,
        reports: &Vec<Option<LimitOrderResponse>>,
        batch_limit: Option<u32>,
    ) -> (r: Result<Vec<Vec<u64>>, ContractError>)
        requires
            old(self).wf(),
        ensures
            final(self).wf(),
            ({
                let rec = old(self).record(bot_id);
                let w = first_orders(rec, old(self).config.max_orders_per_reconcile);
                let walk = cancel_walk(contract@, w, reports@, rec.bot.free_balances, w.len() as int);
                let pre: Result<(), ContractError> = if has_funds {
                    Err(ContractError::UnexpectedFunds)
                } else if !old(self).has_bot(bot_id) {
                    Err(ContractError::Std(StdFault::NotFound))
                } else if sender@ != rec.bot.owner@ {
                    Err(ContractError::Unauthorized)
                } else {
                    Ok(())
                };
                &&& pre matches Err(e) ==> r == Err::<Vec<Vec<u64>>, ContractError>(e)
                &&& pre is Ok && w.len() == 0 ==> (r matches Ok(b) && b@.len() == 0)
                &&& pre is Ok && w.len() > 0 && walk is Err ==> r == Err::<Vec<Vec<u64>>, ContractError>(walk->Err_0)
                &&& pre is Ok && w.len() > 0 && walk is Ok && rec.bot.active_orders < w.len() ==> r
                    == Err::<Vec<Vec<u64>>, ContractError>(ContractError::InvalidOrder)
                &&& pre is Ok && w.len() > 0 && walk is Ok && rec.bot.active_orders >= w.len() && batch_limit is None ==> r
                    == Err::<Vec<Vec<u64>>, ContractError>(ContractError::Std(StdFault::QueryFailed))
                &&& r is Ok <==> pre is Ok && (w.len() == 0 || (walk is Ok && rec.bot.active_orders >= w.len() && batch_limit is Some))
                &&& r is Err ==> *final(self) == *old(self)
                &&& w.len() > 0 ==> (r matches Ok(batches) ==> {
                    let new_rec = final(self).record(bot_id);
                    let size = if batch_limit->0 >= 1 { batch_limit->0 as int } else { 1 };
                    &&& new_rec.bot.free_balances[0] == walk->Ok_0.0
                    &&& new_rec.bot.free_balances[1] == walk->Ok_0.1
                    &&& new_rec.bot.free_balances[0] == rec.bot.free_balances[0] + escrow_on_side(w, reports@, LimitOrderSide::Ask, w.len() as int)
                    &&& new_rec.bot.free_balances[1] == rec.bot.free_balances[1] + escrow_on_side(w, reports@, LimitOrderSide::Bid, w.len() as int)
                    &&& new_rec.bot.active_orders == rec.bot.active_orders - w.len()
                    &&& forall|id: u64| #[trigger] new_rec.orders@.contains_key(id) <==> rec.orders@.contains_key(id) && !walk_ids(w).contains(id)
                    &&& forall|id: u64| #[trigger] new_rec.orders@.contains_key(id) ==> new_rec.orders@[id] == rec.orders@[id]
                    &&& forall|j: int| 0 <= j < batches@.len() ==> (#[trigger] batches@[j])@ == batch_at(walk_ids(w), size, j)
                    &&& (batches@.len() - 1) * size < w.len() <= batches@.len() * size
                    &&& new_rec.shares == rec.shares && new_rec.bot.total_shares == rec.bot.total_shares
                    &&& final(self).bots@.len() == old(self).bots@.len()
                    &&& forall|j: int| 0 <= j < old(self).bots@.len() && j != bot_id - 1 ==> final(self).bots@[j] == old(self).bots@[j]
                })
            }),
    {
        proof {
            let rec = old(self).record(bot_id);
            let w = first_orders(rec, old(self).config.max_orders_per_reconcile);
            if cancel_walk(contract@, w, reports@, rec.bot.free_balances, w.len() as int) is Ok {
                law_cancel_returns_escrow_to_its_input_token(contract@, w, reports@, rec.bot.free_balances, w.len() as int);
            }
        }
        if has_funds {
            return Err(ContractError::UnexpectedFunds);
        }
        let i = match bot_position(&self.bots, bot_id) {
            Ok(i) => i,
            Err(e) => return Err(e),
        };
        if *sender != self.bots[i].bot.owner {
            return Err(ContractError::Unauthorized);
        }
        let w = self.bots[i].first_orders_exec(self.config.max_orders_per_reconcile);
        if w.len() == 0 {
            return Ok(Vec::new());
        }
        let ghost free0 = self.bots@[i as int].bot.free_balances;
        let mut f0: u128 = self.bots[i].bot.free_balances[0];
        let mut f1: u128 = self.bots[i].bot.free_balances[1];
        let mut ids: Vec<u64> = Vec::new();
        let mut k: usize = 0;
        while k < w.len()
            invariant
                *self == *old(self),
                old(self).wf(),
                !has_funds,
                i == bot_id - 1,
                old(self).has_bot(bot_id),
                sender@ == old(self).record(bot_id).bot.owner@,
                w@ == first_orders(old(self).record(bot_id), old(self).config.max_orders_per_reconcile),
                free0 == old(self).record(bot_id).bot.free_balances,
                w@.len() > 0,
                k <= w@.len(),
                cancel_walk(contract@, w@, reports@, free0, k as int) == Ok::<(int, int), ContractError>((f0 as int, f1 as int)),
                ids@ == walk_ids(w@.take(k as int)),
            decreases w@.len() - k,
        {
            let (id, order) = w[k];
            let oc = if k < reports.len() {
                match &reports[k] {
                    Some(oc) => oc,
                    None => {
                        proof { lemma_cancel_walk_err(contract@, w@, reports@, free0, k + 1, w@.len() as int); }
                        return Err(ContractError::UnsettledOrder);
                    },
                }
            } else {
                proof { lemma_cancel_walk_err(contract@, w@, reports@, free0, k + 1, w@.len() as int); }
                return Err(ContractError::UnsettledOrder);
            };
            match validate_order(contract, id, &order, oc) {
                Ok(()) => {},
                Err(e) => {
                    proof { lemma_cancel_walk_err(contract@, w@, reports@, free0, k + 1, w@.len() as int); }
                    return Err(e);
                },
            }
            if oc.remaining != order.remaining {
                proof { lemma_cancel_walk_err(contract@, w@, reports@, free0, k + 1, w@.len() as int); }
                return Err(ContractError::UnsettledOrder);
            }
            if side_input_index(order.side) == 0 {
                if f0 > u128::MAX - oc.remaining {
                    proof { lemma_cancel_walk_err(contract@, w@, reports@, free0, k + 1, w@.len() as int); }
                    return Err(ContractError::Overflow);
                }
                f0 = f0 + oc.remaining;
            } else {
                if f1 > u128::MAX - oc.remaining {
                    proof { lemma_cancel_walk_err(contract@, w@, reports@, free0, k + 1, w@.len() as int); }
                    return Err(ContractError::Overflow);
                }
                f1 = f1 + oc.remaining;
            }
            ids.push(id);
            proof {
                assert(w@.take(k + 1) =~= w@.take(k as int).push(w@[k as int]));
                assert(walk_ids(w@.take(k + 1)) =~= walk_ids(w@.take(k as int)).push(id));
            }
            k = k + 1;
        }
        proof {
            assert(w@.take(w@.len() as int) =~= w@);
        }
        let count = w.len();
        proof {
            assert(count <= old(self).config.max_orders_per_reconcile);
        }
        if (self.bots[i].bot.active_orders as usize) < count {
            return Err(ContractError::InvalidOrder);
        }
        let size = match batch_limit {
            Some(b) => if b >= 1 { b } else { 1 },
            None => return Err(ContractError::Std(StdFault::QueryFailed)),
        };
        let batches = id_batches(&ids, size);
        let new_active: u32 = self.bots[i].bot.active_orders - count as u32;
        let ghost pre = *self;
        let mut rec = self.bots.remove(i);
        let ghost rec0 = rec;
        let ghost orders0 = rec.orders@;
        let mut t: usize = 0;
        while t < count
            invariant
                t <= count,
                count == w@.len(),
                ids@ == walk_ids(w@),
                rec.orders.wf(),
                rec.bot == rec0.bot,
                rec.rungs == rec0.rungs,
                rec.shares == rec0.shares,
                forall|id: u64| #[trigger] rec.orders@.contains_key(id) <==> orders0.contains_key(id) && !walk_ids(w@).take(t as int).contains(id),
                forall|id: u64| #[trigger] rec.orders@.contains_key(id) ==> rec.orders@[id] == orders0[id],
            decreases count - t,
        {
            let id = ids[t];
            let ghost before = rec.orders@;
            rec.orders.remove(id);
            proof {
                let a = walk_ids(w@).take(t as int);
                let b = walk_ids(w@).take(t + 1);
                assert(b =~= a.push(id));
                assert forall|x: u64| #[trigger] rec.orders@.contains_key(x) <==> orders0.contains_key(x) && !b.contains(x) by {
                    assert(rec.orders@.contains_key(x) <==> before.contains_key(x) && x != id);
                    if a.contains(x) {
                        let q = choose|q: int| 0 <= q < a.len() && #[trigger] a[q] == x;
                        assert(b[q] == x);
                    }
                    if x == id {
                        assert(b[t as int] == id);
                    }
                    if b.contains(x) && x != id {
                        let q = choose|q: int| 0 <= q < b.len() && #[trigger] b[q] == x;
                        assert(q < t);
                        assert(a[q] == x);
                    }
                }
            }
            t = t + 1;
        }
        proof {
            assert(walk_ids(w@).take(count as int) =~= walk_ids(w@));
        }
        rec.bot.free_balances = [f0, f1];
        rec.bot.active_orders = new_active;
        let ghost updated = rec;
        self.bots.insert(i, rec);
        proof {
            lemma_put_back(pre.bots@, i as int, updated);
            assert forall|j: int| 0 <= j < self.bots@.len() implies (#[trigger] self.bots@[j]).wf() by {
                if j != i {
                    assert(self.bots@[j] == pre.bots@[j]);
                }
            }
        }
        Ok(batches)
    }
}


/// A keeper's report of what one order did since it was placed.
#[derive(Clone, Debug)]
pub struct OrderFillReport {
    pub pair: String,
    pub order_id: u64,
    pub input_amount: u128,
    pub output_amount: u128,
    pub fill_count: u32,
}

/// The report checked against the order: the input and output it claims, or
/// `InvalidFillReport`. Without fills it must be empty and the order over;
/// with fills both amounts are positive and the output side, summed per fill
/// and floored, lies below the aggregate floor by less than one unit per fill.
pub open spec fn indexed_report(order: GridOrder, rep: OrderFillReport, terminal: bool) -> Result<(int, int), ContractError> {
    if rep.fill_count == 0 {
        if terminal && rep.input_amount == 0 && rep.output_amount == 0 {
            Ok((0, 0))
        } else {
            Err(ContractError::InvalidFillReport)
        }
    } else if rep.input_amount == 0 || rep.output_amount == 0 {
        Err(ContractError::InvalidFillReport)
    } else {
        let aggregate = match order.side {
            LimitOrderSide::Ask => ratio(rep.input_amount as int, order.price.atomics as int, unit()),
            LimitOrderSide::Bid => ratio(rep.output_amount as int, order.price.atomics as int, unit()),
        };
        let indexed = match order.side {
            LimitOrderSide::Ask => rep.output_amount as int,
            LimitOrderSide::Bid => rep.input_amount as int,
        };
        if indexed > aggregate || aggregate - indexed >= rep.fill_count {
            Err(ContractError::InvalidFillReport)
        } else {
            Ok((rep.input_amount as int, rep.output_amount as int))
        }
    }
}

/// The aggregate floor a report with fills is checked against fits in 128 bits.
pub open spec fn report_fits(order: GridOrder, rep: OrderFillReport) -> bool {
    rep.fill_count != 0 && rep.input_amount != 0 && rep.output_amount != 0 ==> match order.side {
        LimitOrderSide::Ask => ratio(rep.input_amount as int, order.price.atomics as int, unit()) <= u128::MAX,
        LimitOrderSide::Bid => ratio(rep.output_amount as int, order.price.atomics as int, unit()) <= u128::MAX,
    }
}

pub fn validate_indexed_report(order: &GridOrder, rep: &OrderFillReport, terminal: bool) -> (r: Result<(u128, u128), ContractError>)
    requires
        report_fits(*order, *rep),
    ensures
        match indexed_report(*order, *rep, terminal) {
            Ok((i, o)) => r == Ok::<(u128, u128), ContractError>((i as u128, o as u128)),
            Err(e) => r == Err::<(u128, u128), ContractError>(e),
        },
{
    if rep.fill_count == 0 {
        if terminal && rep.input_amount == 0 && rep.output_amount == 0 {
            return Ok((0, 0));
        }
        return Err(ContractError::InvalidFillReport);
    }
    if rep.input_amount == 0 || rep.output_amount == 0 {
        return Err(ContractError::InvalidFillReport);
    }
    let (basis, indexed) = match order.side {
        LimitOrderSide::Ask => (rep.input_amount, rep.output_amount),
        LimitOrderSide::Bid => (rep.output_amount, rep.input_amount),
    };
    let aggregate = match crate::math::mul_amount(basis, order.price) {
        Some(v) => v,
        None => return Err(ContractError::Overflow),
    };
    if indexed > aggregate || aggregate - indexed >= rep.fill_count as u128 {
        return Err(ContractError::InvalidFillReport);
    }
    Ok((rep.input_amount, rep.output_amount))
}

/// What the pair says of one reported order: what it still holds, whether the
/// order is over, and the escrow parked for the vault to claim.
pub open spec fn report_status(contract: Seq<char>, id: u64, order: GridOrder, status: OrderStatus) -> Result<(int, bool, int), ContractError> {
    match status {
        OrderStatus::Active(oc) => if oc.owner@ != contract {
            Err(ContractError::InvalidOrderOwner)
        } else if !order_matches(contract, id, order, oc) {
            Err(ContractError::InvalidOrder)
        } else {
            Ok((oc.remaining as int, false, 0))
        },
        OrderStatus::Parked(Some(rf)) => if rf.owner@ != contract || rf.order_id != id || rf.side != order.side
            || rf.remaining > order.remaining {
            Err(ContractError::InvalidOrder)
        } else {
            Ok((rf.remaining as int, true, rf.remaining as int))
        },
        OrderStatus::Parked(None) => Ok((0, true, 0)),
        OrderStatus::Unverifiable => Err(ContractError::Std(StdFault::QueryFailed)),
    }
}

/// The side and rung an order's proceeds are re-placed on: one rung below a
/// filled ask (as a bid), one rung above a filled bid (as an ask), within the grid.
pub open spec fn opposite_of(order: GridOrder, grid_count: u32) -> (LimitOrderSide, u32) {
    match order.side {
        LimitOrderSide::Ask => (LimitOrderSide::Bid, if order.rung_index >= 1 { (order.rung_index - 1) as u32 } else { 0 }),
        LimitOrderSide::Bid => (LimitOrderSide::Ask, if order.rung_index + 1 <= grid_count - 1 { (order.rung_index + 1) as u32 } else { (grid_count - 1) as u32 }),
    }
}

/// The state of a reconcile walk: free balances, active orders, the orders,
/// the ids whose parked escrow is claimed, and the placements to make.
pub type FillState = (int, int, int, Map<u64, GridOrder>, Seq<u64>, Seq<(LimitOrderSide, u32, u128)>);

/// The reconcile walk over the first `n` reports, or the first error.
pub open spec fn fill_walk(
    contract: Seq<char>,
    rec: BotRecord,
    reports: Seq<OrderFillReport>,
    statuses: Seq<OrderStatus>,
    n: int,
) -> Result<FillState, ContractError>
    decreases n,
{
    if n <= 0 {
        Ok((
            rec.bot.free_balances[0] as int,
            rec.bot.free_balances[1] as int,
            rec.bot.active_orders as int,
            rec.orders@,
            Seq::empty(),
            Seq::empty(),
        ))
    } else {
        match fill_walk(contract, rec, reports, statuses, n - 1) {
            Err(e) => Err(e),
            Ok(st) => {
                let rep = reports[n - 1];
                let id = rep.order_id;
                if rep.pair@ != rec.bot.pair@ {
                    Err(ContractError::InvalidFillReport)
                } else if exists|j: int| 0 <= j < n - 1 && (#[trigger] reports[j]).order_id == id {
                    Err(ContractError::InvalidFillReport)
                } else if !rec.orders@.contains_key(id) {
                    Err(ContractError::Std(StdFault::NotFound))
                } else if n - 1 >= statuses.len() {
                    Err(ContractError::Std(StdFault::QueryFailed))
                } else {
                    let order = rec.orders@[id];
                    match report_status(contract, id, order, statuses[n - 1]) {
                        Err(e) => Err(e),
                        Ok((current, terminal, refund)) => match indexed_report(order, rep, terminal) {
                            Err(e) => Err(e),
                            Ok((input, output)) => {
                                let consumed = order.remaining - current;
                                if input != consumed || (consumed == 0 && !terminal) {
                                    Err(ContractError::InvalidFillReport)
                                } else {
                                    let out_k = 1 - input_index(order.side);
                                    let h0 = if out_k == 0 { st.0 + output } else { st.0 };
                                    let h1 = if out_k == 1 { st.1 + output } else { st.1 };
                                    let opp = opposite_of(order, rec.bot.grid_count);
                                    let places = if output != 0 { st.5.push((opp.0, opp.1, output as u128)) } else { st.5 };
                                    if h0 > u128::MAX || h1 > u128::MAX {
                                        Err(ContractError::Overflow)
                                    } else if terminal {
                                        let in_k = input_index(order.side);
                                        let i0 = if in_k == 0 { h0 + refund } else { h0 };
                                        let i1 = if in_k == 1 { h1 + refund } else { h1 };
                                        let claims = if refund != 0 { st.4.push(id) } else { st.4 };
                                        if refund != 0 && (i0 > u128::MAX || i1 > u128::MAX) {
                                            Err(ContractError::Overflow)
                                        } else if st.2 == 0 {
                                            Err(ContractError::InvalidOrder)
                                        } else {
                                            Ok((i0, i1, st.2 - 1, st.3.remove(id), claims, places))
                                        }
                                    } else {
                                        Ok((h0, h1, st.2, st.3.insert(id, GridOrder { remaining: current as u128, ..order }), st.4, places))
                                    }
                                }
                            },
                        },
                    }
                }
            },
        }
    }
}

/// A reported fill re-places its proceeds one rung away on the other side: a
/// filled ask at rung `i` as a bid at rung `i - 1` (at rung 0 when `i` is 0), a
/// filled bid at rung `i` as an ask at rung `i + 1` (at the top rung when `i` is
/// already there), for exactly the output the report gave. A report with output
/// adds one placement after the earlier ones; one without adds none.
pub proof fn law_fill_reposted_one_rung_away(
    contract: Seq<char>,
    rec: BotRecord,
    reports: Seq<OrderFillReport>,
    statuses: Seq<OrderStatus>,
    n: int,
)
    requires
        1 <= n <= reports.len(),
        rec.bot.grid_count >= 1,
        fill_walk(contract, rec, reports, statuses, n) is Ok,
    ensures
        ({
            let before = fill_walk(contract, rec, reports, statuses, n - 1)->Ok_0.5;
            let after = fill_walk(contract, rec, reports, statuses, n)->Ok_0.5;
            let o = rec.orders@[reports[n - 1].order_id];
            let i = o.rung_index as int;
            let top = rec.bot.grid_count as int - 1;
            &&& fill_walk(contract, rec, reports, statuses, n - 1) is Ok
            &&& rec.orders@.contains_key(reports[n - 1].order_id)
            &&& reports[n - 1].output_amount == 0 ==> after == before
            &&& reports[n - 1].output_amount > 0 ==> after.len() == before.len() + 1 && after.drop_last() == before && {
                let placed = after.last();
                &&& o.side == LimitOrderSide::Ask ==> placed.0 == LimitOrderSide::Bid
                    && placed.1 as int == (if i > 0 { i - 1 } else { 0 })
                &&& o.side == LimitOrderSide::Bid ==> placed.0 == LimitOrderSide::Ask
                    && placed.1 as int == (if i < top { i + 1 } else { top })
                &&& placed.2 == reports[n - 1].output_amount
            }
        }),
{
    let before = fill_walk(contract, rec, reports, statuses, n - 1)->Ok_0.5;
    let after = fill_walk(contract, rec, reports, statuses, n)->Ok_0.5;
    if reports[n - 1].output_amount > 0 {
        assert(after.drop_last() =~= before);
    }
}

pub proof fn lemma_fill_walk_err(contract: Seq<char>, rec: BotRecord, reports: Seq<OrderFillReport>, statuses: Seq<OrderStatus>, n0: int, n: int)
    requires
        0 <= n0 <= n,
        fill_walk(contract, rec, reports, statuses, n0) is Err,
    ensures
        fill_walk(contract, rec, reports, statuses, n) == fill_walk(contract, rec, reports, statuses, n0),
    decreases n - n0,
{
    if n > n0 {
        lemma_fill_walk_err(contract, rec, reports, statuses, n0, n - 1);
    }
}

/// The placements of a reconcile made in turn from free balances `free`,
/// `active` orders and reply id `next`: each one deferred at the active-order
/// cap, refused when its token's free balance is short or the reply ids are
/// exhausted. The free balances, active orders and next reply id after the
/// first `n`, or the first error.
pub open spec fn place_walk(max_active: int, free0: int, free1: int, active: int, next: int, ps: Seq<(LimitOrderSide, u32, u128)>, n: int) -> Result<(int, int, int, int), ContractError>
    decreases n,
{
    if n <= 0 {
        Ok((free0, free1, active, next))
    } else {
        match place_walk(max_active, free0, free1, active, next, ps, n - 1) {
            Err(e) => Err(e),
            Ok((f0, f1, a, x)) => {
                let (side, rung, amount) = ps[n - 1];
                let k = input_index(side);
                let f = if k == 0 { f0 } else { f1 };
                if amount == 0 || a + 1 > max_active {
                    Ok((f0, f1, a, x))
                } else if amount > f {
                    Err(ContractError::InsufficientBalance)
                } else if x == u64::MAX {
                    Err(ContractError::Std(StdFault::Overflow))
                } else if k == 0 {
                    Ok((f0 - amount, f1, a + 1, x + 1))
                } else {
                    Ok((f0, f1 - amount, a + 1, x + 1))
                }
            },
        }
    }
}

pub proof fn lemma_place_walk_err(max_active: int, free0: int, free1: int, active: int, next: int, ps: Seq<(LimitOrderSide, u32, u128)>, n0: int, n: int)
    requires
        0 <= n0 <= n,
        place_walk(max_active, free0, free1, active, next, ps, n0) is Err,
    ensures
        place_walk(max_active, free0, free1, active, next, ps, n) == place_walk(max_active, free0, free1, active, next, ps, n0),
    decreases n - n0,
{
    if n > n0 {
        lemma_place_walk_err(max_active, free0, free1, active, next, ps, n0, n - 1);
    }
}

/// Whether the `j`-th placement of a reconcile is sent: it has an amount and
/// the bot is below its active-order cap after the earlier ones.
pub open spec fn placement_sent(max_active: int, free0: int, free1: int, active: int, next: int, ps: Seq<(LimitOrderSide, u32, u128)>, j: int) -> bool {
    let before = place_walk(max_active, free0, free1, active, next, ps, j)->Ok_0;
    ps[j].2 != 0 && before.2 + 1 <= max_active
}

/// The `j`-th step of a reconcile's placements: sent with the next reply id,
/// for one rung, on the placement's side and amount; deferred at the cap; or
/// nothing for a zero amount.
pub open spec fn placement_step_ok(rec: BotRecord, max_active: int, free0: int, free1: int, active: int, next: int, ps: Seq<(LimitOrderSide, u32, u128)>, j: int, step: AllocationStep) -> bool {
    let before = place_walk(max_active, free0, free1, active, next, ps, j)->Ok_0;
    &&& (step is Placed) == placement_sent(max_active, free0, free1, active, next, ps, j)
    &&& (step is Deferred) == (ps[j].2 != 0 && before.2 + 1 > max_active)
    &&& step matches AllocationStep::Placed(req) ==> {
        &&& req.reply_id == before.3
        &&& req.side == ps[j].0
        &&& req.amount == ps[j].2
        &&& req.token == rec.bot.asset_tokens[input_index(ps[j].0)]
        &&& req.pair == rec.bot.pair
        &&& req.orders@.len() == 1
        &&& req.orders@[0] == manager_item(rec.rungs@[ps[j].1 as int].price, ps[j].2)
    }
}

/// A placement sent for `rung` is recorded under its reply id for the bot,
/// with its side and its one gross amount.
pub open spec fn plan_recorded(placements: Map<u64, PlacementPlan>, bot_id: u64, rung: u32, step: AllocationStep) -> bool {
    step matches AllocationStep::Placed(req) ==> {
        &&& placements.contains_key(req.reply_id)
        &&& placements[req.reply_id].bot_id == bot_id
        &&& placements[req.reply_id].side == req.side
        &&& placements[req.reply_id].rungs@ == seq![rung]
        &&& placements[req.reply_id].gross_amounts@ == seq![req.amount]
    }
}

/// What a reconcile did.
#[derive(Debug)]
pub struct ManagerReconcile {
    pub changed_orders: u64,
    /// Claims of parked escrow sent to the pair, in batches.
    pub claim_batches: Vec<Vec<u64>>,
    /// The opposite placements, in report order.
    pub steps: Vec<AllocationStep>,
    /// The reward paid to the keeper out of the bot's gas credit.
    pub keeper_reward: u128,
}


/// The orders after `n` changes: `None` drops the id, `Some` sets it.
pub open spec fn apply_changes(m: Map<u64, GridOrder>, changes: Seq<(u64, Option<GridOrder>)>, n: int) -> Map<u64, GridOrder>
    decreases n,
{
    if n <= 0 {
        m
    } else {
        let prev = apply_changes(m, changes, n - 1);
        match changes[n - 1].1 {
            None => prev.remove(changes[n - 1].0),
            Some(o) => prev.insert(changes[n - 1].0, o),
        }
    }
}

/// Appending a change leaves the first `n` changes as they were.
proof fn lemma_apply_changes_push(m: Map<u64, GridOrder>, changes: Seq<(u64, Option<GridOrder>)>, x: (u64, Option<GridOrder>), n: int)
    requires
        0 <= n <= changes.len(),
    ensures
        apply_changes(m, changes.push(x), n) == apply_changes(m, changes, n),
    decreases n,
{
    if n > 0 {
        lemma_apply_changes_push(m, changes, x, n - 1);
        assert(changes.push(x)[n - 1] == changes[n - 1]);
    }
}

/// Changes that keep every order on a rung below `g` leave all orders there.
proof fn lemma_apply_changes_rungs(m: Map<u64, GridOrder>, changes: Seq<(u64, Option<GridOrder>)>, n: int, g: u32)
    requires
        0 <= n <= changes.len(),
        forall|id: u64| #[trigger] m.contains_key(id) ==> m[id].rung_index < g,
        forall|j: int| 0 <= j < changes.len() && (#[trigger] changes[j]).1 is Some ==> changes[j].1->0.rung_index < g,
    ensures
        forall|id: u64| #[trigger] apply_changes(m, changes, n).contains_key(id) ==> apply_changes(m, changes, n)[id].rung_index < g,
    decreases n,
{
    if n > 0 {
        lemma_apply_changes_rungs(m, changes, n - 1, g);
        let prev = apply_changes(m, changes, n - 1);
        let c = changes[n - 1];
        assert forall|id: u64| #[trigger] apply_changes(m, changes, n).contains_key(id) implies apply_changes(m, changes, n)[id].rung_index < g by {
            match c.1 {
                None => {
                    assert(prev.contains_key(id));
                },
                Some(o) => {
                    if id != c.0 {
                        assert(prev.contains_key(id));
                    }
                },
            }
        }
    }
}

/// What walking the reports gives: free balances, active orders, the ids whose
/// parked escrow is claimed, the placements to make and the order changes.
pub type ReportWalk = (u128, u128, u32, Vec<u64>, Vec<(LimitOrderSide, u32, u128)>, Vec<(u64, Option<GridOrder>)>);

/// The reports walked against the pair's answers, as `fill_walk` says.
fn walk_reports(
    rec: &BotRecord,
    contract: &String,
    reports: &Vec<OrderFillReport>,
    statuses: &Vec<OrderStatus>,
) -> (r: Result<ReportWalk, ContractError>)
    requires
        rec.wf(),
        forall|j: int| 0 <= j < reports@.len() && #[trigger] rec.orders@.contains_key(reports@[j].order_id) ==> report_fits(
            rec.orders@[reports@[j].order_id], reports@[j]),
    ensures
        match fill_walk(contract@, *rec, reports@, statuses@, reports@.len() as int) {
            Err(e) => r == Err::<ReportWalk, ContractError>(e),
            Ok(st) => r is Ok && {
                let out = r->Ok_0;
                &&& st.0 == out.0 && st.1 == out.1 && st.2 == out.2
                &&& st.3 == apply_changes(rec.orders@, out.5@, out.5@.len() as int)
                &&& st.4 == out.3@
                &&& st.5 == out.4@
                &&& forall|j: int| 0 <= j < out.4@.len() ==> (#[trigger] out.4@[j]).1 < rec.bot.grid_count
                &&& forall|j: int| 0 <= j < out.5@.len() && (#[trigger] out.5@[j]).1 is Some ==> out.5@[j].1->0.rung_index
                    < rec.bot.grid_count
            },
        },
{
    let grid_count = rec.bot.grid_count;
    let mut f0: u128 = rec.bot.free_balances[0];
    let mut f1: u128 = rec.bot.free_balances[1];
    let mut active: u32 = rec.bot.active_orders;
    let mut claims: Vec<u64> = Vec::new();
    let mut places: Vec<(LimitOrderSide, u32, u128)> = Vec::new();
    let mut changes: Vec<(u64, Option<GridOrder>)> = Vec::new();
    let mut seen = IdSet::new();
    let mut k: usize = 0;
    while k < reports.len()
        invariant
            rec.wf(),
            grid_count == rec.bot.grid_count,
            forall|j: int| 0 <= j < reports@.len() && #[trigger] rec.orders@.contains_key(reports@[j].order_id) ==> report_fits(
                rec.orders@[reports@[j].order_id], reports@[j]),
            k <= reports@.len(),
            fill_walk(contract@, *rec, reports@, statuses@, k as int) is Ok,
            ({
                let st = fill_walk(contract@, *rec, reports@, statuses@, k as int)->Ok_0;
                &&& st.0 == f0 && st.1 == f1 && st.2 == active
                &&& st.3 == apply_changes(rec.orders@, changes@, changes@.len() as int)
                &&& st.4 == claims@
                &&& st.5 == places@
            }),
            forall|j: int| 0 <= j < places@.len() ==> (#[trigger] places@[j]).1 < grid_count,
            forall|j: int| 0 <= j < changes@.len() && (#[trigger] changes@[j]).1 is Some ==> changes@[j].1->0.rung_index < grid_count,
            forall|x: u64| #[trigger] seen@.contains(x) <==> exists|j: int| 0 <= j < k && (#[trigger] reports@[j]).order_id == x,
        decreases reports@.len() - k,
    {
        let rep = &reports[k];
        let id = rep.order_id;
        if rep.pair != rec.bot.pair {
            proof {
                assert(reports@[k as int].pair@ != rec.bot.pair@);
                lemma_fill_walk_err(contract@, *rec, reports@, statuses@, k + 1, reports@.len() as int);
            }
            return Err(ContractError::InvalidFillReport);
        }
        if !seen.insert(id) {
            proof { lemma_fill_walk_err(contract@, *rec, reports@, statuses@, k + 1, reports@.len() as int); }
            return Err(ContractError::InvalidFillReport);
        }
        if !rec.orders.contains(id) {
            proof { lemma_fill_walk_err(contract@, *rec, reports@, statuses@, k + 1, reports@.len() as int); }
            return Err(ContractError::Std(StdFault::NotFound));
        }
        if k >= statuses.len() {
            proof { lemma_fill_walk_err(contract@, *rec, reports@, statuses@, k + 1, reports@.len() as int); }
            return Err(ContractError::Std(StdFault::QueryFailed));
        }
        let checked = check_report(rec, contract, rep, &statuses[k]);
        let (order, current, terminal, refund, input, output) = match checked {
            Ok(v) => v,
            Err(e) => {
                proof { lemma_fill_walk_err(contract@, *rec, reports@, statuses@, k + 1, reports@.len() as int); }
                return Err(e);
            },
        };
        let consumed = order.remaining - current;
        if input != consumed || (consumed == 0 && !terminal) {
            proof { lemma_fill_walk_err(contract@, *rec, reports@, statuses@, k + 1, reports@.len() as int); }
            return Err(ContractError::InvalidFillReport);
        }
        let out_k: usize = 1 - side_input_index(order.side);
        if (out_k == 0 && f0 > u128::MAX - output) || (out_k == 1 && f1 > u128::MAX - output) {
            proof { lemma_fill_walk_err(contract@, *rec, reports@, statuses@, k + 1, reports@.len() as int); }
            return Err(ContractError::Overflow);
        }
        let h0 = if out_k == 0 { f0 + output } else { f0 };
        let h1 = if out_k == 1 { f1 + output } else { f1 };
        let (opp_side, opp_rung): (LimitOrderSide, u32) = match order.side {
            LimitOrderSide::Ask => (LimitOrderSide::Bid, if order.rung_index >= 1 { order.rung_index - 1 } else { 0 }),
            LimitOrderSide::Bid => (LimitOrderSide::Ask, if order.rung_index + 1 <= grid_count - 1 { order.rung_index + 1 } else { grid_count - 1 }),
        };
        let ghost c0 = changes@;
        if terminal {
            let in_k = side_input_index(order.side);
            if refund != 0 && ((in_k == 0 && h0 > u128::MAX - refund) || (in_k == 1 && h1 > u128::MAX - refund)) {
                proof { lemma_fill_walk_err(contract@, *rec, reports@, statuses@, k + 1, reports@.len() as int); }
                return Err(ContractError::Overflow);
            }
            if active == 0 {
                proof { lemma_fill_walk_err(contract@, *rec, reports@, statuses@, k + 1, reports@.len() as int); }
                return Err(ContractError::InvalidOrder);
            }
            f0 = if in_k == 0 && refund != 0 { h0 + refund } else { h0 };
            f1 = if in_k == 1 && refund != 0 { h1 + refund } else { h1 };
            if refund != 0 {
                claims.push(id);
            }
            active = active - 1;
            changes.push((id, None));
        } else {
            f0 = h0;
            f1 = h1;
            changes.push((id, Some(GridOrder { rung_index: order.rung_index, side: order.side, price: order.price, remaining: current })));
        }
        proof {
            lemma_apply_changes_push(rec.orders@, c0, changes@[c0.len() as int], c0.len() as int);
            assert(changes@ == c0.push(changes@[c0.len() as int]));
        }
        if output != 0 {
            places.push((opp_side, opp_rung, output));
        }
        proof {
            assert forall|x: u64| #[trigger] seen@.contains(x) implies exists|j: int| 0 <= j < k + 1 && (#[trigger] reports@[j]).order_id == x by {
                if x == id {
                    assert(reports@[k as int].order_id == x);
                }
            }
        }
        k = k + 1;
    }
    Ok((f0, f1, active, claims, places, changes))
}

/// The placements checked in turn, as `place_walk` says, before any is made.
fn check_places(max_active: u32, f0: u128, f1: u128, active: u32, next: u64, places: &Vec<(LimitOrderSide, u32, u128)>) -> (r: Result<(), ContractError>)
    ensures
        match place_walk(max_active as int, f0 as int, f1 as int, active as int, next as int, places@, places@.len() as int) {
            Ok(_) => r is Ok,
            Err(e) => r == Err::<(), ContractError>(e),
        },
{
    let mut s0: u128 = f0;
    let mut s1: u128 = f1;
    let mut sa: u32 = active;
    let mut sx: u64 = next;
    let mut p: usize = 0;
    while p < places.len()
        invariant
            p <= places@.len(),
            place_walk(max_active as int, f0 as int, f1 as int, active as int, next as int, places@, p as int)
                == Ok::<(int, int, int, int), ContractError>((s0 as int, s1 as int, sa as int, sx as int)),
        decreases places@.len() - p,
    {
        let (side, _rung, amount) = places[p];
        let kk = side_input_index(side);
        let f = if kk == 0 { s0 } else { s1 };
        if amount == 0 || (sa as u64) + 1 > max_active as u64 {
        } else if amount > f {
            proof { lemma_place_walk_err(max_active as int, f0 as int, f1 as int, active as int, next as int, places@, p + 1, places@.len() as int); }
            return Err(ContractError::InsufficientBalance);
        } else if sx == u64::MAX {
            proof { lemma_place_walk_err(max_active as int, f0 as int, f1 as int, active as int, next as int, places@, p + 1, places@.len() as int); }
            return Err(ContractError::Std(StdFault::Overflow));
        } else {
            if kk == 0 {
                s0 = s0 - amount;
            } else {
                s1 = s1 - amount;
            }
            sa = sa + 1;
            sx = sx + 1;
        }
        p = p + 1;
    }
    Ok(())
}

/// The order changes applied to the table in turn.
fn apply_order_changes(orders: &mut IdTable<GridOrder>, changes: &Vec<(u64, Option<GridOrder>)>)
    requires
        old(orders).wf(),
    ensures
        final(orders).wf(),
        final(orders)@ == apply_changes(old(orders)@, changes@, changes@.len() as int),
{
    let ghost orders0 = orders@;
    let mut c: usize = 0;
    while c < changes.len()
        invariant
            c <= changes@.len(),
            orders.wf(),
            orders@ == apply_changes(orders0, changes@, c as int),
        decreases changes@.len() - c,
    {
        let (id, change) = changes[c];
        match change {
            None => {
                orders.remove(id);
            },
            Some(o) => {
                if orders.contains(id) {
                    orders.replace(id, o);
                } else {
                    orders.insert(id, o);
                }
            },
        }
        c = c + 1;
    }
}

/// The report's order, its status and the report checked, as the walk does.
fn check_report(
    rec: &BotRecord,
    contract: &String,
    rep: &OrderFillReport,
    status: &OrderStatus,
) -> (r: Result<(GridOrder, u128, bool, u128, u128, u128), ContractError>)
    requires
        rec.wf(),
        rec.orders@.contains_key(rep.order_id),
        report_fits(rec.orders@[rep.order_id], *rep),
    ensures
        ({
            let order = rec.orders@[rep.order_id];
            match report_status(contract@, rep.order_id, order, *status) {
                Err(e) => r == Err::<(GridOrder, u128, bool, u128, u128, u128), ContractError>(e),
                Ok((current, terminal, refund)) => match indexed_report(order, *rep, terminal) {
                    Err(e) => r == Err::<(GridOrder, u128, bool, u128, u128, u128), ContractError>(e),
                    Ok((input, output)) => r == Ok::<(GridOrder, u128, bool, u128, u128, u128), ContractError>(
                        (order, current as u128, terminal, refund as u128, input as u128, output as u128)),
                },
            }
        }),
{
    let order = match rec.orders.get(rep.order_id) {
        Some(o) => *o,
        None => return Err(ContractError::Std(StdFault::NotFound)),
    };
    let (current, terminal, refund): (u128, bool, u128) = match status {
        OrderStatus::Active(oc) => {
            match validate_order(contract, rep.order_id, &order, oc) {
                Ok(()) => {},
                Err(e) => return Err(e),
            }
            (oc.remaining, false, 0)
        },
        OrderStatus::Parked(Some(rf)) => {
            if rf.owner != *contract || rf.order_id != rep.order_id || rf.side != order.side || rf.remaining > order.remaining {
                return Err(ContractError::InvalidOrder);
            }
            (rf.remaining, true, rf.remaining)
        },
        OrderStatus::Parked(None) => (0, true, 0),
        OrderStatus::Unverifiable => return Err(ContractError::Std(StdFault::QueryFailed)),
    };
    let (input, output) = match validate_indexed_report(&order, rep, terminal) {
        Ok(v) => v,
        Err(e) => return Err(e),
    };
    Ok((order, current, terminal, refund, input, output))
}

impl GridManager {
    /// The keeper reconciles bot `bot_id` with the pair for the reported fills:
    /// each order's report is checked against what the pair holds, the output
    /// is credited, an ended order stops being tracked (its parked escrow is
    /// claimed), an open one keeps what is left; the proceeds are placed at the
    /// opposite rung, and the keeper is paid its reward from the gas credit.
    /// `statuses` are the pair's answers for the reported orders, in order;
    /// `batch_limit` is the pair's largest batch. Nothing changes on an error.
    pub fn reconcile(
        &mut self,
        sender: &String,
        has_funds: bool,
        contract: &String,
        bot_id: u64,
        reports: &Vec<OrderFillReport>,
        statuses: &Vec<OrderStatus>,
        batch_limit: Option<u32>,
    ) -> (r: Result<ManagerReconcile, ContractError>)
        requires
            old(self).wf(),
            old(self).has_bot(bot_id) ==> forall|j: int| 0 <= j < reports@.len() && #[trigger] old(self).record(bot_id).orders@.contains_key(
                reports@[j].order_id) ==> report_fits(old(self).record(bot_id).orders@[reports@[j].order_id], reports@[j]),
        ensures
            final(self).wf(),
            ({
                let rec = old(self).record(bot_id);
                let floor = manager_gas_floor(old(self).config);
                let pre: Result<(), ContractError> = if has_funds {
                    Err(ContractError::UnexpectedFunds)
                } else if !old(self).has_bot(bot_id) {
                    Err(ContractError::Std(StdFault::NotFound))
                } else if sender@ != old(self).config.keeper@ {
                    Err(ContractError::Unauthorized)
                } else if reports@.len() == 0 || reports@.len() > old(self).config.max_orders_per_reconcile {
                    Err(ContractError::InvalidFillReport)
                } else if floor > u128::MAX {
                    Err(ContractError::Overflow)
                } else if rec.bot.gas_credit < floor {
                    Err(ContractError::InsufficientGasCredit)
                } else {
                    Ok(())
                };
                let walk = fill_walk(contract@, rec, reports@, statuses@, reports@.len() as int);
                let st = walk->Ok_0;
                let pw = place_walk(old(self).config.max_active_orders_per_bot as int, st.0, st.1, st.2,
                    old(self).next_reply_id as int, st.5, st.5.len() as int);
                &&& pre matches Err(e) ==> r == Err::<ManagerReconcile, ContractError>(e)
                &&& pre is Ok && walk is Err ==> r == Err::<ManagerReconcile, ContractError>(walk->Err_0)
                &&& pre is Ok && walk is Ok && st.4.len() > 0 && batch_limit is None ==> r == Err::<ManagerReconcile, ContractError>(
                    ContractError::Std(StdFault::QueryFailed))
                &&& pre is Ok && walk is Ok && !(st.4.len() > 0 && batch_limit is None) && pw is Err ==> r
                    == Err::<ManagerReconcile, ContractError>(pw->Err_0)
                &&& r is Ok <==> pre is Ok && walk is Ok && !(st.4.len() > 0 && batch_limit is None) && pw is Ok
                &&& r is Err ==> *final(self) == *old(self)
                &&& r matches Ok(out) ==> {
                    let new_rec = final(self).record(bot_id);
                    let q = pw->Ok_0;
                    let size = if batch_limit matches Some(b) && b >= 1 { batch_limit->0 as int } else { 1 };
                    &&& out.changed_orders == reports@.len()
                    &&& out.keeper_reward == old(self).config.keeper_reward
                    &&& new_rec.bot.gas_credit == rec.bot.gas_credit - old(self).config.keeper_reward
                    &&& new_rec.bot.free_balances[0] == q.0 && new_rec.bot.free_balances[1] == q.1
                    &&& new_rec.bot.active_orders == q.2
                    &&& final(self).next_reply_id == q.3
                    &&& new_rec.orders@ == st.3
                    &&& new_rec.shares == rec.shares && new_rec.bot.total_shares == rec.bot.total_shares
                    &&& out.steps@.len() == st.5.len()
                    &&& forall|j: int| 0 <= j < st.5.len() ==> placement_step_ok(rec, old(self).config.max_active_orders_per_bot as int,
                        st.0, st.1, st.2, old(self).next_reply_id as int, st.5, j, #[trigger] out.steps@[j])
                    &&& forall|j: int| 0 <= j < st.5.len() ==> plan_recorded(final(self).placements@, bot_id, st.5[j].1,
                        #[trigger] out.steps@[j])
                    &&& forall|j: int| 0 <= j < out.claim_batches@.len() ==> (#[trigger] out.claim_batches@[j])@ == batch_at(st.4, size, j)
                    &&& st.4.len() == 0 ==> out.claim_batches@.len() == 0
                    &&& st.4.len() > 0 ==> (out.claim_batches@.len() - 1) * size < st.4.len() <= out.claim_batches@.len() * size
                    &&& final(self).bots@.len() == old(self).bots@.len()
                    &&& forall|j: int| 0 <= j < old(self).bots@.len() && j != bot_id - 1 ==> final(self).bots@[j] == old(self).bots@[j]
                    &&& forall|id: u64| #[trigger] final(self).placements@.contains_key(id) ==> old(self).placements@.contains_key(id)
                        || old(self).next_reply_id <= id < final(self).next_reply_id
                    &&& forall|id: u64| #[trigger] old(self).placements@.contains_key(id) ==> final(self).placements@.contains_key(id)
                        && final(self).placements@[id] == old(self).placements@[id]
                }
            }),
    {
        if has_funds {
            return Err(ContractError::UnexpectedFunds);
        }
        let i = match bot_position(&self.bots, bot_id) {
            Ok(i) => i,
            Err(e) => return Err(e),
        };
        if *sender != self.config.keeper {
            return Err(ContractError::Unauthorized);
        }
        if reports.len() == 0 || reports.len() > self.config.max_orders_per_reconcile as usize {
            return Err(ContractError::InvalidFillReport);
        }
        let required = match manager_required_gas(&self.config) {
            Ok(v) => v,
            Err(e) => return Err(e),
        };
        if self.bots[i].bot.gas_credit < required {
            return Err(ContractError::InsufficientGasCredit);
        }
        let ghost rec0 = self.bots@[i as int];
        let walked = walk_reports(&self.bots[i], contract, reports, statuses);
        let (f0, f1, active, claims, places, changes) = match walked {
            Ok(v) => v,
            Err(e) => return Err(e),
        };
        // Claims go out in batches of the pair's size.
        let claim_batches = if claims.len() > 0 {
            match batch_limit {
                Some(b) => id_batches(&claims, if b >= 1 { b } else { 1 }),
                None => return Err(ContractError::Std(StdFault::QueryFailed)),
            }
        } else {
            Vec::new()
        };
        // Check the placements in turn before making any.
        let max_active = self.config.max_active_orders_per_bot;
        match check_places(max_active, f0, f1, active, self.next_reply_id, &places) {
            Ok(()) => {},
            Err(e) => return Err(e),
        }
        // Commit.
        let ghost pre = *self;
        let reward = self.config.keeper_reward;
        let mut rec = self.bots.remove(i);
        apply_order_changes(&mut rec.orders, &changes);
        proof {
            lemma_apply_changes_rungs(rec0.orders@, changes@, changes@.len() as int, rec0.bot.grid_count);
        }
        rec.bot.free_balances = [f0, f1];
        rec.bot.active_orders = active;
        rec.bot.gas_credit = rec.bot.gas_credit - reward;
        let ghost base = rec;
        let mut steps: Vec<AllocationStep> = Vec::new();
        let mut q: usize = 0;
        while q < places.len()
            invariant
                q <= places@.len(),
                rec.wf(),
                rec.orders == base.orders,
                rec.shares == base.shares,
                rec.bot.gas_credit == base.bot.gas_credit,
                rec.bot.total_shares == base.bot.total_shares,
                rec.bot.grid_count == base.bot.grid_count,
                rec.rungs == rec0.rungs,
                rec.bot.asset_tokens == rec0.bot.asset_tokens,
                rec.bot.pair == rec0.bot.pair,
                steps@.len() == q,
                forall|k: int| 0 <= k < q ==> placement_step_ok(rec0, max_active as int, f0 as int, f1 as int, active as int,
                    pre.next_reply_id as int, places@, k, #[trigger] steps@[k]),
                forall|k: int| 0 <= k < q ==> plan_recorded(self.placements@, bot_id, places@[k].1, #[trigger] steps@[k]),
                forall|k: int| 0 <= k < q && (#[trigger] steps@[k]) is Placed ==> steps@[k]->Placed_0.reply_id < self.next_reply_id,
                self.placements.wf(),
                self.bots@ == pre.bots@.remove(i as int),
                self.config == pre.config,
                forall|id: u64| #[trigger] self.placements@.contains_key(id) ==> id < self.next_reply_id,
                forall|id: u64| #[trigger] self.placements@.contains_key(id) ==> pre.placements@.contains_key(id)
                    || pre.next_reply_id <= id < self.next_reply_id,
                forall|id: u64| #[trigger] pre.placements@.contains_key(id) ==> self.placements@.contains_key(id)
                    && self.placements@[id] == pre.placements@[id],
                pre.next_reply_id <= self.next_reply_id,
                place_walk(max_active as int, f0 as int, f1 as int, active as int, pre.next_reply_id as int, places@, q as int)
                    == Ok::<(int, int, int, int), ContractError>((rec.bot.free_balances[0] as int, rec.bot.free_balances[1] as int,
                        rec.bot.active_orders as int, self.next_reply_id as int)),
                place_walk(max_active as int, f0 as int, f1 as int, active as int, pre.next_reply_id as int, places@, places@.len() as int) is Ok,
                forall|j: int| 0 <= j < places@.len() ==> (#[trigger] places@[j]).1 < rec.bot.grid_count,
                max_active == self.config.max_active_orders_per_bot,
            decreases places@.len() - q,
        {
            proof {
                if place_walk(max_active as int, f0 as int, f1 as int, active as int, pre.next_reply_id as int, places@, q + 1) is Err {
                    lemma_place_walk_err(max_active as int, f0 as int, f1 as int, active as int, pre.next_reply_id as int, places@, q + 1,
                        places@.len() as int);
                }
            }
            let (side, rung, amount) = places[q];
            let mut one: Vec<u32> = Vec::new();
            one.push(rung);
            proof {
                assert(one@.len() == 1);
                assert(one@[0] == rung);
                assert(amount * 1 == amount);
            }
            let step = rec.place(bot_id, &self.config, &mut self.next_reply_id, &mut self.placements, side, one, amount);
            match step {
                Ok(s) => {
                    proof {
                        assert(placement_step_ok(rec0, max_active as int, f0 as int, f1 as int, active as int, pre.next_reply_id as int,
                            places@, q as int, s));
                        if s is Placed {
                            assert(self.placements@[s->Placed_0.reply_id].gross_amounts@ =~= seq![s->Placed_0.amount]);
                            assert(self.placements@[s->Placed_0.reply_id].rungs@ =~= seq![rung]);
                        }
                    }
                    steps.push(s);
                },
                Err(_) => {
                    proof { assert(false); }
                },
            }
            q = q + 1;
        }
        let ghost updated = rec;
        self.bots.insert(i, rec);
        proof {
            lemma_put_back(pre.bots@, i as int, updated);
            assert forall|j: int| 0 <= j < self.bots@.len() implies (#[trigger] self.bots@[j]).wf() by {
                if j != i {
                    assert(self.bots@[j] == pre.bots@[j]);
                }
            }
        }
        Ok(ManagerReconcile {
            changed_orders: reports.len() as u64,
            claim_batches,
            steps,
            keeper_reward: reward,
        })
    }
}

} // verus!
