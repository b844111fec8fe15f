//! Reconciliation of the limit-grid vault with the pair: fills credited from
//! the vault's token balances, tracked orders brought in line with the pair's
//! report, the protocol fee minted as shares to the collector, and parked
//! refunds claimed in confirmable pages.
use vstd::prelude::*;
use crate::errors::StdFault;
use crate::fee_registry::{EffectiveFeeResponse, TierSource};
use crate::grid_math::order_matches;
use crate::grid_pages::{page_size, pages_needed, PageRequest};
use crate::grid_types::{
    input_index, side_input_index, ContractError, ExpiredLimitRefundResponse, GridOrder, LimitOrderSide,
    OrderStatus, PendingPageEntry, VaultMode,
};
use crate::grid_vault::{entries_indexed, gas_floor, GridVault, BOT_ID};
use crate::id_set::IdSet;
use crate::market::{fee_shares_for_value, fee_shares_spec, law_fee_shares_never_overcharge};
use crate::math::{checked_ratio, lemma_ratio_le, ratio, unit, DECIMAL_FRACTIONAL};

verus! {

/// What one reported order turned out to be after comparing it with the pair.
#[derive(Clone, Copy, Debug, PartialEq, Eq, Structural)]
pub struct OrderOutcome {
    pub order_id: u64,
    /// What the pair still holds of the order.
    pub remaining: u128,
    /// The order is done on the pair (filled, expired or cancelled).
    pub terminal: bool,
    /// Escrow the pair holds for the vault to claim.
    pub refund: u128,
    /// Something was consumed, or the order ended.
    pub changed: bool,
    /// The order left the pair by being filled.
    pub executed: bool,
    /// The order left the pair by the vault's cancel.
    pub cancelled: bool,
    pub side: LimitOrderSide,
}

/// The protocol fee of a reconcile: none, minted as shares, or skipped because
/// the fee registry could not be read (with the reason).
#[derive(Clone, Debug)]
pub enum FeeDecision {
    NoFee,
    Applied { fee_bps: u16, shares: u128, tier: Option<u8>, source: TierSource },
    Unavailable(String),
}

/// What the chain reports for a reconcile.
pub struct ReconcileReads {
    /// The pair's current code id.
    pub code_id: Option<u64>,
    /// The vault's balance of each token.
    pub balances: [Option<u128>; 2],
    /// What the pair says of each reported order, in the same order.
    pub statuses: Vec<OrderStatus>,
    /// The fee registry's quote for the bot owner, or why it failed.
    pub fee: Result<EffectiveFeeResponse, String>,
    /// The pair's largest batch of rungs.
    pub batch_limit: Option<u32>,
}

pub struct ReconcileOutcome {
    /// Balance growth credited to the bot's free balances.
    pub credited: [u128; 2],
    pub changed_orders: u64,
    pub fully_executed: u64,
    pub cancelled: u64,
    pub fee: FeeDecision,
    /// Claims of parked refunds sent to the pair.
    pub pages: Vec<PageRequest>,
    /// The reward paid to the keeper out of the bot's gas credit.
    pub keeper_reward: Option<u128>,
}

/// The outcome for order `id`, recorded as `order`, given what the pair
/// reported and whether the vault cancelled it.
pub open spec fn order_outcome(
    contract: Seq<char>,
    id: u64,
    order: GridOrder,
    status: OrderStatus,
    was_cancelled: bool,
) -> Result<OrderOutcome, ContractError> {
    match status {
        OrderStatus::Active(oc) => if oc.owner@ != contract {
            Err(ContractError::InvalidOrderOwner)
        } else if !order_matches(contract, id, order, oc) {
            Err(ContractError::InvalidOrder)
        } else {
            Ok(
                OrderOutcome {
                    order_id: id,
                    remaining: oc.remaining,
                    terminal: oc.remaining == 0,
                    refund: 0,
                    changed: order.remaining > oc.remaining || oc.remaining == 0,
                    executed: false,
                    cancelled: false,
                    side: order.side,
                },
            )
        },
        OrderStatus::Parked(Some(rf)) => if rf.owner@ != contract || rf.order_id != id || rf.side != order.side
            || rf.remaining > order.remaining {
            Err(ContractError::InvalidOrder)
        } else {
            Ok(
                OrderOutcome {
                    order_id: id,
                    remaining: rf.remaining,
                    terminal: true,
                    refund: rf.remaining,
                    changed: true,
                    executed: false,
                    cancelled: false,
                    side: order.side,
                },
            )
        },
        OrderStatus::Parked(None) => Ok(
            OrderOutcome {
                order_id: id,
                remaining: 0,
                terminal: true,
                refund: 0,
                changed: true,
                executed: !was_cancelled,
                cancelled: was_cancelled,
                side: order.side,
            },
        ),
        OrderStatus::Unverifiable => Err(ContractError::OrderStatusUnverifiable),
    }
}

/// The order stops being tracked.
pub open spec fn dropped(o: OrderOutcome) -> bool {
    o.terminal && o.refund == 0
}

pub open spec fn count_dropped(s: Seq<OrderOutcome>) -> int
    decreases s.len(),
{
    if s.len() == 0 { 0 } else { count_dropped(s.drop_last()) + if dropped(s.last()) { 1int } else { 0 } }
}

pub open spec fn count_changed(s: Seq<OrderOutcome>) -> int
    decreases s.len(),
{
    if s.len() == 0 { 0 } else { count_changed(s.drop_last()) + if s.last().changed { 1int } else { 0 } }
}

pub open spec fn count_executed(s: Seq<OrderOutcome>) -> int
    decreases s.len(),
{
    if s.len() == 0 { 0 } else { count_executed(s.drop_last()) + if s.last().executed { 1int } else { 0 } }
}

pub open spec fn count_cancelled(s: Seq<OrderOutcome>) -> int
    decreases s.len(),
{
    if s.len() == 0 { 0 } else { count_cancelled(s.drop_last()) + if s.last().cancelled { 1int } else { 0 } }
}

/// The claims of parked refunds, in report order.
pub open spec fn claims_of(s: Seq<OrderOutcome>) -> Seq<PendingPageEntry>
    decreases s.len(),
{
    if s.len() == 0 {
        Seq::empty()
    } else {
        let before = claims_of(s.drop_last());
        let o = s.last();
        if o.terminal && o.refund > 0 {
            before.push(PendingPageEntry { order_id: o.order_id, token_index: input_index(o.side) as u8, refund: o.refund })
        } else {
            before
        }
    }
}

/// The tracked orders once the outcomes are applied: dropped orders go, live
/// ones take the pair's remaining amount, parked ones stay until claimed.
pub open spec fn apply_outcomes(m: Map<u64, GridOrder>, s: Seq<OrderOutcome>) -> Map<u64, GridOrder>
    decreases s.len(),
{
    if s.len() == 0 {
        m
    } else {
        let before = apply_outcomes(m, s.drop_last());
        let o = s.last();
        if dropped(o) {
            before.remove(o.order_id)
        } else if !o.terminal {
            before.insert(o.order_id, GridOrder { remaining: o.remaining, ..before[o.order_id] })
        } else {
            before
        }
    }
}

/// The outcomes of the first `n` reported orders, or the first error, checking
/// each in turn: no repeats, tracked, a status read, consistent with the pair,
/// and never more dropped orders than the bot has active.
pub open spec fn scan_orders(
    v: GridVault,
    contract: Seq<char>,
    ids: Seq<u64>,
    statuses: Seq<OrderStatus>,
    n: int,
) -> Result<Seq<OrderOutcome>, ContractError>
    decreases n,
{
    if n <= 0 {
        Ok(Seq::empty())
    } else {
        match scan_orders(v, contract, ids, statuses, n - 1) {
            Err(e) => Err(e),
            Ok(before) => {
                let id = ids[n - 1];
                if exists|j: int| 0 <= j < n - 1 && #[trigger] ids[j] == id {
                    Err(ContractError::InvalidFillReport)
                } else if !v.orders@.contains_key(id) {
                    Err(ContractError::Std(StdFault::NotFound))
                } else if n - 1 >= statuses.len() {
                    Err(ContractError::Std(StdFault::QueryFailed))
                } else {
                    match order_outcome(contract, id, v.orders@[id], statuses[n - 1], v.cancelled@.contains_key(id)) {
                        Err(e) => Err(e),
                        Ok(o) => if dropped(o) && count_dropped(before) >= v.bot.active_orders {
                            Err(ContractError::InvalidOrder)
                        } else {
                            Ok(before.push(o))
                        },
                    }
                }
            },
        }
    }
}

/// The checks before the orders: mode, funds, bot, report size, pair code, gas,
/// and the balance reads, which must not have shrunk. The credited growth, or
/// the first error.
pub open spec fn reconcile_precheck(
    v: GridVault,
    has_funds: bool,
    bot_id: u64,
    count: int,
    reads: ReconcileReads,
) -> Result<(int, int), ContractError> {
    if v.mode != VaultMode::Active {
        Err(ContractError::InvalidMode)
    } else if has_funds {
        Err(ContractError::UnexpectedFunds)
    } else if !v.bot_exists(bot_id) {
        Err(ContractError::Std(StdFault::NotFound))
    } else if count == 0 || count > v.config.max_orders_per_reconcile {
        Err(ContractError::InvalidFillReport)
    } else if reads.code_id is None {
        Err(ContractError::Std(StdFault::QueryFailed))
    } else if reads.code_id->0 != v.bot.pair_code_id {
        Err(ContractError::PairCodeMismatch)
    } else if gas_floor(v.config) > u128::MAX {
        Err(ContractError::Overflow)
    } else if v.bot.gas_credit < gas_floor(v.config) {
        Err(ContractError::InsufficientGasCredit)
    } else if reads.balances[0] is None {
        Err(ContractError::Std(StdFault::QueryFailed))
    } else if reads.balances[0]->0 < v.bot.free_balances[0] {
        Err(ContractError::UnsupportedTokenBehavior)
    } else if reads.balances[1] is None {
        Err(ContractError::Std(StdFault::QueryFailed))
    } else if reads.balances[1]->0 < v.bot.free_balances[1] {
        Err(ContractError::UnsupportedTokenBehavior)
    } else {
        Ok(((reads.balances[0]->0 - v.bot.free_balances[0]) as int, (reads.balances[1]->0 - v.bot.free_balances[1]) as int))
    }
}

/// The outcome reported for order `id` among `outs`, from index `i` on.
pub open spec fn outcome_from(outs: Seq<OrderOutcome>, id: u64, i: int) -> Option<OrderOutcome>
    decreases outs.len() - i,
{
    if i < 0 || i >= outs.len() {
        None
    } else if outs[i].order_id == id {
        Some(outs[i])
    } else {
        outcome_from(outs, id, i + 1)
    }
}

/// What the pair holds of tracked order `id` once the reconcile's outcomes
/// apply: an ended order only the refund left to claim, an open one what
/// remains, an unreported one what was recorded.
pub open spec fn held_after(id: u64, order: GridOrder, outs: Seq<OrderOutcome>) -> int {
    match outcome_from(outs, id, 0) {
        Some(o) => if o.terminal { o.refund as int } else { o.remaining as int },
        None => order.remaining as int,
    }
}

/// The escrow of token `k` the first `n` tracked orders hold after the outcomes.
pub open spec fn escrow_after(e: Seq<(u64, GridOrder)>, outs: Seq<OrderOutcome>, k: int, n: int) -> int
    decreases n,
{
    if n <= 0 {
        0
    } else {
        escrow_after(e, outs, k, n - 1) + if input_index(e[n - 1].1.side) == k { held_after(e[n - 1].0, e[n - 1].1, outs) } else { 0 }
    }
}

/// The bot's holdings of each token after a reconcile: the vault's balances
/// `b0`, `b1` and the escrow its tracked orders hold on the pair.
pub open spec fn inventory_after(v: GridVault, outs: Seq<OrderOutcome>, b0: int, b1: int) -> (int, int) {
    let e = v.orders.entries@;
    (b0 + escrow_after(e, outs, 0, e.len() as int), b1 + escrow_after(e, outs, 1, e.len() as int))
}

/// The fee of a reconcile that credited `c0` and `c1`: nothing without a
/// registry and a collector; skipped when the registry failed; otherwise the
/// fee `F` is the quoted rate (at most 100%) of the credited value in token 0,
/// priced at the reference price, and the collector, which holds `held`, is
/// minted `F * S / (A - F)` shares (rounded down), where `S` is the supply and
/// `A` the bot's holdings `t0`, `t1` after the reconcile, valued in token 0.
pub open spec fn fee_outcome(
    v: GridVault,
    c0: int,
    c1: int,
    fee: Result<EffectiveFeeResponse, String>,
    held: int,
    t0: int,
    t1: int,
) -> Result<FeeDecision, ContractError> {
    if v.config.fee_registry is None || v.config.fee_collector is None {
        Ok(FeeDecision::NoFee)
    } else {
        match fee {
            Err(reason) => Ok(FeeDecision::Unavailable(reason)),
            Ok(quote) => {
                let bps: int = if quote.fee_bps <= 10_000 { quote.fee_bps as int } else { 10_000 };
                let reference = v.bot.reference_price.atomics as int;
                if bps == 0 {
                    Ok(FeeDecision::NoFee)
                } else if c1 != 0 && reference == 0 {
                    Err(ContractError::InvalidPair)
                } else if c1 != 0 && ratio(c1, unit(), reference) > u128::MAX {
                    Err(ContractError::ArithmeticOutOfRange)
                } else {
                    let value = c0 + if c1 != 0 { ratio(c1, unit(), reference) } else { 0 };
                    let fee_value = ratio(value, bps, 10_000);
                    if value > u128::MAX {
                        Err(ContractError::Overflow)
                    } else if fee_value == 0 {
                        Ok(FeeDecision::NoFee)
                    } else if t0 > u128::MAX || t1 > u128::MAX {
                        Err(ContractError::Overflow)
                    } else if t1 != 0 && reference == 0 {
                        Err(ContractError::InvalidPair)
                    } else if t1 != 0 && ratio(t1, unit(), reference) > u128::MAX {
                        Err(ContractError::ArithmeticOutOfRange)
                    } else {
                        let asset = t0 + if t1 != 0 { ratio(t1, unit(), reference) } else { 0 };
                        let shares = fee_shares_spec(fee_value, asset, v.bot.total_shares as int);
                        if asset > u128::MAX || shares > u128::MAX {
                            Err(ContractError::Overflow)
                        } else if shares == 0 {
                            Ok(FeeDecision::NoFee)
                        } else if held + shares > u128::MAX || v.bot.total_shares + shares > u128::MAX {
                            Err(ContractError::Overflow)
                        } else {
                            Ok(
                                FeeDecision::Applied {
                                    fee_bps: bps as u16,
                                    shares: shares as u128,
                                    tier: quote.tier_id,
                                    source: quote.source,
                                },
                            )
                        }
                    }
                }
            },
        }
    }
}

/// Law: the protocol fee of a reconcile is at most 100% of the credited value
/// it is taken on (in token 0 at the reference price), and once its shares
/// are minted, the collector's claim on the bot's holdings (in token 0 at the
/// reference price) is at most that fee.
pub proof fn law_fee_within_credited_value(
    v: GridVault,
    c0: int,
    c1: int,
    fee: Result<EffectiveFeeResponse, String>,
    held: int,
    t0: int,
    t1: int,
)
    requires
        c0 >= 0,
        c1 >= 0,
        t0 >= 0,
        t1 >= 0,
        fee_outcome(v, c0, c1, fee, held, t0, t1) matches Ok(FeeDecision::Applied { .. }),
    ensures
        ({
            let reference = v.bot.reference_price.atomics as int;
            let value = c0 + if c1 != 0 { ratio(c1, unit(), reference) } else { 0 };
            let asset = t0 + if t1 != 0 { ratio(t1, unit(), reference) } else { 0 };
            let d = fee_outcome(v, c0, c1, fee, held, t0, t1)->Ok_0;
            let fee_value = ratio(value, d->fee_bps as int, 10_000);
            &&& d->fee_bps <= 10_000
            &&& fee_value <= value
            &&& d->shares * asset / (v.bot.total_shares + d->shares) <= fee_value
        }),
{
    let quote = fee->Ok_0;
    let bps: int = if quote.fee_bps <= 10_000 { quote.fee_bps as int } else { 10_000 };
    let reference = v.bot.reference_price.atomics as int;
    let converted = if c1 != 0 { ratio(c1, unit(), reference) } else { 0 };
    if c1 != 0 {
        assert(reference > 0);
        assert(c1 * unit() >= 0) by (nonlinear_arith) requires c1 >= 0, unit() > 0;
        assert(converted >= 0) by (nonlinear_arith) requires converted == c1 * unit() / reference, c1 * unit() >= 0, reference > 0;
    }
    let converted_t = if t1 != 0 { ratio(t1, unit(), reference) } else { 0 };
    if t1 != 0 {
        assert(reference > 0);
        assert(t1 * unit() >= 0) by (nonlinear_arith) requires t1 >= 0, unit() > 0;
        assert(converted_t >= 0) by (nonlinear_arith) requires converted_t == t1 * unit() / reference, t1 * unit() >= 0, reference > 0;
    }
    let value = c0 + converted;
    let asset = t0 + converted_t;
    lemma_ratio_le(value, bps, 10_000);
    let fee_value = ratio(value, bps, 10_000);
    assert(fee_value >= 0) by (nonlinear_arith) requires fee_value == value * bps / 10_000, value >= 0, bps >= 0;
    let d = fee_outcome(v, c0, c1, fee, held, t0, t1)->Ok_0;
    assert(v.bot.total_shares > 0) by {
        if v.bot.total_shares == 0 {
            assert(fee_shares_spec(fee_value, asset, 0) == 0);
        }
    }
    law_fee_shares_never_overcharge(fee_value, asset, v.bot.total_shares as int);
}

/// Shares the collector already holds.
pub open spec fn collector_held(v: GridVault) -> int {
    match v.config.fee_collector {
        Some(c) => v.shares.amount_of(c@),
        None => 0,
    }
}

/// The outcome reported for order `id`, found.
fn find_outcome(outs: &Vec<OrderOutcome>, id: u64) -> (r: Option<OrderOutcome>)
    ensures
        r == outcome_from(outs@, id, 0),
{
    let mut i: usize = 0;
    while i < outs.len()
        invariant
            i <= outs@.len(),
            outcome_from(outs@, id, 0) == outcome_from(outs@, id, i as int),
        decreases outs@.len() - i,
    {
        if outs[i].order_id == id {
            return Some(outs[i]);
        }
        i = i + 1;
    }
    None
}

/// Partial escrow sums only grow.
proof fn lemma_escrow_mono(e: Seq<(u64, GridOrder)>, outs: Seq<OrderOutcome>, k: int, a: int, b: int)
    requires
        0 <= a <= b <= e.len(),
        forall|j: int| 0 <= j < outs.len() ==> (#[trigger] outs[j]).refund >= 0,
    ensures
        escrow_after(e, outs, k, a) <= escrow_after(e, outs, k, b),
    decreases b - a,
{
    if a < b {
        lemma_escrow_mono(e, outs, k, a, b - 1);
    }
}

/// The escrow each token's tracked orders hold after the outcomes, or `None`
/// when a total does not fit.
fn escrow_totals(v: &GridVault, outs: &Vec<OrderOutcome>) -> (r: Option<(u128, u128)>)
    ensures
        ({
            let e = v.orders.entries@;
            let e0 = escrow_after(e, outs@, 0, e.len() as int);
            let e1 = escrow_after(e, outs@, 1, e.len() as int);
            &&& r is None <==> (e0 > u128::MAX || e1 > u128::MAX)
            &&& r matches Some(p) ==> p.0 == e0 && p.1 == e1
        }),
{
    let ghost e = v.orders.entries@;
    let n = v.orders.entries.len();
    let mut s0: u128 = 0;
    let mut s1: u128 = 0;
    let mut i: usize = 0;
    while i < n
        invariant
            n == e.len(),
            e == v.orders.entries@,
            i <= n,
            s0 == escrow_after(e, outs@, 0, i as int),
            s1 == escrow_after(e, outs@, 1, i as int),
        decreases n - i,
    {
        let (id, order) = v.orders.entries[i];
        let held: u128 = match find_outcome(outs, id) {
            Some(o) => if o.terminal { o.refund } else { o.remaining },
            None => order.remaining,
        };
        let k = side_input_index(order.side);
        if k == 0 {
            if s0 > u128::MAX - held {
                proof { lemma_escrow_mono(e, outs@, 0, i + 1, n as int); }
                return None;
            }
            s0 = s0 + held;
        } else {
            if s1 > u128::MAX - held {
                proof { lemma_escrow_mono(e, outs@, 1, i + 1, n as int); }
                return None;
            }
            s1 = s1 + held;
        }
        i = i + 1;
    }
    Some((s0, s1))
}

/// The fee decision, computed.
fn decide_fee(
    v: &GridVault,
    c0: u128,
    c1: u128,
    fee: &Result<EffectiveFeeResponse, String>,
    outs: &Vec<OrderOutcome>,
    b0: u128,
    b1: u128,
) -> (r: Result<FeeDecision, ContractError>)
    requires
        v.wf(),
    ensures
        r == fee_outcome(*v, c0 as int, c1 as int, *fee, collector_held(*v), inventory_after(*v, outs@, b0 as int, b1 as int).0,
            inventory_after(*v, outs@, b0 as int, b1 as int).1),
{
    let collector = match (&v.config.fee_registry, &v.config.fee_collector) {
        (Some(_), Some(c)) => c,
        _ => return Ok(FeeDecision::NoFee),
    };
    let quote = match fee {
        Err(reason) => return Ok(FeeDecision::Unavailable(reason.clone())),
        Ok(q) => q,
    };
    let bps: u16 = if quote.fee_bps <= 10_000 { quote.fee_bps } else { 10_000 };
    if bps == 0 {
        return Ok(FeeDecision::NoFee);
    }
    let mut value = c0;
    if c1 != 0 {
        if v.bot.reference_price.atomics == 0 {
            return Err(ContractError::InvalidPair);
        }
        let converted = match checked_ratio(c1, DECIMAL_FRACTIONAL, v.bot.reference_price.atomics) {
            Some(x) => x,
            None => return Err(ContractError::ArithmeticOutOfRange),
        };
        if value > u128::MAX - converted {
            return Err(ContractError::Overflow);
        }
        value = value + converted;
    }
    proof {
        lemma_ratio_le(value as int, bps as int, 10_000);
    }
    let fee_value = match checked_ratio(value, bps as u128, 10_000) {
        Some(x) => x,
        None => 0,
    };
    if fee_value == 0 {
        return Ok(FeeDecision::NoFee);
    }
    // The bot's holdings after the reconcile: balances and order escrow.
    let (e0, e1) = match escrow_totals(v, outs) {
        Some(p) => p,
        None => return Err(ContractError::Overflow),
    };
    if b0 > u128::MAX - e0 || b1 > u128::MAX - e1 {
        return Err(ContractError::Overflow);
    }
    let t0 = b0 + e0;
    let t1 = b1 + e1;
    let mut asset = t0;
    if t1 != 0 {
        if v.bot.reference_price.atomics == 0 {
            return Err(ContractError::InvalidPair);
        }
        let converted = match checked_ratio(t1, DECIMAL_FRACTIONAL, v.bot.reference_price.atomics) {
            Some(x) => x,
            None => return Err(ContractError::ArithmeticOutOfRange),
        };
        if asset > u128::MAX - converted {
            return Err(ContractError::Overflow);
        }
        asset = asset + converted;
    }
    let shares = match fee_shares_for_value(fee_value, asset, v.bot.total_shares) {
        Ok(x) => x,
        Err(_) => return Err(ContractError::Overflow),
    };
    if shares == 0 {
        return Ok(FeeDecision::NoFee);
    }
    let held = v.shares.amount(collector);
    if held > u128::MAX - shares || v.bot.total_shares > u128::MAX - shares {
        return Err(ContractError::Overflow);
    }
    Ok(FeeDecision::Applied { fee_bps: bps, shares, tier: quote.tier_id, source: quote.source })
}

/// The outcome of one reported order, computed.
fn outcome_of(contract: &String, id: u64, order: GridOrder, status: &OrderStatus, was_cancelled: bool) -> (r: Result<
    OrderOutcome,
    ContractError,
>)
    ensures
        r == order_outcome(contract@, id, order, *status, was_cancelled),
{
    match status {
        OrderStatus::Active(oc) => {
            match crate::grid_math::validate_order(contract, id, &order, oc) {
                Err(e) => Err(e),
                Ok(()) => Ok(
                    OrderOutcome {
                        order_id: id,
                        remaining: oc.remaining,
                        terminal: oc.remaining == 0,
                        refund: 0,
                        changed: order.remaining > oc.remaining || oc.remaining == 0,
                        executed: false,
                        cancelled: false,
                        side: order.side,
                    },
                ),
            }
        },
        OrderStatus::Parked(Some(rf)) => {
            if rf.owner != *contract || rf.order_id != id || rf.side != order.side || rf.remaining > order.remaining {
                Err(ContractError::InvalidOrder)
            } else {
                Ok(
                    OrderOutcome {
                        order_id: id,
                        remaining: rf.remaining,
                        terminal: true,
                        refund: rf.remaining,
                        changed: true,
                        executed: false,
                        cancelled: false,
                        side: order.side,
                    },
                )
            }
        },
        OrderStatus::Parked(None) => Ok(
            OrderOutcome {
                order_id: id,
                remaining: 0,
                terminal: true,
                refund: 0,
                changed: true,
                executed: !was_cancelled,
                cancelled: was_cancelled,
                side: order.side,
            },
        ),
        OrderStatus::Unverifiable => Err(ContractError::OrderStatusUnverifiable),
    }
}



/// Every claim names token 0 or token 1.
pub proof fn lemma_claims_indexed(s: Seq<OrderOutcome>)
    ensures
        entries_indexed(claims_of(s)),
    decreases s.len(),
{
    if s.len() > 0 {
        lemma_claims_indexed(s.drop_last());
    }
}

/// Facts every successful scan gives: one outcome per reported id, in order,
/// for tracked and distinct ids, and no more dropped orders than active ones.
pub proof fn lemma_scan_facts(v: GridVault, contract: Seq<char>, ids: Seq<u64>, statuses: Seq<OrderStatus>, n: int)
    requires
        0 <= n <= ids.len(),
        scan_orders(v, contract, ids, statuses, n) is Ok,
    ensures
        ({
            let s = scan_orders(v, contract, ids, statuses, n)->Ok_0;
            &&& s.len() == n
            &&& forall|k: int| 0 <= k < n ==> (#[trigger] s[k]).order_id == ids[k] && v.orders@.contains_key(ids[k])
            &&& forall|j: int, k: int| 0 <= j < k < n ==> ids[j] != ids[k]
            &&& count_dropped(s) <= v.bot.active_orders
            &&& forall|k: int| 0 <= k < n ==> order_outcome(contract, ids[k], v.orders@[ids[k]], statuses[k], v.cancelled@.contains_key(ids[k])) == Ok::<OrderOutcome, ContractError>(#[trigger] s[k])
        }),
    decreases n,
{
    if n > 0 {
        lemma_scan_facts(v, contract, ids, statuses, n - 1);
        let before = scan_orders(v, contract, ids, statuses, n - 1)->Ok_0;
        let s = scan_orders(v, contract, ids, statuses, n)->Ok_0;
        assert(s.drop_last() =~= before);
        assert forall|j: int, k: int| 0 <= j < k < n implies ids[j] != ids[k] by {
            if k == n - 1 {
                if ids[j] == ids[k] {
                    assert(exists|j: int| 0 <= j < n - 1 && #[trigger] ids[j] == ids[n - 1]);
                }
            }
        }
    }
}

/// Applying outcomes of other ids leaves an order as it was.
pub proof fn lemma_apply_untouched(m: Map<u64, GridOrder>, s: Seq<OrderOutcome>, id: u64)
    requires
        forall|k: int| 0 <= k < s.len() ==> (#[trigger] s[k]).order_id != id,
    ensures
        apply_outcomes(m, s).contains_key(id) == m.contains_key(id),
        m.contains_key(id) ==> apply_outcomes(m, s)[id] == m[id],
    decreases s.len(),
{
    if s.len() > 0 {
        assert forall|k: int| 0 <= k < s.drop_last().len() implies (#[trigger] s.drop_last()[k]).order_id != id by {
            assert(s.drop_last()[k] == s[k]);
        }
        lemma_apply_untouched(m, s.drop_last(), id);
        assert(s.last() == s[s.len() - 1]);
    }
}

/// A scan that failed at some report stays failed with the same error.
pub proof fn lemma_scan_err(v: GridVault, contract: Seq<char>, ids: Seq<u64>, statuses: Seq<OrderStatus>, n0: int, n: int)
    requires
        0 <= n0 <= n,
        scan_orders(v, contract, ids, statuses, n0) is Err,
    ensures
        scan_orders(v, contract, ids, statuses, n) == scan_orders(v, contract, ids, statuses, n0),
    decreases n - n0,
{
    if n > n0 {
        lemma_scan_err(v, contract, ids, statuses, n0, n - 1);
    }
}

impl GridVault {
    /// Check each reported order against the pair, in order.
    fn scan(&self, contract: &String, ids: &Vec<u64>, statuses: &Vec<OrderStatus>) -> (r: Result<Vec<OrderOutcome>, ContractError>)
        requires
            self.wf(),
        ensures
            match r {
                Ok(s) => scan_orders(*self, contract@, ids@, statuses@, ids@.len() as int) == Ok::<Seq<OrderOutcome>, ContractError>(s@),
                Err(e) => scan_orders(*self, contract@, ids@, statuses@, ids@.len() as int) == Err::<Seq<OrderOutcome>, ContractError>(e),
            },
    {
        let mut outs: Vec<OrderOutcome> = Vec::new();
        let mut dropped_count: u64 = 0;
        let mut seen = IdSet::new();
        let mut i: usize = 0;
        while i < ids.len()
            invariant
                self.wf(),
                i <= ids@.len(),
                scan_orders(*self, contract@, ids@, statuses@, i as int) == Ok::<Seq<OrderOutcome>, ContractError>(outs@),
                dropped_count == count_dropped(outs@),
                count_dropped(outs@) <= self.bot.active_orders,
                forall|x: u64| #[trigger] seen@.contains(x) <==> exists|k: int| 0 <= k < i && #[trigger] ids@[k] == x,
            decreases ids@.len() - i,
        {
            let id = ids[i];
            if !seen.insert(id) {
                proof {
                    assert(scan_orders(*self, contract@, ids@, statuses@, i + 1) is Err);
                    lemma_scan_err(*self, contract@, ids@, statuses@, i + 1, ids@.len() as int);
                }
                return Err(ContractError::InvalidFillReport);
            }
            let order = match self.orders.get(id) {
                Some(o) => *o,
                None => {
                    proof {
                        assert(scan_orders(*self, contract@, ids@, statuses@, i + 1) is Err);
                        lemma_scan_err(*self, contract@, ids@, statuses@, i + 1, ids@.len() as int);
                    }
                    return Err(ContractError::Std(StdFault::NotFound));
                },
            };
            if i >= statuses.len() {
                proof {
                    assert(scan_orders(*self, contract@, ids@, statuses@, i + 1) is Err);
                    lemma_scan_err(*self, contract@, ids@, statuses@, i + 1, ids@.len() as int);
                }
                return Err(ContractError::Std(StdFault::QueryFailed));
            }
            let was_cancelled = self.cancelled.contains(id);
            let o = match outcome_of(contract, id, order, &statuses[i], was_cancelled) {
                Ok(o) => o,
                Err(e) => {
                    proof {
                        assert(scan_orders(*self, contract@, ids@, statuses@, i + 1) is Err);
                        lemma_scan_err(*self, contract@, ids@, statuses@, i + 1, ids@.len() as int);
                    }
                    return Err(e);
                },
            };
            let is_dropped = o.terminal && o.refund == 0;
            if is_dropped && dropped_count >= self.bot.active_orders as u64 {
                proof {
                    assert(scan_orders(*self, contract@, ids@, statuses@, i + 1) is Err);
                    lemma_scan_err(*self, contract@, ids@, statuses@, i + 1, ids@.len() as int);
                }
                return Err(ContractError::InvalidOrder);
            }
            let ghost before = outs@;
            outs.push(o);
            proof {
                assert(outs@.drop_last() =~= before);
            }
            if is_dropped {
                dropped_count = dropped_count + 1;
            }
            proof {
                assert forall|x: u64| #[trigger] seen@.contains(x) implies exists|k: int| 0 <= k < i + 1 && #[trigger] ids@[k] == x by {
                    if x == id {
                        assert(ids@[i as int] == x);
                    }
                }
            }
            i = i + 1;
        }
        Ok(outs)
    }
}



impl GridVault {
    /// Everything but the tracked orders is as in `other`.
    pub open spec fn same_but_orders(&self, other: &GridVault) -> bool {
        &&& self.config == other.config
        &&& self.mode == other.mode
        &&& self.next_bot_id == other.next_bot_id
        &&& self.next_reply_id == other.next_reply_id
        &&& self.has_bot == other.has_bot
        &&& self.bot == other.bot
        &&& self.rungs == other.rungs
        &&& self.cancelled == other.cancelled
        &&& self.shares == other.shares
        &&& self.placements == other.placements
        &&& self.pending_pages == other.pending_pages
        &&& self.token_policy_enabled == other.token_policy_enabled
        &&& self.allowed_tokens == other.allowed_tokens
        &&& self.quarantine == other.quarantine
    }
}

/// The checks of a reconcile after the prechecks and the scan, in order: a
/// reconcile that changed nothing, the fee, the pair's batch limit and the
/// page ids when refunds are to be claimed, and the keeper's reward.
pub open spec fn reconcile_check(
    v: GridVault,
    sender: Seq<char>,
    has_funds: bool,
    contract: Seq<char>,
    bot_id: u64,
    ids: Seq<u64>,
    reads: ReconcileReads,
) -> Result<(), ContractError> {
    match reconcile_precheck(v, has_funds, bot_id, ids.len() as int, reads) {
        Err(e) => Err(e),
        Ok((c0, c1)) => match scan_orders(v, contract, ids, reads.statuses@, ids.len() as int) {
            Err(e) => Err(e),
            Ok(outs) => if count_changed(outs) == 0 && c0 == 0 && c1 == 0 {
                Err(ContractError::NothingToReconcile)
            } else {
                match fee_outcome(v, c0, c1, reads.fee, collector_held(v), inventory_after(v, outs, reads.balances[0]->0 as int,
                    reads.balances[1]->0 as int).0, inventory_after(v, outs, reads.balances[0]->0 as int, reads.balances[1]->0 as int).1) {
                    Err(e) => Err(e),
                    Ok(_) => if claims_of(outs).len() > 0 && reads.batch_limit is None {
                        Err(ContractError::Std(StdFault::QueryFailed))
                    } else if claims_of(outs).len() > 0 && !v.pages_fit(
                        pages_needed(Seq::empty(), claims_of(outs), reads.batch_limit->0),
                    ) {
                        Err(ContractError::Std(StdFault::Overflow))
                    } else if sender == v.config.keeper@ && v.bot.gas_credit < v.config.keeper_reward {
                        Err(ContractError::Overflow)
                    } else {
                        Ok(())
                    },
                }
            },
        },
    }
}

impl GridVault {
    /// Reconcile the bot with the pair for the reported `order_ids`; anyone may
    /// call, and the keeper is paid its reward from the bot's gas credit. Token
    /// balance growth is credited to the free balances; each reported order is
    /// checked against the pair and dropped, updated or queued for a refund
    /// claim; a protocol fee on the credited value is minted to the collector
    /// unless the registry cannot be read; `contract` is the vault's address.
    pub fn reconcile(
        &mut self,
        sender: &String,
        has_funds: bool,
        contract: &String,
        bot_id: u64,
        order_ids: &Vec<u64>,
        reads: &ReconcileReads,
    ) -> (r: Result<ReconcileOutcome, ContractError>)
        requires
            old(self).wf(),
        ensures
            final(self).wf(),
            old(self).mode == VaultMode::Exit ==> final(self).mode == VaultMode::Exit,
            r is Ok <==> reconcile_check(*old(self), sender@, has_funds, contract@, bot_id, order_ids@, *reads) is Ok,
            r matches Err(e) ==> reconcile_check(*old(self), sender@, has_funds, contract@, bot_id, order_ids@, *reads)
                == Err::<(), ContractError>(e) && *final(self) == *old(self),
            r matches Ok(out) ==> {
                let credited = reconcile_precheck(*old(self), has_funds, bot_id, order_ids@.len() as int, *reads)->Ok_0;
                let outs = scan_orders(*old(self), contract@, order_ids@, reads.statuses@, order_ids@.len() as int)->Ok_0;
                let inv = inventory_after(*old(self), outs, reads.balances[0]->0 as int, reads.balances[1]->0 as int);
                let fee = fee_outcome(*old(self), credited.0, credited.1, reads.fee, collector_held(*old(self)), inv.0, inv.1)->Ok_0;
                &&& out.credited[0] == credited.0 && out.credited[1] == credited.1
                &&& out.changed_orders == count_changed(outs)
                &&& out.fully_executed == count_executed(outs)
                &&& out.cancelled == count_cancelled(outs)
                &&& out.fee == fee
                &&& final(self).bot.free_balances[0] == reads.balances[0]->0
                &&& final(self).bot.free_balances[1] == reads.balances[1]->0
                &&& final(self).orders@ == apply_outcomes(old(self).orders@, outs)
                &&& final(self).bot.active_orders == old(self).bot.active_orders - count_dropped(outs)
                &&& (match fee {
                    FeeDecision::Applied { shares, .. } => {
                        &&& final(self).bot.total_shares == old(self).bot.total_shares + shares
                        &&& final(self).shares@ == old(self).shares@.insert(
                            old(self).config.fee_collector->0@,
                            (collector_held(*old(self)) + shares) as u128,
                        )
                    },
                    _ => final(self).bot.total_shares == old(self).bot.total_shares && final(self).shares == old(self).shares,
                })
                &&& out.pages@.len() == (if claims_of(outs).len() > 0 {
                    pages_needed(Seq::empty(), claims_of(outs), reads.batch_limit->0)
                } else {
                    0
                })
                &&& forall|k: int| 0 <= k < out.pages@.len() ==> crate::grid_pages::page_sent(
                    *final(self),
                    #[trigger] out.pages@[k],
                    old(self).next_reply_id + k,
                    BOT_ID,
                    crate::grid_pages::page_kind(Seq::empty(), reads.batch_limit->0, k),
                    crate::grid_pages::page_piece(Seq::empty(), claims_of(outs), reads.batch_limit->0, k),
                )
                &&& out.keeper_reward == (if sender@ == old(self).config.keeper@ { Some(old(self).config.keeper_reward) } else { None })
                &&& final(self).bot.gas_credit == old(self).bot.gas_credit - (if sender@ == old(self).config.keeper@ {
                    old(self).config.keeper_reward as int
                } else {
                    0
                })
                &&& final(self).config == old(self).config
                &&& final(self).mode == old(self).mode
                &&& final(self).rungs == old(self).rungs
                &&& final(self).cancelled == old(self).cancelled
                &&& final(self).placements == old(self).placements
                &&& final(self).bot.owner == old(self).bot.owner
                &&& final(self).bot.pair == old(self).bot.pair
                &&& final(self).bot.asset_tokens == old(self).bot.asset_tokens
                &&& final(self).bot.reference_price == old(self).bot.reference_price
            },
    {
        let ghost check = reconcile_check(*self, sender@, has_funds, contract@, bot_id, order_ids@, *reads);
        if self.mode != VaultMode::Active {
            return Err(ContractError::InvalidMode);
        }
        if has_funds {
            return Err(ContractError::UnexpectedFunds);
        }
        if bot_id != BOT_ID || !self.has_bot {
            return Err(ContractError::Std(StdFault::NotFound));
        }
        if order_ids.len() == 0 || order_ids.len() as u64 > self.config.max_orders_per_reconcile as u64 {
            return Err(ContractError::InvalidFillReport);
        }
        match reads.code_id {
            None => return Err(ContractError::Std(StdFault::QueryFailed)),
            Some(c) => {
                if c != self.bot.pair_code_id {
                    return Err(ContractError::PairCodeMismatch);
                }
            },
        }
        if self.config.minimum_gas_reserve > u128::MAX - self.config.keeper_reward {
            return Err(ContractError::Overflow);
        }
        if self.bot.gas_credit < self.config.minimum_gas_reserve + self.config.keeper_reward {
            return Err(ContractError::InsufficientGasCredit);
        }
        let b0 = match reads.balances[0] {
            Some(b) => b,
            None => return Err(ContractError::Std(StdFault::QueryFailed)),
        };
        if b0 < self.bot.free_balances[0] {
            return Err(ContractError::UnsupportedTokenBehavior);
        }
        let b1 = match reads.balances[1] {
            Some(b) => b,
            None => return Err(ContractError::Std(StdFault::QueryFailed)),
        };
        if b1 < self.bot.free_balances[1] {
            return Err(ContractError::UnsupportedTokenBehavior);
        }
        let c0 = b0 - self.bot.free_balances[0];
        let c1 = b1 - self.bot.free_balances[1];
        let outs = match self.scan(contract, order_ids, &reads.statuses) {
            Ok(o) => o,
            Err(e) => return Err(e),
        };
        let ghost orig = self.orders@;
        proof {
            lemma_scan_facts(*self, contract@, order_ids@, reads.statuses@, order_ids@.len() as int);
        }
        let mut changed: u64 = 0;
        let mut executed: u64 = 0;
        let mut cancelled: u64 = 0;
        let mut dropped_count: u32 = 0;
        let mut claims: Vec<PendingPageEntry> = Vec::new();
        let mut i: usize = 0;
        while i < outs.len()
            invariant
                i <= outs@.len(),
                outs@.len() == order_ids@.len(),
                order_ids@.len() <= u32::MAX,
                count_dropped(outs@) <= self.bot.active_orders,
                changed == count_changed(outs@.take(i as int)),
                executed == count_executed(outs@.take(i as int)),
                cancelled == count_cancelled(outs@.take(i as int)),
                dropped_count == count_dropped(outs@.take(i as int)),
                claims@ == claims_of(outs@.take(i as int)),
                changed <= i && executed <= i && cancelled <= i && dropped_count <= i,
            decreases outs@.len() - i,
        {
            let o = outs[i];
            proof {
                assert(outs@.take(i + 1).drop_last() =~= outs@.take(i as int));
                assert(outs@.take(i + 1).last() == outs@[i as int]);
            }
            if o.changed {
                changed = changed + 1;
            }
            if o.executed {
                executed = executed + 1;
            }
            if o.cancelled {
                cancelled = cancelled + 1;
            }
            if o.terminal && o.refund == 0 {
                dropped_count = dropped_count + 1;
            }
            if o.terminal && o.refund > 0 {
                claims.push(PendingPageEntry { order_id: o.order_id, token_index: side_input_index(o.side) as u8, refund: o.refund });
            }
            i = i + 1;
        }
        proof {
            assert(outs@.take(outs@.len() as int) =~= outs@);
            lemma_claims_indexed(outs@);
        }
        if changed == 0 && c0 == 0 && c1 == 0 {
            return Err(ContractError::NothingToReconcile);
        }
        let fee = match decide_fee(self, c0, c1, &reads.fee, &outs, b0, b1) {
            Ok(f) => f,
            Err(e) => return Err(e),
        };
        let mut batch: u32 = 1;
        if claims.len() > 0 {
            batch = match reads.batch_limit {
                Some(b) => b,
                None => return Err(ContractError::Std(StdFault::QueryFailed)),
            };
            let size: u32 = if batch == 0 { 1 } else { batch };
            proof {
                crate::grid_pages::lemma_chunks_len(claims@, size as int);
                crate::grid_pages::lemma_chunks_len(Seq::<PendingPageEntry>::empty(), size as int);
            }
            let needed: u128 = ((claims.len() as u128) + (size as u128) - 1) / (size as u128);
            if (self.next_reply_id as u128) + needed > u64::MAX as u128 {
                return Err(ContractError::Std(StdFault::Overflow));
            }
        }
        let is_keeper = *sender == self.config.keeper;
        if is_keeper && self.bot.gas_credit < self.config.keeper_reward {
            return Err(ContractError::Overflow);
        }
        assert(check is Ok);
        // Commit.
        self.bot.free_balances = [b0, b1];
        let ghost pre = *self;
        let mut j: usize = 0;
        while j < outs.len()
            invariant
                self.same_but_orders(&pre),
                j <= outs@.len(),
                outs@.len() == order_ids@.len(),
                self.orders.wf(),
                self.orders@ == apply_outcomes(orig, outs@.take(j as int)),
                forall|k: int| 0 <= k < outs@.len() ==> (#[trigger] outs@[k]).order_id == order_ids@[k] && orig.contains_key(order_ids@[k]),
                forall|a: int, b: int| 0 <= a < b < outs@.len() ==> order_ids@[a] != order_ids@[b],
            decreases outs@.len() - j,
        {
            let o = outs[j];
            proof {
                assert(outs@.take(j + 1).drop_last() =~= outs@.take(j as int));
                assert(outs@.take(j + 1).last() == outs@[j as int]);
                assert forall|k: int| 0 <= k < outs@.take(j as int).len() implies (#[trigger] outs@.take(j as int)[k]).order_id != o.order_id by {
                    assert(outs@.take(j as int)[k] == outs@[k]);
                }
                lemma_apply_untouched(orig, outs@.take(j as int), o.order_id);
            }
            if o.terminal && o.refund == 0 {
                self.orders.remove(o.order_id);
            } else if !o.terminal {
                let current = match self.orders.get(o.order_id) {
                    Some(g) => *g,
                    None => GridOrder { rung_index: 0, side: o.side, price: crate::math::Decimal { atomics: 0 }, remaining: 0 },
                };
                self.orders.replace(o.order_id, GridOrder { remaining: o.remaining, ..current });
            }
            j = j + 1;
        }
        proof {
            assert(outs@.take(outs@.len() as int) =~= outs@);
        }
        self.bot.active_orders = self.bot.active_orders - dropped_count;
        match &fee {
            FeeDecision::Applied { shares, .. } => {
                let collector = match &self.config.fee_collector {
                    Some(c) => c.clone(),
                    None => String::new(),
                };
                let held = self.shares.amount(&collector);
                self.shares.set_amount(&collector, held + *shares);
                self.bot.total_shares = self.bot.total_shares + *shares;
            },
            _ => {},
        }
        let pages = if claims.len() > 0 {
            let empty: Vec<PendingPageEntry> = Vec::new();
            match self.add_confirmable_pages(BOT_ID, &empty, &claims, batch) {
                Ok(p) => p,
                Err(_) => Vec::new(),
            }
        } else {
            Vec::new()
        };
        let keeper_reward = if is_keeper {
            self.bot.gas_credit = self.bot.gas_credit - self.config.keeper_reward;
            Some(self.config.keeper_reward)
        } else {
            None
        };
        Ok(
            ReconcileOutcome {
                credited: [c0, c1],
                changed_orders: changed,
                fully_executed: executed,
                cancelled,
                fee,
                pages,
                keeper_reward,
            },
        )
    }
}

} // verus!
