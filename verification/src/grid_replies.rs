//! The pair's answers to the vault's placements, cancels and claims.
use vstd::prelude::*;
use crate::errors::StdFault;
use crate::grid_types::{
    input_index, side_input_index, CancelledOrder, ContractError, GridOrder, LimitOrderResponse, PageKind,
    PendingPage, PendingPageEntry, PlacementPlan, VaultMode,
};
use crate::grid_vault::{entries_indexed, GridVault, BOT_ID};
use vstd::string::StrSliceExecFns;

verus! {

/// The value of a run of decimal digits.
pub open spec fn decimal_value(s: Seq<char>) -> int
    decreases s.len(),
{
    if s.len() == 0 {
        0
    } else {
        decimal_value(s.drop_last()) * 10 + (s.last() as int - '0' as int)
    }
}

/// Whether every character of `s` is a decimal digit.
pub open spec fn all_digits(s: Seq<char>) -> bool {
    forall|i: int| 0 <= i < s.len() ==> '0' <= #[trigger] s[i] <= '9'
}

/// The digits of an unsigned decimal text: what follows an optional `+`.
pub open spec fn unsigned_digits(text: Seq<char>) -> Seq<char> {
    if text.len() > 0 && text[0] == '+' { text.drop_first() } else { text }
}

/// The integer a decimal text denotes, read as `u64::from_str` reads it: an
/// optional `+`, then one or more ASCII digits whose value fits in a `u64`;
/// none otherwise.
pub open spec fn parsed_u64(text: Seq<char>) -> Option<u64> {
    let d = unsigned_digits(text);
    if d.len() > 0 && all_digits(d) && decimal_value(d) <= u64::MAX {
        Some(decimal_value(d) as u64)
    } else {
        None
    }
}

proof fn lemma_decimal_nonneg(s: Seq<char>)
    requires
        all_digits(s),
    ensures
        decimal_value(s) >= 0,
    decreases s.len(),
{
    if s.len() > 0 {
        assert(all_digits(s.drop_last())) by {
            assert forall|i: int| 0 <= i < s.drop_last().len() implies '0' <= #[trigger] s.drop_last()[i] <= '9' by {
                assert(s.drop_last()[i] == s[i]);
            }
        }
        lemma_decimal_nonneg(s.drop_last());
        assert('0' <= s[s.len() - 1] <= '9');
    }
}

/// A prefix of a run of digits is worth no more than the whole run.
proof fn lemma_decimal_prefix(s: Seq<char>, k: int)
    requires
        0 <= k <= s.len(),
        all_digits(s),
    ensures
        decimal_value(s.take(k)) <= decimal_value(s),
    decreases s.len() - k,
{
    if k < s.len() {
        lemma_decimal_prefix(s, k + 1);
        let p = s.take(k + 1);
        assert(p.drop_last() =~= s.take(k));
        assert(all_digits(s.take(k))) by {
            assert forall|i: int| 0 <= i < s.take(k).len() implies '0' <= #[trigger] s.take(k)[i] <= '9' by {
                assert(s.take(k)[i] == s[i]);
            }
        }
        lemma_decimal_nonneg(s.take(k));
        assert(p.last() == s[k]);
        assert('0' <= s[k] <= '9');
    } else {
        assert(s.take(k) =~= s);
    }
}

/// `str::parse::<u64>`, as `parsed_u64` states it.
fn parse_u64(text: &str) -> (r: Option<u64>)
    ensures
        r == parsed_u64(text@),
{
    let n = text.unicode_len();
    let start: usize = if n > 0 && text.get_char(0) == '+' { 1 } else { 0 };
    let ghost d = text@.subrange(start as int, n as int);
    proof {
        assert(d =~= unsigned_digits(text@));
    }
    if start == n {
        return None;
    }
    let mut i: usize = start;
    let mut acc: u64 = 0;
    while i < n
        invariant
            n == text@.len(),
            start <= i <= n,
            d == text@.subrange(start as int, n as int),
            d == unsigned_digits(text@),
            d.len() > 0,
            all_digits(d.take(i - start)),
            acc == decimal_value(d.take(i - start)),
        decreases n - i,
    {
        let c = text.get_char(i);
        let ghost k = (i - start) as int;
        proof {
            assert(d[k] == c);
        }
        if c < '0' || c > '9' {
            proof {
                assert(!all_digits(d));
            }
            return None;
        }
        let digit: u64 = (c as u32 - '0' as u32) as u64;
        proof {
            assert(d.take(k + 1).drop_last() =~= d.take(k));
            assert(d.take(k + 1).last() == c);
            assert(all_digits(d.take(k + 1))) by {
                assert forall|j: int| 0 <= j < d.take(k + 1).len() implies '0' <= #[trigger] d.take(k + 1)[j] <= '9' by {
                    if j < k {
                        assert(d.take(k + 1)[j] == d.take(k)[j]);
                    }
                }
            }
        }
        if acc > (u64::MAX - digit) / 10 {
            proof {
                assert(acc * 10 + digit > u64::MAX) by (nonlinear_arith)
                    requires acc > (u64::MAX - digit) / 10, digit <= 9;
                if all_digits(d) {
                    lemma_decimal_prefix(d, k + 1);
                }
            }
            return None;
        }
        proof {
            assert(acc * 10 + digit <= u64::MAX) by (nonlinear_arith)
                requires acc <= (u64::MAX - digit) / 10, digit <= 9;
        }
        acc = acc * 10 + digit;
        i = i + 1;
    }
    proof {
        assert(d.take(n - start) =~= d);
    }
    Some(acc)
}

/// What restoring the single-rung placement `reply_id` does: its gross amount
/// goes back to the free balance of its token and its order stops counting,
/// and the outcome carries `reason`; an unknown reply, a plan without an
/// amount, a missing bot, an overflow or no active order is refused and
/// changes nothing.
pub open spec fn placement_restored(v: GridVault, after: GridVault, reply_id: u64, reason: Seq<char>, r: Result<ReplyOutcome, ContractError>) -> bool {
    if !v.placements@.contains_key(reply_id) {
        r == Err::<ReplyOutcome, ContractError>(ContractError::UnknownReply) && after == v
    } else {
        let plan = v.placements@[reply_id];
        let k = input_index(plan.side);
        &&& plan.gross_amounts@.len() == 0 ==> r == Err::<ReplyOutcome, ContractError>(ContractError::InvalidPlacementReply)
        &&& plan.gross_amounts@.len() > 0 && !v.bot_exists(plan.bot_id) ==> r == Err::<ReplyOutcome, ContractError>(
            ContractError::Std(StdFault::NotFound))
        &&& r is Ok <==> plan.gross_amounts@.len() > 0 && v.bot_exists(plan.bot_id)
            && v.bot.free_balances[k] + plan.gross_amounts@[0] <= u128::MAX && v.bot.active_orders > 0
        &&& r is Err ==> after == v
        &&& r is Ok ==> {
            &&& r matches Ok(ReplyOutcome::Deferred(t)) && t@ == reason
            &&& after.bot.free_balances[k] == v.bot.free_balances[k] + plan.gross_amounts@[0]
            &&& after.bot.free_balances[1 - k] == v.bot.free_balances[1 - k]
            &&& after.bot.active_orders == v.bot.active_orders - 1
            &&& after.placements@ == v.placements@.remove(reply_id)
            &&& after.orders == v.orders
            &&& after.shares == v.shares
            &&& after.bot.total_shares == v.bot.total_shares
        }
    }
}

/// What settling page `reply_id` does: a failed page is only dropped and the
/// outcome carries `reason`; a confirmed one credits each entry's refund to its
/// token, stops tracking its orders (a cancelled one recorded as cancelled at
/// `height`) and lowers the active orders by the page's size, once the bot
/// exists, the refunds fit and the entries do not exceed the active orders.
pub open spec fn page_settled(
    v: GridVault,
    after: GridVault,
    reply_id: u64,
    confirmed: bool,
    reason: Seq<char>,
    height: u64,
    r: Result<ReplyOutcome, ContractError>,
) -> bool {
    if !v.pending_pages@.contains_key(reply_id) {
        r == Err::<ReplyOutcome, ContractError>(ContractError::UnknownReply) && after == v
    } else {
        let page = v.pending_pages@[reply_id];
        let s = page.entries@;
        let fits = v.bot.free_balances[0] + refund_total(s, 0) <= u128::MAX && v.bot.free_balances[1] + refund_total(s, 1)
            <= u128::MAX;
        &&& !confirmed ==> (r matches Ok(ReplyOutcome::Reverted(t)) && t@ == reason) && after.pending_pages@
            == v.pending_pages@.remove(reply_id) && after.orders == v.orders && after.bot == v.bot
        &&& confirmed && !v.bot_exists(page.bot_id) ==> r == Err::<ReplyOutcome, ContractError>(ContractError::Std(StdFault::NotFound))
        &&& confirmed && v.bot_exists(page.bot_id) && !fits ==> r == Err::<ReplyOutcome, ContractError>(ContractError::Overflow)
        &&& confirmed && v.bot_exists(page.bot_id) && fits && s.len() > v.bot.active_orders ==> r == Err::<
            ReplyOutcome,
            ContractError,
        >(ContractError::InvalidOrder)
        &&& confirmed && v.bot_exists(page.bot_id) && fits && s.len() <= v.bot.active_orders ==> r is Ok
        &&& r is Err ==> after == v
        &&& confirmed && r is Ok ==> {
            let (orders, cancelled) = confirm_entries(v.orders@, v.cancelled@, s, page.kind, height);
            &&& r == Ok::<ReplyOutcome, ContractError>(ReplyOutcome::Confirmed(s.len() as u64))
            &&& after.bot.free_balances[0] == v.bot.free_balances[0] + refund_total(s, 0)
            &&& after.bot.free_balances[1] == v.bot.free_balances[1] + refund_total(s, 1)
            &&& after.bot.active_orders == v.bot.active_orders - s.len()
            &&& after.orders@ == orders
            &&& after.cancelled@ == cancelled
            &&& after.pending_pages@ == v.pending_pages@.remove(reply_id)
            &&& after.shares == v.shares
            &&& after.bot.total_shares == v.bot.total_shares
        }
    }
}

/// The reason a sub-reply failed with; an empty text for a success.
pub open spec fn failure_reason(result: SubReply) -> Seq<char> {
    match result {
        SubReply::Failed(reason) => reason@,
        SubReply::Succeeded(_) => Seq::empty(),
    }
}

/// How a reply was handled.
pub enum ReplyOutcome {
    /// The placed orders are now tracked.
    Recorded,
    /// A single-rung placement failed or was skipped; its escrow is back in the
    /// free balance.
    Deferred(String),
    /// A cancel or claim page went through.
    Confirmed(u64),
    /// A cancel or claim page failed; nothing changed but the page is dropped.
    Reverted(String),
}

/// Total refund of the entries of `s` for token `k`.
pub open spec fn refund_total(s: Seq<PendingPageEntry>, k: int) -> int
    decreases s.len(),
{
    if s.len() == 0 {
        0
    } else {
        refund_total(s.drop_last(), k) + if s.last().token_index as int == k { s.last().refund as int } else { 0 }
    }
}

/// The tracked and cancelled orders after confirming the entries of a page:
/// every entry stops being tracked, and a cancelled one that was tracked is
/// recorded as cancelled at `height` with its refund.
pub open spec fn confirm_entries(
    orders: Map<u64, GridOrder>,
    cancelled: Map<u64, CancelledOrder>,
    s: Seq<PendingPageEntry>,
    kind: PageKind,
    height: u64,
) -> (Map<u64, GridOrder>, Map<u64, CancelledOrder>)
    decreases s.len(),
{
    if s.len() == 0 {
        (orders, cancelled)
    } else {
        let (o, c) = confirm_entries(orders, cancelled, s.drop_last(), kind, height);
        let e = s.last();
        let c2 = if kind == PageKind::Cancel && o.contains_key(e.order_id) {
            let g = o[e.order_id];
            c.insert(
                e.order_id,
                CancelledOrder { rung_index: g.rung_index, side: g.side, price: g.price, remaining: e.refund, cancelled_at: height },
            )
        } else {
            c
        };
        (o.remove(e.order_id), c2)
    }
}

pub proof fn lemma_refund_total_prefix(s: Seq<PendingPageEntry>, i: int, k: int)
    requires
        0 <= i < s.len(),
    ensures
        refund_total(s.take(i + 1), k) == refund_total(s.take(i), k) + if s[i].token_index as int == k { s[i].refund as int } else { 0 },
{
    assert(s.take(i + 1).drop_last() =~= s.take(i));
}

pub proof fn lemma_refund_total_nonneg(s: Seq<PendingPageEntry>, k: int)
    ensures
        refund_total(s, k) >= 0,
    decreases s.len(),
{
    if s.len() > 0 {
        lemma_refund_total_nonneg(s.drop_last(), k);
    }
}

pub proof fn lemma_refund_total_mono(s: Seq<PendingPageEntry>, i: int, k: int)
    requires
        0 <= i <= s.len(),
    ensures
        refund_total(s.take(i), k) <= refund_total(s, k),
    decreases s.len() - i,
{
    if i < s.len() {
        lemma_refund_total_mono(s, i + 1, k);
        lemma_refund_total_prefix(s, i, k);
    } else {
        assert(s.take(i) =~= s);
    }
}

impl GridVault {
    /// Put the escrow of a failed single-rung placement back: the free balance
    /// of its side grows by the placed amount and one active order goes.
    pub fn restore_single_placement(&mut self, reply_id: u64, reason: String) -> (r: Result<ReplyOutcome, ContractError>)
        requires
            old(self).wf(),
        ensures
            final(self).wf(),
            old(self).mode == VaultMode::Exit ==> final(self).mode == VaultMode::Exit,
            placement_restored(*old(self), *final(self), reply_id, reason@, r),
    {
        let (amount, side, bot_id) = match self.placements.get(reply_id) {
            Some(plan) => {
                if plan.gross_amounts.len() == 0 {
                    return Err(ContractError::InvalidPlacementReply);
                }
                (plan.gross_amounts[0], plan.side, plan.bot_id)
            },
            None => return Err(ContractError::UnknownReply),
        };
        if bot_id != BOT_ID || !self.has_bot {
            return Err(ContractError::Std(StdFault::NotFound));
        }
        let k = side_input_index(side);
        if self.bot.free_balances[k] > u128::MAX - amount {
            return Err(ContractError::Overflow);
        }
        if self.bot.active_orders == 0 {
            return Err(ContractError::InvalidOrder);
        }
        let grown = self.bot.free_balances[k] + amount;
        self.bot.free_balances = if k == 0 { [grown, self.bot.free_balances[1]] } else { [self.bot.free_balances[0], grown] };
        self.bot.active_orders = self.bot.active_orders - 1;
        self.placements.remove(reply_id);
        Ok(ReplyOutcome::Deferred(reason))
    }

    /// Settle cancel or claim page `reply_id`. When the pair confirms it, each
    /// entry's refund returns to the free balance of its token, each order stops
    /// being tracked (a cancelled one is recorded as cancelled at `height`), and
    /// the bot's active orders fall by the page's size. When the pair failed,
    /// only the page is dropped.
    pub fn settle_page(&mut self, reply_id: u64, confirmed: bool, reason: String, height: u64) -> (r: Result<
        ReplyOutcome,
        ContractError,
    >)
        requires
            old(self).wf(),
        ensures
            final(self).wf(),
            old(self).mode == VaultMode::Exit ==> final(self).mode == VaultMode::Exit,
            page_settled(*old(self), *final(self), reply_id, confirmed, reason@, height, r),
    {
        if !self.pending_pages.contains(reply_id) {
            return Err(ContractError::UnknownReply);
        }
        let ghost page_ghost = self.pending_pages@[reply_id];
        if !confirmed {
            self.pending_pages.remove(reply_id);
            return Ok(ReplyOutcome::Reverted(reason));
        }
        let (bot_id, kind, count) = match self.pending_pages.get(reply_id) {
            Some(page) => (page.bot_id, page.kind, page.entries.len()),
            None => return Err(ContractError::UnknownReply),
        };
        if bot_id != BOT_ID || !self.has_bot {
            return Err(ContractError::Std(StdFault::NotFound));
        }
        // The refunds must fit in the free balances, and the entries in the
        // active-order count, before anything changes.
        let mut sum0: u128 = 0;
        let mut sum1: u128 = 0;
        let mut i: usize = 0;
        let ghost s = page_ghost.entries@;
        while i < count
            invariant
                self.wf(),
                *self == *old(self),
                confirmed,
                page_ghost == old(self).pending_pages@[reply_id],
                self.bot_exists(page_ghost.bot_id),
                self.pending_pages@.contains_key(reply_id),
                s == self.pending_pages@[reply_id].entries@,
                count == s.len(),
                entries_indexed(s),
                i <= count,
                sum0 == refund_total(s.take(i as int), 0),
                sum1 == refund_total(s.take(i as int), 1),
                self.bot.free_balances[0] + sum0 <= u128::MAX,
                self.bot.free_balances[1] + sum1 <= u128::MAX,
            decreases count - i,
        {
            let e = match self.pending_pages.get(reply_id) {
                Some(page) => page.entries[i],
                None => return Err(ContractError::UnknownReply),
            };
            proof {
                lemma_refund_total_prefix(s, i as int, 0);
                lemma_refund_total_prefix(s, i as int, 1);
                lemma_refund_total_mono(s, i + 1, 0);
                lemma_refund_total_mono(s, i + 1, 1);
            }
            if e.token_index == 0 {
                if e.refund > u128::MAX - (self.bot.free_balances[0] + sum0) {
                    proof {
                        lemma_refund_total_mono(s, i + 1, 0);
                    }
                    return Err(ContractError::Overflow);
                }
                sum0 = sum0 + e.refund;
            } else {
                if e.refund > u128::MAX - (self.bot.free_balances[1] + sum1) {
                    proof {
                        lemma_refund_total_mono(s, i + 1, 1);
                    }
                    return Err(ContractError::Overflow);
                }
                sum1 = sum1 + e.refund;
            }
            i = i + 1;
        }
        assert(s.take(count as int) =~= s);
        if count as u64 > self.bot.active_orders as u64 {
            return Err(ContractError::InvalidOrder);
        }
        // Commit.
        let mut j: usize = 0;
        let ghost orders0 = self.orders@;
        let ghost cancelled0 = self.cancelled@;
        while j < count
            invariant
                self.wf(),
                self.bot == old(self).bot,
                self.has_bot == old(self).has_bot,
                self.shares == old(self).shares,
                self.config == old(self).config,
                self.mode == old(self).mode,
                self.rungs == old(self).rungs,
                self.placements == old(self).placements,
                self.pending_pages == old(self).pending_pages,
                self.next_reply_id == old(self).next_reply_id,
                self.next_bot_id == old(self).next_bot_id,
                self.token_policy_enabled == old(self).token_policy_enabled,
                self.allowed_tokens == old(self).allowed_tokens,
                self.quarantine == old(self).quarantine,
                sum0 == refund_total(s, 0),
                sum1 == refund_total(s, 1),
                self.bot.free_balances[0] + sum0 <= u128::MAX,
                self.bot.free_balances[1] + sum1 <= u128::MAX,
                count <= self.bot.active_orders,
                self.pending_pages@.contains_key(reply_id),
                s == self.pending_pages@[reply_id].entries@,
                count == s.len(),
                j <= count,
                kind == self.pending_pages@[reply_id].kind,
                (self.orders@, self.cancelled@) == confirm_entries(orders0, cancelled0, s.take(j as int), kind, height),
            decreases count - j,
        {
            let e = match self.pending_pages.get(reply_id) {
                Some(page) => page.entries[j],
                None => return Err(ContractError::UnknownReply),
            };
            proof {
                assert(s.take(j + 1).drop_last() =~= s.take(j as int));
                assert(s.take(j + 1).last() == s[j as int]);
            }
            if kind == PageKind::Cancel {
                let found = match self.orders.get(e.order_id) {
                    Some(g) => Some(*g),
                    None => None,
                };
                if let Some(g) = found {
                    let record = CancelledOrder {
                        rung_index: g.rung_index,
                        side: g.side,
                        price: g.price,
                        remaining: e.refund,
                        cancelled_at: height,
                    };
                    if self.cancelled.contains(e.order_id) {
                        self.cancelled.replace(e.order_id, record);
                    } else {
                        self.cancelled.insert(e.order_id, record);
                    }
                }
            }
            self.orders.remove(e.order_id);
            j = j + 1;
        }
        assert(s.take(count as int) =~= s);
        self.bot.free_balances = [self.bot.free_balances[0] + sum0, self.bot.free_balances[1] + sum1];
        self.bot.active_orders = self.bot.active_orders - count as u32;
        self.pending_pages.remove(reply_id);
        Ok(ReplyOutcome::Confirmed(count as u64))
    }
}


/// The ids a placement reply reports, in order; none when a value is not an id.
pub open spec fn parse_all(values: Seq<String>) -> Option<Seq<u64>>
    decreases values.len(),
{
    if values.len() == 0 {
        Some(Seq::empty())
    } else {
        match (parse_all(values.drop_last()), parsed_u64(values.last()@)) {
            (Some(ids), Some(id)) => Some(ids.push(id)),
            _ => None,
        }
    }
}

/// The orders recorded from the first `n` placed ids of `plan`, starting from
/// `orders`, or the first error: an id already tracked, a failed read, an
/// unknown rung, or an order that differs from the rung or exceeds its escrow.
pub open spec fn record_placed(
    orders: Map<u64, GridOrder>,
    rungs: Seq<crate::grid_types::Rung>,
    plan: PlacementPlan,
    ids: Seq<u64>,
    reports: Seq<Option<LimitOrderResponse>>,
    contract: Seq<char>,
    n: int,
) -> Result<Map<u64, GridOrder>, ContractError>
    decreases n,
{
    if n <= 0 {
        Ok(orders)
    } else {
        match record_placed(orders, rungs, plan, ids, reports, contract, n - 1) {
            Err(e) => Err(e),
            Ok(m) => {
                let id = ids[n - 1];
                let rung_index = plan.rungs@[n - 1];
                if m.contains_key(id) {
                    Err(ContractError::InvalidPlacementReply)
                } else if n - 1 >= reports.len() || reports[n - 1] is None {
                    Err(ContractError::Std(StdFault::QueryFailed))
                } else if rung_index >= rungs.len() {
                    Err(ContractError::Std(StdFault::NotFound))
                } else {
                    let oc = reports[n - 1]->0;
                    if oc.owner@ != contract || oc.side != plan.side || oc.price != rungs[rung_index as int].price
                        || oc.remaining > plan.gross_amounts@[n - 1] {
                        Err(ContractError::InvalidOrder)
                    } else {
                        Ok(m.insert(id, GridOrder { rung_index, side: plan.side, price: oc.price, remaining: oc.remaining }))
                    }
                }
            },
        }
    }
}

pub proof fn lemma_record_err(
    orders: Map<u64, GridOrder>,
    rungs: Seq<crate::grid_types::Rung>,
    plan: PlacementPlan,
    ids: Seq<u64>,
    reports: Seq<Option<LimitOrderResponse>>,
    contract: Seq<char>,
    n0: int,
    n: int,
)
    requires
        0 <= n0 <= n,
        record_placed(orders, rungs, plan, ids, reports, contract, n0) is Err,
    ensures
        record_placed(orders, rungs, plan, ids, reports, contract, n) == record_placed(orders, rungs, plan, ids, reports, contract, n0),
    decreases n - n0,
{
    if n > n0 {
        lemma_record_err(orders, rungs, plan, ids, reports, contract, n0, n - 1);
    }
}

/// The number of orders a placement reply records: one per reported id, as
/// far as the plan has rungs and amounts.
pub open spec fn placed_count(plan: PlacementPlan, ids: Seq<u64>) -> int {
    let a = ids.len() as int;
    let b = plan.gross_amounts@.len() as int;
    if a <= b { a } else { b }
}


pub proof fn lemma_parse_none(values: Seq<String>, k0: int, k: int)
    requires
        0 <= k0 <= k <= values.len(),
        parse_all(values.take(k0)) is None,
    ensures
        parse_all(values.take(k)) is None,
    decreases k - k0,
{
    if k > k0 {
        lemma_parse_none(values, k0, k - 1);
        assert(values.take(k).drop_last() =~= values.take(k - 1));
    }
}

pub proof fn lemma_record_ok_prefix(
    orders: Map<u64, GridOrder>,
    rungs: Seq<crate::grid_types::Rung>,
    plan: PlacementPlan,
    ids: Seq<u64>,
    reports: Seq<Option<LimitOrderResponse>>,
    contract: Seq<char>,
    k: int,
    n: int,
)
    requires
        0 <= k <= n,
        record_placed(orders, rungs, plan, ids, reports, contract, n) is Ok,
    ensures
        record_placed(orders, rungs, plan, ids, reports, contract, k) is Ok,
    decreases n - k,
{
    if k < n {
        lemma_record_ok_prefix(orders, rungs, plan, ids, reports, contract, k + 1, n);
    }
}

/// What the pair answered to a submessage: the values of the placement
/// attributes on success, or the failure text.
pub enum SubReply {
    Succeeded(Vec<String>),
    Failed(String),
}

impl GridVault {
    /// Parse the reported ids.
    pub(crate) fn parse_ids(values: &Vec<String>) -> (r: Option<Vec<u64>>)
        ensures
            match r {
                Some(ids) => parse_all(values@) == Some(ids@),
                None => parse_all(values@) is None,
            },
    {
        let mut ids: Vec<u64> = Vec::new();
        let mut i: usize = 0;
        while i < values.len()
            invariant
                i <= values@.len(),
                parse_all(values@.take(i as int)) == Some(ids@),
            decreases values@.len() - i,
        {
            proof {
                assert(values@.take(i + 1).drop_last() =~= values@.take(i as int));
                assert(values@.take(i + 1).last() == values@[i as int]);
            }
            match parse_u64(values[i].as_str()) {
                Some(id) => ids.push(id),
                None => {
                    proof {
                        assert(parse_all(values@.take(i + 1)) is None);
                        lemma_parse_none(values@, i + 1, values@.len() as int);
                        assert(values@.take(values@.len() as int) =~= values@);
                    }
                    return None;
                },
            }
            i = i + 1;
        }
        assert(values@.take(values@.len() as int) =~= values@);
        Some(ids)
    }

    /// The pair's answer to submessage `reply_id`: a cancel or claim page is
    /// settled; a placement's orders are recorded after each is checked against
    /// its rung, or, for a single rung that failed or was skipped, its escrow
    /// returns to the free balance. `reports` are the pair's answers for the
    /// reported order ids, in order; `height` is the current block.
    pub fn reply(
        &mut self,
        reply_id: u64,
        result: &SubReply,
        contract: &String,
        reports: &Vec<Option<LimitOrderResponse>>,
        height: u64,
    ) -> (r: Result<ReplyOutcome, ContractError>)
        requires
            old(self).wf(),
        ensures
            final(self).wf(),
            old(self).mode == VaultMode::Exit ==> final(self).mode == VaultMode::Exit,
            r is Err ==> *final(self) == *old(self),
            !old(self).pending_pages@.contains_key(reply_id) && !old(self).placements@.contains_key(reply_id) ==> r
                == Err::<ReplyOutcome, ContractError>(ContractError::UnknownReply),
            old(self).pending_pages@.contains_key(reply_id) ==> page_settled(*old(self), *final(self), reply_id, result is Succeeded,
                failure_reason(*result), height, r),
            !old(self).pending_pages@.contains_key(reply_id) && old(self).placements@.contains_key(reply_id)
                && old(self).placements@[reply_id].rungs@.len() == 1 && result is Failed ==> placement_restored(*old(self),
                *final(self), reply_id, failure_reason(*result), r),
            !old(self).pending_pages@.contains_key(reply_id) && old(self).placements@.contains_key(reply_id)
                && old(self).placements@[reply_id].rungs@.len() == 1 && (result matches SubReply::Succeeded(values) && parse_all(values@)
                == Some(Seq::<u64>::empty())) ==> placement_restored(*old(self), *final(self), reply_id,
                "pair skipped the placement"@, r),
            !old(self).pending_pages@.contains_key(reply_id) && old(self).placements@.contains_key(reply_id) ==> ({
                let plan = old(self).placements@[reply_id];
                &&& result is Failed && plan.rungs@.len() != 1 ==> r == Err::<ReplyOutcome, ContractError>(
                    ContractError::Std(StdFault::SubmessageFailed))
                &&& result matches SubReply::Succeeded(values) ==> {
                    let ids = parse_all(values@);
                    &&& ids is None ==> r == Err::<ReplyOutcome, ContractError>(ContractError::InvalidPlacementReply)
                    &&& ids is Some && !(ids->0.len() == 0 && plan.rungs@.len() == 1) && ids->0.len() != plan.rungs@.len()
                        ==> r == Err::<ReplyOutcome, ContractError>(ContractError::InvalidPlacementReply)
                    &&& ids is Some && ids->0.len() == plan.rungs@.len() && ids->0.len() > 0 ==> {
                        let ids = ids->0;
                        let recorded = record_placed(old(self).orders@, old(self).rungs@, plan, ids, reports@, contract@, placed_count(plan, ids));
                        &&& !old(self).bot_exists(plan.bot_id) ==> r == Err::<ReplyOutcome, ContractError>(ContractError::Std(StdFault::NotFound))
                        &&& old(self).bot_exists(plan.bot_id) && recorded is Err ==> r == Err::<ReplyOutcome, ContractError>(recorded->Err_0)
                        &&& old(self).bot_exists(plan.bot_id) && recorded is Ok ==> r == Ok::<ReplyOutcome, ContractError>(ReplyOutcome::Recorded)
                            && final(self).orders@ == recorded->Ok_0 && final(self).placements@ == old(self).placements@.remove(reply_id)
                            && final(self).bot == old(self).bot && final(self).shares == old(self).shares
                    }
                }
            }),
    {
        if self.pending_pages.contains(reply_id) {
            return match result {
                SubReply::Succeeded(_) => self.settle_page(reply_id, true, String::new(), height),
                SubReply::Failed(reason) => self.settle_page(reply_id, false, reason.clone(), height),
            };
        }
        let (bot_id, side, rung_count) = match self.placements.get(reply_id) {
            Some(plan) => (plan.bot_id, plan.side, plan.rungs.len()),
            None => return Err(ContractError::UnknownReply),
        };
        let values = match result {
            SubReply::Failed(reason) => {
                if rung_count == 1 {
                    return self.restore_single_placement(reply_id, reason.clone());
                }
                return Err(ContractError::Std(StdFault::SubmessageFailed));
            },
            SubReply::Succeeded(values) => values,
        };
        let ids = match GridVault::parse_ids(values) {
            Some(ids) => ids,
            None => return Err(ContractError::InvalidPlacementReply),
        };
        if ids.len() == 0 && rung_count == 1 {
            return self.restore_single_placement(reply_id, "pair skipped the placement".to_string());
        }
        if ids.len() != rung_count {
            return Err(ContractError::InvalidPlacementReply);
        }
        if bot_id != BOT_ID || !self.has_bot {
            return Err(ContractError::Std(StdFault::NotFound));
        }
        let ghost plan = self.placements@[reply_id];
        let ghost orders0 = self.orders@;
        let ghost vals = values@;
        let gross_len = match self.placements.get(reply_id) {
            Some(p) => p.gross_amounts.len(),
            None => 0,
        };
        let n: usize = if ids.len() <= gross_len { ids.len() } else { gross_len };
        // Check every placed order before recording any.
        let mut seen: Vec<u64> = Vec::new();
        let mut k: usize = 0;
        while k < n
            invariant
                self.wf(),
                *self == *old(self),
                (*result matches SubReply::Succeeded(v) && v@ == vals),
                parse_all(vals) == Some(ids@),
                !self.pending_pages@.contains_key(reply_id),
                self.bot_exists(plan.bot_id),
                self.placements@.contains_key(reply_id),
                plan == self.placements@[reply_id],
                orders0 == self.orders@,
                n == placed_count(plan, ids@),
                ids@.len() == plan.rungs@.len(),
                plan.side == side,
                k <= n,
                record_placed(orders0, self.rungs@, plan, ids@, reports@, contract@, k as int) is Ok,
                seen@ == ids@.take(k as int),
                forall|id: u64| #[trigger] record_placed(orders0, self.rungs@, plan, ids@, reports@, contract@, k as int)->Ok_0.contains_key(id)
                    <==> (orders0.contains_key(id) || ids@.take(k as int).contains(id)),
            decreases n - k,
        {
            let id = ids[k];
            let mut dup = self.orders.contains(id);
            let mut t: usize = 0;
            while t < k
                invariant
                    t <= k,
                    seen@.len() == k,
                    dup ==> (orders0.contains_key(id) || seen@.take(t as int).contains(id)),
                    !dup ==> (orders0.contains_key(id) == false && !seen@.take(t as int).contains(id)),
                decreases k - t,
            {
                proof {
                    assert(seen@.take(t + 1) =~= seen@.take(t as int).push(seen@[t as int]));
                }
                if seen[t] == id {
                    dup = true;
                    proof {
                        assert(seen@.take(t + 1)[t as int] == id);
                    }
                }
                t = t + 1;
            }
            proof {
                assert(seen@.take(k as int) =~= seen@);
                if dup {
                    assert(record_placed(orders0, self.rungs@, plan, ids@, reports@, contract@, k as int)->Ok_0.contains_key(id));
                } else {
                    assert(!record_placed(orders0, self.rungs@, plan, ids@, reports@, contract@, k as int)->Ok_0.contains_key(id));
                }
            }
            if dup {
                proof {
                    lemma_record_err(orders0, self.rungs@, plan, ids@, reports@, contract@, k + 1, n as int);
                }
                return Err(ContractError::InvalidPlacementReply);
            }
            let (rung_index, gross) = match self.placements.get(reply_id) {
                Some(p) => (p.rungs[k], p.gross_amounts[k]),
                None => return Err(ContractError::UnknownReply),
            };
            let oc = if k < reports.len() {
                match &reports[k] {
                    Some(oc) => oc,
                    None => {
                        proof {
                            lemma_record_err(orders0, self.rungs@, plan, ids@, reports@, contract@, k + 1, n as int);
                        }
                        return Err(ContractError::Std(StdFault::QueryFailed));
                    },
                }
            } else {
                proof {
                    lemma_record_err(orders0, self.rungs@, plan, ids@, reports@, contract@, k + 1, n as int);
                }
                return Err(ContractError::Std(StdFault::QueryFailed));
            };
            if rung_index as usize >= self.rungs.len() {
                proof {
                    lemma_record_err(orders0, self.rungs@, plan, ids@, reports@, contract@, k + 1, n as int);
                }
                return Err(ContractError::Std(StdFault::NotFound));
            }
            if oc.owner != *contract || oc.side != side || oc.price.atomics != self.rungs[rung_index as usize].price.atomics
                || oc.remaining > gross {
                proof {
                    lemma_record_err(orders0, self.rungs@, plan, ids@, reports@, contract@, k + 1, n as int);
                }
                return Err(ContractError::InvalidOrder);
            }
            seen.push(id);
            proof {
                assert(ids@.take(k + 1) =~= ids@.take(k as int).push(id));
                let m = record_placed(orders0, self.rungs@, plan, ids@, reports@, contract@, k as int)->Ok_0;
                let m2 = record_placed(orders0, self.rungs@, plan, ids@, reports@, contract@, k + 1)->Ok_0;
                assert forall|x: u64| #[trigger] m2.contains_key(x) <==> (orders0.contains_key(x) || ids@.take(k + 1).contains(x)) by {
                    if x == id {
                        assert(ids@.take(k + 1)[k as int] == id);
                    } else {
                        if ids@.take(k + 1).contains(x) {
                            let q = choose|q: int| 0 <= q < ids@.take(k + 1).len() && #[trigger] ids@.take(k + 1)[q] == x;
                            assert(q < k);
                            assert(ids@.take(k as int)[q] == x);
                        }
                        if ids@.take(k as int).contains(x) {
                            let q = choose|q: int| 0 <= q < ids@.take(k as int).len() && #[trigger] ids@.take(k as int)[q] == x;
                            assert(ids@.take(k + 1)[q] == x);
                        }
                    }
                }
            }
            k = k + 1;
        }
        // Record them.
        let mut j: usize = 0;
        while j < n
            invariant
                self.wf(),
                self.same_but_orders(old(self)),
                (*result matches SubReply::Succeeded(v) && v@ == vals),
                parse_all(vals) == Some(ids@),
                !old(self).pending_pages@.contains_key(reply_id),
                old(self).bot_exists(plan.bot_id),
                old(self).placements@.contains_key(reply_id),
                plan == old(self).placements@[reply_id],
                orders0 == old(self).orders@,
                self.placements@.contains_key(reply_id),
                plan == self.placements@[reply_id],
                n == placed_count(plan, ids@),
                ids@.len() == plan.rungs@.len(),
                plan.side == side,
                j <= n,
                record_placed(orders0, self.rungs@, plan, ids@, reports@, contract@, n as int) is Ok,
                self.orders@ == record_placed(orders0, self.rungs@, plan, ids@, reports@, contract@, j as int)->Ok_0,
            decreases n - j,
        {
            proof {
                lemma_record_ok_prefix(orders0, self.rungs@, plan, ids@, reports@, contract@, j + 1, n as int);
            }
            let id = ids[j];
            let rung_index = match self.placements.get(reply_id) {
                Some(p) => p.rungs[j],
                None => 0,
            };
            let oc = match &reports[j] {
                Some(oc) => oc,
                None => return Err(ContractError::Std(StdFault::QueryFailed)),
            };
            self.orders.insert(id, GridOrder { rung_index, side, price: oc.price, remaining: oc.remaining });
            j = j + 1;
        }
        self.placements.remove(reply_id);
        Ok(ReplyOutcome::Recorded)
    }
}

} // verus!
