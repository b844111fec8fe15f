//! Order upkeep of the limit-grid vault: allocating free balances, recovering
//! an order the vault lost track of, and cancelling its orders, in the normal
//! mode and in emergency exit.
use vstd::prelude::*;
use crate::errors::StdFault;
use crate::grid_math::order_matches;
use crate::grid_pages::{pages_needed, PageRequest};
use crate::grid_types::{
    input_index, side_input_index, ContractError, GridOrder, LimitOrderResponse, LimitOrderSide, OrderStatus,
    PendingPageEntry, VaultMode,
};
use crate::grid_vault::{
    allocation_plan, allocation_request, entries_indexed, free_after, plans_kept, side_indices, AllocationStep, GridVault, BOT_ID,
};

verus! {

/// The checks of recovering order `order_id` at rung `rung_index`, in order:
/// the amount the pair holds for it and whether it is parked, or the error.
pub open spec fn recover_check(
    v: GridVault,
    has_funds: bool,
    sender: Seq<char>,
    contract: Seq<char>,
    bot_id: u64,
    order_id: u64,
    rung_index: u32,
    code_id: Option<u64>,
    status: OrderStatus,
) -> Result<(u128, bool), ContractError> {
    if has_funds {
        Err(ContractError::UnexpectedFunds)
    } else if !v.bot_exists(bot_id) {
        Err(ContractError::Std(StdFault::NotFound))
    } else if sender != v.bot.owner@ {
        Err(ContractError::Unauthorized)
    } else if v.orders@.contains_key(order_id) || v.cancelled@.contains_key(order_id) {
        Err(ContractError::InvalidOrder)
    } else if code_id is None {
        Err(ContractError::Std(StdFault::QueryFailed))
    } else if code_id->0 != v.bot.pair_code_id {
        Err(ContractError::PairCodeMismatch)
    } else if rung_index >= v.rungs@.len() {
        Err(ContractError::Std(StdFault::NotFound))
    } else if v.rungs@[rung_index as int].side is None {
        Err(ContractError::InvalidOrder)
    } else {
        let side = v.rungs@[rung_index as int].side->0;
        let price = v.rungs@[rung_index as int].price;
        match status {
            OrderStatus::Active(oc) => {
                let recovered = GridOrder { rung_index, side, price, remaining: oc.remaining };
                if oc.owner@ != contract {
                    Err(ContractError::InvalidOrderOwner)
                } else if !order_matches(contract, order_id, recovered, oc) || oc.remaining == 0 {
                    Err(ContractError::InvalidOrder)
                } else {
                    Ok((oc.remaining, false))
                }
            },
            OrderStatus::Parked(Some(rf)) => if rf.owner@ != contract || rf.order_id != order_id || rf.side != side
                || rf.remaining == 0 {
                Err(ContractError::InvalidOrder)
            } else {
                Ok((rf.remaining, true))
            },
            _ => Err(ContractError::OrderStatusUnverifiable),
        }
    }
}

/// The refund entry of a parked order of `side`.
pub open spec fn refund_entry(order_id: u64, side: LimitOrderSide, refund: u128) -> PendingPageEntry {
    PendingPageEntry { order_id, token_index: input_index(side) as u8, refund }
}

/// The cancel entries for the first `n` watched orders `watched`, checked
/// against the pair's reports `reports`: each must be active, match, and be
/// unchanged since the last reconcile.
pub open spec fn cancel_entries(
    contract: Seq<char>,
    watched: Seq<(u64, GridOrder)>,
    reports: Seq<Option<LimitOrderResponse>>,
    n: int,
) -> Result<Seq<PendingPageEntry>, ContractError>
    decreases n,
{
    if n <= 0 {
        Ok(Seq::empty())
    } else {
        match cancel_entries(contract, watched, reports, n - 1) {
            Err(e) => Err(e),
            Ok(before) => {
                let (id, order) = watched[n - 1];
                if n - 1 >= reports.len() || reports[n - 1] is None {
                    Err(ContractError::UnsettledOrder)
                } else {
                    let oc = reports[n - 1]->0;
                    if oc.owner@ != contract {
                        Err(ContractError::InvalidOrderOwner)
                    } else if !order_matches(contract, id, order, oc) {
                        Err(ContractError::InvalidOrder)
                    } else if oc.remaining != order.remaining {
                        Err(ContractError::UnsettledOrder)
                    } else {
                        Ok(before.push(refund_entry(id, order.side, oc.remaining)))
                    }
                }
            },
        }
    }
}

/// The cancel and claim entries of an emergency exit for the first `n`
/// watched orders: active orders are cancelled, parked ones claimed; an order
/// whose status cannot be told stops the exit.
pub open spec fn exit_entries(
    contract: Seq<char>,
    watched: Seq<(u64, GridOrder)>,
    statuses: Seq<OrderStatus>,
    n: int,
) -> Result<(Seq<PendingPageEntry>, Seq<PendingPageEntry>), ContractError>
    decreases n,
{
    if n <= 0 {
        Ok((Seq::empty(), Seq::empty()))
    } else {
        match exit_entries(contract, watched, statuses, n - 1) {
            Err(e) => Err(e),
            Ok((cancels, claims)) => {
                let (id, order) = watched[n - 1];
                if n - 1 >= statuses.len() {
                    Err(ContractError::OrderStatusUnverifiable)
                } else {
                    match statuses[n - 1] {
                        OrderStatus::Active(oc) => if oc.owner@ != contract {
                            Err(ContractError::InvalidOrderOwner)
                        } else if !order_matches(contract, id, order, oc) {
                            Err(ContractError::InvalidOrder)
                        } else {
                            Ok((cancels.push(refund_entry(id, order.side, oc.remaining)), claims))
                        },
                        OrderStatus::Parked(Some(rf)) => if rf.owner@ != contract || rf.order_id != id || rf.side != order.side
                            || rf.remaining > order.remaining {
                            Err(ContractError::InvalidOrder)
                        } else {
                            Ok((cancels, claims.push(refund_entry(id, order.side, rf.remaining))))
                        },
                        _ => Err(ContractError::OrderStatusUnverifiable),
                    }
                }
            },
        }
    }
}

/// Entry `e` refunds watched order `q`: its id, its input token (token 0 for an
/// ask, token 1 for a bid), and the remaining amount the pair reports for it.
pub open spec fn entry_refunds_report(e: PendingPageEntry, watched: Seq<(u64, GridOrder)>, reports: Seq<Option<LimitOrderResponse>>, q: int) -> bool {
    &&& q < reports.len() && reports[q] is Some
    &&& e.order_id == watched[q].0
    &&& e.refund == reports[q]->0.remaining
    &&& e.token_index == (if watched[q].1.side == LimitOrderSide::Ask { 0u8 } else { 1u8 })
}

/// Cancelling the first `n` watched orders yields one entry per order, in
/// order: its id, its input token (token 0 for an ask, token 1 for a bid) and
/// the remaining amount the pair reports for it.
pub proof fn law_cancel_entries_refund_what_the_pair_holds(
    contract: Seq<char>,
    watched: Seq<(u64, GridOrder)>,
    reports: Seq<Option<LimitOrderResponse>>,
    n: int,
)
    requires
        0 <= n <= watched.len(),
        cancel_entries(contract, watched, reports, n) is Ok,
    ensures
        cancel_entries(contract, watched, reports, n)->Ok_0.len() == n,
        forall|q: int| 0 <= q < n ==> entry_refunds_report(#[trigger] cancel_entries(contract, watched, reports, n)->Ok_0[q], watched, reports, q),
    decreases n,
{
    if n > 0 {
        law_cancel_entries_refund_what_the_pair_holds(contract, watched, reports, n - 1);
        let prev = cancel_entries(contract, watched, reports, n - 1)->Ok_0;
        let cur = cancel_entries(contract, watched, reports, n)->Ok_0;
        assert forall|q: int| 0 <= q < n implies entry_refunds_report(#[trigger] cur[q], watched, reports, q) by {
            if q < n - 1 {
                assert(cur[q] == prev[q]);
            }
        }
    }
}

/// What the pair says it holds for an order: the remaining escrow of an active
/// order (`active`), or the parked refund of an expired one (`!active`).
pub open spec fn pair_holds(status: OrderStatus, active: bool) -> Option<int> {
    match status {
        OrderStatus::Active(oc) => if active { Some(oc.remaining as int) } else { None },
        OrderStatus::Parked(Some(rf)) => if active { None } else { Some(rf.remaining as int) },
        _ => None,
    }
}

/// Entry `e` refunds, into the token the order was paid in, exactly what the
/// pair holds for one of the first `n` watched orders with that id.
pub open spec fn refund_backed(watched: Seq<(u64, GridOrder)>, statuses: Seq<OrderStatus>, n: int, e: PendingPageEntry, active: bool) -> bool {
    exists|j: int|
        0 <= j < n && j < statuses.len() && #[trigger] watched[j].0 == e.order_id
            && pair_holds(statuses[j], active) == Some(e.refund as int)
            && e.token_index == (if watched[j].1.side == LimitOrderSide::Ask { 0u8 } else { 1u8 })
}

/// An emergency exit refunds what the pair holds, never the vault's own record:
/// each cancel entry carries the remaining amount the pair reports for that
/// active order, each claim entry the refund the pair parked for it, each into
/// the order's input token (token 0 for an ask, token 1 for a bid).
pub proof fn law_exit_refunds_what_the_pair_holds(
    contract: Seq<char>,
    watched: Seq<(u64, GridOrder)>,
    statuses: Seq<OrderStatus>,
    n: int,
)
    requires
        0 <= n <= watched.len(),
        exit_entries(contract, watched, statuses, n) is Ok,
    ensures
        forall|q: int| 0 <= q < exit_entries(contract, watched, statuses, n)->Ok_0.0.len()
            ==> refund_backed(watched, statuses, n, #[trigger] exit_entries(contract, watched, statuses, n)->Ok_0.0[q], true),
        forall|q: int| 0 <= q < exit_entries(contract, watched, statuses, n)->Ok_0.1.len()
            ==> refund_backed(watched, statuses, n, #[trigger] exit_entries(contract, watched, statuses, n)->Ok_0.1[q], false),
    decreases n,
{
    if n > 0 {
        law_exit_refunds_what_the_pair_holds(contract, watched, statuses, n - 1);
        let prev = exit_entries(contract, watched, statuses, n - 1)->Ok_0;
        let cur = exit_entries(contract, watched, statuses, n)->Ok_0;
        assert forall|q: int| 0 <= q < cur.0.len() implies refund_backed(watched, statuses, n, #[trigger] cur.0[q], true) by {
            if q < prev.0.len() {
                assert(cur.0[q] == prev.0[q]);
                let j = choose|j: int|
                    0 <= j < n - 1 && j < statuses.len() && #[trigger] watched[j].0 == prev.0[q].order_id
                        && pair_holds(statuses[j], true) == Some(prev.0[q].refund as int)
                        && prev.0[q].token_index == (if watched[j].1.side == LimitOrderSide::Ask { 0u8 } else { 1u8 });
                assert(watched[j].0 == cur.0[q].order_id);
            } else {
                assert(watched[n - 1].0 == cur.0[q].order_id);
            }
        }
        assert forall|q: int| 0 <= q < cur.1.len() implies refund_backed(watched, statuses, n, #[trigger] cur.1[q], false) by {
            if q < prev.1.len() {
                assert(cur.1[q] == prev.1[q]);
                let j = choose|j: int|
                    0 <= j < n - 1 && j < statuses.len() && #[trigger] watched[j].0 == prev.1[q].order_id
                        && pair_holds(statuses[j], false) == Some(prev.1[q].refund as int)
                        && prev.1[q].token_index == (if watched[j].1.side == LimitOrderSide::Ask { 0u8 } else { 1u8 });
                assert(watched[j].0 == cur.1[q].order_id);
            } else {
                assert(watched[n - 1].0 == cur.1[q].order_id);
            }
        }
    }
}

/// The orders a cancel pass looks at: the lowest `limit` ids.
pub open spec fn first_tracked(v: GridVault, limit: u32) -> Seq<(u64, GridOrder)> {
    let s = v.orders.entries@;
    if limit < s.len() { s.take(limit as int) } else { s }
}

pub proof fn lemma_refund_entries_indexed(s: Seq<PendingPageEntry>, e: PendingPageEntry)
    requires
        entries_indexed(s),
        e.token_index < 2,
    ensures
        entries_indexed(s.push(e)),
{
    assert forall|k: int| 0 <= k < s.push(e).len() implies (#[trigger] s.push(e)[k]).token_index < 2 by {
        if k < s.len() {
            assert(s.push(e)[k] == s[k]);
        }
    }
}

impl GridVault {
    /// The watched orders with the lowest `limit` ids, ascending.
    fn tracked_prefix(&self, limit: u32) -> (r: Vec<(u64, GridOrder)>)
        ensures
            r@ == first_tracked(*self, limit),
    {
        let n: usize = if (limit as usize) < self.orders.entries.len() { limit as usize } else { self.orders.entries.len() };
        let mut out: Vec<(u64, GridOrder)> = Vec::new();
        let mut i: usize = 0;
        while i < n
            invariant
                n <= self.orders.entries@.len(),
                n == (if limit < self.orders.entries@.len() { limit as int } else { self.orders.entries@.len() as int }),
                i <= n,
                out@ == self.orders.entries@.take(i as int),
            decreases n - i,
        {
            out.push(self.orders.entries[i]);
            proof {
                assert(self.orders.entries@.take(i + 1) =~= self.orders.entries@.take(i as int).push(self.orders.entries@[i as int]));
            }
            i = i + 1;
        }
        proof {
            if !(limit < self.orders.entries@.len()) {
                assert(self.orders.entries@.take(n as int) =~= self.orders.entries@);
            }
        }
        out
    }

    /// The bot owner puts back under tracking an order the pair still holds for
    /// the vault at a rung, after verifying it positively: active with the
    /// rung's side and price, or parked with a refund to claim.
    pub fn recover_order(
        &mut self,
        has_funds: bool,
        sender: &String,
        contract: &String,
        bot_id: u64,
        order_id: u64,
        rung_index: u32,
        code_id: Option<u64>,
        status: &OrderStatus,
    ) -> (r: Result<Vec<PageRequest>, ContractError>)
        requires
            old(self).wf(),
        ensures
            final(self).wf(),
            old(self).mode == VaultMode::Exit ==> final(self).mode == VaultMode::Exit,
            ({
                let check = recover_check(*old(self), has_funds, sender@, contract@, bot_id, order_id, rung_index, code_id, *status);
                &&& check matches Err(e) ==> r == Err::<Vec<PageRequest>, ContractError>(e)
                &&& check is Ok && old(self).bot.active_orders == u32::MAX ==> r == Err::<Vec<PageRequest>, ContractError>(
                    ContractError::ArithmeticOutOfRange)
                &&& check is Ok && old(self).bot.active_orders < u32::MAX && check->Ok_0.1 && !old(self).pages_fit(1)
                    ==> r == Err::<Vec<PageRequest>, ContractError>(ContractError::Std(StdFault::Overflow))
                &&& check is Ok && old(self).bot.active_orders < u32::MAX && (!check->Ok_0.1 || old(self).pages_fit(1)) ==> r is Ok
                &&& r is Err ==> *final(self) == *old(self)
                &&& r matches Ok(pages) ==> {
                    let (remaining, parked) = check->Ok_0;
                    let rung = old(self).rungs@[rung_index as int];
                    &&& final(self).orders@ == old(self).orders@.insert(
                        order_id,
                        GridOrder { rung_index, side: rung.side->0, price: rung.price, remaining },
                    )
                    &&& final(self).bot.active_orders == old(self).bot.active_orders + 1
                    &&& pages@.len() == (if parked { 1int } else { 0 })
                    &&& parked ==> crate::grid_pages::page_sent(
                        *final(self),
                        pages@[0],
                        old(self).next_reply_id as int,
                        BOT_ID,
                        crate::grid_types::PageKind::Claim,
                        seq![refund_entry(order_id, rung.side->0, remaining)],
                    )
                    &&& final(self).bot.free_balances == old(self).bot.free_balances
                    &&& final(self).bot.total_shares == old(self).bot.total_shares
                    &&& final(self).shares == old(self).shares
                }
            }),
    {
        if has_funds {
            return Err(ContractError::UnexpectedFunds);
        }
        if bot_id != BOT_ID || !self.has_bot {
            return Err(ContractError::Std(StdFault::NotFound));
        }
        if *sender != self.bot.owner {
            return Err(ContractError::Unauthorized);
        }
        if self.orders.contains(order_id) || self.cancelled.contains(order_id) {
            return Err(ContractError::InvalidOrder);
        }
        match code_id {
            None => return Err(ContractError::Std(StdFault::QueryFailed)),
            Some(c) => {
                if c != self.bot.pair_code_id {
                    return Err(ContractError::PairCodeMismatch);
                }
            },
        }
        if rung_index as usize >= self.rungs.len() {
            return Err(ContractError::Std(StdFault::NotFound));
        }
        let rung = self.rungs[rung_index as usize];
        let side = match rung.side {
            Some(s) => s,
            None => return Err(ContractError::InvalidOrder),
        };
        let (remaining, parked) = match status {
            OrderStatus::Active(oc) => {
                let recovered = GridOrder { rung_index, side, price: rung.price, remaining: oc.remaining };
                match crate::grid_math::validate_order(contract, order_id, &recovered, oc) {
                    Err(e) => return Err(e),
                    Ok(()) => {},
                }
                if oc.remaining == 0 {
                    return Err(ContractError::InvalidOrder);
                }
                (oc.remaining, false)
            },
            OrderStatus::Parked(Some(rf)) => {
                if rf.owner != *contract || rf.order_id != order_id || rf.side != side || rf.remaining == 0 {
                    return Err(ContractError::InvalidOrder);
                }
                (rf.remaining, true)
            },
            _ => return Err(ContractError::OrderStatusUnverifiable),
        };
        if self.bot.active_orders == u32::MAX {
            return Err(ContractError::ArithmeticOutOfRange);
        }
        if parked && self.next_reply_id == u64::MAX {
            return Err(ContractError::Std(StdFault::Overflow));
        }
        self.orders.insert(order_id, GridOrder { rung_index, side, price: rung.price, remaining });
        self.bot.active_orders = self.bot.active_orders + 1;
        if parked {
            let claims: Vec<PendingPageEntry> = vec![PendingPageEntry { order_id, token_index: side_input_index(side) as u8, refund: remaining }];
            let cancels: Vec<PendingPageEntry> = Vec::new();
            proof {
                assert(claims@ =~= seq![refund_entry(order_id, side, remaining)]);
                assert(entries_indexed(claims@)) by {
                    assert forall|k: int| 0 <= k < claims@.len() implies (#[trigger] claims@[k]).token_index < 2 by {
                        assert(claims@[k] == refund_entry(order_id, side, remaining));
                    }
                }
                crate::grid_pages::lemma_chunks_len(claims@, crate::grid_pages::page_size(self.bot.pair_batch_limit));
                crate::grid_pages::lemma_chunks_len(cancels@, crate::grid_pages::page_size(self.bot.pair_batch_limit));
                assert(claims@.subrange(0, 1) =~= claims@);
            }
            let batch = self.bot.pair_batch_limit;
            match self.add_confirmable_pages(BOT_ID, &cancels, &claims, batch) {
                Ok(p) => Ok(p),
                Err(_) => Ok(Vec::new()),
            }
        } else {
            Ok(Vec::new())
        }
    }
}


/// A cancel or claim entry names token 0 or 1.
pub proof fn lemma_cancel_entries_indexed(contract: Seq<char>, w: Seq<(u64, GridOrder)>, reports: Seq<Option<LimitOrderResponse>>, n: int)
    requires
        cancel_entries(contract, w, reports, n) is Ok,
    ensures
        entries_indexed(cancel_entries(contract, w, reports, n)->Ok_0),
    decreases n,
{
    if n > 0 {
        lemma_cancel_entries_indexed(contract, w, reports, n - 1);
        let before = cancel_entries(contract, w, reports, n - 1)->Ok_0;
        let (id, order) = w[n - 1];
        lemma_refund_entries_indexed(before, refund_entry(id, order.side, reports[n - 1]->0.remaining));
    }
}

pub proof fn lemma_exit_entries_indexed(contract: Seq<char>, w: Seq<(u64, GridOrder)>, statuses: Seq<OrderStatus>, n: int)
    requires
        exit_entries(contract, w, statuses, n) is Ok,
    ensures
        entries_indexed(exit_entries(contract, w, statuses, n)->Ok_0.0),
        entries_indexed(exit_entries(contract, w, statuses, n)->Ok_0.1),
    decreases n,
{
    if n > 0 {
        lemma_exit_entries_indexed(contract, w, statuses, n - 1);
        let (cancels, claims) = exit_entries(contract, w, statuses, n - 1)->Ok_0;
        let (id, order) = w[n - 1];
        match statuses[n - 1] {
            OrderStatus::Active(oc) => {
                lemma_refund_entries_indexed(cancels, refund_entry(id, order.side, oc.remaining));
            },
            OrderStatus::Parked(Some(rf)) => {
                lemma_refund_entries_indexed(claims, refund_entry(id, order.side, rf.remaining));
            },
            _ => {},
        }
    }
}

pub proof fn lemma_cancel_entries_err(contract: Seq<char>, w: Seq<(u64, GridOrder)>, reports: Seq<Option<LimitOrderResponse>>, n0: int, n: int)
    requires
        0 <= n0 <= n,
        cancel_entries(contract, w, reports, n0) is Err,
    ensures
        cancel_entries(contract, w, reports, n) == cancel_entries(contract, w, reports, n0),
    decreases n - n0,
{
    if n > n0 {
        lemma_cancel_entries_err(contract, w, reports, n0, n - 1);
    }
}

pub proof fn lemma_exit_entries_err(contract: Seq<char>, w: Seq<(u64, GridOrder)>, statuses: Seq<OrderStatus>, n0: int, n: int)
    requires
        0 <= n0 <= n,
        exit_entries(contract, w, statuses, n0) is Err,
    ensures
        exit_entries(contract, w, statuses, n) == exit_entries(contract, w, statuses, n0),
    decreases n - n0,
{
    if n > n0 {
        lemma_exit_entries_err(contract, w, statuses, n0, n - 1);
    }
}

/// The cancel entries, computed.
fn build_cancel_entries(contract: &String, w: &Vec<(u64, GridOrder)>, reports: &Vec<Option<LimitOrderResponse>>) -> (r: Result<
    Vec<PendingPageEntry>,
    ContractError,
>)
    ensures
        match r {
            Ok(v) => cancel_entries(contract@, w@, reports@, w@.len() as int) == Ok::<Seq<PendingPageEntry>, ContractError>(v@),
            Err(e) => cancel_entries(contract@, w@, reports@, w@.len() as int) == Err::<Seq<PendingPageEntry>, ContractError>(e),
        },
{
    let mut out: Vec<PendingPageEntry> = Vec::new();
    let mut i: usize = 0;
    while i < w.len()
        invariant
            i <= w@.len(),
            cancel_entries(contract@, w@, reports@, i as int) == Ok::<Seq<PendingPageEntry>, ContractError>(out@),
        decreases w@.len() - i,
    {
        let (id, order) = w[i];
        let oc = if i < reports.len() {
            match &reports[i] {
                Some(oc) => oc,
                None => {
                    proof {
                        lemma_cancel_entries_err(contract@, w@, reports@, i + 1, w@.len() as int);
                    }
                    return Err(ContractError::UnsettledOrder);
                },
            }
        } else {
            proof {
                lemma_cancel_entries_err(contract@, w@, reports@, i + 1, w@.len() as int);
            }
            return Err(ContractError::UnsettledOrder);
        };
        match crate::grid_math::validate_order(contract, id, &order, oc) {
            Err(e) => {
                proof {
                    lemma_cancel_entries_err(contract@, w@, reports@, i + 1, w@.len() as int);
                }
                return Err(e);
            },
            Ok(()) => {},
        }
        if oc.remaining != order.remaining {
            proof {
                lemma_cancel_entries_err(contract@, w@, reports@, i + 1, w@.len() as int);
            }
            return Err(ContractError::UnsettledOrder);
        }
        out.push(PendingPageEntry { order_id: id, token_index: side_input_index(order.side) as u8, refund: oc.remaining });
        i = i + 1;
    }
    Ok(out)
}

/// The emergency-exit entries, computed.
fn build_exit_entries(contract: &String, w: &Vec<(u64, GridOrder)>, statuses: &Vec<OrderStatus>) -> (r: Result<
    (Vec<PendingPageEntry>, Vec<PendingPageEntry>),
    ContractError,
>)
    ensures
        match r {
            Ok((c, m)) => exit_entries(contract@, w@, statuses@, w@.len() as int) == Ok::<
                (Seq<PendingPageEntry>, Seq<PendingPageEntry>),
                ContractError,
            >((c@, m@)),
            Err(e) => exit_entries(contract@, w@, statuses@, w@.len() as int) == Err::<
                (Seq<PendingPageEntry>, Seq<PendingPageEntry>),
                ContractError,
            >(e),
        },
{
    let mut cancels: Vec<PendingPageEntry> = Vec::new();
    let mut claims: Vec<PendingPageEntry> = Vec::new();
    let mut i: usize = 0;
    while i < w.len()
        invariant
            i <= w@.len(),
            exit_entries(contract@, w@, statuses@, i as int) == Ok::<(Seq<PendingPageEntry>, Seq<PendingPageEntry>), ContractError>(
                (cancels@, claims@),
            ),
        decreases w@.len() - i,
    {
        let (id, order) = w[i];
        if i >= statuses.len() {
            proof {
                lemma_exit_entries_err(contract@, w@, statuses@, i + 1, w@.len() as int);
            }
            return Err(ContractError::OrderStatusUnverifiable);
        }
        match &statuses[i] {
            OrderStatus::Active(oc) => {
                match crate::grid_math::validate_order(contract, id, &order, oc) {
                    Err(e) => {
                        proof {
                            lemma_exit_entries_err(contract@, w@, statuses@, i + 1, w@.len() as int);
                        }
                        return Err(e);
                    },
                    Ok(()) => {},
                }
                cancels.push(PendingPageEntry { order_id: id, token_index: side_input_index(order.side) as u8, refund: oc.remaining });
            },
            OrderStatus::Parked(Some(rf)) => {
                if rf.owner != *contract || rf.order_id != id || rf.side != order.side || rf.remaining > order.remaining {
                    proof {
                        lemma_exit_entries_err(contract@, w@, statuses@, i + 1, w@.len() as int);
                    }
                    return Err(ContractError::InvalidOrder);
                }
                claims.push(PendingPageEntry { order_id: id, token_index: side_input_index(order.side) as u8, refund: rf.remaining });
            },
            _ => {
                proof {
                    lemma_exit_entries_err(contract@, w@, statuses@, i + 1, w@.len() as int);
                }
                return Err(ContractError::OrderStatusUnverifiable);
            },
        }
        i = i + 1;
    }
    Ok((cancels, claims))
}

/// What an emergency cancel did: the pages sent, how many orders it looked
/// at, and whether orders are still tracked.
pub struct ExitCancel {
    pub pages: Vec<PageRequest>,
    pub processed: u64,
    pub orders_remain: bool,
}

impl GridVault {
    /// The bot owner cancels the tracked orders with the lowest ids (at most
    /// `max_orders_per_reconcile`), each of which must be active on the pair and
    /// unchanged since the last reconcile; `reports` are the pair's answers for
    /// them, in the same order. Each cancel is confirmed when the pair answers.
    pub fn cancel_all(
        &mut self,
        has_funds: bool,
        sender: &String,
        contract: &String,
        bot_id: u64,
        code_id: Option<u64>,
        reports: &Vec<Option<LimitOrderResponse>>,
        batch_limit: Option<u32>,
    ) -> (r: Result<Vec<PageRequest>, ContractError>)
        requires
            old(self).wf(),
        ensures
            final(self).wf(),
            old(self).mode == VaultMode::Exit ==> final(self).mode == VaultMode::Exit,
            ({
                let w = first_tracked(*old(self), old(self).config.max_orders_per_reconcile);
                let entries = cancel_entries(contract@, w, reports@, w.len() as int);
                let pre: Result<(), ContractError> = if has_funds {
                    Err(ContractError::UnexpectedFunds)
                } else if !old(self).bot_exists(bot_id) {
                    Err(ContractError::Std(StdFault::NotFound))
                } else if sender@ != old(self).bot.owner@ {
                    Err(ContractError::Unauthorized)
                } else if code_id is None {
                    Err(ContractError::Std(StdFault::QueryFailed))
                } else if code_id->0 != old(self).bot.pair_code_id {
                    Err(ContractError::PairCodeMismatch)
                } else {
                    Ok(())
                };
                &&& pre matches Err(e) ==> r == Err::<Vec<PageRequest>, ContractError>(e)
                &&& pre is Ok && w.len() == 0 ==> (r matches Ok(p) && p@.len() == 0)
                &&& pre is Ok && w.len() > 0 && entries is Err ==> r == Err::<Vec<PageRequest>, ContractError>(entries->Err_0)
                &&& pre is Ok && w.len() > 0 && entries is Ok && batch_limit is None ==> r == Err::<Vec<PageRequest>, ContractError>(
                    ContractError::Std(StdFault::QueryFailed))
                &&& pre is Ok && w.len() > 0 && entries is Ok && batch_limit is Some && !old(self).pages_fit(
                    pages_needed(entries->Ok_0, Seq::empty(), batch_limit->0)) ==> r == Err::<Vec<PageRequest>, ContractError>(
                    ContractError::Std(StdFault::Overflow))
                &&& r is Ok <==> pre is Ok && (w.len() == 0 || (entries is Ok && batch_limit is Some && old(self).pages_fit(
                    pages_needed(entries->Ok_0, Seq::empty(), batch_limit->0))))
                &&& r is Err ==> *final(self) == *old(self)
                &&& r matches Ok(pages) ==> {
                    &&& (w.len() == 0 ==> *final(self) == *old(self))
                    &&& (w.len() > 0 ==> {
                        &&& pages@.len() == pages_needed(entries->Ok_0, Seq::empty(), batch_limit->0)
                        &&& forall|k: int| 0 <= k < pages@.len() ==> crate::grid_pages::page_sent(
                            *final(self),
                            #[trigger] pages@[k],
                            old(self).next_reply_id + k,
                            BOT_ID,
                            crate::grid_pages::page_kind(entries->Ok_0, batch_limit->0, k),
                            crate::grid_pages::page_piece(entries->Ok_0, Seq::empty(), batch_limit->0, k),
                        )
                    })
                    &&& final(self).orders == old(self).orders
                    &&& final(self).bot == old(self).bot
                    &&& final(self).shares == old(self).shares
                }
            }),
    {
        if has_funds {
            return Err(ContractError::UnexpectedFunds);
        }
        if bot_id != BOT_ID || !self.has_bot {
            return Err(ContractError::Std(StdFault::NotFound));
        }
        if *sender != self.bot.owner {
            return Err(ContractError::Unauthorized);
        }
        match code_id {
            None => return Err(ContractError::Std(StdFault::QueryFailed)),
            Some(c) => {
                if c != self.bot.pair_code_id {
                    return Err(ContractError::PairCodeMismatch);
                }
            },
        }
        let w = self.tracked_prefix(self.config.max_orders_per_reconcile);
        if w.len() == 0 {
            return Ok(Vec::new());
        }
        let entries = match build_cancel_entries(contract, &w, reports) {
            Ok(e) => e,
            Err(e) => return Err(e),
        };
        let batch = match batch_limit {
            Some(b) => b,
            None => return Err(ContractError::Std(StdFault::QueryFailed)),
        };
        let claims: Vec<PendingPageEntry> = Vec::new();
        proof {
            lemma_cancel_entries_indexed(contract@, w@, reports@, w@.len() as int);
        }
        self.add_confirmable_pages(BOT_ID, &entries, &claims, batch)
    }

    /// In exit mode, the bot owner cancels the active orders and claims the
    /// parked refunds of the tracked orders with the lowest ids (at most
    /// `max_orders_per_reconcile`); `statuses` are the pair's answers for them.
    /// An order whose status cannot be told keeps every order tracked.
    pub fn emergency_cancel(
        &mut self,
        has_funds: bool,
        sender: &String,
        contract: &String,
        bot_id: u64,
        code_id: Option<u64>,
        statuses: &Vec<OrderStatus>,
    ) -> (r: Result<ExitCancel, ContractError>)
        requires
            old(self).wf(),
        ensures
            final(self).wf(),
            old(self).mode == VaultMode::Exit ==> final(self).mode == VaultMode::Exit,
            ({
                let w = first_tracked(*old(self), old(self).config.max_orders_per_reconcile);
                let entries = exit_entries(contract@, w, statuses@, w.len() as int);
                let pre: Result<(), ContractError> = if has_funds {
                    Err(ContractError::UnexpectedFunds)
                } else if old(self).mode != VaultMode::Exit {
                    Err(ContractError::InvalidMode)
                } else if !old(self).bot_exists(bot_id) {
                    Err(ContractError::Std(StdFault::NotFound))
                } else if sender@ != old(self).bot.owner@ {
                    Err(ContractError::Unauthorized)
                } else if code_id is None {
                    Err(ContractError::Std(StdFault::QueryFailed))
                } else if code_id->0 != old(self).bot.pair_code_id {
                    Err(ContractError::PairCodeMismatch)
                } else {
                    Ok(())
                };
                &&& pre matches Err(e) ==> r == Err::<ExitCancel, ContractError>(e)
                &&& pre is Ok && entries is Err ==> r == Err::<ExitCancel, ContractError>(entries->Err_0)
                &&& pre is Ok && entries is Ok && !old(self).pages_fit(
                    pages_needed(entries->Ok_0.0, entries->Ok_0.1, old(self).bot.pair_batch_limit)) ==> r == Err::<ExitCancel, ContractError>(
                    ContractError::Std(StdFault::Overflow))
                &&& pre is Ok && entries is Ok && old(self).pages_fit(
                    pages_needed(entries->Ok_0.0, entries->Ok_0.1, old(self).bot.pair_batch_limit)) ==> r is Ok
                &&& r is Err ==> *final(self) == *old(self)
                &&& r matches Ok(out) ==> {
                    &&& out.processed == w.len()
                    &&& out.orders_remain == (old(self).orders.entries@.len() > 0)
                    &&& out.pages@.len() == pages_needed(entries->Ok_0.0, entries->Ok_0.1, old(self).bot.pair_batch_limit)
                    &&& forall|k: int| 0 <= k < out.pages@.len() ==> crate::grid_pages::page_sent(
                        *final(self),
                        #[trigger] out.pages@[k],
                        old(self).next_reply_id + k,
                        BOT_ID,
                        crate::grid_pages::page_kind(entries->Ok_0.0, old(self).bot.pair_batch_limit, k),
                        crate::grid_pages::page_piece(entries->Ok_0.0, entries->Ok_0.1, old(self).bot.pair_batch_limit, k),
                    )
                    &&& final(self).orders == old(self).orders
                    &&& final(self).bot == old(self).bot
                    &&& final(self).shares == old(self).shares
                }
            }),
    {
        if has_funds {
            return Err(ContractError::UnexpectedFunds);
        }
        if self.mode != VaultMode::Exit {
            return Err(ContractError::InvalidMode);
        }
        if bot_id != BOT_ID || !self.has_bot {
            return Err(ContractError::Std(StdFault::NotFound));
        }
        if *sender != self.bot.owner {
            return Err(ContractError::Unauthorized);
        }
        match code_id {
            None => return Err(ContractError::Std(StdFault::QueryFailed)),
            Some(c) => {
                if c != self.bot.pair_code_id {
                    return Err(ContractError::PairCodeMismatch);
                }
            },
        }
        let w = self.tracked_prefix(self.config.max_orders_per_reconcile);
        let (cancels, claims) = match build_exit_entries(contract, &w, statuses) {
            Ok(e) => e,
            Err(e) => return Err(e),
        };
        let orders_remain = self.orders.len() > 0;
        proof {
            lemma_exit_entries_indexed(contract@, w@, statuses@, w@.len() as int);
        }
        let batch = self.bot.pair_batch_limit;
        let pages = match self.add_confirmable_pages(BOT_ID, &cancels, &claims, batch) {
            Ok(p) => p,
            Err(e) => return Err(e),
        };
        Ok(ExitCancel { pages, processed: w.len() as u64, orders_remain })
    }
}


/// Whether allocating `side` would send a placement: a positive share per rung
/// within the active-order cap, given `active` orders already counted.
pub open spec fn would_place(v: GridVault, side: LimitOrderSide, active: int) -> bool {
    let idx = side_indices(v.rungs@, side, v.bot.grid_count as int);
    let free = v.bot.free_balances[input_index(side)] as int;
    &&& idx.len() > 0
    &&& free / (idx.len() as int) > 0
    &&& active + idx.len() <= v.config.max_active_orders_per_bot
}

impl GridVault {
    /// Whether a side allocation would place, computed.
    fn places(&self, side: LimitOrderSide, active: u32) -> (r: (bool, u32))
        requires
            self.wf(),
            self.has_bot,
        ensures
            r.0 == would_place(*self, side, active as int),
            r.1 == side_indices(self.rungs@, side, self.bot.grid_count as int).len(),
    {
        let idx = self.side_rungs(side);
        proof {
            crate::grid_vault::lemma_side_indices(self.rungs@, side, self.bot.grid_count as int);
        }
        let n = idx.len();
        if n == 0 {
            return (false, 0);
        }
        let free = self.bot.free_balances[side_input_index(side)];
        let each = free / (n as u128);
        (each > 0 && (active as u64) + (n as u64) <= self.config.max_active_orders_per_bot as u64, n as u32)
    }

    /// The bot owner allocates both sides' free balances, bids first, orders
    /// expiring `order_timeout_seconds` after `now`. Nothing to place at all is
    /// an error.
    pub fn allocate(
        &mut self,
        has_funds: bool,
        sender: &String,
        bot_id: u64,
        code_id: Option<u64>,
        now: u64,
    ) -> (r: Result<(AllocationStep, AllocationStep), ContractError>)
        requires
            old(self).wf(),
        ensures
            final(self).wf(),
            old(self).mode == VaultMode::Exit ==> final(self).mode == VaultMode::Exit,
            ({
                let pre: Result<(), ContractError> = if old(self).mode != VaultMode::Active {
                    Err(ContractError::InvalidMode)
                } else if has_funds {
                    Err(ContractError::UnexpectedFunds)
                } else if !old(self).bot_exists(bot_id) {
                    Err(ContractError::Std(StdFault::NotFound))
                } else if sender@ != old(self).bot.owner@ {
                    Err(ContractError::Unauthorized)
                } else if code_id is None {
                    Err(ContractError::Std(StdFault::QueryFailed))
                } else if code_id->0 != old(self).bot.pair_code_id {
                    Err(ContractError::PairCodeMismatch)
                } else if old(self).quarantine@.contains(old(self).bot.asset_tokens[0]@) || old(self).quarantine@.contains(
                    old(self).bot.asset_tokens[1]@) {
                    Err(ContractError::TokenQuarantined)
                } else if now + old(self).config.order_timeout_seconds > u64::MAX {
                    Err(ContractError::InvalidGrid)
                } else {
                    Ok(())
                };
                let bid = would_place(*old(self), LimitOrderSide::Bid, old(self).bot.active_orders as int);
                let bid_len = side_indices(old(self).rungs@, LimitOrderSide::Bid, old(self).bot.grid_count as int).len();
                let ask = would_place(
                    *old(self),
                    LimitOrderSide::Ask,
                    old(self).bot.active_orders + if bid { bid_len as int } else { 0 },
                );
                &&& pre matches Err(e) ==> r == Err::<(AllocationStep, AllocationStep), ContractError>(e)
                &&& pre is Ok && (bid || ask) && old(self).next_reply_id + (if bid { 1int } else { 0 }) + (if ask { 1int } else { 0 })
                    > u64::MAX ==> r == Err::<(AllocationStep, AllocationStep), ContractError>(ContractError::Std(StdFault::Overflow))
                &&& pre is Ok && !bid && !ask ==> r == Err::<(AllocationStep, AllocationStep), ContractError>(ContractError::NothingToAllocate)
                &&& r is Ok <==> pre is Ok && (bid || ask) && old(self).next_reply_id + (if bid { 1int } else { 0 }) + (if ask { 1int } else { 0 }) <= u64::MAX
                &&& r is Err ==> *final(self) == *old(self)
                &&& r matches Ok((b, a)) ==> {
                    let expires_at = (now + old(self).config.order_timeout_seconds) as u64;
                    let next = old(self).next_reply_id as int;
                    let ask_id = next + if bid { 1int } else { 0 };
                    let ask_len = side_indices(old(self).rungs@, LimitOrderSide::Ask, old(self).bot.grid_count as int).len();
                    &&& (b is Placed <==> bid) && (a is Placed <==> ask)
                    &&& allocation_request(*old(self), LimitOrderSide::Bid, old(self).bot.free_balances[1] as int, next, expires_at, b)
                    &&& allocation_request(*old(self), LimitOrderSide::Ask, old(self).bot.free_balances[0] as int, ask_id, expires_at, a)
                    &&& final(self).bot.free_balances[1] == free_after(*old(self), LimitOrderSide::Bid, old(self).bot.free_balances[1] as int, bid)
                    &&& final(self).bot.free_balances[0] == free_after(*old(self), LimitOrderSide::Ask, old(self).bot.free_balances[0] as int, ask)
                    &&& final(self).bot.active_orders == old(self).bot.active_orders + (if bid { bid_len as int } else { 0 })
                        + (if ask { ask_len as int } else { 0 })
                    &&& final(self).next_reply_id == ask_id + if ask { 1int } else { 0 }
                    &&& bid ==> allocation_plan(*old(self), LimitOrderSide::Bid, old(self).bot.free_balances[1] as int, final(self).placements@,
                        next as u64)
                    &&& ask ==> allocation_plan(*old(self), LimitOrderSide::Ask, old(self).bot.free_balances[0] as int, final(self).placements@,
                        ask_id as u64)
                    &&& plans_kept(old(self).placements@, final(self).placements@, next, ask_id)
                    &&& final(self).shares == old(self).shares
                    &&& final(self).bot.total_shares == old(self).bot.total_shares
                    &&& final(self).orders == old(self).orders
                    &&& final(self).rungs == old(self).rungs
                    &&& final(self).config == old(self).config
                    &&& final(self).mode == old(self).mode
                }
            }),
    {
        if self.mode != VaultMode::Active {
            return Err(ContractError::InvalidMode);
        }
        if has_funds {
            return Err(ContractError::UnexpectedFunds);
        }
        if bot_id != BOT_ID || !self.has_bot {
            return Err(ContractError::Std(StdFault::NotFound));
        }
        if *sender != self.bot.owner {
            return Err(ContractError::Unauthorized);
        }
        match code_id {
            None => return Err(ContractError::Std(StdFault::QueryFailed)),
            Some(c) => {
                if c != self.bot.pair_code_id {
                    return Err(ContractError::PairCodeMismatch);
                }
            },
        }
        if self.quarantine.contains(&self.bot.asset_tokens[0]) || self.quarantine.contains(&self.bot.asset_tokens[1]) {
            return Err(ContractError::TokenQuarantined);
        }
        if now > u64::MAX - self.config.order_timeout_seconds {
            return Err(ContractError::InvalidGrid);
        }
        let expires_at = now + self.config.order_timeout_seconds;
        let (bid, bid_len) = self.places(LimitOrderSide::Bid, self.bot.active_orders);
        let active_after_bid: u32 = if bid { self.bot.active_orders + bid_len } else { self.bot.active_orders };
        let (ask, _) = self.places(LimitOrderSide::Ask, active_after_bid);
        let needed: u64 = (if bid { 1 } else { 0 }) + (if ask { 1 } else { 0 });
        if needed > 0 && self.next_reply_id > u64::MAX - needed {
            return Err(ContractError::Std(StdFault::Overflow));
        }
        if !bid && !ask {
            return Err(ContractError::NothingToAllocate);
        }
        let ghost v0 = *self;
        let b = match self.allocate_side(LimitOrderSide::Bid, expires_at) {
            Ok(s) => s,
            Err(e) => return Err(e),
        };
        let ghost v1 = *self;
        let a = match self.allocate_side(LimitOrderSide::Ask, expires_at) {
            Ok(s) => s,
            Err(e) => return Err(e),
        };
        proof {
            let next = v0.next_reply_id;
            let ask_id = v1.next_reply_id;
            assert(v1.rungs@ == v0.rungs@);
            assert(allocation_request(v1, LimitOrderSide::Ask, v1.bot.free_balances[0] as int, ask_id as int, expires_at, a) ==
                allocation_request(v0, LimitOrderSide::Ask, v0.bot.free_balances[0] as int, ask_id as int, expires_at, a));
            assert(would_place(v1, LimitOrderSide::Ask, v1.bot.active_orders as int) == ask);
            if bid {
                assert(allocation_plan(v0, LimitOrderSide::Bid, v0.bot.free_balances[1] as int, v1.placements@, next));
                if ask {
                    assert(self.placements@.remove(ask_id).contains_key(next));
                    assert(self.placements@.contains_key(next));
                    assert(self.placements@[next] == self.placements@.remove(ask_id)[next]);
                }
            }
            assert forall|id: u64| id != next && id != ask_id implies (#[trigger] self.placements@.contains_key(id)
                == v0.placements@.contains_key(id)) && (v0.placements@.contains_key(id)
                ==> self.placements@[id] == v0.placements@[id]) by {
                if ask {
                    assert(self.placements@.remove(ask_id).contains_key(id) == self.placements@.contains_key(id));
                    assert(v1.placements@.remove(ask_id).contains_key(id) == v1.placements@.contains_key(id));
                    if v1.placements@.contains_key(id) {
                        assert(self.placements@.remove(ask_id)[id] == self.placements@[id]);
                        assert(v1.placements@.remove(ask_id)[id] == v1.placements@[id]);
                    }
                }
                if bid {
                    assert(v1.placements@.remove(next).contains_key(id) == v1.placements@.contains_key(id));
                    assert(v0.placements@.remove(next).contains_key(id) == v0.placements@.contains_key(id));
                    if v0.placements@.contains_key(id) {
                        assert(v1.placements@.remove(next)[id] == v1.placements@[id]);
                        assert(v0.placements@.remove(next)[id] == v0.placements@[id]);
                    }
                }
            }
            assert(plans_kept(v0.placements@, self.placements@, next as int, ask_id as int));
        }
        Ok((b, a))
    }
}

} // verus!
