//! The solvency report of the limit-grid vault: what the books expect it to
//! hold against what its balances and the pair's escrow show.
use vstd::prelude::*;
use crate::errors::StdFault;
use crate::grid_types::{input_index, side_input_index, CancelledOrder, GridOrder, OrderStatus};
use crate::grid_vault::MAX_CANCELLED_ORDERS_PAGE_SIZE;
use crate::grid_vault::{GridVault, BOT_ID};

verus! {

/// Why an order's escrow could not be counted.
#[derive(Clone, Copy, Debug, PartialEq, Eq, Structural)]
pub enum SolvencyWarning {
    /// The pair reports the order active, with fields that disagree with the books.
    ActiveEscrowInvalid(u64),
    /// The pair reports a parked refund with fields that disagree with the books.
    ParkedRefundInvalid(u64),
    /// The pair's escrow for the order could not be read.
    EscrowUnverifiable(u64),
}

/// Running counts of a solvency check.
#[derive(Clone, Copy, Debug)]
pub struct Tally {
    pub expected: [u128; 2],
    pub escrow: [u128; 2],
    pub active: u32,
    pub parked: u32,
    pub executed: u32,
    pub cancelled: u32,
    pub unverifiable: u32,
}

pub struct SolvencyResponse {
    pub token_0_expected: u128,
    pub token_0_actual: u128,
    pub token_1_expected: u128,
    pub token_1_actual: u128,
    pub active_escrow_orders: u32,
    pub parked_refund_orders: u32,
    pub executed_orders: u32,
    pub cancelled_orders: u32,
    pub unverifiable_orders: u32,
    pub warnings: Vec<SolvencyWarning>,
}

/// How one tracked order counts: escrow still at the pair (active or parked),
/// gone (executed, or cancelled by the vault), or not countable.
pub enum Standing {
    Escrowed(u128, bool),
    Executed,
    Cancelled,
    Unknown(SolvencyWarning),
}

/// How order `id`, recorded as `order`, stands given the pair's report.
pub open spec fn standing(contract: Seq<char>, id: u64, order: GridOrder, status: OrderStatus, was_cancelled: bool) -> Standing {
    match status {
        OrderStatus::Active(oc) => if oc.order_id == id && oc.owner@ == contract && oc.side == order.side && oc.price
            == order.price && oc.remaining <= order.remaining {
            Standing::Escrowed(oc.remaining, true)
        } else {
            Standing::Unknown(SolvencyWarning::ActiveEscrowInvalid(id))
        },
        OrderStatus::Parked(Some(rf)) => if rf.order_id == id && rf.owner@ == contract && rf.side == order.side
            && rf.remaining <= order.remaining {
            Standing::Escrowed(rf.remaining, false)
        } else {
            Standing::Unknown(SolvencyWarning::ParkedRefundInvalid(id))
        },
        OrderStatus::Parked(None) => if was_cancelled {
            Standing::Cancelled
        } else {
            Standing::Executed
        },
        OrderStatus::Unverifiable => Standing::Unknown(SolvencyWarning::EscrowUnverifiable(id)),
    }
}

/// The tally after the first `n` tracked orders, or an overflow.
pub open spec fn tally_orders(v: GridVault, contract: Seq<char>, statuses: Seq<OrderStatus>, n: int) -> Result<Tally, StdFault>
    decreases n,
{
    if n <= 0 {
        Ok(Tally { expected: v.bot.free_balances, escrow: [0, 0], active: 0, parked: 0, executed: 0, cancelled: 0, unverifiable: 0 })
    } else {
        match tally_orders(v, contract, statuses, n - 1) {
            Err(e) => Err(e),
            Ok(t) => {
                let (id, order) = v.orders.entries@[n - 1];
                let k = input_index(order.side);
                let status = if n - 1 < statuses.len() { statuses[n - 1] } else { OrderStatus::Unverifiable };
                if t.expected[k] + order.remaining > u128::MAX {
                    Err(StdFault::Overflow)
                } else {
                    let expected = if k == 0 {
                        [(t.expected[0] + order.remaining) as u128, t.expected[1]]
                    } else {
                        [t.expected[0], (t.expected[1] + order.remaining) as u128]
                    };
                    match standing(contract, id, order, status, v.cancelled@.contains_key(id)) {
                        Standing::Escrowed(amount, active) => if t.escrow[k] + amount > u128::MAX {
                            Err(StdFault::Overflow)
                        } else {
                            let escrow = if k == 0 {
                                [(t.escrow[0] + amount) as u128, t.escrow[1]]
                            } else {
                                [t.escrow[0], (t.escrow[1] + amount) as u128]
                            };
                            Ok(Tally {
                                expected,
                                escrow,
                                active: if active { (t.active + 1) as u32 } else { t.active },
                                parked: if active { t.parked } else { (t.parked + 1) as u32 },
                                ..t
                            })
                        },
                        Standing::Executed => Ok(Tally { expected, executed: (t.executed + 1) as u32, ..t }),
                        Standing::Cancelled => Ok(Tally { expected, cancelled: (t.cancelled + 1) as u32, ..t }),
                        Standing::Unknown(_) => Ok(Tally { expected, unverifiable: (t.unverifiable + 1) as u32, ..t }),
                    }
                }
            },
        }
    }
}

/// The warnings of the first `n` tracked orders, in id order.
pub open spec fn solvency_warnings(v: GridVault, contract: Seq<char>, statuses: Seq<OrderStatus>, n: int) -> Seq<SolvencyWarning>
    decreases n,
{
    if n <= 0 {
        Seq::empty()
    } else {
        let before = solvency_warnings(v, contract, statuses, n - 1);
        let (id, order) = v.orders.entries@[n - 1];
        let status = if n - 1 < statuses.len() { statuses[n - 1] } else { OrderStatus::Unverifiable };
        match standing(contract, id, order, status, v.cancelled@.contains_key(id)) {
            Standing::Unknown(w) => before.push(w),
            _ => before,
        }
    }
}

pub proof fn lemma_tally_err(v: GridVault, contract: Seq<char>, statuses: Seq<OrderStatus>, n0: int, n: int)
    requires
        0 <= n0 <= n,
        tally_orders(v, contract, statuses, n0) is Err,
    ensures
        tally_orders(v, contract, statuses, n) == tally_orders(v, contract, statuses, n0),
    decreases n - n0,
{
    if n > n0 {
        lemma_tally_err(v, contract, statuses, n0, n - 1);
    }
}

pub proof fn lemma_tally_counts(v: GridVault, contract: Seq<char>, statuses: Seq<OrderStatus>, n: int)
    requires
        0 <= n <= u32::MAX,
        tally_orders(v, contract, statuses, n) is Ok,
    ensures
        ({
            let t = tally_orders(v, contract, statuses, n)->Ok_0;
            t.active + t.parked + t.executed + t.cancelled + t.unverifiable == n
        }),
    decreases n,
{
    if n > 0 {
        lemma_tally_counts(v, contract, statuses, n - 1);
    }
}

/// Law: a solvency check lists one warning for each order whose escrow could
/// not be counted.
pub proof fn law_warnings_match_unverifiable(v: GridVault, contract: Seq<char>, statuses: Seq<OrderStatus>, n: int)
    requires
        0 <= n <= u32::MAX,
        tally_orders(v, contract, statuses, n) is Ok,
    ensures
        solvency_warnings(v, contract, statuses, n).len() == tally_orders(v, contract, statuses, n)->Ok_0.unverifiable,
    decreases n,
{
    if n > 0 {
        if tally_orders(v, contract, statuses, n - 1) is Err {
            lemma_tally_err(v, contract, statuses, n - 1, n);
        }
        law_warnings_match_unverifiable(v, contract, statuses, n - 1);
        lemma_tally_counts(v, contract, statuses, n - 1);
    }
}

impl GridVault {
    /// Compare what the books say the vault should hold of each token (free
    /// balances plus every tracked order's remaining amount) with what it does
    /// hold (its balances, as read, plus the escrow the pair reports for its
    /// orders). `statuses` are the pair's answers for the tracked orders in id
    /// order. Orders whose escrow cannot be counted are listed as warnings.
    pub fn check_solvency(
        &self,
        contract: &String,
        bot_id: u64,
        statuses: &Vec<OrderStatus>,
        balances: [Option<u128>; 2],
    ) -> (r: Result<SolvencyResponse, StdFault>)
        requires
            self.wf(),
            self.orders.entries@.len() <= u32::MAX,
        ensures
            !self.bot_exists(bot_id) ==> r == Err::<SolvencyResponse, StdFault>(StdFault::NotFound),
            self.bot_exists(bot_id) ==> ({
                let n = self.orders.entries@.len() as int;
                let tally = tally_orders(*self, contract@, statuses@, n);
                &&& tally matches Err(e) ==> r == Err::<SolvencyResponse, StdFault>(e)
                &&& tally is Ok && balances[0] is None ==> r == Err::<SolvencyResponse, StdFault>(StdFault::QueryFailed)
                &&& tally is Ok && balances[0] is Some && balances[0]->0 + tally->Ok_0.escrow[0] > u128::MAX ==> r == Err::<
                    SolvencyResponse,
                    StdFault,
                >(StdFault::Overflow)
                &&& tally is Ok && balances[0] is Some && balances[0]->0 + tally->Ok_0.escrow[0] <= u128::MAX && balances[1] is None
                    ==> r == Err::<SolvencyResponse, StdFault>(StdFault::QueryFailed)
                &&& r matches Ok(out) ==> {
                    let t = tally->Ok_0;
                    &&& balances[0] is Some && balances[1] is Some
                    &&& out.token_0_expected == t.expected[0] && out.token_1_expected == t.expected[1]
                    &&& out.token_0_actual == balances[0]->0 + t.escrow[0]
                    &&& out.token_1_actual == balances[1]->0 + t.escrow[1]
                    &&& out.active_escrow_orders == t.active && out.parked_refund_orders == t.parked
                    &&& out.executed_orders == t.executed && out.cancelled_orders == t.cancelled
                    &&& out.unverifiable_orders == t.unverifiable
                    &&& out.warnings@ == solvency_warnings(*self, contract@, statuses@, n)
                    &&& out.warnings@.len() == out.unverifiable_orders
                }
                &&& tally is Ok && balances[0] is Some && balances[1] is Some ==> (r is Ok <==> balances[0]->0
                    + tally->Ok_0.escrow[0] <= u128::MAX && balances[1]->0 + tally->Ok_0.escrow[1] <= u128::MAX)
            }),
    {
        if bot_id != BOT_ID || !self.has_bot {
            return Err(StdFault::NotFound);
        }
        let n = self.orders.entries.len();
        let mut t = Tally {
            expected: self.bot.free_balances,
            escrow: [0, 0],
            active: 0,
            parked: 0,
            executed: 0,
            cancelled: 0,
            unverifiable: 0,
        };
        let mut warnings: Vec<SolvencyWarning> = Vec::new();
        let mut i: usize = 0;
        while i < n
            invariant
                self.wf(),
                self.bot_exists(bot_id),
                n == self.orders.entries@.len(),
                n <= u32::MAX,
                i <= n,
                tally_orders(*self, contract@, statuses@, i as int) == Ok::<Tally, StdFault>(t),
                warnings@ == solvency_warnings(*self, contract@, statuses@, i as int),
            decreases n - i,
        {
            proof {
                lemma_tally_counts(*self, contract@, statuses@, i as int);
            }
            let (id, order) = self.orders.entries[i];
            let k = side_input_index(order.side);
            if t.expected[k] > u128::MAX - order.remaining {
                proof {
                    lemma_tally_err(*self, contract@, statuses@, i + 1, n as int);
                }
                return Err(StdFault::Overflow);
            }
            let grown = t.expected[k] + order.remaining;
            let expected = if k == 0 { [grown, t.expected[1]] } else { [t.expected[0], grown] };
            let was_cancelled = self.cancelled.contains(id);
            let unverifiable = OrderStatus::Unverifiable;
            let status = if i < statuses.len() { &statuses[i] } else { &unverifiable };
            let standing_now: Standing = match status {
                OrderStatus::Active(oc) => {
                    if oc.order_id == id && oc.owner == *contract && oc.side == order.side && oc.price.atomics
                        == order.price.atomics && oc.remaining <= order.remaining {
                        Standing::Escrowed(oc.remaining, true)
                    } else {
                        Standing::Unknown(SolvencyWarning::ActiveEscrowInvalid(id))
                    }
                },
                OrderStatus::Parked(Some(rf)) => {
                    if rf.order_id == id && rf.owner == *contract && rf.side == order.side && rf.remaining <= order.remaining {
                        Standing::Escrowed(rf.remaining, false)
                    } else {
                        Standing::Unknown(SolvencyWarning::ParkedRefundInvalid(id))
                    }
                },
                OrderStatus::Parked(None) => {
                    if was_cancelled {
                        Standing::Cancelled
                    } else {
                        Standing::Executed
                    }
                },
                OrderStatus::Unverifiable => Standing::Unknown(SolvencyWarning::EscrowUnverifiable(id)),
            };
            match standing_now {
                Standing::Escrowed(amount, active) => {
                    if t.escrow[k] > u128::MAX - amount {
                        proof {
                            lemma_tally_err(*self, contract@, statuses@, i + 1, n as int);
                        }
                        return Err(StdFault::Overflow);
                    }
                    let held = t.escrow[k] + amount;
                    let escrow = if k == 0 { [held, t.escrow[1]] } else { [t.escrow[0], held] };
                    t = Tally {
                        expected,
                        escrow,
                        active: if active { t.active + 1 } else { t.active },
                        parked: if active { t.parked } else { t.parked + 1 },
                        ..t
                    };
                },
                Standing::Executed => {
                    t = Tally { expected, executed: t.executed + 1, ..t };
                },
                Standing::Cancelled => {
                    t = Tally { expected, cancelled: t.cancelled + 1, ..t };
                },
                Standing::Unknown(w) => {
                    t = Tally { expected, unverifiable: t.unverifiable + 1, ..t };
                    warnings.push(w);
                },
            }
            i = i + 1;
        }
        let b0 = match balances[0] {
            Some(b) => b,
            None => return Err(StdFault::QueryFailed),
        };
        if b0 > u128::MAX - t.escrow[0] {
            return Err(StdFault::Overflow);
        }
        let b1 = match balances[1] {
            Some(b) => b,
            None => return Err(StdFault::QueryFailed),
        };
        if b1 > u128::MAX - t.escrow[1] {
            return Err(StdFault::Overflow);
        }
        proof {
            law_warnings_match_unverifiable(*self, contract@, statuses@, n as int);
        }
        Ok(
            SolvencyResponse {
                token_0_expected: t.expected[0],
                token_0_actual: b0 + t.escrow[0],
                token_1_expected: t.expected[1],
                token_1_actual: b1 + t.escrow[1],
                active_escrow_orders: t.active,
                parked_refund_orders: t.parked,
                executed_orders: t.executed,
                cancelled_orders: t.cancelled,
                unverifiable_orders: t.unverifiable,
                warnings,
            },
        )
    }
}


/// One page of the cancelled-order history, and the id to continue after.
pub struct CancelledOrdersPage {
    pub rows: Vec<(u64, CancelledOrder)>,
    pub next_cursor: Option<u64>,
}

/// The page size asked for, capped at the maximum.
pub open spec fn cancelled_page_size(limit: Option<u32>) -> int {
    match limit {
        Some(l) => if l <= MAX_CANCELLED_ORDERS_PAGE_SIZE { l as int } else { MAX_CANCELLED_ORDERS_PAGE_SIZE as int },
        None => MAX_CANCELLED_ORDERS_PAGE_SIZE as int,
    }
}

/// `p` is where the ids after `start` begin in the ascending `s`.
pub open spec fn starts_after(s: Seq<(u64, CancelledOrder)>, start: Option<u64>, p: int) -> bool {
    &&& 0 <= p <= s.len()
    &&& forall|j: int| 0 <= j < p ==> start is Some && (#[trigger] s[j]).0 <= start->0
    &&& forall|j: int| p <= j < s.len() ==> start is Some ==> (#[trigger] s[j]).0 > start->0
}

impl GridVault {
    /// The cancelled orders of `bot_id` with ids after `start_after`, at most
    /// `limit` (capped at the maximum page size, which is also the default) in
    /// ascending id order, and the id of the next one if more remain.
    pub fn query_cancelled_orders(&self, bot_id: u64, start_after: Option<u64>, limit: Option<u32>) -> (r: CancelledOrdersPage)
        requires
            self.wf(),
        ensures
            bot_id != BOT_ID ==> r.rows@.len() == 0 && r.next_cursor is None,
            bot_id == BOT_ID ==> exists|p: int| #[trigger] starts_after(self.cancelled.entries@, start_after, p)
                && r.rows@ == self.cancelled.entries@.subrange(
                p,
                if p + cancelled_page_size(limit) <= self.cancelled.entries@.len() {
                    p + cancelled_page_size(limit)
                } else {
                    self.cancelled.entries@.len() as int
                },
            ) && r.next_cursor == (if p + cancelled_page_size(limit) < self.cancelled.entries@.len() {
                Some(self.cancelled.entries@[p + cancelled_page_size(limit)].0)
            } else {
                None::<u64>
            }),
    {
        if bot_id != BOT_ID {
            return CancelledOrdersPage { rows: Vec::new(), next_cursor: None };
        }
        let size: usize = match limit {
            Some(l) => if l <= MAX_CANCELLED_ORDERS_PAGE_SIZE { l as usize } else { MAX_CANCELLED_ORDERS_PAGE_SIZE as usize },
            None => MAX_CANCELLED_ORDERS_PAGE_SIZE as usize,
        };
        let n = self.cancelled.entries.len();
        let mut p: usize = 0;
        match start_after {
            Some(a) => {
                while p < n && self.cancelled.entries[p].0 <= a
                    invariant
                        self.wf(),
                        n == self.cancelled.entries@.len(),
                        p <= n,
                        forall|j: int| 0 <= j < p ==> (#[trigger] self.cancelled.entries@[j]).0 <= a,
                    decreases n - p,
                {
                    p = p + 1;
                }
                proof {
                    let s = self.cancelled.entries@;
                    assert forall|j: int| p <= j < s.len() implies (#[trigger] s[j]).0 > a by {
                        if j > p {
                            assert(s[p as int].0 < s[j].0);
                        }
                    }
                }
            },
            None => {},
        }
        let end: usize = if n - p >= size { p + size } else { n };
        let mut rows: Vec<(u64, CancelledOrder)> = Vec::new();
        let mut i: usize = p;
        while i < end
            invariant
                p <= i <= end <= n,
                n == self.cancelled.entries@.len(),
                rows@ == self.cancelled.entries@.subrange(p as int, i as int),
            decreases end - i,
        {
            rows.push(self.cancelled.entries[i]);
            proof {
                assert(self.cancelled.entries@.subrange(p as int, i + 1) =~= self.cancelled.entries@.subrange(p as int, i as int).push(
                    self.cancelled.entries@[i as int],
                ));
            }
            i = i + 1;
        }
        let next_cursor = if n - p > size { Some(self.cancelled.entries[p + size].0) } else { None };
        proof {
            assert(starts_after(self.cancelled.entries@, start_after, p as int));
        }
        CancelledOrdersPage { rows, next_cursor }
    }
}

} // verus!
