//! The CL8Y fee registry: a ladder of discount tiers keyed by a one-byte id, the
//! last known CL8Y holding of each trader, and the effective fee a trader pays.
//!
//! A holder's discount is the highest discount among the tiers that are not
//! governance-only and whose minimum balance the holder meets; among tiers with
//! that discount the lowest id is reported. Tiers 0 and 255 are reserved for
//! governance assignment and never apply to a balance.
use vstd::prelude::*;
use crate::book::Book;
use crate::errors::StdFault;
use crate::math::MAX_BPS;
use crate::versioning::{migration_check, migration_outcome, record_view, semver_parses, text_is};

verus! {

pub const CONTRACT_NAME: &'static str = "crates.io:cl8y-fee-registry";

pub const CONTRACT_VERSION: &'static str = "0.1.0";

/// One CL8Y in raw units (18 decimals).
pub const ONE_CL8Y: u128 = 1_000_000_000_000_000_000;

/// One slot per possible tier id.
pub const TIER_SLOTS: usize = 256;

/// The CL8Y token a mainnet registry must read holdings of.
pub const CANONICAL_CL8Y: &'static str = "terra16wtml2q66g82fdkx66tap0qjkahqwp4lwq3ngtygacg5q0kzycgqvhpax3";

/// The treasury a mainnet registry must name.
pub const CANONICAL_TREASURY: &'static str = "terra16j5u6ey7a84g40sr3gd94nzg5w5fm45046k9s2347qhfpwm5fr6sem3lr2";

#[derive(Clone, Copy, Debug, PartialEq, Eq, Structural)]
pub struct Tier {
    pub min_cl8y_balance: u128,
    pub discount_bps: u16,
    pub governance_only: bool,
}

/// Last CL8Y balance read successfully for a trader, and the block it was read at.
#[derive(Clone, Copy, Debug, PartialEq, Eq, Structural)]
pub struct Holding {
    pub amount: u128,
    pub at_height: u64,
}

/// Where an effective fee came from: the live balance, the saved holding (the
/// live read failed), or nothing at all (the full base fee).
#[derive(Clone, Copy, Debug, PartialEq, Eq, Structural)]
pub enum TierSource {
    Live,
    Cached,
    Lowest,
}

#[derive(Clone, Copy, Debug, PartialEq, Eq, Structural)]
pub struct TierEntry {
    pub tier_id: u8,
    pub min_cl8y_balance: u128,
    pub discount_bps: u16,
    pub governance_only: bool,
}

#[derive(Clone, Copy, Debug, PartialEq, Eq, Structural)]
pub struct EffectiveFeeResponse {
    pub fee_bps: u16,
    pub discount_bps: u16,
    pub tier_id: Option<u8>,
    pub holding: Option<u128>,
    pub source: TierSource,
}

#[derive(Clone, Debug)]
pub enum QueryMsg {
    Config {},
    EffectiveFee { trader: String },
    Holding { trader: String },
    Tiers {},
    Tier { tier_id: u8 },
}

#[derive(Clone, Copy, Debug, PartialEq, Eq, Structural)]
pub struct MigrateMsg {}

#[derive(Clone, Copy, Debug, PartialEq, Eq, Structural)]
pub enum ContractError {
    Std(StdFault),
    Unauthorized,
    TierAlreadyExists { tier_id: u8 },
    TierNotFound { tier_id: u8 },
    InvalidDiscountBps { value: u16 },
    ReservedTierId { tier_id: u8 },
    FeeUnderflow,
    /// A pinned address that is not the canonical one; the field names which.
    NonCanonicalAddress { field: PinnedField },
}

/// The addresses a mainnet registry pins.
#[derive(Clone, Copy, Debug, PartialEq, Eq, Structural)]
pub enum PinnedField {
    Cl8y,
    Treasury,
}

#[derive(Clone, Debug)]
pub struct Config {
    pub governance: String,
    pub cl8y: String,
    pub treasury: String,
    pub fee_collector: String,
    pub base_fee_bps: u16,
    /// Bumped on every change of the ladder.
    pub ladder_version: u32,
}

/// On a mainnet build the CL8Y token and the treasury are pinned: the first
/// given address that is not the canonical one.
pub open spec fn registry_pin(mainnet: bool, cl8y: Option<String>, treasury: Option<String>) -> Option<PinnedField> {
    if mainnet && (cl8y matches Some(c) && c@ != CANONICAL_CL8Y@) {
        Some(PinnedField::Cl8y)
    } else if mainnet && (treasury matches Some(t) && t@ != CANONICAL_TREASURY@) {
        Some(PinnedField::Treasury)
    } else {
        None
    }
}

/// The pinned addresses checked, as `registry_pin` says.
fn check_registry_pin(mainnet: bool, cl8y: &Option<String>, treasury: &Option<String>) -> (r: Option<PinnedField>)
    ensures
        r == registry_pin(mainnet, *cl8y, *treasury),
{
    if !mainnet {
        return None;
    }
    if let Some(c) = cl8y {
        if !text_is(c, CANONICAL_CL8Y) {
            return Some(PinnedField::Cl8y);
        }
    }
    if let Some(t) = treasury {
        if !text_is(t, CANONICAL_TREASURY) {
            return Some(PinnedField::Treasury);
        }
    }
    None
}

pub struct FeeRegistry {
    pub config: Config,
    /// Slot `i` holds tier `i`, if it exists.
    pub tiers: Vec<Option<Tier>>,
    pub holdings: Book<Holding>,
}

/// Tier ids reserved for governance assignment.
pub open spec fn reserved_id(tier_id: int) -> bool {
    tier_id == 0 || tier_id == 255
}

/// A tier applies to a balance when it is not governance-only and the balance
/// meets its minimum.
pub open spec fn eligible(t: Tier, amount: u128) -> bool {
    !t.governance_only && amount >= t.min_cl8y_balance
}

pub open spec fn eligible_at(s: Seq<Option<Tier>>, j: int, amount: u128) -> bool {
    s[j] is Some && eligible(s[j]->0, amount)
}

pub open spec fn discount_at(s: Seq<Option<Tier>>, j: int) -> int {
    s[j]->0.discount_bps as int
}

/// `r` is the resolution of `amount` against the first `n` slots of `s`: with a
/// tier, the highest discount among applicable tiers, positive, and no lower id
/// applies with as much; without a tier, no applicable tier gives any discount.
pub open spec fn resolves_within(s: Seq<Option<Tier>>, n: int, amount: u128, r: (u16, Option<u8>)) -> bool {
    match r.1 {
        None => r.0 == 0 && forall|j: int| 0 <= j < n && #[trigger] eligible_at(s, j, amount) ==> discount_at(s, j) == 0,
        Some(id) => {
            &&& id < n
            &&& eligible_at(s, id as int, amount)
            &&& discount_at(s, id as int) == r.0
            &&& r.0 > 0
            &&& forall|j: int| 0 <= j < n && #[trigger] eligible_at(s, j, amount) ==> discount_at(s, j) <= r.0 && (j
                < id ==> discount_at(s, j) < r.0)
        },
    }
}

pub open spec fn resolves(s: Seq<Option<Tier>>, amount: u128, r: (u16, Option<u8>)) -> bool {
    resolves_within(s, s.len() as int, amount, r)
}

/// `base * (10000 - discount) / 10000`, rounded down.
pub open spec fn fee_after_discount(base: int, discount: int) -> int {
    base * (10000 - discount) / 10000
}

/// The multiple of one CL8Y that holder tier `id` (1 to 9) asks for.
pub open spec fn holder_multiple(id: int) -> int {
    if id == 1 { 1 }
    else if id == 2 { 5 }
    else if id == 3 { 20 }
    else if id == 4 { 75 }
    else if id == 5 { 200 }
    else if id == 6 { 500 }
    else if id == 7 { 1_500 }
    else if id == 8 { 3_500 }
    else { 7_500 }
}

/// The discount of holder tier `id` (1 to 9).
pub open spec fn holder_discount(id: int) -> int {
    if id == 1 { 250 }
    else if id == 2 { 1_000 }
    else if id == 3 { 2_000 }
    else if id == 4 { 3_500 }
    else if id == 5 { 5_000 }
    else if id == 6 { 6_000 }
    else if id == 7 { 7_500 }
    else if id == 8 { 8_500 }
    else { 9_500 }
}

/// The ladder a new registry starts with: tier 0 (full discount) and tier 255
/// (no discount) for governance, and holder tiers 1 to 9.
pub open spec fn standard_tier(id: int) -> Option<Tier> {
    if id == 0 {
        Some(Tier { min_cl8y_balance: 0, discount_bps: 10_000, governance_only: true })
    } else if 1 <= id <= 9 {
        Some(Tier {
            min_cl8y_balance: (ONE_CL8Y * holder_multiple(id)) as u128,
            discount_bps: holder_discount(id) as u16,
            governance_only: false,
        })
    } else if id == 255 {
        Some(Tier { min_cl8y_balance: 0, discount_bps: 0, governance_only: true })
    } else {
        None
    }
}

/// The existing tiers of `s` among its first `n` slots, in ascending id order.
pub open spec fn ladder_entries(s: Seq<Option<Tier>>, n: int) -> Seq<TierEntry>
    decreases n,
{
    if n <= 0 {
        Seq::empty()
    } else {
        let before = ladder_entries(s, n - 1);
        match s[n - 1] {
            Some(t) => before.push(
                TierEntry {
                    tier_id: (n - 1) as u8,
                    min_cl8y_balance: t.min_cl8y_balance,
                    discount_bps: t.discount_bps,
                    governance_only: t.governance_only,
                },
            ),
            None => before,
        }
    }
}

/// Law: a balance resolves against a ladder in at most one way (discount and tier).
pub proof fn law_resolution_unique(s: Seq<Option<Tier>>, amount: u128, a: (u16, Option<u8>), b: (u16, Option<u8>))
    requires
        resolves(s, amount, a),
        resolves(s, amount, b),
    ensures
        a == b,
{
    match a.1 {
        Some(i) => {
            assert(eligible_at(s, i as int, amount));
            match b.1 {
                Some(k) => {
                    assert(eligible_at(s, k as int, amount));
                    assert(a.0 == b.0);
                    assert(i == k);
                },
                None => {},
            }
        },
        None => {
            match b.1 {
                Some(k) => {
                    assert(eligible_at(s, k as int, amount));
                },
                None => {},
            }
        },
    }
}

/// Law: a larger balance never resolves to a smaller discount.
pub proof fn law_discount_monotone_in_balance(
    s: Seq<Option<Tier>>,
    smaller: u128,
    larger: u128,
    a: (u16, Option<u8>),
    b: (u16, Option<u8>),
)
    requires
        smaller <= larger,
        resolves(s, smaller, a),
        resolves(s, larger, b),
    ensures
        a.0 <= b.0,
{
    match a.1 {
        Some(i) => {
            assert(eligible_at(s, i as int, smaller));
            assert(eligible_at(s, i as int, larger));
        },
        None => {},
    }
}

/// Law: with a discount of at most 100%, the effective fee is never above the
/// base fee.
pub proof fn law_fee_never_above_base(base: u16, discount: u16)
    requires
        discount <= MAX_BPS,
    ensures
        0 <= fee_after_discount(base as int, discount as int) <= base,
{
    assert(0 <= base * (10000 - discount) <= base * 10000) by (nonlinear_arith)
        requires
            discount <= 10000,
    ;
}

/// Law: a governance-only tier never decides a holder's discount.
pub proof fn law_governance_only_never_applied(s: Seq<Option<Tier>>, amount: u128, r: (u16, Option<u8>))
    requires
        resolves(s, amount, r),
        r.1 is Some,
    ensures
        s[r.1->0 as int] is Some && !s[r.1->0 as int]->0.governance_only,
{
}

/// Law: on a well-formed registry, a holder's balance never resolves to a
/// reserved tier id (0 or 255): those tiers are only ever governance-only.
pub proof fn law_reserved_tiers_never_resolved(reg: FeeRegistry, amount: u128, r: (u16, Option<u8>))
    requires
        reg.wf(),
        resolves(reg.tiers@, amount, r),
    ensures
        r.1 matches Some(id) ==> !reserved_id(id as int),
{
    match r.1 {
        Some(id) => {
            assert(eligible_at(reg.tiers@, id as int, amount));
            assert(reg.tiers@[id as int] is Some);
        },
        None => {},
    }
}

/// Reject a non-governance tier at a reserved id.
pub fn assert_not_reserved(tier_id: u8, governance_only: bool) -> (r: Result<(), ContractError>)
    ensures
        r is Err <==> reserved_id(tier_id as int) && !governance_only,
        r is Err ==> r == Err::<(), ContractError>(ContractError::ReservedTierId { tier_id }),
{
    if (tier_id == 0 || tier_id == 255) && !governance_only {
        return Err(ContractError::ReservedTierId { tier_id });
    }
    Ok(())
}

/// The fee left of `base_bps` after a discount of `discount_bps` basis points.
pub fn effective_fee(base_bps: u16, discount_bps: u16) -> (r: u16)
    requires
        discount_bps <= MAX_BPS,
    ensures
        r == fee_after_discount(base_bps as int, discount_bps as int),
        r <= base_bps,
{
    proof {
        law_fee_never_above_base(base_bps, discount_bps);
    }
    let discounted: u32 = MAX_BPS as u32 - discount_bps as u32;
    assert(base_bps as u32 * discounted <= 65535 * 10000) by (nonlinear_arith)
        requires
            discounted <= 10000,
    ;
    (base_bps as u32 * discounted / MAX_BPS as u32) as u16
}

/// Tier `id` of the starting ladder.
fn standard_slot(id: u8) -> (r: Option<Tier>)
    ensures
        r == standard_tier(id as int),
{
    let (multiple, discount): (u128, u16) = match id {
        0 => return Some(Tier { min_cl8y_balance: 0, discount_bps: 10_000, governance_only: true }),
        255 => return Some(Tier { min_cl8y_balance: 0, discount_bps: 0, governance_only: true }),
        1 => (1, 250),
        2 => (5, 1_000),
        3 => (20, 2_000),
        4 => (75, 3_500),
        5 => (200, 5_000),
        6 => (500, 6_000),
        7 => (1_500, 7_500),
        8 => (3_500, 8_500),
        9 => (7_500, 9_500),
        _ => return None,
    };
    Some(Tier { min_cl8y_balance: ONE_CL8Y * multiple, discount_bps: discount, governance_only: false })
}

/// The starting ladder, one slot per id.
fn standard_ladder() -> (r: Vec<Option<Tier>>)
    ensures
        r@.len() == TIER_SLOTS,
        forall|i: int| 0 <= i < TIER_SLOTS ==> r@[i] == standard_tier(i),
{
    let mut slots: Vec<Option<Tier>> = Vec::new();
    let mut i: usize = 0;
    while i < TIER_SLOTS
        invariant
            i <= TIER_SLOTS,
            slots@.len() == i,
            forall|j: int| 0 <= j < i ==> slots@[j] == standard_tier(j),
        decreases TIER_SLOTS - i,
    {
        slots.push(standard_slot(i as u8));
        i = i + 1;
    }
    slots
}

impl FeeRegistry {
    pub open spec fn wf(&self) -> bool {
        &&& self.tiers@.len() == TIER_SLOTS
        &&& self.config.base_fee_bps <= MAX_BPS
        &&& forall|i: int| 0 <= i < TIER_SLOTS && #[trigger] self.tiers@[i] is Some ==> self.tiers@[i]->0.discount_bps <= MAX_BPS
        &&& forall|i: int| 0 <= i < TIER_SLOTS && reserved_id(i) && #[trigger] self.tiers@[i] is Some ==> self.tiers@[i]->0.governance_only
        &&& self.holdings.wf()
    }

    pub open spec fn governs(&self, sender: Seq<char>) -> bool {
        sender == self.config.governance@
    }

    /// Everything but the ladder and its version is as in `other`.
    pub open spec fn same_but_ladder(&self, other: &FeeRegistry) -> bool {
        &&& self.config.governance == other.config.governance
        &&& self.config.cl8y == other.config.cl8y
        &&& self.config.treasury == other.config.treasury
        &&& self.config.fee_collector == other.config.fee_collector
        &&& self.config.base_fee_bps == other.config.base_fee_bps
        &&& self.holdings == other.holdings
    }

    /// A registry with the starting ladder and ladder version 1. A base fee above
    /// 10000 bps is refused.
    pub fn instantiate(
        governance: String,
        cl8y: String,
        treasury: String,
        fee_collector: String,
        base_fee_bps: u16,
        mainnet: bool,
    ) -> (r: Result<FeeRegistry, ContractError>)
        ensures
            registry_pin(mainnet, Some(cl8y), Some(treasury)) matches Some(f) ==> r == Err::<FeeRegistry, ContractError>(
                ContractError::NonCanonicalAddress { field: f }),
            registry_pin(mainnet, Some(cl8y), Some(treasury)) is None && base_fee_bps > MAX_BPS ==> r == Err::<FeeRegistry, ContractError>(
                ContractError::InvalidDiscountBps { value: base_fee_bps }),
            r is Ok <==> registry_pin(mainnet, Some(cl8y), Some(treasury)) is None && base_fee_bps <= MAX_BPS,
            r matches Ok(reg) ==> {
                &&& reg.wf()
                &&& reg.config.governance == governance
                &&& reg.config.cl8y == cl8y
                &&& reg.config.treasury == treasury
                &&& reg.config.fee_collector == fee_collector
                &&& reg.config.base_fee_bps == base_fee_bps
                &&& reg.config.ladder_version == 1
                &&& forall|i: int| 0 <= i < TIER_SLOTS ==> reg.tiers@[i] == standard_tier(i)
                &&& reg.holdings@ == Map::<Seq<char>, Holding>::empty()
            },
    {
        let cl8y = Some(cl8y);
        let treasury = Some(treasury);
        if let Some(field) = check_registry_pin(mainnet, &cl8y, &treasury) {
            return Err(ContractError::NonCanonicalAddress { field });
        }
        let cl8y = cl8y.unwrap();
        let treasury = treasury.unwrap();
        if base_fee_bps > MAX_BPS {
            return Err(ContractError::InvalidDiscountBps { value: base_fee_bps });
        }
        let tiers = standard_ladder();
        let reg = FeeRegistry {
            config: Config { governance, cl8y, treasury, fee_collector, base_fee_bps, ladder_version: 1 },
            tiers,
            holdings: Book::new(),
        };
        assert forall|i: int| 0 <= i < TIER_SLOTS && #[trigger] reg.tiers@[i] is Some implies reg.tiers@[i]->0.discount_bps
            <= MAX_BPS by {
            assert(reg.tiers@[i] == standard_tier(i));
        }
        assert forall|i: int| 0 <= i < TIER_SLOTS && reserved_id(i) && #[trigger] reg.tiers@[i] is Some implies reg.tiers@[
            i]->0.governance_only by {
            assert(reg.tiers@[i] == standard_tier(i));
        }
        Ok(reg)
    }

    /// Highest discount, and its tier, that `amount` earns on the ladder.
    pub fn resolve_discount(&self, amount: u128) -> (r: (u16, Option<u8>))
        requires
            self.wf(),
        ensures
            resolves(self.tiers@, amount, r),
            r.0 <= MAX_BPS,
    {
        let mut best: (u16, Option<u8>) = (0, None);
        let mut i: usize = 0;
        while i < TIER_SLOTS
            invariant
                self.wf(),
                i <= TIER_SLOTS,
                resolves_within(self.tiers@, i as int, amount, best),
                best.0 <= MAX_BPS,
            decreases TIER_SLOTS - i,
        {
            match self.tiers[i] {
                Some(t) => {
                    assert(self.tiers@[i as int] is Some);
                    if !t.governance_only && amount >= t.min_cl8y_balance && t.discount_bps > best.0 {
                        let ghost prev = best;
                        best = (t.discount_bps, Some(i as u8));
                        assert forall|j: int| 0 <= j < i + 1 && #[trigger] eligible_at(self.tiers@, j, amount) implies discount_at(
                            self.tiers@,
                            j,
                        ) <= best.0 && (j < i ==> discount_at(self.tiers@, j) < best.0) by {
                            if j < i {
                                match prev.1 {
                                    Some(p) => {},
                                    None => {},
                                }
                            }
                        }
                    }
                },
                None => {},
            }
            i = i + 1;
        }
        best
    }

    /// The saved holding of `trader`, if any.
    pub fn holding(&self, trader: &String) -> (r: Option<Holding>)
        requires
            self.wf(),
        ensures
            r == (if self.holdings@.contains_key(trader@) { Some(self.holdings@[trader@]) } else { None::<Holding> }),
    {
        self.holdings.get(trader)
    }

    /// The fee `trader` pays, given the outcome of the live CL8Y balance read
    /// (`None` when the read failed). A live balance decides; without one the
    /// saved holding decides; without either the full base fee is due.
    pub fn query_effective_fee(&self, trader: &String, live: Option<u128>) -> (r: EffectiveFeeResponse)
        requires
            self.wf(),
        ensures
            r.source == (match live {
                Some(_) => TierSource::Live,
                None => if self.holdings@.contains_key(trader@) { TierSource::Cached } else { TierSource::Lowest },
            }),
            r.holding == (match live {
                Some(b) => Some(b),
                None => if self.holdings@.contains_key(trader@) { Some(self.holdings@[trader@].amount) } else { None::<u128> },
            }),
            match r.holding {
                Some(a) => resolves(self.tiers@, a, (r.discount_bps, r.tier_id)),
                None => r.discount_bps == 0 && r.tier_id is None,
            },
            r.discount_bps <= MAX_BPS,
            r.fee_bps == fee_after_discount(self.config.base_fee_bps as int, r.discount_bps as int),
            r.fee_bps <= self.config.base_fee_bps,
    {
        let (discount_bps, tier_id, holding, source) = match live {
            Some(balance) => {
                let (d, t) = self.resolve_discount(balance);
                (d, t, Some(balance), TierSource::Live)
            },
            None => match self.holdings.get(trader) {
                Some(saved) => {
                    let (d, t) = self.resolve_discount(saved.amount);
                    (d, t, Some(saved.amount), TierSource::Cached)
                },
                None => (0, None, None, TierSource::Lowest),
            },
        };
        let fee_bps = effective_fee(self.config.base_fee_bps, discount_bps);
        EffectiveFeeResponse { fee_bps, discount_bps, tier_id, holding, source }
    }

    /// Persist the live balance of `trader` read at `height`; when the read
    /// failed (`None`) the saved holding stays as it was. Says whether it saved.
    pub fn refresh_holding(&mut self, trader: &String, live: Option<u128>, height: u64) -> (bumped: bool)
        requires
            old(self).wf(),
        ensures
            final(self).wf(),
            bumped == live is Some,
            final(self).holdings@ == (match live {
                Some(a) => old(self).holdings@.insert(trader@, Holding { amount: a, at_height: height }),
                None => old(self).holdings@,
            }),
            final(self).config.governance == old(self).config.governance,
            final(self).config.cl8y == old(self).config.cl8y,
            final(self).config.treasury == old(self).config.treasury,
            final(self).config.fee_collector == old(self).config.fee_collector,
            final(self).config.base_fee_bps == old(self).config.base_fee_bps,
            final(self).config.ladder_version == old(self).config.ladder_version,
            final(self).tiers@ == old(self).tiers@,
    {
        match live {
            Some(amount) => {
                self.holdings.set(trader, Holding { amount, at_height: height });
                true
            },
            None => false,
        }
    }

    /// Add tier `tier_id`; governance only. Refused for a discount above 10000,
    /// a non-governance tier at a reserved id, an existing id, or a ladder
    /// version that cannot grow, in that order after the sender check.
    pub fn add_tier(
        &mut self,
        sender: &String,
        tier_id: u8,
        min_cl8y_balance: u128,
        discount_bps: u16,
        governance_only: bool,
    ) -> (r: Result<(), ContractError>)
        requires
            old(self).wf(),
        ensures
            final(self).wf(),
            r == (if !old(self).governs(sender@) {
                Err(ContractError::Unauthorized)
            } else if discount_bps > MAX_BPS {
                Err(ContractError::InvalidDiscountBps { value: discount_bps })
            } else if reserved_id(tier_id as int) && !governance_only {
                Err(ContractError::ReservedTierId { tier_id })
            } else if old(self).tiers@[tier_id as int] is Some {
                Err(ContractError::TierAlreadyExists { tier_id })
            } else if old(self).config.ladder_version == u32::MAX {
                Err(ContractError::Std(StdFault::Overflow))
            } else {
                Ok(())
            }),
            r is Err ==> *final(self) == *old(self),
            r is Ok ==> {
                &&& final(self).tiers@ == old(self).tiers@.update(
                    tier_id as int,
                    Some(Tier { min_cl8y_balance, discount_bps, governance_only }),
                )
                &&& final(self).config.ladder_version == old(self).config.ladder_version + 1
                &&& final(self).same_but_ladder(old(self))
            },
    {
        if *sender != self.config.governance {
            return Err(ContractError::Unauthorized);
        }
        if discount_bps > MAX_BPS {
            return Err(ContractError::InvalidDiscountBps { value: discount_bps });
        }
        match assert_not_reserved(tier_id, governance_only) {
            Err(e) => return Err(e),
            Ok(()) => {},
        }
        if self.tiers[tier_id as usize].is_some() {
            return Err(ContractError::TierAlreadyExists { tier_id });
        }
        if self.config.ladder_version == u32::MAX {
            return Err(ContractError::Std(StdFault::Overflow));
        }
        self.tiers.set(tier_id as usize, Some(Tier { min_cl8y_balance, discount_bps, governance_only }));
        self.config.ladder_version = self.config.ladder_version + 1;
        Ok(())
    }

    /// Change the given fields of tier `tier_id`; governance only. Refused for a
    /// missing tier, a new discount above 10000, or a reserved id turned into a
    /// holder tier, or a ladder version that cannot grow.
    pub fn update_tier(
        &mut self,
        sender: &String,
        tier_id: u8,
        min_cl8y_balance: Option<u128>,
        discount_bps: Option<u16>,
        governance_only: Option<bool>,
    ) -> (r: Result<(), ContractError>)
        requires
            old(self).wf(),
        ensures
            final(self).wf(),
            r == (if !old(self).governs(sender@) {
                Err(ContractError::Unauthorized)
            } else if old(self).tiers@[tier_id as int] is None {
                Err(ContractError::TierNotFound { tier_id })
            } else if discount_bps matches Some(b) && b > MAX_BPS {
                Err(ContractError::InvalidDiscountBps { value: discount_bps->0 })
            } else if governance_only matches Some(g) && reserved_id(tier_id as int) && !g {
                Err(ContractError::ReservedTierId { tier_id })
            } else if old(self).config.ladder_version == u32::MAX {
                Err(ContractError::Std(StdFault::Overflow))
            } else {
                Ok(())
            }),
            r is Err ==> *final(self) == *old(self),
            r is Ok ==> {
                let t = old(self).tiers@[tier_id as int]->0;
                &&& final(self).tiers@ == old(self).tiers@.update(
                    tier_id as int,
                    Some(
                        Tier {
                            min_cl8y_balance: match min_cl8y_balance {
                                Some(m) => m,
                                None => t.min_cl8y_balance,
                            },
                            discount_bps: match discount_bps {
                                Some(b) => b,
                                None => t.discount_bps,
                            },
                            governance_only: match governance_only {
                                Some(g) => g,
                                None => t.governance_only,
                            },
                        },
                    ),
                )
                &&& final(self).config.ladder_version == old(self).config.ladder_version + 1
                &&& final(self).same_but_ladder(old(self))
            },
    {
        if *sender != self.config.governance {
            return Err(ContractError::Unauthorized);
        }
        let mut tier = match self.tiers[tier_id as usize] {
            Some(t) => t,
            None => return Err(ContractError::TierNotFound { tier_id }),
        };
        if let Some(amount) = min_cl8y_balance {
            tier.min_cl8y_balance = amount;
        }
        if let Some(bps) = discount_bps {
            if bps > MAX_BPS {
                return Err(ContractError::InvalidDiscountBps { value: bps });
            }
            tier.discount_bps = bps;
        }
        if let Some(gov_only) = governance_only {
            match assert_not_reserved(tier_id, gov_only) {
                Err(e) => return Err(e),
                Ok(()) => {},
            }
            tier.governance_only = gov_only;
        }
        if self.config.ladder_version == u32::MAX {
            return Err(ContractError::Std(StdFault::Overflow));
        }
        self.tiers.set(tier_id as usize, Some(tier));
        self.config.ladder_version = self.config.ladder_version + 1;
        Ok(())
    }

    /// Remove tier `tier_id`; governance only.
    pub fn remove_tier(&mut self, sender: &String, tier_id: u8) -> (r: Result<(), ContractError>)
        requires
            old(self).wf(),
        ensures
            final(self).wf(),
            r == (if !old(self).governs(sender@) {
                Err(ContractError::Unauthorized)
            } else if old(self).tiers@[tier_id as int] is None {
                Err(ContractError::TierNotFound { tier_id })
            } else if old(self).config.ladder_version == u32::MAX {
                Err(ContractError::Std(StdFault::Overflow))
            } else {
                Ok(())
            }),
            r is Err ==> *final(self) == *old(self),
            r is Ok ==> {
                &&& final(self).tiers@ == old(self).tiers@.update(tier_id as int, None)
                &&& final(self).config.ladder_version == old(self).config.ladder_version + 1
                &&& final(self).same_but_ladder(old(self))
            },
    {
        if *sender != self.config.governance {
            return Err(ContractError::Unauthorized);
        }
        if self.tiers[tier_id as usize].is_none() {
            return Err(ContractError::TierNotFound { tier_id });
        }
        if self.config.ladder_version == u32::MAX {
            return Err(ContractError::Std(StdFault::Overflow));
        }
        self.tiers.set(tier_id as usize, None);
        self.config.ladder_version = self.config.ladder_version + 1;
        Ok(())
    }

    /// Replace the given configuration fields; governance only. A base fee above
    /// 10000 bps is refused. The ladder and its version stay.
    pub fn update_config(
        &mut self,
        sender: &String,
        governance: Option<String>,
        cl8y: Option<String>,
        treasury: Option<String>,
        fee_collector: Option<String>,
        base_fee_bps: Option<u16>,
        mainnet: bool,
    ) -> (r: Result<(), ContractError>)
        requires
            old(self).wf(),
        ensures
            final(self).wf(),
            !old(self).governs(sender@) ==> r == Err::<(), ContractError>(ContractError::Unauthorized),
            old(self).governs(sender@) && registry_pin(mainnet, cl8y, treasury) is Some ==> r == Err::<(), ContractError>(
                ContractError::NonCanonicalAddress { field: registry_pin(mainnet, cl8y, treasury)->0 }),
            old(self).governs(sender@) && registry_pin(mainnet, cl8y, treasury) is None && (base_fee_bps matches Some(b) && b > MAX_BPS)
                ==> r == Err::<(), ContractError>(ContractError::InvalidDiscountBps { value: base_fee_bps->0 }),
            r is Ok <==> old(self).governs(sender@) && registry_pin(mainnet, cl8y, treasury) is None && !(base_fee_bps matches Some(b)
                && b > MAX_BPS),
            r is Err ==> *final(self) == *old(self),
            r is Ok ==> {
                &&& final(self).config.governance == (match governance {
                    Some(g) => g,
                    None => old(self).config.governance,
                })
                &&& final(self).config.cl8y == (match cl8y {
                    Some(c) => c,
                    None => old(self).config.cl8y,
                })
                &&& final(self).config.treasury == (match treasury {
                    Some(t) => t,
                    None => old(self).config.treasury,
                })
                &&& final(self).config.fee_collector == (match fee_collector {
                    Some(f) => f,
                    None => old(self).config.fee_collector,
                })
                &&& final(self).config.base_fee_bps == (match base_fee_bps {
                    Some(b) => b,
                    None => old(self).config.base_fee_bps,
                })
                &&& final(self).config.ladder_version == old(self).config.ladder_version
                &&& final(self).tiers == old(self).tiers
                &&& final(self).holdings == old(self).holdings
            },
    {
        if *sender != self.config.governance {
            return Err(ContractError::Unauthorized);
        }
        if let Some(field) = check_registry_pin(mainnet, &cl8y, &treasury) {
            return Err(ContractError::NonCanonicalAddress { field });
        }
        if let Some(bps) = base_fee_bps {
            if bps > MAX_BPS {
                return Err(ContractError::InvalidDiscountBps { value: bps });
            }
        }
        if let Some(address) = governance {
            self.config.governance = address;
        }
        if let Some(address) = cl8y {
            self.config.cl8y = address;
        }
        if let Some(address) = treasury {
            self.config.treasury = address;
        }
        if let Some(address) = fee_collector {
            self.config.fee_collector = address;
        }
        if let Some(bps) = base_fee_bps {
            self.config.base_fee_bps = bps;
        }
        Ok(())
    }

    /// Every existing tier, in ascending id order.
    pub fn query_tiers(&self) -> (r: Vec<TierEntry>)
        requires
            self.wf(),
        ensures
            r@ == ladder_entries(self.tiers@, TIER_SLOTS as int),
    {
        let mut out: Vec<TierEntry> = Vec::new();
        let mut i: usize = 0;
        while i < TIER_SLOTS
            invariant
                self.wf(),
                i <= TIER_SLOTS,
                out@ == ladder_entries(self.tiers@, i as int),
            decreases TIER_SLOTS - i,
        {
            match self.tiers[i] {
                Some(t) => {
                    out.push(
                        TierEntry {
                            tier_id: i as u8,
                            min_cl8y_balance: t.min_cl8y_balance,
                            discount_bps: t.discount_bps,
                            governance_only: t.governance_only,
                        },
                    );
                },
                None => {},
            }
            i = i + 1;
        }
        out
    }

    /// Tier `tier_id`, or `NotFound`.
    pub fn query_tier(&self, tier_id: u8) -> (r: Result<TierEntry, StdFault>)
        requires
            self.wf(),
        ensures
            match self.tiers@[tier_id as int] {
                Some(t) => r == Ok::<TierEntry, StdFault>(
                    TierEntry {
                        tier_id,
                        min_cl8y_balance: t.min_cl8y_balance,
                        discount_bps: t.discount_bps,
                        governance_only: t.governance_only,
                    },
                ),
                None => r == Err::<TierEntry, StdFault>(StdFault::NotFound),
            },
    {
        match self.tiers[tier_id as usize] {
            Some(t) => Ok(
                TierEntry {
                    tier_id,
                    min_cl8y_balance: t.min_cl8y_balance,
                    discount_bps: t.discount_bps,
                    governance_only: t.governance_only,
                },
            ),
            None => Err(StdFault::NotFound),
        }
    }
}

/// Migration of a stored registry: allowed from an older or the same version
/// of this contract. Says whether the stored version has to be rewritten.
pub fn migrate(stored: &Option<(String, String)>) -> (r: Result<bool, ContractError>)
    ensures
        r == (match migration_outcome(record_view(*stored), CONTRACT_NAME@, CONTRACT_VERSION@) {
            Ok(w) => Ok::<bool, ContractError>(w),
            Err(e) => Err(ContractError::Std(e)),
        }),
        // From the record that a successful migration leaves, another one
        // rewrites nothing.
        stored matches Some((n, v)) && n@ == CONTRACT_NAME@ && v@ == CONTRACT_VERSION@
            && semver_parses(CONTRACT_VERSION@) ==> r == Ok::<bool, ContractError>(false),
{
    match migration_check(stored, CONTRACT_NAME, CONTRACT_VERSION) {
        Ok(w) => Ok(w),
        Err(e) => Err(ContractError::Std(e)),
    }
}

} // verus!
