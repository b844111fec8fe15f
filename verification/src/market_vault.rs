//! The market-grid vault's state and the transitions of its messages. Chain
//! reads (TWAP samples, balances, pool reserves, simulations, the pair's code
//! id, the fee registry's answer) arrive as arguments.
use vstd::prelude::*;
use crate::book::Book;
use crate::errors::StdFault;
use crate::market::{
    check_market_pins, market_pin, MarketPins,
    allocation_deviation, deposit_shares, deposit_shares_spec, expected_return, fee_shares_for_value, grid_cell,
    planned_offer, risk_controls_ok, target_weight_bps, twap_window_ok, validate_allocation_tolerance,
    validate_pool_safety, validate_rebalance_outcome, validate_risk_controls, validate_settlement, MarketError,
    PendingSwap, MAX_ALLOCATION_TOLERANCE_BPS, MAX_GRID_COUNT, allocation_deviation_spec,
    expected_return_spec, fee_shares_spec, grid_cell_spec, planned_offer_spec, pool_safety_spec, settlement_ok,
    target_weight_spec, law_fee_shares_never_overcharge,
};
use crate::math::{checked_ratio, lemma_ratio_le, ratio, unit, Decimal, DECIMAL_FRACTIONAL};
use crate::versioning::{semver_less, semver_parses, text_is, version_less, version_parses};

verus! {

pub const REBALANCE_REPLY_ID: u64 = 1;

pub const CONTRACT_NAME: &'static str = "crates.io:cl8y-grid-vault-swap";

pub const CONTRACT_VERSION: &'static str = "0.2.0";

#[derive(Clone, Debug)]
pub struct MarketConfig {
    pub admin: String,
    pub pending_admin: Option<String>,
    pub factory: String,
    pub pair: String,
    pub pair_code_id: u64,
    pub asset_tokens: [String; 2],
    pub decimals: u8,
    pub twap_window_seconds: u32,
    pub grid_count: u32,
    pub lower_price: Decimal,
    pub upper_price: Decimal,
    pub allocation_tolerance_bps: u16,
    pub max_trade_bps: u16,
    pub max_execution_deviation_bps: u16,
    pub quote_slippage_bps: u16,
    pub max_spot_twap_deviation_bps: u16,
    pub max_trade_pool_bps: u16,
    pub max_spread: Decimal,
    pub reference_price: Decimal,
    pub last_cell: u32,
    pub fee_registry: Option<String>,
    pub fee_collector: Option<String>,
    pub proxy: Option<String>,
}

/// The grid and risk parameters are within their bounds.
pub open spec fn config_ok(c: MarketConfig) -> bool {
    &&& 1 <= c.grid_count <= MAX_GRID_COUNT
    &&& 0 < c.lower_price.atomics < c.upper_price.atomics
    &&& twap_window_ok(c.twap_window_seconds as int)
    &&& 1 <= c.allocation_tolerance_bps <= MAX_ALLOCATION_TOLERANCE_BPS
    &&& risk_controls_ok(c.max_trade_bps as int, c.max_execution_deviation_bps as int, c.quote_slippage_bps as int,
        c.max_spot_twap_deviation_bps as int, c.max_trade_pool_bps as int, c.max_spread.atomics as int)
    &&& c.asset_tokens[0]@ != c.asset_tokens[1]@
    &&& (c.pending_admin matches Some(p) ==> p@ != c.admin@)
}

/// The last fee answer of the registry for an account.
#[derive(Clone, Copy, Debug)]
pub struct CachedFee {
    pub fee_bps: u16,
    pub tier_id: Option<u8>,
}

pub struct MarketVault {
    pub config: MarketConfig,
    pub shares: Book<u128>,
    pub total_shares: u128,
    pub paused: bool,
    pub pending: Option<PendingSwap>,
    pub fee_cache: Book<CachedFee>,
}

/// A rebalance assessment at the captured TWAP.
#[derive(Clone, Copy, Debug)]
pub struct RebalancePlan {
    pub current_cell: u32,
    pub target_weight_bps: u16,
    pub allocation_deviation_bps: u16,
    pub should_rebalance: bool,
    pub captured_twap: Decimal,
    pub balances: [u128; 2],
    /// Index of the offered token and the offered amount.
    pub offer: Option<(usize, u128)>,
}

/// Where the fee rate came from.
#[derive(Clone, Copy, Debug, PartialEq, Eq, Structural)]
pub enum FeeOrigin {
    Registry,
    VaultCached,
}

/// What charging the fee on a swap did: no fee owed (or it rounds to nothing),
/// skipped because the registry could not be asked and no rate is cached, or
/// minted.
#[derive(Clone, Copy, Debug)]
pub enum FeeCharge {
    Nothing,
    Skipped,
    Applied(FeeApplied),
}

#[derive(Clone, Copy, Debug)]
pub struct FeeApplied {
    pub fee_bps: u16,
    pub shares: u128,
    pub holders: u32,
    pub tier: Option<u8>,
    pub origin: FeeOrigin,
}

/// What the registry answered for the operating account.
#[derive(Clone, Copy, Debug)]
pub struct RegistryFee {
    pub fee_bps: u16,
    pub tier_id: Option<u8>,
}

/// The settled outcome of a rebalance swap, and the values the fee is taken on.
#[derive(Clone, Copy, Debug)]
pub struct RebalanceOutcome {
    pub allocation_deviation_bps: u16,
    pub cell_updated: bool,
    pub value_in_token0: u128,
    pub asset_value_in_token0: u128,
}

/// How a pending swap settles against the vault's `settled` balances, the
/// checks in order: the settlement's bounds, the new allocation deviation, no
/// worsening beyond the tolerance; then the swap's value is the asked token's
/// proceeds in token 0 at the captured TWAP, and the vault's value is its
/// balances in token 0 at that TWAP.
pub open spec fn rebalance_settlement(v: MarketVault, settled: [u128; 2]) -> Result<RebalanceOutcome, MarketError> {
    let p = v.pending->0;
    let c = v.config;
    let o = p.offer_index as int;
    let a = 1 - o;
    let twap = p.captured_twap.atomics as int;
    let dev = allocation_deviation_spec(settled[0] as int, settled[1] as int, twap, c.lower_price.atomics as int,
        c.upper_price.atomics as int, c.grid_count as int);
    let proceeds = settled[a] - p.balances[a];
    let value = if a == 0 { proceeds } else { ratio(proceeds, unit(), twap) };
    let token1_value = ratio(settled[1] as int, unit(), twap);
    if !(p.amount <= p.balances[o] && p.balances[a] + p.min_return <= u128::MAX) {
        Err(MarketError::Std(StdFault::Overflow))
    } else if !settlement_ok(p, settled) {
        Err(MarketError::AllocationDidNotImprove)
    } else if dev is None {
        Err(MarketError::Std(StdFault::Overflow))
    } else if dev->0 >= p.pre_deviation_bps && dev->0 > c.allocation_tolerance_bps {
        Err(MarketError::AllocationDidNotImprove)
    } else if a != 0 && (twap == 0 || value > u128::MAX) {
        Err(MarketError::Std(StdFault::Overflow))
    } else if twap == 0 || token1_value > u128::MAX || settled[0] + token1_value > u128::MAX {
        Err(MarketError::Std(StdFault::Overflow))
    } else {
        Ok(RebalanceOutcome {
            allocation_deviation_bps: dev->0 as u16,
            cell_updated: dev->0 <= c.allocation_tolerance_bps,
            value_in_token0: value as u128,
            asset_value_in_token0: (settled[0] + token1_value) as u128,
        })
    }
}

/// A settled rebalance is valued by what the swap received, in token 0: when
/// token 1 was offered, the token-0 balance gained, as it is; when token 0 was
/// offered, the token-1 balance gained, at the captured TWAP (rounded down). The
/// vault is valued at its settled balances, token 1 at the same TWAP.
pub proof fn law_rebalance_values_what_the_swap_received(v: MarketVault, settled: [u128; 2])
    requires
        v.wf(),
        v.pending is Some,
        rebalance_settlement(v, settled) is Ok,
    ensures
        ({
            let p = v.pending->0;
            let out = rebalance_settlement(v, settled)->Ok_0;
            let twap = p.captured_twap.atomics as int;
            &&& twap > 0
            &&& p.offer_index == 1 ==> out.value_in_token0 == settled[0] - p.balances[0]
            &&& p.offer_index == 0 ==> out.value_in_token0 == (settled[1] - p.balances[1]) * 1_000_000_000_000_000_000 / twap
            &&& out.asset_value_in_token0 == settled[0] + settled[1] * 1_000_000_000_000_000_000 / twap
            &&& settled[1 - p.offer_index as int] >= p.balances[1 - p.offer_index as int] + p.min_return
        }),
{
}

impl MarketVault {
    pub open spec fn wf(&self) -> bool {
        &&& self.shares.wf()
        &&& self.fee_cache.wf()
        &&& forall|k: Seq<char>| #[trigger] self.fee_cache.view().contains_key(k) ==> self.fee_cache.view()[k].fee_bps <= 10_000
        &&& self.total_shares == self.shares.total()
        &&& config_ok(self.config)
        &&& (self.pending matches Some(p) ==> p.offer_index <= 1)
    }

    /// A fresh vault: unpaused, no shares, no pending swap.
    pub fn new(config: MarketConfig) -> (r: MarketVault)
        requires
            config_ok(config),
        ensures
            r.wf(),
            r.config == config,
            r.total_shares == 0,
            !r.paused,
            r.pending is None,
    {
        MarketVault { config, shares: Book::new(), total_shares: 0, paused: false, pending: None, fee_cache: Book::new() }
    }

    /// Checks of a deposit that precede the price and balance reads; the index
    /// of the deposited token.
    pub fn check_deposit(&self, token: &String, depositor: &String, amount: u128, pair_code_id: u64) -> (r: Result<usize, MarketError>)
        ensures
            r matches Ok(i) ==> i <= 1 && self.config.asset_tokens[i as int]@ == token@,
            r is Ok <==> (!self.paused && amount != 0 && depositor@ == self.config.admin@
                && pair_code_id == self.config.pair_code_id
                && (token@ == self.config.asset_tokens[0]@ || token@ == self.config.asset_tokens[1]@)),
            self.paused ==> r == Err::<usize, MarketError>(MarketError::Paused),
            !self.paused && amount == 0 ==> r == Err::<usize, MarketError>(MarketError::ZeroAmount),
            !self.paused && amount != 0 && depositor@ != self.config.admin@ ==> r == Err::<usize, MarketError>(MarketError::Unauthorized),
    {
        if self.paused {
            return Err(MarketError::Paused);
        }
        if amount == 0 {
            return Err(MarketError::ZeroAmount);
        }
        if *depositor != self.config.admin {
            return Err(MarketError::Unauthorized);
        }
        if pair_code_id != self.config.pair_code_id {
            return Err(MarketError::Std(StdFault::PairCodeMismatch));
        }
        if self.config.asset_tokens[0] == *token {
            Ok(0)
        } else if self.config.asset_tokens[1] == *token {
            Ok(1)
        } else {
            Err(MarketError::UnsupportedToken)
        }
    }

    /// Mint the deposit's shares to `depositor` at the TWAP `price` against the
    /// vault `balances` (which already include the deposit).
    pub fn apply_deposit(&mut self, depositor: &String, token_index: usize, amount: u128, price: Decimal, balances: [u128; 2]) -> (r: Result<u128, MarketError>)
        requires
            old(self).wf(),
            token_index <= 1,
        ensures
            final(self).wf(),
            r is Ok <==> (deposit_shares_spec(amount as int, token_index as int, price.atomics as int, balances[0] as int, balances[1] as int, old(self).total_shares as int) matches Some(m)
                && m > 0 && old(self).total_shares + m <= u128::MAX),
            r matches Ok(m) ==> Some(m as int) == deposit_shares_spec(amount as int, token_index as int, price.atomics as int, balances[0] as int, balances[1] as int, old(self).total_shares as int)
                && final(self).total_shares == old(self).total_shares + m
                && final(self).shares.view() == old(self).shares.view().insert(depositor@, (old(self).shares.amount_of(depositor@) + m) as u128)
                && final(self).config == old(self).config && final(self).pending == old(self).pending,
            r is Err ==> *final(self) == *old(self),
    {
        let minted = deposit_shares(amount, token_index, price, balances, self.total_shares)?;
        if minted == 0 {
            return Err(MarketError::ZeroAmount);
        }
        if self.total_shares > u128::MAX - minted {
            return Err(MarketError::Std(StdFault::Overflow));
        }
        let held = self.shares.amount(depositor);
        proof {
            self.shares.lemma_amount_le_total(depositor@);
        }
        self.total_shares = self.total_shares + minted;
        self.shares.set_amount(depositor, held + minted);
        Ok(minted)
    }

    /// Burn `shares` of `sender` and pay the pro-rata slice of `balances`.
    pub fn withdraw(&mut self, has_funds: bool, sender: &String, shares: u128, balances: [u128; 2]) -> (r: Result<[u128; 2], MarketError>)
        requires
            old(self).wf(),
        ensures
            final(self).wf(),
            r is Ok <==> (!has_funds && old(self).pending is None && shares != 0 && shares <= old(self).shares.amount_of(sender@)),
            has_funds ==> r == Err::<[u128; 2], MarketError>(MarketError::Unauthorized),
            !has_funds && old(self).pending is Some ==> r == Err::<[u128; 2], MarketError>(MarketError::RebalancePending),
            r matches Ok(amounts) ==> amounts[0] == ratio(balances[0] as int, shares as int, old(self).total_shares as int)
                && amounts[1] == ratio(balances[1] as int, shares as int, old(self).total_shares as int)
                && amounts[0] <= balances[0] && amounts[1] <= balances[1]
                && final(self).total_shares == old(self).total_shares - shares
                && final(self).shares.view() == old(self).shares.view().insert(sender@, (old(self).shares.amount_of(sender@) - shares) as u128)
                && final(self).config == old(self).config,
            r is Err ==> *final(self) == *old(self),
    {
        if has_funds {
            return Err(MarketError::Unauthorized);
        }
        if self.pending.is_some() {
            return Err(MarketError::RebalancePending);
        }
        if shares == 0 {
            return Err(MarketError::ZeroAmount);
        }
        let owner_shares = self.shares.amount(sender);
        proof {
            self.shares.lemma_amount_le_total(sender@);
        }
        if shares > owner_shares || shares > self.total_shares {
            return Err(MarketError::InsufficientShares);
        }
        let amounts = pro_rata(balances, shares, self.total_shares);
        self.total_shares = self.total_shares - shares;
        self.shares.set_amount(sender, owner_shares - shares);
        Ok(amounts)
    }
}

impl MarketVault {
    /// Checks of a rebalance that precede the plan's reads.
    pub fn check_rebalance(&self, has_funds: bool, now: u64, deadline: u64, pair_code_id: u64) -> (r: Result<(), MarketError>)
        ensures
            r is Ok <==> (!has_funds && !self.paused && self.pending is None && deadline >= now && pair_code_id == self.config.pair_code_id),
            has_funds ==> r == Err::<(), MarketError>(MarketError::Unauthorized),
            !has_funds && self.paused ==> r == Err::<(), MarketError>(MarketError::Paused),
            !has_funds && !self.paused && self.pending is Some ==> r == Err::<(), MarketError>(MarketError::RebalancePending),
            !has_funds && !self.paused && self.pending is None && deadline < now ==> r == Err::<(), MarketError>(MarketError::Expired),
    {
        if has_funds {
            return Err(MarketError::Unauthorized);
        }
        if self.paused {
            return Err(MarketError::Paused);
        }
        if self.pending.is_some() {
            return Err(MarketError::RebalancePending);
        }
        if deadline < now {
            return Err(MarketError::Expired);
        }
        if pair_code_id != self.config.pair_code_id {
            return Err(MarketError::Std(StdFault::PairCodeMismatch));
        }
        Ok(())
    }

    /// Record the planned swap as pending, after the pool-side guards.
    pub fn start_rebalance(&mut self, plan: &RebalancePlan, min_return: Option<u128>, reserves: [u128; 2]) -> (r: Result<PendingSwap, MarketError>)
        requires
            old(self).wf(),
            plan.offer matches Some(o) ==> o.0 <= 1,
        ensures
            final(self).wf(),
            !plan.should_rebalance ==> r == Err::<PendingSwap, MarketError>(MarketError::RebalanceNotRequired),
            plan.should_rebalance && (plan.offer is None || min_return is None) ==> r == Err::<PendingSwap, MarketError>(MarketError::InvalidRebalanceSwap),
            r matches Ok(p) ==> plan.should_rebalance && plan.offer == Some((p.offer_index as usize, p.amount))
                && min_return == Some(p.min_return) && p.captured_twap == plan.captured_twap && p.balances == plan.balances
                && p.pre_deviation_bps == plan.allocation_deviation_bps
                && final(self).pending == Some(p) && final(self).config == old(self).config
                && final(self).shares == old(self).shares && final(self).total_shares == old(self).total_shares,
            plan.should_rebalance && plan.offer is Some && min_return is Some ==> ({
                let o = plan.offer->0;
                r is Ok <==> pool_safety_spec(reserves, plan.captured_twap.atomics as int, o.0 as int, o.1 as int,
                    old(self).config.max_spot_twap_deviation_bps as int, old(self).config.max_trade_pool_bps as int) is Ok
            }),
            r is Err ==> *final(self) == *old(self),
    {
        if !plan.should_rebalance {
            return Err(MarketError::RebalanceNotRequired);
        }
        let (offer_index, amount) = match plan.offer {
            Some(o) => o,
            None => return Err(MarketError::InvalidRebalanceSwap),
        };
        let min_return = match min_return {
            Some(m) => m,
            None => return Err(MarketError::InvalidRebalanceSwap),
        };
        validate_pool_safety(reserves, plan.captured_twap, offer_index, amount,
            self.config.max_spot_twap_deviation_bps, self.config.max_trade_pool_bps)?;
        let pending = PendingSwap {
            captured_twap: plan.captured_twap,
            balances: plan.balances,
            pre_deviation_bps: plan.allocation_deviation_bps,
            offer_index: offer_index as u8,
            amount,
            min_return,
        };
        self.pending = Some(pending);
        Ok(pending)
    }

    /// Settle a pending swap against the vault's `settled` balances: reject a
    /// settlement that breaks its bounds or worsens the allocation beyond the
    /// tolerance, move the reference cell when the allocation is within
    /// tolerance, clear the pending swap, and value the swap's proceeds and the
    /// vault in token-0 units at the captured TWAP.
    pub fn complete_rebalance(&mut self, reply_id: u64, settled: [u128; 2]) -> (r: Result<RebalanceOutcome, MarketError>)
        requires
            old(self).wf(),
        ensures
            final(self).wf(),
            reply_id != REBALANCE_REPLY_ID ==> r == Err::<RebalanceOutcome, MarketError>(MarketError::UnknownReply),
            reply_id == REBALANCE_REPLY_ID && old(self).pending is None ==> r == Err::<RebalanceOutcome, MarketError>(MarketError::MissingPendingRebalance),
            reply_id == REBALANCE_REPLY_ID && old(self).pending is Some ==> r == rebalance_settlement(*old(self), settled),
            r matches Ok(o) ==> ({
                let p = old(self).pending->0;
                let c = old(self).config;
                &&& settlement_ok(p, settled)
                &&& Some(o.allocation_deviation_bps as int) == allocation_deviation_spec(settled[0] as int, settled[1] as int,
                        p.captured_twap.atomics as int, c.lower_price.atomics as int, c.upper_price.atomics as int, c.grid_count as int)
                &&& !(o.allocation_deviation_bps >= p.pre_deviation_bps && o.allocation_deviation_bps > c.allocation_tolerance_bps)
                &&& o.cell_updated == (o.allocation_deviation_bps <= c.allocation_tolerance_bps)
                &&& final(self).pending is None
                &&& (o.cell_updated ==> final(self).config.reference_price == p.captured_twap
                    && final(self).config.last_cell == grid_cell_spec(p.captured_twap.atomics as int, c.lower_price.atomics as int, c.upper_price.atomics as int, c.grid_count as int))
                &&& (!o.cell_updated ==> final(self).config == c)
                &&& final(self).shares == old(self).shares && final(self).total_shares == old(self).total_shares
            }),
            r is Err ==> *final(self) == *old(self),
    {
        if reply_id != REBALANCE_REPLY_ID {
            return Err(MarketError::UnknownReply);
        }
        let pending = match self.pending {
            Some(p) => p,
            None => return Err(MarketError::MissingPendingRebalance),
        };
        validate_settlement(&pending, settled)?;
        let current = match allocation_deviation(settled, pending.captured_twap, self.config.lower_price,
            self.config.upper_price, self.config.grid_count) {
            Ok(d) => d,
            Err(e) => return Err(MarketError::Std(e)),
        };
        let within_tolerance = validate_rebalance_outcome(pending.pre_deviation_bps, current, self.config.allocation_tolerance_bps)?;
        let offer = pending.offer_index as usize;
        let ask = 1 - offer;
        let proceeds = settled[ask] - pending.balances[ask];
        let value_in_token0 = if ask == 0 {
            proceeds
        } else {
            match checked_ratio(proceeds, DECIMAL_FRACTIONAL, pending.captured_twap.atomics) {
                Some(v) => v,
                None => return Err(MarketError::Std(StdFault::Overflow)),
            }
        };
        let token1_value = match checked_ratio(settled[1], DECIMAL_FRACTIONAL, pending.captured_twap.atomics) {
            Some(v) => v,
            None => return Err(MarketError::Std(StdFault::Overflow)),
        };
        if settled[0] > u128::MAX - token1_value {
            return Err(MarketError::Std(StdFault::Overflow));
        }
        let asset_value = settled[0] + token1_value;
        if within_tolerance {
            self.config.reference_price = pending.captured_twap;
            self.config.last_cell = grid_cell(pending.captured_twap, self.config.lower_price,
                self.config.upper_price, self.config.grid_count);
        }
        self.pending = None;
        Ok(RebalanceOutcome {
            allocation_deviation_bps: current,
            cell_updated: within_tolerance,
            value_in_token0,
            asset_value_in_token0: asset_value,
        })
    }

    /// The account whose fee the registry must be asked for, when a fee applies:
    /// the admin, when both registry and collector are configured and the swap
    /// produced value.
    pub fn fee_subject(&self, value_in_token0: u128) -> (r: Option<String>)
        ensures
            r is Some <==> (self.config.fee_registry is Some && self.config.fee_collector is Some && value_in_token0 != 0),
            r matches Some(a) ==> a@ == self.config.admin@,
    {
        if self.config.fee_registry.is_some() && self.config.fee_collector.is_some() && value_in_token0 != 0 {
            Some(self.config.admin.clone())
        } else {
            None
        }
    }

    /// Mint the protocol fee on a swap worth `value_in_token0` as LP to the
    /// collector, priced at the vault's post-settlement value. The rate is the
    /// registry's answer (capped at 10 000 bps and cached for the admin), else the
    /// cached answer (`answer` is `None` when the registry could not be asked);
    /// with neither, the fee is skipped and the swap still completes.
    pub fn charge_fee(&mut self, value_in_token0: u128, asset_value_in_token0: u128, answer: Option<RegistryFee>) -> (r: Result<FeeCharge, MarketError>)
        requires
            old(self).wf(),
        ensures
            final(self).wf(),
            r == charge_outcome(*old(self), value_in_token0, asset_value_in_token0, answer),
            final(self).config == old(self).config,
            final(self).pending == old(self).pending,
            final(self).paused == old(self).paused,
            !fee_applies(*old(self), value_in_token0) ==> *final(self) == *old(self),
            final(self).fee_cache.view() == (if fee_applies(*old(self), value_in_token0) && answer is Some {
                old(self).fee_cache.view().insert(old(self).config.admin@, registry_rate(answer->0))
            } else {
                old(self).fee_cache.view()
            }),
            r matches Ok(FeeCharge::Applied(f)) ==> ({
                let collector = old(self).config.fee_collector->0;
                &&& final(self).total_shares == old(self).total_shares + f.shares
                &&& final(self).shares.view() == old(self).shares.view().insert(collector@, (old(self).shares.amount_of(collector@) + f.shares) as u128)
            }),
            !(r matches Ok(FeeCharge::Applied(_))) ==> final(self).shares == old(self).shares && final(self).total_shares == old(self).total_shares,
    {
        let collector = match (&self.config.fee_registry, &self.config.fee_collector) {
            (Some(_), Some(c)) => c.clone(),
            _ => return Ok(FeeCharge::Nothing),
        };
        if value_in_token0 == 0 {
            return Ok(FeeCharge::Nothing);
        }
        let (fee, origin) = match answer {
            Some(a) => {
                let cached = CachedFee { fee_bps: if a.fee_bps <= 10_000 { a.fee_bps } else { 10_000 }, tier_id: a.tier_id };
                let admin = self.config.admin.clone();
                self.fee_cache.set(&admin, cached);
                (cached, FeeOrigin::Registry)
            },
            None => match self.fee_cache.get(&self.config.admin) {
                Some(c) => (c, FeeOrigin::VaultCached),
                None => return Ok(FeeCharge::Skipped),
            },
        };
        let fee_bps = fee.fee_bps;
        if fee_bps == 0 {
            return Ok(FeeCharge::Nothing);
        }
        proof {
            lemma_ratio_le(value_in_token0 as int, fee_bps as int, 10_000);
        }
        let fee_value = match checked_ratio(value_in_token0, fee_bps as u128, 10_000) {
            Some(v) => v,
            None => 0,
        };
        if fee_value == 0 {
            return Ok(FeeCharge::Nothing);
        }
        let fee_shares = match fee_shares_for_value(fee_value, asset_value_in_token0, self.total_shares) {
            Ok(s) => s,
            Err(e) => return Err(MarketError::Std(e)),
        };
        if fee_shares == 0 {
            return Ok(FeeCharge::Nothing);
        }
        let held = self.shares.amount(&collector);
        proof {
            self.shares.lemma_amount_le_total(collector@);
        }
        if self.total_shares > u128::MAX - fee_shares {
            return Err(MarketError::Std(StdFault::Overflow));
        }
        self.shares.set_amount(&collector, held + fee_shares);
        self.total_shares = self.total_shares + fee_shares;
        Ok(FeeCharge::Applied(FeeApplied { fee_bps, shares: fee_shares, holders: 1, tier: fee.tier_id, origin }))
    }
}

/// Whether a swap worth `value_in_token0` owes a fee: registry and collector
/// are both configured and the swap produced value.
pub open spec fn fee_applies(v: MarketVault, value_in_token0: u128) -> bool {
    v.config.fee_registry is Some && v.config.fee_collector is Some && value_in_token0 != 0
}

/// The registry's answer as the vault keeps it: capped at 10 000 bps.
pub open spec fn registry_rate(a: RegistryFee) -> CachedFee {
    CachedFee { fee_bps: if a.fee_bps <= 10_000 { a.fee_bps } else { 10_000 }, tier_id: a.tier_id }
}

/// The rate a fee is charged at and where it came from: the registry's
/// answer capped at 10 000 bps, else the admin's cached rate, else none.
pub open spec fn charge_rate(v: MarketVault, answer: Option<RegistryFee>) -> Option<(CachedFee, FeeOrigin)> {
    match answer {
        Some(a) => Some((registry_rate(a), FeeOrigin::Registry)),
        None => if v.fee_cache.view().contains_key(v.config.admin@) {
            Some((v.fee_cache.view()[v.config.admin@], FeeOrigin::VaultCached))
        } else {
            None
        },
    }
}

/// What charging the fee on a swap gives: no fee where none applies or it
/// rounds to nothing, skipped where no rate can be had, an overflow error
/// where the shares do not fit, else the fee minted as shares to the collector.
pub open spec fn charge_outcome(v: MarketVault, value_in_token0: u128, asset_value_in_token0: u128, answer: Option<RegistryFee>) -> Result<FeeCharge, MarketError> {
    if !fee_applies(v, value_in_token0) {
        Ok(FeeCharge::Nothing)
    } else if charge_rate(v, answer) is None {
        Ok(FeeCharge::Skipped)
    } else {
        let (fee, origin) = charge_rate(v, answer)->0;
        let fee_value = ratio(value_in_token0 as int, fee.fee_bps as int, 10_000);
        let shares = fee_shares_spec(fee_value, asset_value_in_token0 as int, v.total_shares as int);
        if fee.fee_bps == 0 || fee_value == 0 {
            Ok(FeeCharge::Nothing)
        } else if shares > u128::MAX {
            Err(MarketError::Std(StdFault::Overflow))
        } else if shares == 0 {
            Ok(FeeCharge::Nothing)
        } else if v.total_shares + shares > u128::MAX {
            Err(MarketError::Std(StdFault::Overflow))
        } else {
            Ok(FeeCharge::Applied(FeeApplied { fee_bps: fee.fee_bps, shares: shares as u128, holders: 1, tier: fee.tier_id, origin }))
        }
    }
}

/// The fee on a swap worth `value` (in token 0) when the registry answered:
/// taken at the registry's rate capped at 10 000 bps, it is worth
/// `F = floor(value * bps / 10 000)`, and is minted as
/// `x = floor(F * S / (A - F))` new shares for a vault of `S` shares worth `A`,
/// so that what the collector can redeem, `x * A / (S + x)`, is at most `F`.
pub proof fn law_fee_is_the_rate_on_the_swap_value(v: MarketVault, value: u128, asset_value: u128, answer: RegistryFee)
    requires
        v.total_shares > 0,
        charge_outcome(v, value, asset_value, Some(answer)) is Ok,
        charge_outcome(v, value, asset_value, Some(answer))->Ok_0 is Applied,
    ensures
        ({
            let f = charge_outcome(v, value, asset_value, Some(answer))->Ok_0->Applied_0;
            let bps: int = if answer.fee_bps <= 10_000 { answer.fee_bps as int } else { 10_000 };
            let fee_value = value * bps / 10_000;
            &&& f.fee_bps == bps
            &&& f.origin == FeeOrigin::Registry
            &&& 0 < fee_value < asset_value
            &&& f.shares == fee_value * v.total_shares / (asset_value - fee_value)
            &&& f.shares * asset_value / (v.total_shares + f.shares) <= fee_value
        }),
{
    let bps: int = if answer.fee_bps <= 10_000 { answer.fee_bps as int } else { 10_000 };
    let fee_value = value * bps / 10_000;
    law_fee_shares_never_overcharge(fee_value, asset_value as int, v.total_shares as int);
}

/// The pair must still run the pinned code: `code_id` is the pair's code id as
/// read from the chain.
pub fn check_pair_code(config: &MarketConfig, code_id: u64) -> (r: Result<(), StdFault>)
    ensures
        r is Ok <==> code_id == config.pair_code_id,
        r is Err ==> r == Err::<(), StdFault>(StdFault::PairCodeMismatch),
{
    if code_id != config.pair_code_id {
        return Err(StdFault::PairCodeMismatch);
    }
    Ok(())
}

/// Where a rebalance swap of `amount` goes: through the configured swap proxy,
/// which swaps on the pair, or straight into the pair as a pool-only swap.
/// Both carry the minimum return, the maximum spread and the deadline.
#[derive(Clone, Debug)]
pub enum SwapRoute {
    Proxy { proxy: String, pair: String, min_return: u128, max_spread: Decimal, deadline: u64 },
    Pair { pair: String, amount: u128, max_spread: Decimal, min_return: u128, deadline: u64 },
}

/// The route of a rebalance swap under `config`.
pub fn swap_route(config: &MarketConfig, amount: u128, min_return: u128, deadline: u64) -> (r: SwapRoute)
    ensures
        r == (match config.proxy {
            Some(p) => SwapRoute::Proxy { proxy: p, pair: config.pair, min_return, max_spread: config.max_spread, deadline },
            None => SwapRoute::Pair { pair: config.pair, amount, max_spread: config.max_spread, min_return, deadline },
        }),
{
    match &config.proxy {
        Some(p) => SwapRoute::Proxy {
            proxy: p.clone(),
            pair: config.pair.clone(),
            min_return,
            max_spread: config.max_spread,
            deadline,
        },
        None => SwapRoute::Pair { pair: config.pair.clone(), amount, max_spread: config.max_spread, min_return, deadline },
    }
}

/// A configuration change; `None` keeps a field. For the three optional
/// addresses, `Some(None)` clears the field.
#[derive(Clone, Debug)]
pub struct ConfigUpdate {
    pub grid_count: Option<u32>,
    pub lower_price: Option<Decimal>,
    pub upper_price: Option<Decimal>,
    pub allocation_tolerance_bps: Option<u16>,
    pub max_trade_bps: Option<u16>,
    pub max_execution_deviation_bps: Option<u16>,
    pub quote_slippage_bps: Option<u16>,
    pub max_spot_twap_deviation_bps: Option<u16>,
    pub max_trade_pool_bps: Option<u16>,
    pub max_spread: Option<Decimal>,
    pub fee_registry: Option<Option<String>>,
    pub fee_collector: Option<Option<String>>,
    pub proxy: Option<Option<String>>,
}

pub open spec fn keep<T>(update: Option<T>, current: T) -> T {
    match update {
        Some(v) => v,
        None => current,
    }
}

/// The configuration after `u`.
pub open spec fn updated_config(c: MarketConfig, u: ConfigUpdate) -> MarketConfig {
    MarketConfig {
        grid_count: keep(u.grid_count, c.grid_count),
        lower_price: keep(u.lower_price, c.lower_price),
        upper_price: keep(u.upper_price, c.upper_price),
        allocation_tolerance_bps: keep(u.allocation_tolerance_bps, c.allocation_tolerance_bps),
        max_trade_bps: keep(u.max_trade_bps, c.max_trade_bps),
        max_execution_deviation_bps: keep(u.max_execution_deviation_bps, c.max_execution_deviation_bps),
        quote_slippage_bps: keep(u.quote_slippage_bps, c.quote_slippage_bps),
        max_spot_twap_deviation_bps: keep(u.max_spot_twap_deviation_bps, c.max_spot_twap_deviation_bps),
        max_trade_pool_bps: keep(u.max_trade_pool_bps, c.max_trade_pool_bps),
        max_spread: keep(u.max_spread, c.max_spread),
        fee_registry: keep(u.fee_registry, c.fee_registry),
        fee_collector: keep(u.fee_collector, c.fee_collector),
        proxy: keep(u.proxy, c.proxy),
        ..c
    }
}

/// The update is accepted: a grid count in range, an ordered positive price
/// band, a tolerance in range and risk controls within bounds.
pub open spec fn update_ok(c: MarketConfig, u: ConfigUpdate) -> bool {
    let n = updated_config(c, u);
    &&& (u.grid_count matches Some(g) ==> 1 <= g <= MAX_GRID_COUNT)
    &&& 0 < n.lower_price.atomics < n.upper_price.atomics
    &&& (u.allocation_tolerance_bps matches Some(t) ==> 1 <= t <= MAX_ALLOCATION_TOLERANCE_BPS)
    &&& risk_controls_ok(n.max_trade_bps as int, n.max_execution_deviation_bps as int, n.quote_slippage_bps as int,
        n.max_spot_twap_deviation_bps as int, n.max_trade_pool_bps as int, n.max_spread.atomics as int)
}

/// The checks of a configuration change, in order, with the error of the
/// first that fails: the pinned addresses of a mainnet build, the grid count, the price range, the allocation
/// tolerance, then the risk controls of the updated configuration.
pub open spec fn update_check(c: MarketConfig, u: ConfigUpdate, pins: Option<MarketPins>) -> Result<(), MarketError> {
    let n = updated_config(c, u);
    if market_pin(pins, u.fee_registry, u.fee_collector, u.proxy) is Some {
        Err(MarketError::NonCanonicalAddress { field: market_pin(pins, u.fee_registry, u.fee_collector, u.proxy)->0 })
    } else if u.grid_count matches Some(g) && !(1 <= g <= MAX_GRID_COUNT) {
        Err(MarketError::InvalidGridCount)
    } else if !(0 < n.lower_price.atomics < n.upper_price.atomics) {
        Err(MarketError::InvalidGrid)
    } else if u.allocation_tolerance_bps matches Some(t) && !(1 <= t <= MAX_ALLOCATION_TOLERANCE_BPS) {
        Err(MarketError::InvalidRiskControl)
    } else if !risk_controls_ok(n.max_trade_bps as int, n.max_execution_deviation_bps as int, n.quote_slippage_bps as int,
        n.max_spot_twap_deviation_bps as int, n.max_trade_pool_bps as int, n.max_spread.atomics as int) {
        Err(MarketError::InvalidRiskControl)
    } else {
        Ok(())
    }
}

fn keep_u16(update: Option<u16>, current: u16) -> (r: u16)
    ensures
        r == keep(update, current),
{
    match update {
        Some(v) => v,
        None => current,
    }
}

fn keep_address(update: &Option<Option<String>>, current: &Option<String>) -> (r: Option<String>)
    ensures
        r == keep(*update, *current),
{
    match update {
        Some(v) => v.clone(),
        None => current.clone(),
    }
}

impl MarketVault {
    /// Apply a configuration change from the admin while no swap is pending.
    pub fn update_config(&mut self, has_funds: bool, sender: &String, update: &ConfigUpdate, pins: &Option<MarketPins>) -> (r: Result<
        (),
        MarketError,
    >)
        requires
            old(self).wf(),
        ensures
            final(self).wf(),
            r is Ok <==> (!has_funds && sender@ == old(self).config.admin@ && old(self).pending is None && market_pin(*pins,
                update.fee_registry, update.fee_collector, update.proxy) is None && update_ok(old(self).config, *update)),
            has_funds || sender@ != old(self).config.admin@ ==> r == Err::<(), MarketError>(MarketError::Unauthorized),
            !has_funds && sender@ == old(self).config.admin@ && old(self).pending is Some ==> r == Err::<(), MarketError>(MarketError::RebalancePending),
            !has_funds && sender@ == old(self).config.admin@ && old(self).pending is None ==> r == update_check(old(self).config, *update,
                *pins),
            r is Ok ==> final(self).config == updated_config(old(self).config, *update),
            final(self).shares == old(self).shares,
            final(self).total_shares == old(self).total_shares,
            final(self).pending == old(self).pending,
            final(self).paused == old(self).paused,
            r is Err ==> final(self).config == old(self).config,
    {
        if has_funds || *sender != self.config.admin {
            return Err(MarketError::Unauthorized);
        }
        if self.pending.is_some() {
            return Err(MarketError::RebalancePending);
        }
        if let Some(field) = check_market_pins(pins, &update.fee_registry, &update.fee_collector, &update.proxy) {
            return Err(MarketError::NonCanonicalAddress { field });
        }
        let fee_registry = keep_address(&update.fee_registry, &self.config.fee_registry);
        let fee_collector = keep_address(&update.fee_collector, &self.config.fee_collector);
        let proxy = keep_address(&update.proxy, &self.config.proxy);
        let grid_count = match update.grid_count {
            Some(g) => {
                if g == 0 || g > MAX_GRID_COUNT {
                    return Err(MarketError::InvalidGridCount);
                }
                g
            },
            None => self.config.grid_count,
        };
        let lower_price = match update.lower_price {
            Some(p) => p,
            None => self.config.lower_price,
        };
        let upper_price = match update.upper_price {
            Some(p) => p,
            None => self.config.upper_price,
        };
        if lower_price.atomics == 0 || upper_price.atomics <= lower_price.atomics {
            return Err(MarketError::InvalidGrid);
        }
        let allocation_tolerance_bps = match update.allocation_tolerance_bps {
            Some(t) => {
                validate_allocation_tolerance(t)?;
                t
            },
            None => self.config.allocation_tolerance_bps,
        };
        let max_trade_bps = keep_u16(update.max_trade_bps, self.config.max_trade_bps);
        let max_execution_deviation_bps = keep_u16(update.max_execution_deviation_bps, self.config.max_execution_deviation_bps);
        let quote_slippage_bps = keep_u16(update.quote_slippage_bps, self.config.quote_slippage_bps);
        let max_spot_twap_deviation_bps = keep_u16(update.max_spot_twap_deviation_bps, self.config.max_spot_twap_deviation_bps);
        let max_trade_pool_bps = keep_u16(update.max_trade_pool_bps, self.config.max_trade_pool_bps);
        let max_spread = match update.max_spread {
            Some(m) => m,
            None => self.config.max_spread,
        };
        validate_risk_controls(max_trade_bps, max_execution_deviation_bps, quote_slippage_bps,
            max_spot_twap_deviation_bps, max_trade_pool_bps, max_spread)?;
        self.config.fee_registry = fee_registry;
        self.config.fee_collector = fee_collector;
        self.config.proxy = proxy;
        self.config.grid_count = grid_count;
        self.config.lower_price = lower_price;
        self.config.upper_price = upper_price;
        self.config.allocation_tolerance_bps = allocation_tolerance_bps;
        self.config.max_trade_bps = max_trade_bps;
        self.config.max_execution_deviation_bps = max_execution_deviation_bps;
        self.config.quote_slippage_bps = quote_slippage_bps;
        self.config.max_spot_twap_deviation_bps = max_spot_twap_deviation_bps;
        self.config.max_trade_pool_bps = max_trade_pool_bps;
        self.config.max_spread = max_spread;
        Ok(())
    }

    /// Propose `new_admin`; the current admin cannot propose itself.
    pub fn transfer_admin(&mut self, has_funds: bool, sender: &String, new_admin: &String) -> (r: Result<(), MarketError>)
        requires
            old(self).wf(),
        ensures
            final(self).wf(),
            r is Ok <==> (!has_funds && sender@ == old(self).config.admin@ && new_admin@ != old(self).config.admin@),
            r is Err ==> r == Err::<(), MarketError>(MarketError::Unauthorized) && *final(self) == *old(self),
            r is Ok ==> final(self).config == (MarketConfig { pending_admin: Some(*new_admin), ..old(self).config })
                && final(self).shares == old(self).shares && final(self).total_shares == old(self).total_shares
                && final(self).pending == old(self).pending && final(self).paused == old(self).paused,
    {
        if has_funds || *sender != self.config.admin || *new_admin == self.config.admin {
            return Err(MarketError::Unauthorized);
        }
        self.config.pending_admin = Some(new_admin.clone());
        Ok(())
    }

    /// The proposed admin takes over, together with the shares held by the
    /// previous admin.
    pub fn accept_admin(&mut self, has_funds: bool, sender: &String) -> (r: Result<(), MarketError>)
        requires
            old(self).wf(),
        ensures
            final(self).wf(),
            r is Ok <==> (!has_funds && old(self).config.pending_admin is Some && old(self).config.pending_admin->0@ == sender@),
            r is Err ==> r == Err::<(), MarketError>(MarketError::Unauthorized) && *final(self) == *old(self),
            r is Ok ==> ({
                let previous = old(self).config.admin@;
                &&& final(self).config.admin@ == sender@
                &&& final(self).config.pending_admin is None
                &&& final(self).total_shares == old(self).total_shares
                &&& final(self).shares.amount_of(sender@) == old(self).shares.amount_of(sender@) + old(self).shares.amount_of(previous)
                &&& final(self).shares.amount_of(previous) == 0
                &&& forall|k: Seq<char>| k != previous && k != sender@ ==> #[trigger] final(self).shares.amount_of(k) == old(self).shares.amount_of(k)
            }),
    {
        if has_funds {
            return Err(MarketError::Unauthorized);
        }
        match &self.config.pending_admin {
            Some(p) => {
                if *p != *sender {
                    return Err(MarketError::Unauthorized);
                }
            },
            None => return Err(MarketError::Unauthorized),
        }
        let old_admin = self.config.admin.clone();
        let old_shares = self.shares.amount(&old_admin);
        if old_shares != 0 {
            let held = self.shares.amount(sender);
            proof {
                self.shares.lemma_amount_le_total(sender@);
                self.shares.lemma_amount_le_total(old_admin@);
                assert(self.shares.amount_of(sender@) + self.shares.amount_of(old_admin@) <= self.shares.total()) by {
                    lemma_two_amounts_le_total(&self.shares, sender@, old_admin@);
                }
            }
            self.shares.set_amount(sender, held + old_shares);
            self.shares.remove_amount(&old_admin);
        } else {
            assert forall|k: Seq<char>| k != old_admin@ && k != sender@ implies #[trigger] self.shares.amount_of(k) == old(self).shares.amount_of(k) by {}
        }
        self.config.admin = sender.clone();
        self.config.pending_admin = None;
        Ok(())
    }

    pub fn pause(&mut self, has_funds: bool, sender: &String) -> (r: Result<(), MarketError>)
        requires
            old(self).wf(),
        ensures
            final(self).wf(),
            r is Ok <==> (!has_funds && sender@ == old(self).config.admin@ && !old(self).paused),
            has_funds || sender@ != old(self).config.admin@ ==> r == Err::<(), MarketError>(MarketError::Unauthorized),
            !has_funds && sender@ == old(self).config.admin@ && old(self).paused ==> r == Err::<(), MarketError>(MarketError::Paused),
            final(self).paused == (r is Ok || old(self).paused),
            final(self).config == old(self).config && final(self).shares == old(self).shares
                && final(self).total_shares == old(self).total_shares && final(self).pending == old(self).pending,
    {
        if has_funds || *sender != self.config.admin {
            return Err(MarketError::Unauthorized);
        }
        if self.paused {
            return Err(MarketError::Paused);
        }
        self.paused = true;
        Ok(())
    }

    pub fn resume(&mut self, has_funds: bool, sender: &String) -> (r: Result<(), MarketError>)
        requires
            old(self).wf(),
        ensures
            final(self).wf(),
            r is Ok <==> (!has_funds && sender@ == old(self).config.admin@ && old(self).paused),
            has_funds || sender@ != old(self).config.admin@ ==> r == Err::<(), MarketError>(MarketError::Unauthorized),
            !has_funds && sender@ == old(self).config.admin@ && !old(self).paused ==> r == Err::<(), MarketError>(MarketError::NotPaused),
            final(self).paused == (old(self).paused && r is Err),
            final(self).config == old(self).config && final(self).shares == old(self).shares
                && final(self).total_shares == old(self).total_shares && final(self).pending == old(self).pending,
    {
        if has_funds || *sender != self.config.admin {
            return Err(MarketError::Unauthorized);
        }
        if !self.paused {
            return Err(MarketError::NotPaused);
        }
        self.paused = false;
        Ok(())
    }

    /// The fee collector redeems all of its LP for the pro-rata slice of `balances`.
    pub fn redeem_shares(&mut self, has_funds: bool, sender: &String, balances: [u128; 2]) -> (r: Result<[u128; 2], MarketError>)
        requires
            old(self).wf(),
        ensures
            final(self).wf(),
            r is Ok <==> (!has_funds && old(self).config.fee_collector is Some && old(self).config.fee_collector->0@ == sender@
                && old(self).shares.amount_of(sender@) != 0 && old(self).pending is None),
            has_funds ==> r == Err::<[u128; 2], MarketError>(MarketError::Unauthorized),
            r matches Ok(amounts) ==> ({
                let held = old(self).shares.amount_of(sender@);
                &&& amounts[0] == ratio(balances[0] as int, held, old(self).total_shares as int)
                &&& amounts[1] == ratio(balances[1] as int, held, old(self).total_shares as int)
                &&& final(self).total_shares == old(self).total_shares - held
                &&& final(self).shares.view() == old(self).shares.view().insert(sender@, 0)
                &&& final(self).config == old(self).config
            }),
            r is Err ==> *final(self) == *old(self),
    {
        if has_funds {
            return Err(MarketError::Unauthorized);
        }
        let collector = match &self.config.fee_collector {
            Some(c) => c.clone(),
            None => return Err(MarketError::Unauthorized),
        };
        if *sender != collector {
            return Err(MarketError::Unauthorized);
        }
        let shares = self.shares.amount(&collector);
        if shares == 0 {
            return Err(MarketError::ZeroAmount);
        }
        proof {
            self.shares.lemma_amount_le_total(collector@);
        }
        if shares > self.total_shares {
            return Err(MarketError::InsufficientShares);
        }
        if self.pending.is_some() {
            return Err(MarketError::RebalancePending);
        }
        let amounts = pro_rata(balances, shares, self.total_shares);
        self.total_shares = self.total_shares - shares;
        self.shares.set_amount(&collector, 0);
        Ok(amounts)
    }
}

/// Two distinct accounts together hold no more than the whole book.
pub proof fn lemma_two_amounts_le_total(book: &Book<u128>, a: Seq<char>, b: Seq<char>)
    requires
        book.wf(),
        a != b,
    ensures
        book.amount_of(a) + book.amount_of(b) <= book.total(),
{
    book.lemma_amount_le_total(a);
    book.lemma_amount_le_total(b);
    if book.view().contains_key(b) {
        let i = choose|j: int| 0 <= j < book.entries@.len() && book.entries@[j].0@ == b;
        crate::book::lemma_total_remove(book.entries@, i);
        crate::book::lemma_map_remove(book.entries@, i, b);
        assert(crate::book::seq_total(book.entries@.remove(i)) == book.total() - book.amount_of(b));
        let s2 = book.entries@.remove(i);
        if book.view().contains_key(a) {
            let j = choose|j: int| 0 <= j < s2.len() && s2[j].0@ == a;
            assert(crate::book::entries_map(s2).contains_key(a));
            let j2 = choose|j: int| 0 <= j < s2.len() && s2[j].0@ == a;
            crate::book::lemma_entry_le_total(s2, j2);
            let j0 = choose|j: int| 0 <= j < book.entries@.len() && book.entries@[j].0@ == a;
            let j1 = if j2 < i { j2 } else { j2 + 1 };
            assert(s2[j2] == book.entries@[j1]);
            assert(j0 == j1);
        }
    }
}

/// The plan of a rebalance at `twap` over `holdings`: the current cell, its
/// target weight, the allocation deviation, whether a rebalance is due (the cell
/// moved or the deviation exceeds the tolerance), and, when due, the one-trade
/// swap toward the target.
pub fn plan_rebalance(config: &MarketConfig, twap: Decimal, holdings: [u128; 2]) -> (r: Result<RebalancePlan, StdFault>)
    requires
        config_ok(*config),
        twap.atomics > 0,
    ensures
        r is Ok <==> (allocation_deviation_spec(holdings[0] as int, holdings[1] as int, twap.atomics as int,
            config.lower_price.atomics as int, config.upper_price.atomics as int, config.grid_count as int) matches Some(d)
            && (((grid_cell_spec(twap.atomics as int, config.lower_price.atomics as int, config.upper_price.atomics as int, config.grid_count as int) != config.last_cell
                || d > config.allocation_tolerance_bps))
                ==> planned_offer_spec(holdings[0] as int, holdings[1] as int, twap.atomics as int,
                    grid_cell_spec(twap.atomics as int, config.lower_price.atomics as int, config.upper_price.atomics as int, config.grid_count as int),
                    config.grid_count as int, config.max_trade_bps as int) is Some)),
        r matches Ok(p) ==> ({
            let cell = grid_cell_spec(twap.atomics as int, config.lower_price.atomics as int, config.upper_price.atomics as int, config.grid_count as int);
            &&& p.current_cell == cell
            &&& p.target_weight_bps == target_weight_spec(cell, config.grid_count as int)
            &&& Some(p.allocation_deviation_bps as int) == allocation_deviation_spec(holdings[0] as int, holdings[1] as int,
                twap.atomics as int, config.lower_price.atomics as int, config.upper_price.atomics as int, config.grid_count as int)
            &&& p.should_rebalance == (cell != config.last_cell || p.allocation_deviation_bps > config.allocation_tolerance_bps)
            &&& p.captured_twap == twap
            &&& p.balances == holdings
            &&& (!p.should_rebalance ==> p.offer is None)
            &&& (p.should_rebalance ==> planned_offer_spec(holdings[0] as int, holdings[1] as int, twap.atomics as int, cell,
                config.grid_count as int, config.max_trade_bps as int) == Some(
                match p.offer { Some((i, a)) => Some((i as int, a as int)), None => None::<(int, int)> }))
            &&& (p.offer matches Some(o) ==> o.0 <= 1)
        }),
{
    let cell = grid_cell(twap, config.lower_price, config.upper_price, config.grid_count);
    let deviation = allocation_deviation(holdings, twap, config.lower_price, config.upper_price, config.grid_count)?;
    let should_rebalance = cell != config.last_cell || deviation > config.allocation_tolerance_bps;
    let offer = if should_rebalance {
        proof {
            let h0 = holdings[0] as int;
            let h1 = holdings[1] as int;
            let p = twap.atomics as int;
            let w = ratio(cell as int, unit(), config.grid_count as int);
            if h0 == 0 && h1 == 0 {
                assert(h0 * p == 0) by (nonlinear_arith) requires h0 == 0;
                assert(h1 * unit() == 0) by (nonlinear_arith) requires h1 == 0;
                assert((h0 * p + h1 * unit()) * w == 0) by (nonlinear_arith) requires h0 * p + h1 * unit() == 0;
            }
            lemma_ratio_le(h0, config.max_trade_bps as int, 10_000);
            lemma_ratio_le(h1, config.max_trade_bps as int, 10_000);
        }
        planned_offer(holdings, twap, cell, config.grid_count, config.max_trade_bps)?
    } else {
        None
    };
    Ok(RebalancePlan {
        current_cell: cell,
        target_weight_bps: target_weight_bps(cell, config.grid_count),
        allocation_deviation_bps: deviation,
        should_rebalance,
        captured_twap: twap,
        balances: holdings,
        offer,
    })
}

/// The least acceptable return of a swap: the larger of the TWAP return less
/// the execution allowance and the simulated return less the quote slippage.
pub fn minimum_return(config: &MarketConfig, offer_index: usize, amount: u128, twap: Decimal, simulated_return: u128) -> (r: Result<u128, StdFault>)
    requires
        config_ok(*config),
    ensures
        r is Ok <==> ((offer_index == 0 || twap.atomics != 0) && expected_return_spec(amount as int, offer_index as int, twap.atomics as int) <= u128::MAX),
        r matches Ok(m) ==> ({
            let execution = ratio(expected_return_spec(amount as int, offer_index as int, twap.atomics as int), 10_000 - config.max_execution_deviation_bps, 10_000);
            let quote = ratio(simulated_return as int, 10_000 - config.quote_slippage_bps, 10_000);
            m == if execution >= quote { execution } else { quote }
        }),
{
    let twap_return = expected_return(amount, offer_index, twap)?;
    proof {
        lemma_ratio_le(twap_return as int, 10_000 - config.max_execution_deviation_bps, 10_000);
        lemma_ratio_le(simulated_return as int, 10_000 - config.quote_slippage_bps, 10_000);
    }
    let execution = match checked_ratio(twap_return, 10_000 - config.max_execution_deviation_bps as u128, 10_000) {
        Some(v) => v,
        None => 0,
    };
    let quote = match checked_ratio(simulated_return, 10_000 - config.quote_slippage_bps as u128, 10_000) {
        Some(v) => v,
        None => 0,
    };
    Ok(if execution >= quote { execution } else { quote })
}

/// Value of the vault in token-1 units at `price`: token 0 times the price plus token 1.
pub fn vault_value_in_token1(balances: [u128; 2], price: Decimal) -> (r: Result<u128, StdFault>)
    ensures
        r is Ok <==> ratio(balances[0] as int, price.atomics as int, unit()) + balances[1] <= u128::MAX,
        r matches Ok(v) ==> v == ratio(balances[0] as int, price.atomics as int, unit()) + balances[1],
{
    let token_0_value = match checked_ratio(balances[0], price.atomics, DECIMAL_FRACTIONAL) {
        Some(v) => v,
        None => return Err(StdFault::Overflow),
    };
    if token_0_value > u128::MAX - balances[1] {
        return Err(StdFault::Overflow);
    }
    Ok(token_0_value + balances[1])
}

/// A migration of this vault never proceeds: a stored record of another
/// contract, an unparsable version, or a version not older than this one is an
/// invalid migration; an older version of this contract needs a redeployment.
pub fn migrate_decision(stored: Option<(String, String)>) -> (r: MarketError)
    ensures
        r == (match stored {
            Some((name, version)) => if name@ == CONTRACT_NAME@ && semver_parses(version@) && semver_parses(CONTRACT_VERSION@)
                && semver_less(version@, CONTRACT_VERSION@) { MarketError::LegacySchemaRequiresRedeploy } else { MarketError::InvalidMigration },
            None => MarketError::InvalidMigration,
        }),
        stored matches Some((n, v)) && v@ == CONTRACT_VERSION@ ==> r == MarketError::InvalidMigration,
{
    let (name, version) = match stored {
        Some(s) => s,
        None => return MarketError::InvalidMigration,
    };
    if !text_is(&name, CONTRACT_NAME) {
        return MarketError::InvalidMigration;
    }
    if !version_parses(version.as_str()) || !version_parses(CONTRACT_VERSION) {
        return MarketError::InvalidMigration;
    }
    if !version_less(version.as_str(), CONTRACT_VERSION) {
        return MarketError::InvalidMigration;
    }
    MarketError::LegacySchemaRequiresRedeploy
}

/// `balances * shares / total` for each token; never more than the balance.
pub fn pro_rata(balances: [u128; 2], shares: u128, total: u128) -> (r: [u128; 2])
    requires
        0 < shares <= total,
    ensures
        r[0] == ratio(balances[0] as int, shares as int, total as int),
        r[1] == ratio(balances[1] as int, shares as int, total as int),
        r[0] <= balances[0],
        r[1] <= balances[1],
{
    proof {
        lemma_ratio_le(balances[0] as int, shares as int, total as int);
        lemma_ratio_le(balances[1] as int, shares as int, total as int);
    }
    let a = match checked_ratio(balances[0], shares, total) {
        Some(v) => v,
        None => 0,
    };
    let b = match checked_ratio(balances[1], shares, total) {
        Some(v) => v,
        None => 0,
    };
    [a, b]
}

} // verus!
