//! Creation of a market-grid vault: the pair's provenance, the grid and the
//! risk controls are checked, defaults fill the controls left out, and the
//! starting reference price and cell come from the pair's TWAP.
use vstd::prelude::*;
use crate::errors::StdFault;
use crate::grid_types::{assets_match, same_asset, AssetInfo, PairInfo};
use crate::market::{
    grid_cell, grid_cell_spec, reference_price, risk_controls_ok, twap_fault, twap_spec, twap_window_ok,
    valid_twap_window, validate_allocation_tolerance, validate_risk_controls, MarketError, check_market_pins, market_pin,
    MarketPins,
    DEFAULT_ALLOCATION_TOLERANCE_BPS, DEFAULT_MAX_EXECUTION_DEVIATION_BPS, DEFAULT_MAX_SPOT_TWAP_DEVIATION_BPS,
    DEFAULT_MAX_SPREAD_ATOMICS, DEFAULT_MAX_TRADE_BPS, DEFAULT_MAX_TRADE_POOL_BPS, DEFAULT_QUOTE_SLIPPAGE_BPS,
    MAX_ALLOCATION_TOLERANCE_BPS, MAX_GRID_COUNT,
};
use crate::market_vault::{config_ok, MarketConfig, MarketVault};
use crate::math::Decimal;

verus! {

/// What the creator of a vault asks for; controls left out take their defaults.
#[derive(Clone, Debug)]
pub struct MarketSetup {
    pub admin: String,
    pub factory: String,
    pub pair: String,
    pub pair_code_id: u64,
    pub twap_window_seconds: u32,
    pub grid_count: u32,
    pub lower_price: Decimal,
    pub upper_price: Decimal,
    pub allocation_tolerance_bps: Option<u16>,
    pub max_trade_bps: Option<u16>,
    pub max_execution_deviation_bps: Option<u16>,
    pub quote_slippage_bps: Option<u16>,
    pub max_spot_twap_deviation_bps: Option<u16>,
    pub max_trade_pool_bps: Option<u16>,
    pub max_spread: Option<Decimal>,
    pub fee_registry: Option<String>,
    pub fee_collector: Option<String>,
    pub proxy: Option<String>,
}

/// What the chain reports about the pair when a vault is created; `None` marks
/// a read that failed.
#[derive(Clone, Debug)]
pub struct MarketReads {
    /// The code id the pair runs.
    pub code_id: Option<u64>,
    /// The pair's own description.
    pub pair_info: Option<PairInfo>,
    /// What the factory registers for the pair's assets.
    pub registered: Option<PairInfo>,
    /// The decimals of each asset token.
    pub decimals: [Option<u8>; 2],
    /// The pair's cumulative-price samples, now and one window ago.
    pub cumulatives: Option<Vec<u128>>,
}

pub open spec fn or_default<T>(v: Option<T>, d: T) -> T {
    match v {
        Some(x) => x,
        None => d,
    }
}

/// The contract of a CW20 asset; for a native asset, nothing.
pub open spec fn token_contract(a: AssetInfo) -> Option<String> {
    match a {
        AssetInfo::Token { contract_addr } => Some(contract_addr),
        AssetInfo::NativeToken { .. } => None,
    }
}

/// The checks of a vault creation in the order they are made.
pub open spec fn setup_check(s: MarketSetup, reads: MarketReads, pins: Option<MarketPins>) -> Result<(), MarketError> {
    if s.pair_code_id == 0 {
        Err(MarketError::InvalidPair)
    } else if reads.code_id is None {
        Err(MarketError::Std(StdFault::QueryFailed))
    } else if reads.code_id->0 != s.pair_code_id {
        Err(MarketError::InvalidPair)
    } else if reads.pair_info is None {
        Err(MarketError::Std(StdFault::QueryFailed))
    } else if reads.pair_info->0.contract_addr@ != s.pair@ {
        Err(MarketError::InvalidPair)
    } else if reads.registered is None {
        Err(MarketError::Std(StdFault::QueryFailed))
    } else {
        let info = reads.pair_info->0;
        let reg = reads.registered->0;
        if reg.contract_addr@ != s.pair@ || !same_asset(reg.asset_infos[0], info.asset_infos[0]) || !same_asset(
            reg.asset_infos[1],
            info.asset_infos[1],
        ) {
            Err(MarketError::InvalidPair)
        } else if token_contract(info.asset_infos[0]) is None || token_contract(info.asset_infos[1]) is None {
            Err(MarketError::InvalidPair)
        } else if token_contract(info.asset_infos[0])->0@ == token_contract(info.asset_infos[1])->0@ {
            Err(MarketError::InvalidPair)
        } else if reads.decimals[0] is None || reads.decimals[1] is None {
            Err(MarketError::Std(StdFault::QueryFailed))
        } else if reads.decimals[0]->0 != reads.decimals[1]->0 {
            Err(MarketError::DecimalMismatch)
        } else if s.upper_price.atomics <= s.lower_price.atomics || s.lower_price.atomics == 0 {
            Err(MarketError::InvalidGrid)
        } else if s.grid_count == 0 || s.grid_count > MAX_GRID_COUNT {
            Err(MarketError::InvalidGridCount)
        } else if !twap_window_ok(s.twap_window_seconds as int) {
            Err(MarketError::InvalidTwapWindow)
        } else {
            let tolerance = or_default(s.allocation_tolerance_bps, DEFAULT_ALLOCATION_TOLERANCE_BPS);
            if !(1 <= tolerance <= MAX_ALLOCATION_TOLERANCE_BPS) {
                Err(MarketError::InvalidRiskControl)
            } else if market_pin(pins, Some(s.fee_registry), Some(s.fee_collector), Some(s.proxy)) is Some {
                Err(MarketError::NonCanonicalAddress {
                    field: market_pin(pins, Some(s.fee_registry), Some(s.fee_collector), Some(s.proxy))->0,
                })
            } else if !risk_controls_ok(
                or_default(s.max_trade_bps, DEFAULT_MAX_TRADE_BPS) as int,
                or_default(s.max_execution_deviation_bps, DEFAULT_MAX_EXECUTION_DEVIATION_BPS) as int,
                or_default(s.quote_slippage_bps, DEFAULT_QUOTE_SLIPPAGE_BPS) as int,
                or_default(s.max_spot_twap_deviation_bps, DEFAULT_MAX_SPOT_TWAP_DEVIATION_BPS) as int,
                or_default(s.max_trade_pool_bps, DEFAULT_MAX_TRADE_POOL_BPS) as int,
                or_default(s.max_spread, Decimal { atomics: DEFAULT_MAX_SPREAD_ATOMICS }).atomics as int,
            ) {
                Err(MarketError::InvalidRiskControl)
            } else if reads.cumulatives is None {
                Err(MarketError::Std(StdFault::QueryFailed))
            } else if twap_spec(reads.cumulatives->0@, s.twap_window_seconds as int) is None {
                Err(MarketError::Std(twap_fault(reads.cumulatives->0@, s.twap_window_seconds as int)))
            } else {
                Ok(())
            }
        }
    }
}

/// The configuration a successful creation stores.
pub open spec fn setup_config(s: MarketSetup, reads: MarketReads) -> MarketConfig {
    let info = reads.pair_info->0;
    let price = twap_spec(reads.cumulatives->0@, s.twap_window_seconds as int)->0;
    MarketConfig {
        admin: s.admin,
        pending_admin: None,
        factory: s.factory,
        pair: s.pair,
        pair_code_id: s.pair_code_id,
        asset_tokens: [token_contract(info.asset_infos[0])->0, token_contract(info.asset_infos[1])->0],
        decimals: reads.decimals[0]->0,
        twap_window_seconds: s.twap_window_seconds,
        grid_count: s.grid_count,
        lower_price: s.lower_price,
        upper_price: s.upper_price,
        allocation_tolerance_bps: or_default(s.allocation_tolerance_bps, DEFAULT_ALLOCATION_TOLERANCE_BPS),
        max_trade_bps: or_default(s.max_trade_bps, DEFAULT_MAX_TRADE_BPS),
        max_execution_deviation_bps: or_default(s.max_execution_deviation_bps, DEFAULT_MAX_EXECUTION_DEVIATION_BPS),
        quote_slippage_bps: or_default(s.quote_slippage_bps, DEFAULT_QUOTE_SLIPPAGE_BPS),
        max_spot_twap_deviation_bps: or_default(s.max_spot_twap_deviation_bps, DEFAULT_MAX_SPOT_TWAP_DEVIATION_BPS),
        max_trade_pool_bps: or_default(s.max_trade_pool_bps, DEFAULT_MAX_TRADE_POOL_BPS),
        max_spread: or_default(s.max_spread, Decimal { atomics: DEFAULT_MAX_SPREAD_ATOMICS }),
        reference_price: Decimal { atomics: price as u128 },
        last_cell: grid_cell_spec(price, s.lower_price.atomics as int, s.upper_price.atomics as int, s.grid_count as int) as u32,
        fee_registry: s.fee_registry,
        fee_collector: s.fee_collector,
        proxy: s.proxy,
    }
}

/// The contract of a CW20 asset, or `InvalidPair` for a native one.
fn token_of_asset(a: &AssetInfo) -> (r: Result<String, MarketError>)
    ensures
        match token_contract(*a) {
            Some(t) => r == Ok::<String, MarketError>(t),
            None => r == Err::<String, MarketError>(MarketError::InvalidPair),
        },
{
    match a {
        AssetInfo::Token { contract_addr } => Ok(contract_addr.clone()),
        AssetInfo::NativeToken { .. } => Err(MarketError::InvalidPair),
    }
}

fn keep_or(v: Option<u16>, d: u16) -> (r: u16)
    ensures
        r == or_default(v, d),
{
    match v {
        Some(x) => x,
        None => d,
    }
}

impl MarketVault {
    /// Create a vault on `setup.pair`, unpaused, with no shares and no pending
    /// swap; the pair must run the pinned code, be the one the factory
    /// registers for its assets, trade two distinct CW20 tokens of equal
    /// decimals; the grid, the TWAP window and the risk controls must lie
    /// within their bounds; the starting reference price is the TWAP.
    pub fn instantiate(setup: &MarketSetup, reads: &MarketReads, pins: &Option<MarketPins>) -> (r: Result<MarketVault, MarketError>)
        ensures
            r is Ok <==> setup_check(*setup, *reads, *pins) is Ok,
            r matches Err(e) ==> setup_check(*setup, *reads, *pins) == Err::<(), MarketError>(e),
            r matches Ok(v) ==> {
                &&& v.wf()
                &&& v.config == setup_config(*setup, *reads)
                &&& v.total_shares == 0
                &&& !v.paused
                &&& v.pending is None
            },
    {
        if setup.pair_code_id == 0 {
            return Err(MarketError::InvalidPair);
        }
        let code_id = match reads.code_id {
            Some(c) => c,
            None => return Err(MarketError::Std(StdFault::QueryFailed)),
        };
        if code_id != setup.pair_code_id {
            return Err(MarketError::InvalidPair);
        }
        let info = match &reads.pair_info {
            Some(i) => i,
            None => return Err(MarketError::Std(StdFault::QueryFailed)),
        };
        if info.contract_addr != setup.pair {
            return Err(MarketError::InvalidPair);
        }
        let reg = match &reads.registered {
            Some(r) => r,
            None => return Err(MarketError::Std(StdFault::QueryFailed)),
        };
        if reg.contract_addr != setup.pair || !assets_match(&reg.asset_infos[0], &info.asset_infos[0]) || !assets_match(
            &reg.asset_infos[1],
            &info.asset_infos[1],
        ) {
            return Err(MarketError::InvalidPair);
        }
        let t0 = token_of_asset(&info.asset_infos[0])?;
        let t1 = token_of_asset(&info.asset_infos[1])?;
        if t0 == t1 {
            return Err(MarketError::InvalidPair);
        }
        let (d0, d1) = match (reads.decimals[0], reads.decimals[1]) {
            (Some(a), Some(b)) => (a, b),
            _ => return Err(MarketError::Std(StdFault::QueryFailed)),
        };
        if d0 != d1 {
            return Err(MarketError::DecimalMismatch);
        }
        if setup.upper_price.atomics <= setup.lower_price.atomics || setup.lower_price.atomics == 0 {
            return Err(MarketError::InvalidGrid);
        }
        if setup.grid_count == 0 || setup.grid_count > MAX_GRID_COUNT {
            return Err(MarketError::InvalidGridCount);
        }
        if !valid_twap_window(setup.twap_window_seconds) {
            return Err(MarketError::InvalidTwapWindow);
        }
        let allocation_tolerance_bps = keep_or(setup.allocation_tolerance_bps, DEFAULT_ALLOCATION_TOLERANCE_BPS);
        validate_allocation_tolerance(allocation_tolerance_bps)?;
        let registry = Some(setup.fee_registry.clone());
        let collector = Some(setup.fee_collector.clone());
        let proxy = Some(setup.proxy.clone());
        if let Some(field) = check_market_pins(pins, &registry, &collector, &proxy) {
            return Err(MarketError::NonCanonicalAddress { field });
        }
        let max_trade_bps = keep_or(setup.max_trade_bps, DEFAULT_MAX_TRADE_BPS);
        let max_execution_deviation_bps = keep_or(setup.max_execution_deviation_bps, DEFAULT_MAX_EXECUTION_DEVIATION_BPS);
        let quote_slippage_bps = keep_or(setup.quote_slippage_bps, DEFAULT_QUOTE_SLIPPAGE_BPS);
        let max_spot_twap_deviation_bps = keep_or(setup.max_spot_twap_deviation_bps, DEFAULT_MAX_SPOT_TWAP_DEVIATION_BPS);
        let max_trade_pool_bps = keep_or(setup.max_trade_pool_bps, DEFAULT_MAX_TRADE_POOL_BPS);
        let max_spread = match setup.max_spread {
            Some(m) => m,
            None => Decimal { atomics: DEFAULT_MAX_SPREAD_ATOMICS },
        };
        validate_risk_controls(
            max_trade_bps,
            max_execution_deviation_bps,
            quote_slippage_bps,
            max_spot_twap_deviation_bps,
            max_trade_pool_bps,
            max_spread,
        )?;
        let cumulatives = match &reads.cumulatives {
            Some(c) => c,
            None => return Err(MarketError::Std(StdFault::QueryFailed)),
        };
        let initial_price = match reference_price(cumulatives, setup.twap_window_seconds) {
            Ok(p) => p,
            Err(e) => return Err(MarketError::Std(e)),
        };
        let initial_cell = grid_cell(initial_price, setup.lower_price, setup.upper_price, setup.grid_count);
        let config = MarketConfig {
            admin: setup.admin.clone(),
            pending_admin: None,
            factory: setup.factory.clone(),
            pair: setup.pair.clone(),
            pair_code_id: setup.pair_code_id,
            asset_tokens: [t0, t1],
            decimals: d0,
            twap_window_seconds: setup.twap_window_seconds,
            grid_count: setup.grid_count,
            lower_price: setup.lower_price,
            upper_price: setup.upper_price,
            allocation_tolerance_bps,
            max_trade_bps,
            max_execution_deviation_bps,
            quote_slippage_bps,
            max_spot_twap_deviation_bps,
            max_trade_pool_bps,
            max_spread,
            reference_price: initial_price,
            last_cell: initial_cell,
            fee_registry: setup.fee_registry.clone(),
            fee_collector: setup.fee_collector.clone(),
            proxy: setup.proxy.clone(),
        };
        proof {
            assert(config_ok(config));
        }
        Ok(MarketVault::new(config))
    }
}

} // verus!
