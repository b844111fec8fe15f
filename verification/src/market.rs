//! Market-grid vault: a single-operator vault that keeps its token-1 share of
//! value on a linear ladder of price cells between a lower and an upper price,
//! rebalancing through pool swaps priced against a TWAP.
use vstd::prelude::*;
use crate::errors::StdFault;
use crate::math::{
    checked_ratio, ratio, pow256, unit, wide_mul, uint256_checked_mul, uint256_checked_div,
    uint256_checked_multiply_ratio, Decimal, Wide, DECIMAL_FRACTIONAL,
};

verus! {

pub const DEFAULT_ALLOCATION_TOLERANCE_BPS: u16 = 100;
pub const DEFAULT_MAX_TRADE_BPS: u16 = 2_500;
pub const DEFAULT_MAX_EXECUTION_DEVIATION_BPS: u16 = 500;
pub const DEFAULT_QUOTE_SLIPPAGE_BPS: u16 = 200;
pub const DEFAULT_MAX_SPOT_TWAP_DEVIATION_BPS: u16 = 500;
pub const DEFAULT_MAX_TRADE_POOL_BPS: u16 = 1_000;
/// Five percent.
pub const DEFAULT_MAX_SPREAD_ATOMICS: u128 = 50_000_000_000_000_000;
/// Ten percent.
pub const MAX_SPREAD_ATOMICS: u128 = 100_000_000_000_000_000;
pub const MAX_TRADE_BPS: u16 = 5_000;
pub const MAX_EXECUTION_DEVIATION_BPS: u16 = 1_000;
pub const MAX_QUOTE_SLIPPAGE_BPS: u16 = 500;
pub const MAX_SPOT_TWAP_DEVIATION_BPS: u16 = 1_000;
pub const MAX_TRADE_POOL_BPS: u16 = 2_000;
pub const MAX_ALLOCATION_TOLERANCE_BPS: u16 = 2_000;
pub const MAX_TWAP_WINDOW_SECONDS: u32 = 86_400;
pub const MAX_GRID_COUNT: u32 = 500;
/// Fee charged when neither the registry nor a cached answer is available.
pub const UNDISCOUNTED_FEE_BPS: u16 = 180;

#[derive(Clone, Copy, Debug, PartialEq, Eq, Structural)]
pub enum MarketError {
    Std(StdFault),
    Unauthorized,
    InvalidPair,
    DecimalMismatch,
    UnsupportedToken,
    ZeroAmount,
    Expired,
    ExcessiveSpread,
    InvalidGrid,
    InvalidGridCount,
    InvalidTwapWindow,
    InvalidRiskControl,
    AllocationDidNotImprove,
    InvalidRebalanceSwap,
    UnsafePoolPrice,
    InsufficientPoolDepth,
    AllocationOutsideTolerance,
    RebalancePending,
    MissingPendingRebalance,
    UnknownReply,
    EmptyPrice,
    RebalanceNotRequired,
    InsufficientShares,
    Paused,
    NotPaused,
    InvalidMigration,
    LegacySchemaRequiresRedeploy,
    /// A pinned address that is not the canonical one; the field names which.
    NonCanonicalAddress { field: PinnedAddress },
}

/// The addresses a mainnet vault pins.
#[derive(Clone, Copy, Debug, PartialEq, Eq, Structural)]
pub enum PinnedAddress {
    FeeRegistry,
    FeeCollector,
    Proxy,
}

/// The canonical addresses of a mainnet build.
#[derive(Clone, Debug)]
pub struct MarketPins {
    pub fee_registry: String,
    pub fee_collector: String,
    pub proxy: String,
}

/// Whether `value` is the canonical address `canonical`.
pub open spec fn is_canonical(canonical: String, value: Option<String>) -> bool {
    value matches Some(a) && a@ == canonical@
}

/// On a mainnet build (`pins` given), the first of the given addresses that is
/// not its canonical one; `None` for a field marks it as not being set.
pub open spec fn market_pin(
    pins: Option<MarketPins>,
    fee_registry: Option<Option<String>>,
    fee_collector: Option<Option<String>>,
    proxy: Option<Option<String>>,
) -> Option<PinnedAddress> {
    match pins {
        None => None,
        Some(p) => if fee_registry matches Some(v) && !is_canonical(p.fee_registry, v) {
            Some(PinnedAddress::FeeRegistry)
        } else if fee_collector matches Some(v) && !is_canonical(p.fee_collector, v) {
            Some(PinnedAddress::FeeCollector)
        } else if proxy matches Some(v) && !is_canonical(p.proxy, v) {
            Some(PinnedAddress::Proxy)
        } else {
            None
        },
    }
}

fn matches_canonical(expected: &String, value: &Option<String>) -> (r: bool)
    ensures
        r == is_canonical(*expected, *value),
{
    match value {
        Some(a) => *a == *expected,
        None => false,
    }
}

/// The pinned addresses checked, as `market_pin` says.
pub fn check_market_pins(
    pins: &Option<MarketPins>,
    fee_registry: &Option<Option<String>>,
    fee_collector: &Option<Option<String>>,
    proxy: &Option<Option<String>>,
) -> (r: Option<PinnedAddress>)
    ensures
        r == market_pin(*pins, *fee_registry, *fee_collector, *proxy),
{
    let p = match pins {
        None => return None,
        Some(p) => p,
    };
    if let Some(v) = fee_registry {
        if !matches_canonical(&p.fee_registry, v) {
            return Some(PinnedAddress::FeeRegistry);
        }
    }
    if let Some(v) = fee_collector {
        if !matches_canonical(&p.fee_collector, v) {
            return Some(PinnedAddress::FeeCollector);
        }
    }
    if let Some(v) = proxy {
        if !matches_canonical(&p.proxy, v) {
            return Some(PinnedAddress::Proxy);
        }
    }
    None
}

/// The text a user sees for each error.
pub open spec fn market_error_text(e: MarketError) -> Seq<char> {
    match e {
        MarketError::Std(_) => "std error"@,
        MarketError::Unauthorized => "unauthorized"@,
        MarketError::InvalidPair => "invalid CL8Y pair"@,
        MarketError::DecimalMismatch => "pool assets must use the same decimals"@,
        MarketError::UnsupportedToken => "unsupported token"@,
        MarketError::ZeroAmount => "amount must be greater than zero"@,
        MarketError::Expired => "deadline has expired"@,
        MarketError::ExcessiveSpread => "maximum spread cannot exceed 10%"@,
        MarketError::InvalidGrid => "grid parameters must have an upper price above the lower price"@,
        MarketError::InvalidGridCount => "grid count must be greater than zero"@,
        MarketError::InvalidTwapWindow => "TWAP window must be greater than zero"@,
        MarketError::InvalidRiskControl => "risk control exceeds its hard safety bound"@,
        MarketError::AllocationDidNotImprove => "grid allocation did not improve"@,
        MarketError::InvalidRebalanceSwap => "grid rebalance is not safely bounded"@,
        MarketError::UnsafePoolPrice => "pool spot price deviates too far from TWAP"@,
        MarketError::InsufficientPoolDepth => "grid trade is too large relative to pool depth"@,
        MarketError::AllocationOutsideTolerance => "grid allocation exceeds configured tolerance"@,
        MarketError::RebalancePending => "another rebalance is pending"@,
        MarketError::MissingPendingRebalance => "missing pending rebalance"@,
        MarketError::UnknownReply => "unknown reply id"@,
        MarketError::EmptyPrice => "pool or price history is empty"@,
        MarketError::RebalanceNotRequired => "grid rebalance is not required"@,
        MarketError::InsufficientShares => "insufficient shares"@,
        MarketError::Paused => "contract is paused"@,
        MarketError::NotPaused => "contract is not paused"@,
        MarketError::InvalidMigration => "invalid migration"@,
        MarketError::LegacySchemaRequiresRedeploy => "legacy state schema requires a fresh deployment"@,
        MarketError::NonCanonicalAddress { .. } => "address is not the canonical mainnet address"@,
    }
}

impl MarketError {
    /// The error's text, as shown to the caller.
    pub fn message(&self) -> (r: &'static str)
        ensures
            r@ == market_error_text(*self),
    {
        match self {
            MarketError::Std(_) => "std error",
            MarketError::Unauthorized => "unauthorized",
            MarketError::InvalidPair => "invalid CL8Y pair",
            MarketError::DecimalMismatch => "pool assets must use the same decimals",
            MarketError::UnsupportedToken => "unsupported token",
            MarketError::ZeroAmount => "amount must be greater than zero",
            MarketError::Expired => "deadline has expired",
            MarketError::ExcessiveSpread => "maximum spread cannot exceed 10%",
            MarketError::InvalidGrid => "grid parameters must have an upper price above the lower price",
            MarketError::InvalidGridCount => "grid count must be greater than zero",
            MarketError::InvalidTwapWindow => "TWAP window must be greater than zero",
            MarketError::InvalidRiskControl => "risk control exceeds its hard safety bound",
            MarketError::AllocationDidNotImprove => "grid allocation did not improve",
            MarketError::InvalidRebalanceSwap => "grid rebalance is not safely bounded",
            MarketError::UnsafePoolPrice => "pool spot price deviates too far from TWAP",
            MarketError::InsufficientPoolDepth => "grid trade is too large relative to pool depth",
            MarketError::AllocationOutsideTolerance => "grid allocation exceeds configured tolerance",
            MarketError::RebalancePending => "another rebalance is pending",
            MarketError::MissingPendingRebalance => "missing pending rebalance",
            MarketError::UnknownReply => "unknown reply id",
            MarketError::EmptyPrice => "pool or price history is empty",
            MarketError::RebalanceNotRequired => "grid rebalance is not required",
            MarketError::InsufficientShares => "insufficient shares",
            MarketError::Paused => "contract is paused",
            MarketError::NotPaused => "contract is not paused",
            MarketError::InvalidMigration => "invalid migration",
            MarketError::LegacySchemaRequiresRedeploy => "legacy state schema requires a fresh deployment",
            MarketError::NonCanonicalAddress { .. } => "address is not the canonical mainnet address",
        }
    }
}

pub open spec fn min_int(a: int, b: int) -> int {
    if a <= b { a } else { b }
}

/// The cell `price` falls in: 0 at or below `lower`, `grid_count` at or above
/// `upper`, otherwise the whole number of steps of `(upper - lower) /
/// grid_count` above `lower`, computed in 18-decimal fixed point and capped at
/// `grid_count`.
pub open spec fn grid_cell_spec(price: int, lower: int, upper: int, grid_count: int) -> int {
    if price <= lower {
        0
    } else if price >= upper {
        grid_count
    } else if grid_count == 0 {
        0
    } else {
        let step_raw = ratio(upper - lower, unit(), grid_count * unit());
        let step = if step_raw > u128::MAX { 0 } else { step_raw };
        if step == 0 {
            0
        } else {
            let cell_raw = ratio(price - lower, unit(), step);
            let cell = if cell_raw > u128::MAX { 0 } else { cell_raw };
            min_int(cell / unit(), grid_count)
        }
    }
}

pub fn grid_cell(price: Decimal, lower_price: Decimal, upper_price: Decimal, grid_count: u32) -> (r: u32)
    ensures
        r == grid_cell_spec(price.atomics as int, lower_price.atomics as int, upper_price.atomics as int, grid_count as int),
{
    if price.atomics <= lower_price.atomics {
        return 0;
    }
    if price.atomics >= upper_price.atomics {
        return grid_count;
    }
    if grid_count == 0 {
        return 0;
    }
    let span = Decimal::raw(upper_price.atomics - lower_price.atomics);
    let offset = Decimal::raw(price.atomics - lower_price.atomics);
    proof {
        assert(grid_count * unit() <= u32::MAX * unit()) by (nonlinear_arith)
            requires grid_count <= u32::MAX;
        assert(grid_count * unit() > 0) by (nonlinear_arith) requires grid_count > 0;
    }
    let divisor = Decimal::raw(grid_count as u128 * DECIMAL_FRACTIONAL);
    let step = match span.checked_div(&divisor) {
        Some(s) => s,
        None => Decimal::zero(),
    };
    if step.is_zero() {
        return 0;
    }
    let cell = match offset.checked_div(&step) {
        Some(c) => c,
        None => Decimal::zero(),
    };
    let cell_whole = cell.to_uint_floor();
    if cell_whole < grid_count as u128 {
        cell_whole as u32
    } else {
        grid_count
    }
}

/// The token-1 weight, in basis points, that cell `cell` of `grid_count` asks
/// for: `cell / grid_count` of the value, floored, at most 10 000.
pub open spec fn target_weight_spec(cell: int, grid_count: int) -> int {
    if grid_count == 0 {
        0
    } else {
        min_int(ratio(cell, unit(), grid_count) * 10_000 / unit(), 10_000)
    }
}

pub fn target_weight_bps(cell: u32, grid_count: u32) -> (r: u16)
    ensures
        r == target_weight_spec(cell as int, grid_count as int),
{
    if grid_count == 0 {
        return 0;
    }
    let weight = weight_of(cell, grid_count);
    proof {
        assert(weight.atomics * 10_000 <= u32::MAX * unit() * 10_000) by (nonlinear_arith)
            requires weight.atomics <= cell * unit(), cell <= u32::MAX;
        assert(ratio(weight.atomics as int, 10_000 * unit(), unit()) == weight.atomics * 10_000) by (nonlinear_arith);
    }
    let bps_atomics = weight.atomics * 10_000;
    let whole = bps_atomics / DECIMAL_FRACTIONAL;
    if whole < 10_000 {
        whole as u16
    } else {
        10_000
    }
}

/// `cell / grid_count` as a `Decimal`.
fn weight_of(cell: u32, grid_count: u32) -> (r: Decimal)
    requires
        grid_count > 0,
    ensures
        r.atomics == ratio(cell as int, unit(), grid_count as int),
        r.atomics <= cell * unit(),
{
    proof {
        assert(cell * unit() / (grid_count as int) <= cell * unit()) by (nonlinear_arith)
            requires grid_count >= 1, cell >= 0;
        assert(cell * unit() <= u32::MAX * unit()) by (nonlinear_arith) requires cell <= u32::MAX;
    }
    match Decimal::checked_from_ratio(cell as u128, grid_count as u128) {
        Some(w) => w,
        None => Decimal::zero(),
    }
}

/// Relative distance of `actual` from `expected` in basis points: 10 000 when
/// they differ by at least `expected`, otherwise `|actual - expected| * 10 000 /
/// expected` floored. An empty reference is an error unless both are zero.
pub open spec fn ratio_deviation_spec(actual: int, expected: int) -> Option<int> {
    if expected == 0 {
        if actual == 0 { Some(0) } else { None }
    } else {
        let difference = if actual >= expected { actual - expected } else { expected - actual };
        if difference >= expected {
            Some(10_000)
        } else {
            Some(difference * 10_000 / expected)
        }
    }
}

pub fn ratio_deviation(actual: Wide, expected: Wide) -> (r: Result<u16, StdFault>)
    ensures
        r is Ok <==> ratio_deviation_spec(actual.value(), expected.value()) is Some,
        r matches Ok(v) ==> Some(v as int) == ratio_deviation_spec(actual.value(), expected.value()),
        r matches Err(e) ==> e == StdFault::EmptyReference,
{
    if expected.is_zero() {
        if actual.is_zero() {
            return Ok(0);
        }
        return Err(StdFault::EmptyReference);
    }
    let difference = actual.abs_diff(&expected);
    if expected.le(&difference) {
        return Ok(10_000);
    }
    proof {
        let d = difference.value();
        let e = expected.value();
        assert(d * 10_000 / e < 10_000) by (nonlinear_arith) requires 0 <= d < e;
        assert(d * 10_000 / e >= 0) by (nonlinear_arith) requires 0 <= d, e > 0;
        expected.lemma_bounds();
    }
    match uint256_checked_multiply_ratio(difference, 10_000, expected) {
        Some(v) => {
            proof { assert(v.value() < 10_000); }
            Ok(v.lo as u16)
        },
        None => Err(StdFault::EmptyReference),
    }
}

/// `ratio_deviation` of two prices by their atomics.
pub fn relative_deviation(current: Decimal, reference: Decimal) -> (r: Result<u16, StdFault>)
    ensures
        r is Ok <==> ratio_deviation_spec(current.atomics as int, reference.atomics as int) is Some,
        r matches Ok(v) ==> Some(v as int) == ratio_deviation_spec(current.atomics as int, reference.atomics as int),
{
    ratio_deviation(Wide::from_u128(current.atomics), Wide::from_u128(reference.atomics))
}

/// Deviation of the vault's token-1 value from its cell's target, in basis
/// points, with the value of both holdings measured in token-1 at `price`.
/// `None` when a 256-bit intermediate overflows.
pub open spec fn allocation_deviation_spec(h0: int, h1: int, price: int, lower: int, upper: int, grid_count: int) -> Option<int> {
    if h0 == 0 && h1 == 0 {
        Some(0)
    } else {
        let cell = grid_cell_spec(price, lower, upper, grid_count);
        let weight = ratio(cell, unit(), grid_count);
        let total = h0 * price + h1 * unit();
        if total >= pow256() || total * weight >= pow256() {
            None
        } else {
            let target = total * weight / unit();
            let actual = h1 * unit();
            if target == 0 {
                Some(if actual == 0 { 0 } else { 10_000 })
            } else {
                ratio_deviation_spec(actual, target)
            }
        }
    }
}

pub fn allocation_deviation(holdings: [u128; 2], price: Decimal, lower_price: Decimal, upper_price: Decimal, grid_count: u32) -> (r: Result<u16, StdFault>)
    requires
        grid_count > 0,
    ensures
        r is Ok <==> allocation_deviation_spec(holdings[0] as int, holdings[1] as int, price.atomics as int, lower_price.atomics as int, upper_price.atomics as int, grid_count as int) is Some,
        r matches Ok(v) ==> Some(v as int) == allocation_deviation_spec(holdings[0] as int, holdings[1] as int, price.atomics as int, lower_price.atomics as int, upper_price.atomics as int, grid_count as int),
        r is Err ==> r == Err::<u16, StdFault>(StdFault::Overflow),
{
    if holdings[0] == 0 && holdings[1] == 0 {
        return Ok(0);
    }
    let cell = grid_cell(price, lower_price, upper_price, grid_count);
    let weight = weight_of(cell, grid_count);
    let token0_value = wide_mul(holdings[0], price.atomics);
    let token1_value = wide_mul(holdings[1], DECIMAL_FRACTIONAL);
    let total = match token0_value.checked_add(&token1_value) {
        Some(t) => t,
        None => return Err(StdFault::Overflow),
    };
    let scaled = match uint256_checked_mul(total, Wide::from_u128(weight.atomics)) {
        Some(s) => s,
        None => return Err(StdFault::Overflow),
    };
    let target = match uint256_checked_div(scaled, Wide::from_u128(DECIMAL_FRACTIONAL)) {
        Some(t) => t,
        None => return Err(StdFault::DivideByZero),
    };
    let actual = wide_mul(holdings[1], DECIMAL_FRACTIONAL);
    if target.is_zero() {
        return Ok(if actual.is_zero() { 0 } else { 10_000 });
    }
    ratio_deviation(actual, target)
}


/// Target token-1 value of the holdings at cell `cell`, in 36-decimal units.
pub open spec fn offer_target(h0: int, h1: int, price: int, cell: int, grid_count: int) -> int {
    let weight = ratio(cell, unit(), if grid_count >= 1 { grid_count } else { 1 });
    (h0 * price + h1 * unit()) * weight / unit()
}

/// The swap that moves the holdings to the cell's target in one ideal trade:
/// offer token 1 when its value exceeds the target, token 0 when it falls short,
/// capped at `max_trade_bps` of the offered balance; no swap when already on
/// target or when the capped amount is zero. `None` when the uncapped amount
/// needs more than 128 bits.
pub open spec fn planned_offer_spec(h0: int, h1: int, price: int, cell: int, grid_count: int, max_trade_bps: int) -> Option<Option<(int, int)>> {
    let target = offer_target(h0, h1, price, cell, grid_count);
    let token1_value = h1 * unit();
    if token1_value == target {
        Some(None)
    } else {
        let index: int = if token1_value > target { 1 } else { 0 };
        let uncapped = if token1_value > target { (token1_value - target) / unit() } else { (target - token1_value) / price };
        let cap = (if index == 0 { h0 } else { h1 }) * max_trade_bps / 10_000;
        if uncapped > u128::MAX {
            None
        } else {
            let amount = min_int(uncapped, cap);
            if amount == 0 { Some(None) } else { Some(Some((index, amount))) }
        }
    }
}

/// The inputs on which the plan's arithmetic stays in range: the 256-bit total
/// and weighted target, a nonzero price when token 0 must be bought, and a cap
/// that fits 128 bits.
pub open spec fn planned_offer_defined(h0: int, h1: int, price: int, cell: int, grid_count: int, max_trade_bps: int) -> bool {
    let weight = ratio(cell, unit(), if grid_count >= 1 { grid_count } else { 1 });
    let total = h0 * price + h1 * unit();
    let target = total * weight / unit();
    &&& total < pow256()
    &&& total * weight < pow256()
    &&& (h1 * unit() < target ==> price != 0)
    &&& (if h1 * unit() > target { h1 } else { h0 }) * max_trade_bps / 10_000 <= u128::MAX
}

pub fn planned_offer(holdings: [u128; 2], price: Decimal, cell: u32, grid_count: u32, max_trade_bps: u16) -> (r: Result<Option<(usize, u128)>, StdFault>)
    requires
        planned_offer_defined(holdings[0] as int, holdings[1] as int, price.atomics as int, cell as int, grid_count as int, max_trade_bps as int),
    ensures
        r is Ok <==> planned_offer_spec(holdings[0] as int, holdings[1] as int, price.atomics as int, cell as int, grid_count as int, max_trade_bps as int) is Some,
        r matches Ok(o) ==> planned_offer_spec(holdings[0] as int, holdings[1] as int, price.atomics as int, cell as int, grid_count as int, max_trade_bps as int) == Some(
            match o { Some((i, a)) => Some((i as int, a as int)), None => None::<(int, int)> }),
{
    let count = if grid_count >= 1 { grid_count } else { 1 };
    let weight = weight_of(cell, count);
    let token0_value = wide_mul(holdings[0], price.atomics);
    let token1_value = wide_mul(holdings[1], DECIMAL_FRACTIONAL);
    let total = match token0_value.checked_add(&token1_value) {
        Some(t) => t,
        None => return Err(StdFault::Overflow),
    };
    let scaled = match uint256_checked_mul(total, Wide::from_u128(weight.atomics)) {
        Some(s) => s,
        None => return Err(StdFault::Overflow),
    };
    let target = match uint256_checked_div(scaled, Wide::from_u128(DECIMAL_FRACTIONAL)) {
        Some(t) => t,
        None => return Err(StdFault::DivideByZero),
    };
    let (index, uncapped) = if target.lt(&token1_value) {
        match uint256_checked_div(token1_value.sub(&target), Wide::from_u128(DECIMAL_FRACTIONAL)) {
            Some(a) => (1usize, a),
            None => return Err(StdFault::DivideByZero),
        }
    } else if token1_value.lt(&target) {
        match uint256_checked_div(target.sub(&token1_value), Wide::from_u128(price.atomics)) {
            Some(a) => (0usize, a),
            None => return Err(StdFault::DivideByZero),
        }
    } else {
        return Ok(None);
    };
    let cap = match checked_ratio(holdings[index], max_trade_bps as u128, 10_000) {
        Some(c) => c,
        None => return Err(StdFault::Overflow),
    };
    let uncapped = match uncapped.to_u128() {
        Some(u) => u,
        None => return Err(StdFault::Overflow),
    };
    let amount = if uncapped <= cap { uncapped } else { cap };
    if amount == 0 {
        Ok(None)
    } else {
        Ok(Some((index, amount)))
    }
}

/// What `amount` of the offered token returns at `price`.
pub open spec fn expected_return_spec(amount: int, offer_index: int, price: int) -> int {
    if offer_index == 0 { ratio(amount, price, unit()) } else { ratio(amount, unit(), price) }
}

pub fn expected_return(amount: u128, offer_index: usize, price: Decimal) -> (r: Result<u128, StdFault>)
    ensures
        r is Ok <==> ((offer_index == 0 || price.atomics != 0) && expected_return_spec(amount as int, offer_index as int, price.atomics as int) <= u128::MAX),
        r matches Ok(v) ==> v == expected_return_spec(amount as int, offer_index as int, price.atomics as int),
{
    let result = if offer_index == 0 {
        checked_ratio(amount, price.atomics, DECIMAL_FRACTIONAL)
    } else {
        checked_ratio(amount, DECIMAL_FRACTIONAL, price.atomics)
    };
    match result {
        Some(v) => Ok(v),
        None => Err(StdFault::Overflow),
    }
}

/// The swap recorded before a rebalance, checked against the settled balances.
#[derive(Clone, Copy, Debug)]
pub struct PendingSwap {
    pub captured_twap: Decimal,
    pub balances: [u128; 2],
    pub pre_deviation_bps: u16,
    pub offer_index: u8,
    pub amount: u128,
    pub min_return: u128,
}

/// Settlement is accepted when the offered balance fell by exactly the offered
/// amount and the asked balance rose by at least the minimum return.
pub open spec fn settlement_ok(pending: PendingSwap, settled: [u128; 2]) -> bool {
    let offer = pending.offer_index as int;
    let ask = 1 - offer;
    &&& settled[offer] == pending.balances[offer] - pending.amount
    &&& settled[ask] >= pending.balances[ask] + pending.min_return
}

pub fn validate_settlement(pending: &PendingSwap, settled: [u128; 2]) -> (r: Result<(), MarketError>)
    requires
        pending.offer_index <= 1,
    ensures
        r is Ok <==> (pending.amount <= pending.balances[pending.offer_index as int]
            && pending.balances[1 - pending.offer_index] + pending.min_return <= u128::MAX
            && settlement_ok(*pending, settled)),
        !(pending.amount <= pending.balances[pending.offer_index as int]
            && pending.balances[1 - pending.offer_index] + pending.min_return <= u128::MAX)
            ==> r == Err::<(), MarketError>(MarketError::Std(StdFault::Overflow)),
        pending.amount <= pending.balances[pending.offer_index as int]
            && pending.balances[1 - pending.offer_index] + pending.min_return <= u128::MAX
            && !settlement_ok(*pending, settled) ==> r == Err::<(), MarketError>(MarketError::AllocationDidNotImprove),
{
    let offer = pending.offer_index as usize;
    let ask = 1 - offer;
    if pending.balances[offer] < pending.amount {
        return Err(MarketError::Std(StdFault::Overflow));
    }
    let expected_offer = pending.balances[offer] - pending.amount;
    if pending.balances[ask] > u128::MAX - pending.min_return {
        return Err(MarketError::Std(StdFault::Overflow));
    }
    let minimum_ask = pending.balances[ask] + pending.min_return;
    if settled[offer] != expected_offer || settled[ask] < minimum_ask {
        return Err(MarketError::AllocationDidNotImprove);
    }
    Ok(())
}

/// A rebalance that worsened the deviation and left it above the tolerance is
/// refused; otherwise the answer is whether the deviation is now within it.
pub fn validate_rebalance_outcome(previous: u16, current: u16, tolerance: u16) -> (r: Result<bool, MarketError>)
    ensures
        r is Err <==> (current >= previous && current > tolerance),
        r matches Err(e) ==> e == MarketError::AllocationDidNotImprove,
        r matches Ok(b) ==> b == (current <= tolerance),
{
    if current >= previous && current > tolerance {
        return Err(MarketError::AllocationDidNotImprove);
    }
    Ok(current <= tolerance)
}

/// Pool-side guards of a rebalance swap, in order: both reserves nonzero, the
/// spot price `reserve1 / reserve0` within `max_spot_twap_deviation_bps` of the
/// TWAP, and the offered amount at most `max_trade_pool_bps` of its reserve.
pub open spec fn pool_safety_spec(reserves: [u128; 2], twap: int, offer_index: int, amount: int, max_spot_twap_deviation_bps: int, max_trade_pool_bps: int) -> Result<(), MarketError> {
    if reserves[0] == 0 || reserves[1] == 0 {
        Err(MarketError::InsufficientPoolDepth)
    } else if ratio(reserves[1] as int, unit(), reserves[0] as int) > u128::MAX {
        Err(MarketError::Std(StdFault::Overflow))
    } else {
        let spot = ratio(reserves[1] as int, unit(), reserves[0] as int);
        match ratio_deviation_spec(spot, twap) {
            None => Err(MarketError::Std(StdFault::EmptyReference)),
            Some(d) => if d > max_spot_twap_deviation_bps {
                Err(MarketError::UnsafePoolPrice)
            } else if amount * 10_000 > reserves[offer_index] * max_trade_pool_bps {
                Err(MarketError::InsufficientPoolDepth)
            } else {
                Ok(())
            },
        }
    }
}

pub fn validate_pool_safety(reserves: [u128; 2], twap: Decimal, offer_index: usize, amount: u128, max_spot_twap_deviation_bps: u16, max_trade_pool_bps: u16) -> (r: Result<(), MarketError>)
    requires
        offer_index <= 1,
    ensures
        r == pool_safety_spec(reserves, twap.atomics as int, offer_index as int, amount as int, max_spot_twap_deviation_bps as int, max_trade_pool_bps as int),
{
    if reserves[0] == 0 || reserves[1] == 0 {
        return Err(MarketError::InsufficientPoolDepth);
    }
    let spot_atomics = match checked_ratio(reserves[1], DECIMAL_FRACTIONAL, reserves[0]) {
        Some(s) => s,
        None => return Err(MarketError::Std(StdFault::Overflow)),
    };
    let deviation = match relative_deviation(Decimal::raw(spot_atomics), twap) {
        Ok(d) => d,
        Err(_) => return Err(MarketError::Std(StdFault::EmptyReference)),
    };
    if deviation > max_spot_twap_deviation_bps {
        return Err(MarketError::UnsafePoolPrice);
    }
    let offered = wide_mul(amount, 10_000);
    let allowed = wide_mul(reserves[offer_index], max_trade_pool_bps as u128);
    if allowed.lt(&offered) {
        return Err(MarketError::InsufficientPoolDepth);
    }
    Ok(())
}

pub open spec fn twap_window_ok(value: int) -> bool {
    1 <= value <= MAX_TWAP_WINDOW_SECONDS
}

pub fn valid_twap_window(value: u32) -> (r: bool)
    ensures
        r == twap_window_ok(value as int),
{
    1 <= value && value <= MAX_TWAP_WINDOW_SECONDS
}

pub fn validate_allocation_tolerance(value: u16) -> (r: Result<(), MarketError>)
    ensures
        r is Ok <==> 1 <= value <= MAX_ALLOCATION_TOLERANCE_BPS,
        r matches Err(e) ==> e == MarketError::InvalidRiskControl,
{
    if value == 0 || value > MAX_ALLOCATION_TOLERANCE_BPS {
        return Err(MarketError::InvalidRiskControl);
    }
    Ok(())
}

/// Every risk control lies within its hard bound; the ones that must act are nonzero.
pub open spec fn risk_controls_ok(max_trade_bps: int, max_execution_deviation_bps: int, quote_slippage_bps: int, max_spot_twap_deviation_bps: int, max_trade_pool_bps: int, max_spread: int) -> bool {
    &&& 1 <= max_trade_bps <= MAX_TRADE_BPS
    &&& max_execution_deviation_bps <= MAX_EXECUTION_DEVIATION_BPS
    &&& quote_slippage_bps <= MAX_QUOTE_SLIPPAGE_BPS
    &&& 1 <= max_spot_twap_deviation_bps <= MAX_SPOT_TWAP_DEVIATION_BPS
    &&& 1 <= max_trade_pool_bps <= MAX_TRADE_POOL_BPS
    &&& 1 <= max_spread <= MAX_SPREAD_ATOMICS
}

pub fn validate_risk_controls(max_trade_bps: u16, max_execution_deviation_bps: u16, quote_slippage_bps: u16, max_spot_twap_deviation_bps: u16, max_trade_pool_bps: u16, max_spread: Decimal) -> (r: Result<(), MarketError>)
    ensures
        r is Ok <==> risk_controls_ok(max_trade_bps as int, max_execution_deviation_bps as int, quote_slippage_bps as int, max_spot_twap_deviation_bps as int, max_trade_pool_bps as int, max_spread.atomics as int),
        r matches Err(e) ==> e == MarketError::InvalidRiskControl,
{
    if max_trade_bps == 0 || max_trade_bps > MAX_TRADE_BPS || max_execution_deviation_bps > MAX_EXECUTION_DEVIATION_BPS
        || quote_slippage_bps > MAX_QUOTE_SLIPPAGE_BPS || max_spot_twap_deviation_bps == 0
        || max_spot_twap_deviation_bps > MAX_SPOT_TWAP_DEVIATION_BPS || max_trade_pool_bps == 0
        || max_trade_pool_bps > MAX_TRADE_POOL_BPS || max_spread.atomics == 0 || max_spread.atomics > MAX_SPREAD_ATOMICS {
        return Err(MarketError::InvalidRiskControl);
    }
    Ok(())
}

/// Value of a deposit in token-0 units: token 0 as is, token 1 divided by the price.
pub open spec fn deposit_value_spec(amount: int, token_index: int, price: int) -> int {
    if token_index == 0 { amount } else { ratio(amount, unit(), price) }
}

pub fn deposit_value(amount: u128, token_index: usize, price: Decimal) -> (r: Result<u128, MarketError>)
    ensures
        r is Ok <==> (token_index == 0 || (price.atomics != 0 && deposit_value_spec(amount as int, token_index as int, price.atomics as int) <= u128::MAX)),
        r matches Ok(v) ==> v == deposit_value_spec(amount as int, token_index as int, price.atomics as int),
        r matches Err(e) ==> (token_index != 0 && (price.atomics == 0 <==> e == MarketError::InvalidGrid)),
{
    if token_index == 0 {
        Ok(amount)
    } else {
        if price.atomics == 0 {
            return Err(MarketError::InvalidGrid);
        }
        match checked_ratio(amount, DECIMAL_FRACTIONAL, price.atomics) {
            Some(v) => Ok(v),
            None => Err(MarketError::Std(StdFault::Overflow)),
        }
    }
}

/// Shares minted for a deposit: its token-0 value, scaled by
/// `total_shares / prior vault value` once shares exist and the vault held value
/// before the deposit (`balances` already include the deposit).
pub open spec fn deposit_shares_spec(amount: int, token_index: int, price: int, b0: int, b1: int, total_shares: int) -> Option<int> {
    let value = deposit_value_spec(amount, token_index, price);
    if token_index != 0 && (price == 0 || value > u128::MAX) {
        None
    } else if total_shares == 0 {
        Some(value)
    } else {
        let prior0 = if token_index == 0 { b0 - amount } else { b0 };
        let prior1 = if token_index == 1 { b1 - amount } else { b1 };
        if prior0 < 0 || prior1 < 0 || price == 0 || ratio(prior1, unit(), price) > u128::MAX
            || prior0 + ratio(prior1, unit(), price) > u128::MAX {
            None
        } else {
            let vault_value = prior0 + ratio(prior1, unit(), price);
            if vault_value == 0 {
                Some(value)
            } else if ratio(value, total_shares, vault_value) > u128::MAX {
                None
            } else {
                Some(ratio(value, total_shares, vault_value))
            }
        }
    }
}

pub fn deposit_shares(amount: u128, token_index: usize, price: Decimal, balances: [u128; 2], total_shares: u128) -> (r: Result<u128, MarketError>)
    requires
        token_index <= 1,
    ensures
        r is Ok <==> deposit_shares_spec(amount as int, token_index as int, price.atomics as int, balances[0] as int, balances[1] as int, total_shares as int) is Some,
        r matches Ok(v) ==> Some(v as int) == deposit_shares_spec(amount as int, token_index as int, price.atomics as int, balances[0] as int, balances[1] as int, total_shares as int),
{
    let value = deposit_value(amount, token_index, price)?;
    if total_shares == 0 {
        return Ok(value);
    }
    let prior_token_0 = if token_index == 0 {
        if balances[0] < amount {
            return Err(MarketError::Std(StdFault::Overflow));
        }
        balances[0] - amount
    } else {
        balances[0]
    };
    let prior_token_1 = if token_index == 1 {
        if balances[1] < amount {
            return Err(MarketError::Std(StdFault::Overflow));
        }
        balances[1] - amount
    } else {
        balances[1]
    };
    let token_1_value = match checked_ratio(prior_token_1, DECIMAL_FRACTIONAL, price.atomics) {
        Some(v) => v,
        None => return Err(MarketError::Std(StdFault::Overflow)),
    };
    if prior_token_0 > u128::MAX - token_1_value {
        return Err(MarketError::Std(StdFault::Overflow));
    }
    let vault_value = prior_token_0 + token_1_value;
    if vault_value == 0 {
        return Ok(value);
    }
    match checked_ratio(value, total_shares, vault_value) {
        Some(v) => Ok(v),
        None => Err(MarketError::Std(StdFault::Overflow)),
    }
}

/// Fee shares for a fee worth `fee_value` out of `asset_value`:
/// `floor(fee_value * total_shares / (asset_value - fee_value))`, zero when any
/// input is zero or the fee is not below the asset value.
pub open spec fn fee_shares_spec(fee_value: int, asset_value: int, total_shares: int) -> int {
    if fee_value == 0 || asset_value == 0 || total_shares == 0 || fee_value >= asset_value {
        0
    } else {
        ratio(fee_value, total_shares, asset_value - fee_value)
    }
}

pub fn fee_shares_for_value(fee_value: u128, asset_value: u128, total_shares: u128) -> (r: Result<u128, StdFault>)
    ensures
        r is Ok <==> fee_shares_spec(fee_value as int, asset_value as int, total_shares as int) <= u128::MAX,
        r matches Ok(v) ==> v == fee_shares_spec(fee_value as int, asset_value as int, total_shares as int),
        r is Err ==> r == Err::<u128, StdFault>(StdFault::Overflow),
{
    if fee_value == 0 || asset_value == 0 || total_shares == 0 {
        return Ok(0);
    }
    if fee_value >= asset_value {
        return Ok(0);
    }
    match checked_ratio(fee_value, total_shares, asset_value - fee_value) {
        Some(v) => Ok(v),
        None => Err(StdFault::Overflow),
    }
}

/// The TWAP over `window` seconds from the pair's two cumulative-price samples
/// (now, `window` ago): their difference over the window, as 18-decimal atomics.
/// The history must hold exactly two samples, increasing, and the price must not
/// round to zero.
pub open spec fn twap_spec(cumulatives: Seq<u128>, window: int) -> Option<int> {
    if cumulatives.len() != 2 || cumulatives[0] <= cumulatives[1] || window == 0 {
        None
    } else {
        let price = (cumulatives[0] - cumulatives[1]) / window;
        if price == 0 { None } else { Some(price) }
    }
}

/// Why no TWAP can be taken: no increasing pair of samples, a zero window, or
/// a price that rounds to zero.
pub open spec fn twap_fault(cumulatives: Seq<u128>, window: int) -> StdFault {
    if cumulatives.len() != 2 || cumulatives[0] <= cumulatives[1] {
        StdFault::EmptyTwapHistory
    } else if window == 0 {
        StdFault::DivideByZero
    } else {
        StdFault::EmptyTwapPrice
    }
}

pub fn reference_price(cumulatives: &Vec<u128>, window: u32) -> (r: Result<Decimal, StdFault>)
    ensures
        r is Ok <==> twap_spec(cumulatives@, window as int) is Some,
        r matches Ok(p) ==> Some(p.atomics as int) == twap_spec(cumulatives@, window as int),
        r matches Err(e) ==> e == twap_fault(cumulatives@, window as int),
{
    if cumulatives.len() != 2 || cumulatives[0] <= cumulatives[1] {
        return Err(StdFault::EmptyTwapHistory);
    }
    if window == 0 {
        return Err(StdFault::DivideByZero);
    }
    let atomics = (cumulatives[0] - cumulatives[1]) / (window as u128);
    if atomics == 0 {
        return Err(StdFault::EmptyTwapPrice);
    }
    Ok(Decimal::raw(atomics))
}


/// Fee shares never over-charge: once the fee shares for a fee worth
/// `fee_value` are minted against `asset_value` and `total_shares`, the
/// collector's pro-rata claim on the assets is at most `fee_value`.
pub proof fn law_fee_shares_never_overcharge(fee_value: int, asset_value: int, total_shares: int)
    requires
        0 <= fee_value,
        0 <= asset_value,
        0 < total_shares,
    ensures
        ({
            let x = fee_shares_spec(fee_value, asset_value, total_shares);
            x * asset_value / (total_shares + x) <= fee_value
        }),
{
    let x = fee_shares_spec(fee_value, asset_value, total_shares);
    if fee_value == 0 || asset_value == 0 || fee_value >= asset_value {
        assert(x == 0);
        assert(0 * asset_value / (total_shares + 0) == 0) by (nonlinear_arith) requires total_shares > 0;
    } else {
        let d = asset_value - fee_value;
        assert(x == fee_value * total_shares / d);
        assert(x * d <= fee_value * total_shares) by (nonlinear_arith)
            requires x == fee_value * total_shares / d, d > 0;
        assert(x >= 0) by (nonlinear_arith) requires x == fee_value * total_shares / d, d > 0, fee_value >= 0, total_shares >= 0;
        assert(x * asset_value <= fee_value * (total_shares + x)) by (nonlinear_arith)
            requires x * d <= fee_value * total_shares, d == asset_value - fee_value;
        assert(x * asset_value / (total_shares + x) <= fee_value) by (nonlinear_arith)
            requires x * asset_value <= fee_value * (total_shares + x), total_shares + x > 0, fee_value >= 0;
    }
}

/// Fee shares grow with the fee: a larger fee never mints fewer shares.
pub proof fn law_fee_shares_monotone_in_fee(low: int, high: int, asset_value: int, total_shares: int)
    requires
        0 <= low <= high < asset_value,
        0 <= total_shares,
    ensures
        fee_shares_spec(low, asset_value, total_shares) <= fee_shares_spec(high, asset_value, total_shares),
{
    if low == 0 || total_shares == 0 {
        if high != 0 && total_shares != 0 {
            assert(high * total_shares / (asset_value - high) >= 0) by (nonlinear_arith)
                requires high >= 0, total_shares >= 0, asset_value - high > 0;
        }
    } else {
        assert(low * total_shares <= high * total_shares) by (nonlinear_arith)
            requires low <= high, total_shares >= 0;
        assert(low * total_shares / (asset_value - low) <= high * total_shares / (asset_value - low)) by (nonlinear_arith)
            requires low * total_shares <= high * total_shares, asset_value - low > 0;
        assert(high * total_shares / (asset_value - low) <= high * total_shares / (asset_value - high)) by (nonlinear_arith)
            requires high * total_shares >= 0, asset_value - low >= asset_value - high, asset_value - high > 0;
    }
}

/// A depositor cannot capture value held by incumbents: shares minted pro rata
/// to the vault's value, followed by any donation to the vault, redeem at most
/// the deposit plus the depositor's pro-rata part of the donation.
pub proof fn law_deposit_cannot_capture_incumbent_value(assets: int, supply: int, deposit: int, donation: int)
    requires
        0 < assets,
        0 < supply,
        0 <= deposit,
        0 <= donation,
    ensures
        ({
            let minted = ratio(deposit, supply, assets);
            let post_supply = supply + minted;
            let post_assets = assets + deposit + donation;
            let withdrawn = post_assets * minted / post_supply;
            withdrawn * post_supply <= deposit * post_supply + donation * minted
        }),
{
    let minted = ratio(deposit, supply, assets);
    let post_supply = supply + minted;
    let post_assets = assets + deposit + donation;
    assert(minted * assets <= deposit * supply) by (nonlinear_arith)
        requires minted == deposit * supply / assets, assets > 0;
    assert(minted >= 0) by (nonlinear_arith) requires minted == deposit * supply / assets, assets > 0, deposit >= 0, supply >= 0;
    let withdrawn = post_assets * minted / post_supply;
    assert(withdrawn * post_supply <= post_assets * minted) by (nonlinear_arith)
        requires withdrawn == post_assets * minted / post_supply, post_supply > 0;
    assert(post_assets * minted <= deposit * post_supply + donation * minted) by (nonlinear_arith)
        requires post_assets == assets + deposit + donation, post_supply == supply + minted, minted * assets <= deposit * supply;
}

/// The cell always lies between 0 and the grid count.
pub proof fn law_grid_cell_in_range(price: int, lower: int, upper: int, grid_count: int)
    requires
        0 <= grid_count,
    ensures
        0 <= grid_cell_spec(price, lower, upper, grid_count) <= grid_count,
{
    if price > lower && price < upper && grid_count != 0 {
        let step_raw = ratio(upper - lower, unit(), grid_count * unit());
        let step = if step_raw > u128::MAX { 0 } else { step_raw };
        assert(step_raw >= 0) by (nonlinear_arith)
            requires step_raw == (upper - lower) * unit() / (grid_count * unit()), upper - lower > 0, grid_count > 0, unit() > 0;
        if step != 0 {
            let cell_raw = ratio(price - lower, unit(), step);
            assert(cell_raw >= 0) by (nonlinear_arith)
                requires cell_raw == (price - lower) * unit() / step, price - lower > 0, step > 0;
        }
    }
}

/// Inside the range the cell never needs more than `u128` to compute: the
/// unscaled cell is below twice the grid count in fixed point.
proof fn lemma_grid_cell_fits(price: int, lower: int, upper: int, grid_count: int)
    requires
        lower < price < upper,
        1 <= grid_count <= u32::MAX,
        ratio(upper - lower, unit(), grid_count * unit()) >= 1,
    ensures
        ({
            let step = ratio(upper - lower, unit(), grid_count * unit());
            ratio(price - lower, unit(), step) < 2 * grid_count * unit()
        }),
{
    let d = upper - lower;
    let u = unit();
    let g = grid_count;
    let step = ratio(d, u, g * u);
    assert(step == d / g) by (nonlinear_arith)
        requires step == d * u / (g * u), u > 0, g > 0, d > 0;
    assert(step * g > d - g) by (nonlinear_arith)
        requires step == d / g, g > 0, d > 0;
    assert(2 * step * g > d) by (nonlinear_arith)
        requires step * g > d - g, step >= 1, g >= 1;
    let x = price - lower;
    assert(x * u < 2 * g * u * step) by (nonlinear_arith)
        requires x < d, 2 * step * g > d, u > 0, x > 0, step >= 1, g >= 1;
    assert(x * u / step < 2 * g * u) by (nonlinear_arith)
        requires x * u < 2 * g * u * step, step >= 1, x > 0, u > 0;
}

/// Law: the cell grows with the price. A higher price never falls in a lower
/// cell of the same grid.
pub proof fn law_grid_cell_monotone(low: int, high: int, lower: int, upper: int, grid_count: int)
    requires
        low <= high,
        0 <= grid_count <= u32::MAX,
    ensures
        grid_cell_spec(low, lower, upper, grid_count) <= grid_cell_spec(high, lower, upper, grid_count),
{
    law_grid_cell_in_range(low, lower, upper, grid_count);
    law_grid_cell_in_range(high, lower, upper, grid_count);
    if low > lower && high < upper && grid_count != 0 {
        let d = upper - lower;
        let step_raw = ratio(d, unit(), grid_count * unit());
        assert(step_raw >= 0) by (nonlinear_arith)
            requires step_raw == d * unit() / (grid_count * unit()), d > 0, grid_count > 0, unit() > 0;
        let step = if step_raw > u128::MAX { 0 } else { step_raw };
        if step != 0 {
            lemma_grid_cell_fits(low, lower, upper, grid_count);
            lemma_grid_cell_fits(high, lower, upper, grid_count);
            let c1 = ratio(low - lower, unit(), step);
            let c2 = ratio(high - lower, unit(), step);
            assert(2 * grid_count * unit() <= u128::MAX) by (nonlinear_arith)
                requires grid_count <= u32::MAX, unit() == 1_000_000_000_000_000_000int;
            assert(c1 <= c2) by (nonlinear_arith)
                requires c1 == (low - lower) * unit() / step, c2 == (high - lower) * unit() / step, low <= high, step > 0, low > lower;
            assert(c1 / unit() <= c2 / unit()) by (nonlinear_arith)
                requires c1 <= c2, c1 >= 0, unit() > 0;
        }
    }
}

/// Every deviation the vault reports is between 0 and 10 000 basis points.
pub proof fn law_deviation_bounded(actual: int, expected: int)
    requires
        0 <= actual,
        0 <= expected,
    ensures
        ratio_deviation_spec(actual, expected) matches Some(d) ==> 0 <= d <= 10_000,
{
    if expected != 0 {
        let difference = if actual >= expected { actual - expected } else { expected - actual };
        if difference < expected {
            assert(0 <= difference * 10_000 / expected <= 10_000) by (nonlinear_arith)
                requires 0 <= difference < expected;
        }
    }
}

} // verus!
