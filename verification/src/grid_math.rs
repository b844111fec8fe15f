//! Prices, rungs and share conversions of the limit-grid vault.
use vstd::prelude::*;
use crate::grid_types::{
    input_index, side_input_index, Coin, ContractError, GridOrder, LimitOrderResponse, LimitOrderSide,
};
use crate::math::{checked_ratio, lemma_ratio_le, ratio, unit, Decimal, DECIMAL_FRACTIONAL};

verus! {

/// The lowest rung price a pair accepts, 1e-9, as atomics.
pub const MIN_RUNG_ATOMICS: u128 = 1_000_000_000;

/// The highest rung price a pair accepts, 1e9, as atomics.
pub const MAX_RUNG_ATOMICS: u128 = 1_000_000_000_000_000_000_000_000_000;

/// The pool's spot price of token 0 in token 1: `amount_1 / amount_0`.
pub fn pool_price(amounts: [u128; 2]) -> (r: Result<Decimal, ContractError>)
    ensures
        amounts[0] == 0 || amounts[1] == 0 ==> r == Err::<Decimal, ContractError>(ContractError::InvalidPair),
        amounts[0] != 0 && amounts[1] != 0 && ratio(amounts[1] as int, unit(), amounts[0] as int) > u128::MAX ==> r
            == Err::<Decimal, ContractError>(ContractError::ArithmeticOutOfRange),
        r matches Ok(p) ==> amounts[0] != 0 && amounts[1] != 0 && p.atomics == ratio(
            amounts[1] as int,
            unit(),
            amounts[0] as int,
        ),
        r is Ok <==> amounts[0] != 0 && amounts[1] != 0 && ratio(amounts[1] as int, unit(), amounts[0] as int)
            <= u128::MAX,
{
    if amounts[0] == 0 || amounts[1] == 0 {
        return Err(ContractError::InvalidPair);
    }
    match checked_ratio(amounts[1], DECIMAL_FRACTIONAL, amounts[0]) {
        Some(atomics) => Ok(Decimal { atomics }),
        None => Err(ContractError::ArithmeticOutOfRange),
    }
}

/// Rung `index` of `count` rungs spread evenly from `lower` to `upper`.
pub open spec fn rung_price(lower: int, upper: int, count: int, index: int) -> int {
    lower + ratio(upper - lower, index, count - 1)
}

/// `count` prices from `lower` to `upper`, evenly spaced (each offset floored).
pub fn grid_prices(lower: Decimal, upper: Decimal, count: u32) -> (r: Result<Vec<Decimal>, ContractError>)
    ensures
        r is Err <==> count < 2 || lower.atomics >= upper.atomics,
        r is Err ==> r == Err::<Vec<Decimal>, ContractError>(ContractError::InvalidGrid),
        r matches Ok(v) ==> {
            &&& v@.len() == count
            &&& forall|i: int| 0 <= i < count ==> (#[trigger] v@[i]).atomics == rung_price(
                lower.atomics as int,
                upper.atomics as int,
                count as int,
                i,
            )
            &&& forall|i: int| 0 <= i < count ==> lower.atomics <= (#[trigger] v@[i]).atomics <= upper.atomics
        },
{
    if count < 2 || lower.atomics >= upper.atomics {
        return Err(ContractError::InvalidGrid);
    }
    let difference = upper.atomics - lower.atomics;
    let mut prices: Vec<Decimal> = Vec::new();
    let mut index: u32 = 0;
    while index < count
        invariant
            2 <= count,
            lower.atomics < upper.atomics,
            difference == upper.atomics - lower.atomics,
            index <= count,
            prices@.len() == index,
            forall|i: int| 0 <= i < index ==> (#[trigger] prices@[i]).atomics == rung_price(
                lower.atomics as int,
                upper.atomics as int,
                count as int,
                i,
            ),
            forall|i: int| 0 <= i < index ==> lower.atomics <= (#[trigger] prices@[i]).atomics <= upper.atomics,
        decreases count - index,
    {
        proof {
            lemma_ratio_le(difference as int, index as int, (count - 1) as int);
        }
        let offset = match checked_ratio(difference, index as u128, (count - 1) as u128) {
            Some(v) => v,
            None => 0,
        };
        prices.push(Decimal { atomics: lower.atomics + offset });
        index = index + 1;
    }
    Ok(prices)
}

/// The side an order at `price` takes against `reference`: a bid below, an ask
/// above, none at it.
pub open spec fn side_at(price: int, reference: int) -> Option<LimitOrderSide> {
    if price < reference {
        Some(LimitOrderSide::Bid)
    } else if price > reference {
        Some(LimitOrderSide::Ask)
    } else {
        None
    }
}

pub fn rung_side(price: Decimal, reference: Decimal) -> (r: Option<LimitOrderSide>)
    ensures
        r == side_at(price.atomics as int, reference.atomics as int),
{
    if price.atomics < reference.atomics {
        Some(LimitOrderSide::Bid)
    } else if price.atomics > reference.atomics {
        Some(LimitOrderSide::Ask)
    } else {
        None
    }
}

/// Shares minted for a deposit: token 0 one for one, token 1 divided by the
/// reference price.
pub open spec fn deposit_share_amount(amount: int, token_index: int, price: int) -> int {
    if token_index == 0 {
        amount
    } else {
        ratio(amount, unit(), price)
    }
}

pub fn deposit_shares(amount: u128, token_index: usize, price: Decimal) -> (r: Result<u128, ContractError>)
    ensures
        token_index == 0 ==> r == Ok::<u128, ContractError>(amount),
        token_index != 0 && price.atomics == 0 ==> r == Err::<u128, ContractError>(ContractError::InvalidPair),
        token_index != 0 && price.atomics != 0 ==> (match r {
            Ok(v) => v == deposit_share_amount(amount as int, 1, price.atomics as int),
            Err(e) => e == ContractError::ArithmeticOutOfRange && deposit_share_amount(
                amount as int,
                1,
                price.atomics as int,
            ) > u128::MAX,
        }),
{
    if token_index == 0 {
        Ok(amount)
    } else {
        if price.atomics == 0 {
            return Err(ContractError::InvalidPair);
        }
        match checked_ratio(amount, DECIMAL_FRACTIONAL, price.atomics) {
            Some(v) => Ok(v),
            None => Err(ContractError::ArithmeticOutOfRange),
        }
    }
}

/// The native funds sent in `denom`. Any coin of another denom is refused.
pub open spec fn paid_in(funds: Seq<Coin>, denom: Seq<char>) -> int
    decreases funds.len(),
{
    if funds.len() == 0 {
        0
    } else if funds[0].denom@ == denom {
        funds[0].amount as int
    } else {
        paid_in(funds.drop_first(), denom)
    }
}

pub fn paid_amount(funds: &Vec<Coin>, denom: &String) -> (r: Result<u128, ContractError>)
    ensures
        r is Err <==> exists|i: int| 0 <= i < funds@.len() && (#[trigger] funds@[i]).denom@ != denom@,
        r is Err ==> r == Err::<u128, ContractError>(ContractError::UnexpectedFunds),
        r matches Ok(v) ==> v == paid_in(funds@, denom@) && (funds@.len() == 0 ==> v == 0) && (funds@.len()
            > 0 ==> v == funds@[0].amount),
{
    let mut i: usize = 0;
    while i < funds.len()
        invariant
            i <= funds@.len(),
            forall|j: int| 0 <= j < i ==> (#[trigger] funds@[j]).denom@ == denom@,
        decreases funds@.len() - i,
    {
        if funds[i].denom != *denom {
            return Err(ContractError::UnexpectedFunds);
        }
        i = i + 1;
    }
    if funds.len() == 0 {
        Ok(0)
    } else {
        assert(funds@[0].denom@ == denom@);
        Ok(funds[0].amount)
    }
}

/// The pair's report of order `order_id` agrees with the vault's record: owned
/// by the vault, same id, side and price, and no more left than recorded.
pub open spec fn order_matches(contract: Seq<char>, order_id: u64, recorded: GridOrder, on_chain: LimitOrderResponse) -> bool {
    &&& on_chain.owner@ == contract
    &&& on_chain.order_id == order_id
    &&& on_chain.side == recorded.side
    &&& on_chain.price == recorded.price
    &&& on_chain.remaining <= recorded.remaining
}

pub fn validate_order(contract: &String, order_id: u64, recorded: &GridOrder, on_chain: &LimitOrderResponse) -> (r:
    Result<(), ContractError>)
    ensures
        on_chain.owner@ != contract@ ==> r == Err::<(), ContractError>(ContractError::InvalidOrderOwner),
        on_chain.owner@ == contract@ && !order_matches(contract@, order_id, *recorded, *on_chain) ==> r == Err::<
            (),
            ContractError,
        >(ContractError::InvalidOrder),
        r is Ok <==> order_matches(contract@, order_id, *recorded, *on_chain),
{
    if on_chain.owner != *contract {
        return Err(ContractError::InvalidOrderOwner);
    }
    if on_chain.order_id != order_id || on_chain.side != recorded.side || on_chain.price.atomics
        != recorded.price.atomics || on_chain.remaining > recorded.remaining {
        return Err(ContractError::InvalidOrder);
    }
    Ok(())
}

/// A canonical address baked into a production build must not be empty; the
/// value is handed back unchanged.
pub fn require_populated(value: &str) -> (r: &str)
    requires
        value@.len() > 0,
    ensures
        r@ == value@,
{
    value
}

/// The fee registry pinned for a production build: it must be configured and
/// equal the canonical address.
pub fn assert_fee_registry_canonical_mainnet(registry: Option<&String>, canonical: &String) -> (r: Result<
    (),
    ContractError,
>)
    ensures
        r is Ok <==> (registry matches Some(a) && a@ == canonical@),
        r is Err ==> r == Err::<(), ContractError>(
            ContractError::NonCanonicalAddress { field: r->Err_0->field, expected: *canonical },
        ) && r->Err_0->field@ == "fee_registry"@,
{
    match registry {
        Some(a) => {
            if *a == *canonical {
                return Ok(());
            }
        },
        None => {},
    }
    let field = "fee_registry".to_string();
    proof {
        reveal_strlit("fee_registry");
    }
    Err(ContractError::NonCanonicalAddress { field, expected: canonical.clone() })
}

/// The fee collector pinned for a production build: it must be configured and
/// equal the canonical address.
pub fn assert_fee_collector_canonical_mainnet(collector: Option<&String>, canonical: &String) -> (r: Result<
    (),
    ContractError,
>)
    ensures
        r is Ok <==> (collector matches Some(a) && a@ == canonical@),
        r is Err ==> r == Err::<(), ContractError>(
            ContractError::NonCanonicalAddress { field: r->Err_0->field, expected: *canonical },
        ) && r->Err_0->field@ == "fee_collector"@,
{
    match collector {
        Some(a) => {
            if *a == *canonical {
                return Ok(());
            }
        },
        None => {},
    }
    let field = "fee_collector".to_string();
    proof {
        reveal_strlit("fee_collector");
    }
    Err(ContractError::NonCanonicalAddress { field, expected: canonical.clone() })
}

} // verus!
