//! Transferable LP over a two-token bot vault: deposits priced against the
//! vault's net asset value, pro-rata or single-token withdrawals, and the
//! pending operation that waits for the vault's settlement.
use vstd::prelude::*;
use crate::errors::StdFault;
use crate::math::{checked_ratio, lemma_ratio_le, ratio, unit, Decimal, DECIMAL_FRACTIONAL};

verus! {

pub const CONTRACT_NAME: &'static str = "crates.io:cl8y-bot-liquidity";

pub const DEPOSIT_REPLY_ID: u64 = 1;

pub const WITHDRAW_REPLY_ID: u64 = 2;

/// Shares minted to the LP contract itself on the first deposit and never
/// redeemable, so that the share price cannot be inflated from an empty pool.
pub const LOCKED_INITIAL_SHARES: u128 = 1_000;

#[derive(Clone, Debug, PartialEq, Eq)]
pub enum ContractError {
    Std(StdFault),
    Cw20(String),
    InvalidVault,
    ZeroAmount,
    Expired,
    InvalidDepositSwap,
    InsufficientShares,
    MinimumNotMet,
    InvalidWithdrawalSwap,
    UnknownReply,
    InvalidDepositSettlement,
    AllocationOutsideTolerance,
    InitialDepositTooSmall,
    ZeroShares,
    OperationPending,
}

pub struct Config {
    pub vault: String,
    pub asset_tokens: [String; 2],
    pub minimum_initial_deposit: u128,
}

/// A swap the vault performs inside a deposit or a withdrawal.
#[derive(Clone, Debug)]
pub struct SwapParams {
    pub offer_token: String,
    pub amount: u128,
    pub deadline: u64,
}

/// How a withdrawal pays out: both tokens pro rata, or one token with the
/// other swapped into it.
#[derive(Clone, Debug)]
pub enum WithdrawalType {
    ProRata { min_assets: [u128; 2] },
    Token0 { min_amount: u128, swap: SwapParams },
    Token1 { min_amount: u128, swap: SwapParams },
}

/// The operation waiting for the vault's reply.
pub enum PendingOperation {
    Deposit { depositor: String, pre_balances: [u128; 2], pre_supply: u128, price: Decimal, min_shares: u128 },
    WithdrawSingle {
        recipient: String,
        payout_token: String,
        base_amount: u128,
        pre_payout_balance: u128,
        min_amount: u128,
    },
}

pub struct BotLiquidity {
    pub config: Config,
    pub pending: Option<PendingOperation>,
}

/// Net asset value in token 0: token 0 plus token 1 divided by the price of
/// token 0 in token 1.
pub open spec fn nav_spec(balances: [u128; 2], price: int) -> int {
    balances[0] + ratio(balances[1] as int, unit(), price)
}

/// The vault's value in token 0 at `price`; a zero price is refused.
pub fn nav(balances: [u128; 2], price: Decimal) -> (r: Result<u128, ContractError>)
    ensures
        price.atomics == 0 ==> r == Err::<u128, ContractError>(ContractError::InvalidVault),
        price.atomics != 0 ==> (r is Ok <==> nav_spec(balances, price.atomics as int) <= u128::MAX),
        price.atomics != 0 && r is Err ==> r == Err::<u128, ContractError>(ContractError::Std(StdFault::Overflow)),
        r matches Ok(v) ==> v == nav_spec(balances, price.atomics as int),
{
    if price.atomics == 0 {
        return Err(ContractError::InvalidVault);
    }
    let converted = match checked_ratio(balances[1], DECIMAL_FRACTIONAL, price.atomics) {
        Some(v) => v,
        None => return Err(ContractError::Std(StdFault::Overflow)),
    };
    if balances[0] > u128::MAX - converted {
        return Err(ContractError::Std(StdFault::Overflow));
    }
    Ok(balances[0] + converted)
}

/// The shares a settled deposit mints: on an empty pool, the deposit value less
/// the locked shares; otherwise the deposit value priced at the pool's shares
/// per unit of value, rounded down.
pub open spec fn deposit_shares_spec(deposit_value: int, pre_supply: int, pre_nav: int) -> int {
    if pre_supply == 0 {
        deposit_value - LOCKED_INITIAL_SHARES
    } else {
        ratio(deposit_value, pre_supply, pre_nav)
    }
}

/// The checks settling a deposit makes, in order, or the first error: the
/// balances must not have fallen, the allocation must be within tolerance,
/// both values must be priced, an initial deposit must exceed the minimum and
/// the locked shares, a later one needs a valued pool, and the shares must be
/// nonzero and meet the depositor's minimum.
pub open spec fn deposit_settle_check(
    pre_balances: [u128; 2],
    post_balances: [u128; 2],
    price: int,
    pre_supply: int,
    min_shares: int,
    minimum_initial_deposit: int,
    deviation_bps: u32,
    tolerance_bps: u32,
) -> Result<(), ContractError> {
    let pre = nav_spec(pre_balances, price);
    let post = nav_spec(post_balances, price);
    let value = post - pre;
    if post_balances[0] < pre_balances[0] || post_balances[1] < pre_balances[1] {
        Err(ContractError::InvalidDepositSettlement)
    } else if deviation_bps > tolerance_bps {
        Err(ContractError::AllocationOutsideTolerance)
    } else if price == 0 {
        Err(ContractError::InvalidVault)
    } else if pre > u128::MAX || post > u128::MAX {
        Err(ContractError::Std(StdFault::Overflow))
    } else if post < pre {
        Err(ContractError::InvalidDepositSettlement)
    } else if pre_supply == 0 && (value < minimum_initial_deposit || value <= LOCKED_INITIAL_SHARES) {
        Err(ContractError::InitialDepositTooSmall)
    } else if pre_supply == 0 && pre + LOCKED_INITIAL_SHARES > u128::MAX {
        Err(ContractError::Std(StdFault::Overflow))
    } else if pre_supply != 0 && pre == 0 {
        Err(ContractError::InvalidDepositSettlement)
    } else if deposit_shares_spec(value, pre_supply, pre) == 0 {
        Err(ContractError::ZeroShares)
    } else if deposit_shares_spec(value, pre_supply, pre) < min_shares {
        Err(ContractError::MinimumNotMet)
    } else {
        Ok(())
    }
}

/// What a settled deposit mints.
pub struct Settlement {
    pub depositor: String,
    pub deposit_value: u128,
    pub user_shares: u128,
    /// Shares minted to the LP contract itself on the first deposit.
    pub locked_shares: Option<u128>,
}

/// What a single-token withdrawal pays.
pub struct Payout {
    pub recipient: String,
    pub token: String,
    pub amount: u128,
}

/// What a withdrawal does once the shares are burned: pay both tokens, or wait
/// for the vault's swap.
pub enum WithdrawPlan {
    ProRata { claims: [u128; 2] },
    Single { claims: [u128; 2], swap: SwapParams },
}

/// A holder's claim on each vault balance for `shares` of `supply`.
pub open spec fn claim_of(balance: int, shares: int, supply: int) -> int {
    ratio(balance, shares, supply)
}

/// Whether the swap of a single-token withdrawal paying token `payout` is
/// refused: it must offer the other token, exactly its claim `claim`, by the
/// withdrawal's deadline, and something.
pub open spec fn withdraw_swap_refused(c: Config, payout: int, swap: SwapParams, claim: int, deadline: u64) -> bool {
    ||| swap.offer_token@ != c.asset_tokens[1 - payout]@
    ||| swap.amount != claim
    ||| swap.deadline > deadline
    ||| swap.amount == 0
}

/// What planning a single-token withdrawal of token `payout` gives: the swap
/// refused, or the plan with the claims and the swap, and the vault waiting to
/// pay `recipient` the payout token's claim plus the swap's proceeds.
pub open spec fn single_withdraw_planned(
    c: Config,
    after: BotLiquidity,
    r: Result<WithdrawPlan, ContractError>,
    recipient: String,
    payout: int,
    min_amount: u128,
    swap: SwapParams,
    claims: [int; 2],
    balances: [u128; 2],
    deadline: u64,
) -> bool {
    if withdraw_swap_refused(c, payout, swap, claims[1 - payout], deadline) {
        r == Err::<WithdrawPlan, ContractError>(ContractError::InvalidWithdrawalSwap)
    } else {
        &&& r matches Ok(WithdrawPlan::Single { claims: cl, swap: sw }) && cl[0] == claims[0] && cl[1] == claims[1]
            && sw.offer_token@ == swap.offer_token@ && sw.amount == swap.amount && sw.deadline == swap.deadline
        &&& after.pending matches Some(PendingOperation::WithdrawSingle { recipient: rc, payout_token, base_amount, pre_payout_balance, min_amount: m })
            && rc@ == recipient@ && payout_token@ == c.asset_tokens[payout]@ && base_amount == claims[payout]
            && pre_payout_balance == balances[payout] && m == min_amount
    }
}

impl BotLiquidity {
    pub fn new(config: Config) -> (r: BotLiquidity)
        ensures
            r.config == config,
            r.pending is None,
    {
        BotLiquidity { config, pending: None }
    }

    /// Start a deposit of `amounts` by `sender`: check it, then remember the
    /// vault's balances (`pre_balances`), its price and the LP supply read now,
    /// for the settlement. An optional swap must offer one of the two tokens,
    /// at most the amount deposited of it, by the deposit's deadline.
    pub fn begin_deposit(
        &mut self,
        sender: &String,
        amounts: [u128; 2],
        min_shares: u128,
        deadline: u64,
        now: u64,
        swap: &Option<SwapParams>,
        pre_balances: [u128; 2],
        price: Decimal,
        pre_supply: u128,
    ) -> (r: Result<(), ContractError>)
        ensures
            old(self).pending is Some ==> r == Err::<(), ContractError>(ContractError::OperationPending),
            old(self).pending is None && amounts[0] == 0 && amounts[1] == 0 ==> r == Err::<(), ContractError>(ContractError::ZeroAmount),
            old(self).pending is None && (amounts[0] != 0 || amounts[1] != 0) && deadline < now ==> r == Err::<(), ContractError>(
                ContractError::Expired),
            r is Ok <==> old(self).pending is None && (amounts[0] != 0 || amounts[1] != 0) && deadline >= now && (match *swap {
                Some(p) => {
                    ||| p.offer_token@ == old(self).config.asset_tokens[0]@ && p.amount != 0 && p.amount <= amounts[0] && p.deadline <= deadline
                    ||| p.offer_token@ != old(self).config.asset_tokens[0]@ && p.offer_token@ == old(self).config.asset_tokens[1]@ && p.amount != 0
                        && p.amount <= amounts[1] && p.deadline <= deadline
                },
                None => true,
            }),
            r is Err && old(self).pending is None && (amounts[0] != 0 || amounts[1] != 0) && deadline >= now ==> r == Err::<(), ContractError>(
                ContractError::InvalidDepositSwap),
            r is Err ==> final(self).pending == old(self).pending,
            r is Ok ==> final(self).pending == Some(
                PendingOperation::Deposit { depositor: *sender, pre_balances, pre_supply, price, min_shares },
            ),
            final(self).config == old(self).config,
    {
        if self.pending.is_some() {
            return Err(ContractError::OperationPending);
        }
        if amounts[0] == 0 && amounts[1] == 0 {
            return Err(ContractError::ZeroAmount);
        }
        if deadline < now {
            return Err(ContractError::Expired);
        }
        match swap {
            Some(params) => {
                let index: usize = if params.offer_token == self.config.asset_tokens[0] {
                    0
                } else if params.offer_token == self.config.asset_tokens[1] {
                    1
                } else {
                    return Err(ContractError::InvalidDepositSwap);
                };
                if params.amount == 0 || params.amount > amounts[index] || params.deadline > deadline {
                    return Err(ContractError::InvalidDepositSwap);
                }
            },
            None => {},
        }
        self.pending = Some(PendingOperation::Deposit { depositor: sender.clone(), pre_balances, pre_supply, price, min_shares });
        Ok(())
    }

    /// Settle the pending deposit once the vault has taken the tokens: the
    /// vault's balances must not have fallen, its allocation must be within
    /// tolerance, and the value added (in token 0 at the remembered price)
    /// mints shares; the first deposit must exceed the minimum and the locked
    /// shares, which go to the LP contract together with the pool's prior value.
    pub fn complete_deposit(&mut self, post_balances: [u128; 2], deviation_bps: u32, tolerance_bps: u32) -> (r: Result<
        Settlement,
        ContractError,
    >)
        requires
            old(self).pending matches Some(PendingOperation::Deposit { pre_balances, pre_supply, price, .. }) ==> ({
                let pre = nav_spec(pre_balances, price.atomics as int);
                let post = nav_spec(post_balances, price.atomics as int);
                pre_supply != 0 && pre != 0 && post >= pre && price.atomics != 0 ==> ratio(post - pre, pre_supply as int, pre) <= u128::MAX
            }),
        ensures
            old(self).pending is None ==> r == Err::<Settlement, ContractError>(ContractError::Std(StdFault::NotFound)),
            old(self).pending matches Some(PendingOperation::WithdrawSingle { .. }) ==> r == Err::<Settlement, ContractError>(
                ContractError::UnknownReply),
            r is Err ==> final(self).pending == old(self).pending,
            r is Ok ==> final(self).pending is None,
            old(self).pending matches Some(PendingOperation::Deposit { depositor, pre_balances, pre_supply, price, min_shares }) ==> ({
                let pre = nav_spec(pre_balances, price.atomics as int);
                let post = nav_spec(post_balances, price.atomics as int);
                let value = post - pre;
                let shares = deposit_shares_spec(value, pre_supply as int, pre);
                let ok = post_balances[0] >= pre_balances[0] && post_balances[1] >= pre_balances[1] && deviation_bps
                    <= tolerance_bps && price.atomics != 0 && pre <= u128::MAX && post <= u128::MAX && post >= pre && (
                pre_supply == 0 ==> value >= old(self).config.minimum_initial_deposit && value > LOCKED_INITIAL_SHARES
                    && pre + LOCKED_INITIAL_SHARES <= u128::MAX) && (pre_supply != 0 ==> pre != 0) && shares != 0 && shares
                    >= min_shares;
                &&& (post_balances[0] < pre_balances[0] || post_balances[1] < pre_balances[1]) ==> r == Err::<Settlement, ContractError>(
                    ContractError::InvalidDepositSettlement)
                &&& post_balances[0] >= pre_balances[0] && post_balances[1] >= pre_balances[1] && deviation_bps > tolerance_bps
                    ==> r == Err::<Settlement, ContractError>(ContractError::AllocationOutsideTolerance)
                &&& r is Ok <==> ok
                &&& deposit_settle_check(pre_balances, post_balances, price.atomics as int, pre_supply as int, min_shares as int,
                    old(self).config.minimum_initial_deposit as int, deviation_bps, tolerance_bps) matches Err(e)
                    ==> r == Err::<Settlement, ContractError>(e)
                &&& r matches Ok(s) ==> {
                    &&& s.depositor == depositor
                    &&& s.deposit_value == value
                    &&& s.user_shares == shares
                    &&& s.locked_shares == (if pre_supply == 0 { Some((pre + LOCKED_INITIAL_SHARES) as u128) } else { None::<u128> })
                }
            }),
            final(self).config == old(self).config,
    {
        let (depositor, pre_balances, pre_supply, price, min_shares) = match &self.pending {
            None => return Err(ContractError::Std(StdFault::NotFound)),
            Some(PendingOperation::WithdrawSingle { .. }) => return Err(ContractError::UnknownReply),
            Some(PendingOperation::Deposit { depositor, pre_balances, pre_supply, price, min_shares }) => (
                depositor.clone(),
                *pre_balances,
                *pre_supply,
                *price,
                *min_shares,
            ),
        };
        if post_balances[0] < pre_balances[0] || post_balances[1] < pre_balances[1] {
            return Err(ContractError::InvalidDepositSettlement);
        }
        if deviation_bps > tolerance_bps {
            return Err(ContractError::AllocationOutsideTolerance);
        }
        let pre_nav = match nav(pre_balances, price) {
            Ok(v) => v,
            Err(e) => return Err(e),
        };
        let post_nav = match nav(post_balances, price) {
            Ok(v) => v,
            Err(e) => return Err(e),
        };
        if post_nav < pre_nav {
            return Err(ContractError::InvalidDepositSettlement);
        }
        let deposit_value = post_nav - pre_nav;
        let mut locked_shares: Option<u128> = None;
        let user_shares = if pre_supply == 0 {
            if deposit_value < self.config.minimum_initial_deposit || deposit_value <= LOCKED_INITIAL_SHARES {
                return Err(ContractError::InitialDepositTooSmall);
            }
            if pre_nav > u128::MAX - LOCKED_INITIAL_SHARES {
                return Err(ContractError::Std(StdFault::Overflow));
            }
            locked_shares = Some(pre_nav + LOCKED_INITIAL_SHARES);
            deposit_value - LOCKED_INITIAL_SHARES
        } else {
            if pre_nav == 0 {
                return Err(ContractError::InvalidDepositSettlement);
            }
            match checked_ratio(deposit_value, pre_supply, pre_nav) {
                Some(v) => v,
                None => 0,
            }
        };
        if user_shares == 0 {
            return Err(ContractError::ZeroShares);
        }
        if user_shares < min_shares {
            return Err(ContractError::MinimumNotMet);
        }
        self.pending = None;
        Ok(Settlement { depositor, deposit_value, user_shares, locked_shares })
    }

    /// Plan a withdrawal of `shares` (the holder has `owner_balance` of a
    /// supply of `supply`) against the vault's `balances`: each token is
    /// claimed pro rata. A pro-rata payout must meet both minimums; a
    /// single-token payout must swap exactly the other token's claim, by the
    /// deadline, and waits for the vault.
    pub fn plan_withdraw(
        &mut self,
        shares: u128,
        owner_balance: u128,
        supply: u128,
        deadline: u64,
        now: u64,
        balances: [u128; 2],
        recipient: &String,
        output: &WithdrawalType,
    ) -> (r: Result<WithdrawPlan, ContractError>)
        requires
            owner_balance <= supply,
        ensures
            old(self).pending is Some ==> r == Err::<WithdrawPlan, ContractError>(ContractError::OperationPending),
            old(self).pending is None && shares == 0 ==> r == Err::<WithdrawPlan, ContractError>(ContractError::ZeroAmount),
            old(self).pending is None && shares != 0 && deadline < now ==> r == Err::<WithdrawPlan, ContractError>(ContractError::Expired),
            old(self).pending is None && shares != 0 && deadline >= now && shares > owner_balance ==> r == Err::<WithdrawPlan, ContractError>(
                ContractError::InsufficientShares),
            r matches Ok(WithdrawPlan::ProRata { claims }) ==> {
                &&& claims[0] == claim_of(balances[0] as int, shares as int, supply as int)
                &&& claims[1] == claim_of(balances[1] as int, shares as int, supply as int)
                &&& final(self).pending is None
            },
            r matches Ok(WithdrawPlan::Single { claims, swap }) ==> {
                &&& claims[0] == claim_of(balances[0] as int, shares as int, supply as int)
                &&& claims[1] == claim_of(balances[1] as int, shares as int, supply as int)
                &&& final(self).pending matches Some(PendingOperation::WithdrawSingle { recipient: rc, base_amount, min_amount, .. })
                    && rc == *recipient
            },
            r is Ok ==> old(self).pending is None && shares != 0 && deadline >= now && shares <= owner_balance,
            r is Err ==> final(self).pending == old(self).pending,
            final(self).config == old(self).config,
            old(self).pending is None && shares != 0 && deadline >= now && shares <= owner_balance ==> ({
                let c0 = claim_of(balances[0] as int, shares as int, supply as int);
                let c1 = claim_of(balances[1] as int, shares as int, supply as int);
                match *output {
                    WithdrawalType::ProRata { min_assets } => if c0 < min_assets[0] || c1 < min_assets[1] {
                        r == Err::<WithdrawPlan, ContractError>(ContractError::MinimumNotMet)
                    } else {
                        r is Ok && r->Ok_0 is ProRata
                    },
                    WithdrawalType::Token0 { min_amount, swap } => single_withdraw_planned(old(self).config, *final(self), r,
                        *recipient, 0, min_amount, swap, [c0, c1], balances, deadline),
                    WithdrawalType::Token1 { min_amount, swap } => single_withdraw_planned(old(self).config, *final(self), r,
                        *recipient, 1, min_amount, swap, [c0, c1], balances, deadline),
                }
            }),
    {
        if self.pending.is_some() {
            return Err(ContractError::OperationPending);
        }
        if shares == 0 {
            return Err(ContractError::ZeroAmount);
        }
        if deadline < now {
            return Err(ContractError::Expired);
        }
        if shares > owner_balance {
            return Err(ContractError::InsufficientShares);
        }
        proof {
            lemma_ratio_le(balances[0] as int, shares as int, supply as int);
            lemma_ratio_le(balances[1] as int, shares as int, supply as int);
        }
        let c0 = match checked_ratio(balances[0], shares, supply) {
            Some(v) => v,
            None => 0,
        };
        let c1 = match checked_ratio(balances[1], shares, supply) {
            Some(v) => v,
            None => 0,
        };
        let claims = [c0, c1];
        let (payout_index, min_amount, swap) = match output {
            WithdrawalType::ProRata { min_assets } => {
                if c0 < min_assets[0] || c1 < min_assets[1] {
                    return Err(ContractError::MinimumNotMet);
                }
                return Ok(WithdrawPlan::ProRata { claims });
            },
            WithdrawalType::Token0 { min_amount, swap } => (0usize, *min_amount, swap),
            WithdrawalType::Token1 { min_amount, swap } => (1usize, *min_amount, swap),
        };
        let unwanted: usize = 1 - payout_index;
        if swap.offer_token != self.config.asset_tokens[unwanted] || swap.amount != claims[unwanted] || swap.deadline > deadline
            || swap.amount == 0 {
            return Err(ContractError::InvalidWithdrawalSwap);
        }
        let pre_payout_balance = balances[payout_index];
        self.pending = Some(
            PendingOperation::WithdrawSingle {
                recipient: recipient.clone(),
                payout_token: self.config.asset_tokens[payout_index].clone(),
                base_amount: claims[payout_index],
                pre_payout_balance,
                min_amount,
            },
        );
        Ok(WithdrawPlan::Single {
            claims,
            swap: SwapParams { offer_token: swap.offer_token.clone(), amount: swap.amount, deadline: swap.deadline },
        })
    }

    /// Settle the pending single-token withdrawal once the vault has swapped:
    /// the payout is the base claim plus what the swap brought in (the vault's
    /// payout-token balance, as read, less its balance before), and must meet
    /// the minimum.
    pub fn complete_single_withdraw(&mut self, current_balance: u128) -> (r: Result<Payout, ContractError>)
        ensures
            old(self).pending is None ==> r == Err::<Payout, ContractError>(ContractError::Std(StdFault::NotFound)),
            old(self).pending matches Some(PendingOperation::Deposit { .. }) ==> r == Err::<Payout, ContractError>(ContractError::UnknownReply),
            old(self).pending matches Some(PendingOperation::WithdrawSingle { recipient, payout_token, base_amount, pre_payout_balance, min_amount })
                ==> ({
                let received = current_balance - pre_payout_balance;
                &&& current_balance < pre_payout_balance ==> r == Err::<Payout, ContractError>(ContractError::InvalidDepositSettlement)
                &&& current_balance >= pre_payout_balance && base_amount + received > u128::MAX ==> r == Err::<Payout, ContractError>(
                    ContractError::Std(StdFault::Overflow))
                &&& current_balance >= pre_payout_balance && base_amount + received <= u128::MAX && base_amount + received < min_amount
                    ==> r == Err::<Payout, ContractError>(ContractError::MinimumNotMet)
                &&& r is Ok <==> current_balance >= pre_payout_balance && base_amount + received <= u128::MAX && base_amount + received >= min_amount
                &&& r matches Ok(p) ==> p.recipient == recipient && p.token == payout_token && p.amount == base_amount + received
            }),
            r is Err ==> final(self).pending == old(self).pending,
            r is Ok ==> final(self).pending is None,
            final(self).config == old(self).config,
    {
        let (recipient, token, base_amount, pre_payout_balance, min_amount) = match &self.pending {
            None => return Err(ContractError::Std(StdFault::NotFound)),
            Some(PendingOperation::Deposit { .. }) => return Err(ContractError::UnknownReply),
            Some(PendingOperation::WithdrawSingle { recipient, payout_token, base_amount, pre_payout_balance, min_amount }) => (
                recipient.clone(),
                payout_token.clone(),
                *base_amount,
                *pre_payout_balance,
                *min_amount,
            ),
        };
        if current_balance < pre_payout_balance {
            return Err(ContractError::InvalidDepositSettlement);
        }
        let received = current_balance - pre_payout_balance;
        if base_amount > u128::MAX - received {
            return Err(ContractError::Std(StdFault::Overflow));
        }
        let amount = base_amount + received;
        if amount < min_amount {
            return Err(ContractError::MinimumNotMet);
        }
        self.pending = None;
        Ok(Payout { recipient, token, amount })
    }
}

/// A later depositor cannot take value from the holders before it: the shares
/// minted for a deposit worth `value` into a pool worth `pre_nav` with
/// `pre_supply` shares, redeemed at once against the new value, are worth at
/// most the deposit.
pub proof fn law_deposit_never_dilutes_holders(value: int, pre_supply: int, pre_nav: int)
    requires
        0 <= value,
        0 < pre_supply,
        0 < pre_nav,
    ensures
        ({
            let minted = deposit_shares_spec(value, pre_supply, pre_nav);
            minted * (pre_nav + value) / (pre_supply + minted) <= value
        }),
{
    let minted = deposit_shares_spec(value, pre_supply, pre_nav);
    assert(minted == value * pre_supply / pre_nav);
    assert(minted * pre_nav <= value * pre_supply) by (nonlinear_arith)
        requires minted == value * pre_supply / pre_nav, pre_nav > 0;
    assert(minted >= 0) by (nonlinear_arith)
        requires minted == value * pre_supply / pre_nav, pre_nav > 0, value >= 0, pre_supply > 0;
    assert(minted * (pre_nav + value) <= value * (pre_supply + minted)) by (nonlinear_arith)
        requires minted * pre_nav <= value * pre_supply;
    assert(minted * (pre_nav + value) / (pre_supply + minted) <= value) by (nonlinear_arith)
        requires minted * (pre_nav + value) <= value * (pre_supply + minted), pre_supply + minted > 0, value >= 0;
}

/// A withdrawal never claims more of a balance than the balance.
pub proof fn law_claim_within_balance(balance: int, shares: int, supply: int)
    requires
        0 <= balance,
        0 <= shares <= supply,
        0 < supply,
    ensures
        0 <= claim_of(balance, shares, supply) <= balance,
{
    lemma_ratio_le(balance, shares, supply);
}

} // verus!
