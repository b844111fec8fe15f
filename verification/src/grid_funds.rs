//! Gas credit, balance synchronisation and withdrawals of the limit-grid vault.
use vstd::prelude::*;
use crate::errors::StdFault;
use crate::grid_math::{paid_amount, paid_in};
use crate::grid_types::{Coin, ContractError, VaultMode};
use crate::grid_vault::{gas_floor, GridVault, BOT_ID};
use crate::math::{checked_ratio, lemma_ratio_le, ratio};

verus! {

/// `amount * part / whole`, floored: a holder's share of an amount.
pub open spec fn pro_rata_of(amount: int, part: int, whole: int) -> int {
    ratio(amount, part, whole)
}

impl GridVault {
    /// Add the gas denom sent to the bot's gas credit; anyone may fund.
    pub fn fund_gas(&mut self, funds: &Vec<Coin>, bot_id: u64) -> (r: Result<u128, ContractError>)
        requires
            old(self).wf(),
        ensures
            final(self).wf(),
            old(self).mode == VaultMode::Exit ==> final(self).mode == VaultMode::Exit,
            (exists|i: int| 0 <= i < funds@.len() && (#[trigger] funds@[i]).denom@ != old(self).config.gas_denom@) ==> r
                == Err::<u128, ContractError>(ContractError::UnexpectedFunds),
            r is Ok <==> (forall|i: int| 0 <= i < funds@.len() ==> (#[trigger] funds@[i]).denom@ == old(self).config.gas_denom@)
                && paid_in(funds@, old(self).config.gas_denom@) > 0 && old(self).bot_exists(bot_id)
                && old(self).bot.gas_credit + paid_in(funds@, old(self).config.gas_denom@) <= u128::MAX,
            r is Err ==> *final(self) == *old(self),
            r matches Ok(a) ==> a == paid_in(funds@, old(self).config.gas_denom@) && final(self).bot.gas_credit
                == old(self).bot.gas_credit + a,
            r is Ok ==> final(self).bot.free_balances == old(self).bot.free_balances && final(self).bot.total_shares
                == old(self).bot.total_shares && final(self).bot.owner == old(self).bot.owner && final(self).shares
                == old(self).shares && final(self).orders == old(self).orders && final(self).config == old(self).config,
            (forall|i: int| 0 <= i < funds@.len() ==> (#[trigger] funds@[i]).denom@ == old(self).config.gas_denom@) && paid_in(
                funds@,
                old(self).config.gas_denom@,
            ) == 0 ==> r == Err::<u128, ContractError>(ContractError::MissingGasFunds),
    {
        let amount = match paid_amount(funds, &self.config.gas_denom) {
            Ok(a) => a,
            Err(e) => return Err(e),
        };
        if amount == 0 {
            return Err(ContractError::MissingGasFunds);
        }
        if bot_id != BOT_ID || !self.has_bot {
            return Err(ContractError::Std(StdFault::NotFound));
        }
        if self.bot.gas_credit > u128::MAX - amount {
            return Err(ContractError::Overflow);
        }
        self.bot.gas_credit = self.bot.gas_credit + amount;
        Ok(amount)
    }

    /// The bot owner takes `amount` of gas credit back. While the bot holds
    /// orders or shares, the credit must stay at the gas floor.
    pub fn withdraw_gas(&mut self, has_funds: bool, sender: &String, bot_id: u64, amount: u128) -> (r: Result<
        (),
        ContractError,
    >)
        requires
            old(self).wf(),
        ensures
            final(self).wf(),
            old(self).mode == VaultMode::Exit ==> final(self).mode == VaultMode::Exit,
            r == (if has_funds {
                Err(ContractError::UnexpectedFunds)
            } else if amount == 0 {
                Err(ContractError::ZeroAmount)
            } else if !old(self).bot_exists(bot_id) {
                Err(ContractError::Std(StdFault::NotFound))
            } else if sender@ != old(self).bot.owner@ {
                Err(ContractError::Unauthorized)
            } else if old(self).bot.gas_credit < amount || gas_floor(old(self).config) > u128::MAX {
                Err(ContractError::Overflow)
            } else if (old(self).bot.active_orders != 0 || old(self).bot.total_shares != 0) && old(self).bot.gas_credit
                - amount < gas_floor(old(self).config) {
                Err(ContractError::InsufficientGasCredit)
            } else {
                Ok(())
            }),
            r is Err ==> *final(self) == *old(self),
            r is Ok ==> final(self).bot.gas_credit == old(self).bot.gas_credit - amount && final(self).bot.free_balances
                == old(self).bot.free_balances && final(self).bot.total_shares == old(self).bot.total_shares
                && final(self).shares == old(self).shares && final(self).orders == old(self).orders,
    {
        if has_funds {
            return Err(ContractError::UnexpectedFunds);
        }
        if amount == 0 {
            return Err(ContractError::ZeroAmount);
        }
        if bot_id != BOT_ID || !self.has_bot {
            return Err(ContractError::Std(StdFault::NotFound));
        }
        if *sender != self.bot.owner {
            return Err(ContractError::Unauthorized);
        }
        if self.bot.gas_credit < amount || self.config.minimum_gas_reserve > u128::MAX - self.config.keeper_reward {
            return Err(ContractError::Overflow);
        }
        let remaining = self.bot.gas_credit - amount;
        let required = self.config.minimum_gas_reserve + self.config.keeper_reward;
        if (self.bot.active_orders != 0 || self.bot.total_shares != 0) && remaining < required {
            return Err(ContractError::InsufficientGasCredit);
        }
        self.bot.gas_credit = remaining;
        Ok(())
    }

    /// The bot owner credits any growth of the vault's token balances (for
    /// instance a transfer made outside a deposit) to the free balances, without
    /// minting shares. A balance below the free balance is refused.
    pub fn sync_balances(&mut self, has_funds: bool, sender: &String, bot_id: u64, balances: [Option<u128>; 2]) -> (r:
        Result<[u128; 2], ContractError>)
        requires
            old(self).wf(),
        ensures
            final(self).wf(),
            old(self).mode == VaultMode::Exit ==> final(self).mode == VaultMode::Exit,
            r is Ok <==> !has_funds && old(self).bot_exists(bot_id) && sender@ == old(self).bot.owner@ && balances[0] is Some
                && balances[0]->0 >= old(self).bot.free_balances[0] && balances[1] is Some && balances[1]->0 >= old(
                self).bot.free_balances[1],
            has_funds ==> r == Err::<[u128; 2], ContractError>(ContractError::UnexpectedFunds),
            !has_funds && !old(self).bot_exists(bot_id) ==> r == Err::<[u128; 2], ContractError>(
                ContractError::Std(StdFault::NotFound),
            ),
            !has_funds && old(self).bot_exists(bot_id) && sender@ != old(self).bot.owner@ ==> r == Err::<[u128; 2], ContractError>(
                ContractError::Unauthorized,
            ),
            r is Err ==> *final(self) == *old(self),
            r matches Ok(c) ==> c[0] == balances[0]->0 - old(self).bot.free_balances[0] && c[1] == balances[1]->0 - old(
                self).bot.free_balances[1] && final(self).bot.free_balances[0] == balances[0]->0
                && final(self).bot.free_balances[1] == balances[1]->0 && final(self).bot.total_shares == old(
                self).bot.total_shares && final(self).shares == old(self).shares && final(self).orders == old(self).orders,
    {
        if has_funds {
            return Err(ContractError::UnexpectedFunds);
        }
        if bot_id != BOT_ID || !self.has_bot {
            return Err(ContractError::Std(StdFault::NotFound));
        }
        if *sender != self.bot.owner {
            return Err(ContractError::Unauthorized);
        }
        let b0 = match balances[0] {
            Some(b) => b,
            None => return Err(ContractError::Std(StdFault::QueryFailed)),
        };
        if b0 < self.bot.free_balances[0] {
            return Err(ContractError::UnsupportedTokenBehavior);
        }
        let b1 = match balances[1] {
            Some(b) => b,
            None => return Err(ContractError::Std(StdFault::QueryFailed)),
        };
        if b1 < self.bot.free_balances[1] {
            return Err(ContractError::UnsupportedTokenBehavior);
        }
        let credited = [b0 - self.bot.free_balances[0], b1 - self.bot.free_balances[1]];
        self.bot.free_balances = [b0, b1];
        Ok(credited)
    }

    /// The bot owner burns `shares` of its own for the same fraction of each
    /// free balance; refused in exit mode and while orders are active.
    pub fn withdraw(&mut self, has_funds: bool, sender: &String, bot_id: u64, shares: u128) -> (r: Result<[u128; 2], ContractError>)
        requires
            old(self).wf(),
        ensures
            final(self).wf(),
            old(self).mode == VaultMode::Exit ==> final(self).mode == VaultMode::Exit,
            (if has_funds {
                Err(ContractError::UnexpectedFunds)
            } else if old(self).mode == VaultMode::Exit {
                Err(ContractError::InvalidMode)
            } else if !old(self).bot_exists(bot_id) {
                Err(ContractError::Std(StdFault::NotFound))
            } else if sender@ != old(self).bot.owner@ {
                Err(ContractError::Unauthorized)
            } else if old(self).bot.active_orders != 0 {
                Err(ContractError::ActiveOrders)
            } else if shares == 0 {
                Err(ContractError::ZeroAmount)
            } else if shares > old(self).shares.amount_of(sender@) || shares > old(self).bot.total_shares {
                Err(ContractError::InsufficientShares)
            } else {
                Ok(())
            }) == (match r {
                Ok(_) => Ok::<(), ContractError>(()),
                Err(e) => Err(e),
            }),
            r is Err ==> *final(self) == *old(self),
            r matches Ok(a) ==> {
                &&& a[0] == pro_rata_of(old(self).bot.free_balances[0] as int, shares as int, old(self).bot.total_shares as int)
                &&& a[1] == pro_rata_of(old(self).bot.free_balances[1] as int, shares as int, old(self).bot.total_shares as int)
                &&& a[0] <= old(self).bot.free_balances[0] && a[1] <= old(self).bot.free_balances[1]
                &&& final(self).bot.free_balances[0] == old(self).bot.free_balances[0] - a[0]
                &&& final(self).bot.free_balances[1] == old(self).bot.free_balances[1] - a[1]
                &&& final(self).bot.total_shares == old(self).bot.total_shares - shares
                &&& final(self).shares@ == old(self).shares@.insert(sender@, (old(self).shares.amount_of(sender@) - shares) as u128)
                &&& final(self).orders == old(self).orders
                &&& final(self).mode == old(self).mode
            },
    {
        if has_funds {
            return Err(ContractError::UnexpectedFunds);
        }
        if self.mode == VaultMode::Exit {
            return Err(ContractError::InvalidMode);
        }
        if bot_id != BOT_ID || !self.has_bot {
            return Err(ContractError::Std(StdFault::NotFound));
        }
        if *sender != self.bot.owner {
            return Err(ContractError::Unauthorized);
        }
        if self.bot.active_orders != 0 {
            return Err(ContractError::ActiveOrders);
        }
        if shares == 0 {
            return Err(ContractError::ZeroAmount);
        }
        let held = self.shares.amount(sender);
        if shares > held || shares > self.bot.total_shares {
            return Err(ContractError::InsufficientShares);
        }
        let total = self.bot.total_shares;
        let amounts = self.pay_out(shares, total);
        let held_after = held - shares;
        self.shares.set_amount(sender, held_after);
        self.bot.total_shares = total - shares;
        Ok(amounts)
    }

    /// Take `shares / total` of each free balance out of the bot.
    fn pay_out(&mut self, shares: u128, total: u128) -> (r: [u128; 2])
        requires
            0 < shares <= total,
        ensures
            r[0] == pro_rata_of(old(self).bot.free_balances[0] as int, shares as int, total as int),
            r[1] == pro_rata_of(old(self).bot.free_balances[1] as int, shares as int, total as int),
            r[0] <= old(self).bot.free_balances[0] && r[1] <= old(self).bot.free_balances[1],
            final(self).bot.free_balances[0] == old(self).bot.free_balances[0] - r[0],
            final(self).bot.free_balances[1] == old(self).bot.free_balances[1] - r[1],
            final(self).bot.total_shares == old(self).bot.total_shares,
            final(self).bot.owner == old(self).bot.owner,
            final(self).bot.gas_credit == old(self).bot.gas_credit,
            final(self).bot.active_orders == old(self).bot.active_orders,
            final(self).bot.grid_count == old(self).bot.grid_count,
            final(self).bot.asset_tokens == old(self).bot.asset_tokens,
            final(self).has_bot == old(self).has_bot,
            final(self).config == old(self).config && final(self).mode == old(self).mode && final(self).rungs == old(self).rungs
                && final(self).orders == old(self).orders && final(self).cancelled == old(self).cancelled
                && final(self).shares == old(self).shares && final(self).placements == old(self).placements
                && final(self).pending_pages == old(self).pending_pages && final(self).token_policy_enabled == old(
                self).token_policy_enabled && final(self).allowed_tokens == old(self).allowed_tokens
                && final(self).quarantine == old(self).quarantine && final(self).next_reply_id == old(self).next_reply_id
                && final(self).next_bot_id == old(self).next_bot_id,
    {
        let f0 = self.bot.free_balances[0];
        let f1 = self.bot.free_balances[1];
        proof {
            lemma_ratio_le(f0 as int, shares as int, total as int);
            lemma_ratio_le(f1 as int, shares as int, total as int);
        }
        let a0 = match checked_ratio(f0, shares, total) {
            Some(v) => v,
            None => 0,
        };
        let a1 = match checked_ratio(f1, shares, total) {
            Some(v) => v,
            None => 0,
        };
        self.bot.free_balances = [f0 - a0, f1 - a1];
        [a0, a1]
    }

    /// The fee collector redeems all its shares of the bot for the same
    /// fraction of each free balance; refused in exit mode and while orders are
    /// active.
    pub fn redeem_shares(&mut self, has_funds: bool, sender: &String, bot_id: u64) -> (r: Result<[u128; 2], ContractError>)
        requires
            old(self).wf(),
        ensures
            final(self).wf(),
            old(self).mode == VaultMode::Exit ==> final(self).mode == VaultMode::Exit,
            (if has_funds {
                Err(ContractError::UnexpectedFunds)
            } else if old(self).mode == VaultMode::Exit {
                Err(ContractError::InvalidMode)
            } else if !(old(self).config.fee_collector matches Some(c) && c@ == sender@) {
                Err(ContractError::Unauthorized)
            } else if !old(self).bot_exists(bot_id) {
                Err(ContractError::Std(StdFault::NotFound))
            } else if old(self).shares.amount_of(sender@) == 0 {
                Err(ContractError::InsufficientShares)
            } else if old(self).bot.active_orders != 0 {
                Err(ContractError::ActiveOrders)
            } else {
                Ok(())
            }) == (match r {
                Ok(_) => Ok::<(), ContractError>(()),
                Err(e) => Err(e),
            }),
            r is Err ==> *final(self) == *old(self),
            r matches Ok(a) ==> {
                &&& a[0] == pro_rata_of(old(self).bot.free_balances[0] as int, old(self).shares.amount_of(sender@), old(self).bot.total_shares as int)
                &&& a[1] == pro_rata_of(old(self).bot.free_balances[1] as int, old(self).shares.amount_of(sender@), old(self).bot.total_shares as int)
                &&& a[0] <= old(self).bot.free_balances[0] && a[1] <= old(self).bot.free_balances[1]
                &&& final(self).bot.free_balances[0] == old(self).bot.free_balances[0] - a[0]
                &&& final(self).bot.free_balances[1] == old(self).bot.free_balances[1] - a[1]
                &&& final(self).bot.total_shares == old(self).bot.total_shares - old(self).shares.amount_of(sender@)
                &&& final(self).shares@ == old(self).shares@.insert(sender@, 0)
            },
    {
        if has_funds {
            return Err(ContractError::UnexpectedFunds);
        }
        if self.mode == VaultMode::Exit {
            return Err(ContractError::InvalidMode);
        }
        let authorized = match &self.config.fee_collector {
            Some(c) => *c == *sender,
            None => false,
        };
        if !authorized {
            return Err(ContractError::Unauthorized);
        }
        if bot_id != BOT_ID || !self.has_bot {
            return Err(ContractError::Std(StdFault::NotFound));
        }
        let shares = self.shares.amount(sender);
        if shares == 0 {
            return Err(ContractError::InsufficientShares);
        }
        if self.bot.active_orders != 0 {
            return Err(ContractError::ActiveOrders);
        }
        proof {
            self.shares.lemma_amount_le_total(sender@);
        }
        let total = self.bot.total_shares;
        let amounts = self.pay_out(shares, total);
        self.shares.set_amount(sender, 0);
        self.bot.total_shares = total - shares;
        Ok(amounts)
    }

    /// In exit mode, once no order is tracked, the bot owner takes the vault's
    /// whole token balances (as read); the owner's shares go and the bot's
    /// balances, shares and active orders are zeroed.
    pub fn emergency_withdraw(&mut self, has_funds: bool, sender: &String, bot_id: u64, balances: [Option<u128>; 2]) -> (r:
        Result<[u128; 2], ContractError>)
        requires
            old(self).wf(),
        ensures
            final(self).wf(),
            old(self).mode == VaultMode::Exit ==> final(self).mode == VaultMode::Exit,
            r == (if has_funds {
                Err(ContractError::UnexpectedFunds)
            } else if old(self).mode != VaultMode::Exit {
                Err(ContractError::InvalidMode)
            } else if !old(self).bot_exists(bot_id) {
                Err(ContractError::Std(StdFault::NotFound))
            } else if sender@ != old(self).bot.owner@ {
                Err(ContractError::Unauthorized)
            } else if old(self).orders.entries@.len() != 0 {
                Err(ContractError::ExitOrdersRemain)
            } else if balances[0] is None || balances[1] is None {
                Err(ContractError::Std(StdFault::QueryFailed))
            } else {
                Ok([balances[0]->0, balances[1]->0])
            }),
            r is Err ==> *final(self) == *old(self),
            r is Ok ==> {
                &&& final(self).bot.free_balances == [0u128, 0u128]
                &&& final(self).bot.total_shares == 0
                &&& final(self).bot.active_orders == 0
                &&& final(self).shares@ == old(self).shares@.remove(old(self).bot.owner@)
                &&& final(self).mode == VaultMode::Exit
            },
    {
        if has_funds {
            return Err(ContractError::UnexpectedFunds);
        }
        if self.mode != VaultMode::Exit {
            return Err(ContractError::InvalidMode);
        }
        if bot_id != BOT_ID || !self.has_bot {
            return Err(ContractError::Std(StdFault::NotFound));
        }
        if *sender != self.bot.owner {
            return Err(ContractError::Unauthorized);
        }
        if self.orders.len() != 0 {
            return Err(ContractError::ExitOrdersRemain);
        }
        let (b0, b1) = match (balances[0], balances[1]) {
            (Some(a), Some(b)) => (a, b),
            _ => return Err(ContractError::Std(StdFault::QueryFailed)),
        };
        let owner = self.bot.owner.clone();
        self.shares.remove_amount(&owner);
        self.bot.free_balances = [0, 0];
        self.bot.total_shares = 0;
        self.bot.active_orders = 0;
        Ok([b0, b1])
    }
}

} // verus!
