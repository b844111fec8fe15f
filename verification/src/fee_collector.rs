//! The fee collector: a keeper triggers the redemption of the collector's own
//! fee shares in a vault into the treasury, and the collector books how many
//! shares it has redeemed from each (vault, bot) pair.
use vstd::prelude::*;
use crate::errors::StdFault;
use crate::versioning::{migration_check, migration_outcome, record_view, semver_parses, text_is};

verus! {

pub const CONTRACT_NAME: &'static str = "crates.io:cl8y-fee-collector";

pub const CONTRACT_VERSION: &'static str = "0.1.0";

#[derive(Clone, Debug)]
pub struct Config {
    pub governance: String,
    pub registry: String,
    pub keeper: String,
    pub treasury: String,
}

#[derive(Clone, Debug, PartialEq, Eq)]
pub enum ContractError {
    Std(StdFault),
    Unauthorized,
    NoEntitlement { vault: String, shares: u128 },
    /// A pinned address that is not the canonical one.
    NonCanonicalAddress { field: String, expected: String },
}

/// The treasury a mainnet collector must pay into.
pub const CANONICAL_TREASURY: &'static str = "terra16j5u6ey7a84g40sr3gd94nzg5w5fm45046k9s2347qhfpwm5fr6sem3lr2";

/// On a mainnet build the treasury is pinned: whether `treasury` is given and
/// is not the canonical one.
pub open spec fn treasury_refused(mainnet: bool, treasury: Option<String>) -> bool {
    mainnet && (treasury matches Some(t) && t@ != CANONICAL_TREASURY@)
}

/// The refusal of a treasury that is not the canonical one.
pub open spec fn is_treasury_refusal(e: ContractError) -> bool {
    e matches ContractError::NonCanonicalAddress { field, expected } && field@ == "treasury"@ && expected@ == CANONICAL_TREASURY@
}

/// The refusal of a treasury that is not the canonical one, made.
fn treasury_refusal() -> (r: ContractError)
    ensures
        is_treasury_refusal(r),
{
    let field = "treasury".to_string();
    let expected = CANONICAL_TREASURY.to_string();
    ContractError::NonCanonicalAddress { field, expected }
}

#[derive(Clone, Debug)]
pub enum QueryMsg {
    Config {},
    VaultShares { vault: String, bot_id: u64 },
}

#[derive(Clone, Copy, Debug, PartialEq, Eq, Structural)]
pub struct MigrateMsg {}

/// Shares redeemed so far from one bot of one vault.
#[derive(Clone, Debug)]
pub struct LedgerEntry {
    pub vault: String,
    pub bot_id: u64,
    pub shares: u128,
}

/// The redemption a collection asks the vault for: all of the collector's
/// shares of `bot_id`, paid to `recipient`.
#[derive(Clone, Debug)]
pub struct RedeemShares {
    pub vault: String,
    pub bot_id: u64,
    pub recipient: String,
}

pub struct FeeCollector {
    pub config: Config,
    pub ledger: Vec<LedgerEntry>,
}

/// No (vault, bot) pair occurs twice.
pub open spec fn distinct_pairs(s: Seq<LedgerEntry>) -> bool {
    forall|i: int, j: int|
        0 <= i < s.len() && 0 <= j < s.len() && i != j ==> (#[trigger] s[i]).vault@ != (#[trigger] s[j]).vault@
            || s[i].bot_id != s[j].bot_id
}

/// Position of the pair (vault, bot_id) in `s`, if present.
pub open spec fn entry_index(s: Seq<LedgerEntry>, vault: Seq<char>, bot_id: u64) -> Option<int> {
    if exists|i: int| 0 <= i < s.len() && (#[trigger] s[i]).vault@ == vault && s[i].bot_id == bot_id {
        Some(choose|i: int| 0 <= i < s.len() && (#[trigger] s[i]).vault@ == vault && s[i].bot_id == bot_id)
    } else {
        None
    }
}

/// Shares booked for (vault, bot_id); zero when none.
pub open spec fn booked(s: Seq<LedgerEntry>, vault: Seq<char>, bot_id: u64) -> int {
    match entry_index(s, vault, bot_id) {
        Some(i) => s[i].shares as int,
        None => 0,
    }
}

impl FeeCollector {
    pub open spec fn wf(&self) -> bool {
        distinct_pairs(self.ledger@)
    }

    pub open spec fn shares_of(&self, vault: Seq<char>, bot_id: u64) -> int {
        booked(self.ledger@, vault, bot_id)
    }

    pub fn instantiate(governance: String, registry: String, keeper: String, treasury: String, mainnet: bool) -> (r: Result<
        FeeCollector,
        ContractError,
    >)
        ensures
            r is Err <==> treasury_refused(mainnet, Some(treasury)),
            r matches Err(e) ==> is_treasury_refusal(e),
            r matches Ok(c) ==> {
                &&& c.wf()
                &&& c.config.governance == governance
                &&& c.config.registry == registry
                &&& c.config.keeper == keeper
                &&& c.config.treasury == treasury
                &&& forall|v: Seq<char>, b: u64| c.shares_of(v, b) == 0
            },
    {
        if mainnet && !text_is(&treasury, CANONICAL_TREASURY) {
            return Err(treasury_refusal());
        }
        Ok(FeeCollector { config: Config { governance, registry, keeper, treasury }, ledger: Vec::new() })
    }

    fn find(&self, vault: &String, bot_id: u64) -> (r: Option<usize>)
        requires
            self.wf(),
        ensures
            match r {
                Some(i) => entry_index(self.ledger@, vault@, bot_id) == Some(i as int),
                None => entry_index(self.ledger@, vault@, bot_id) is None,
            },
    {
        let mut i: usize = 0;
        while i < self.ledger.len()
            invariant
                self.wf(),
                i <= self.ledger@.len(),
                forall|j: int| 0 <= j < i ==> !((#[trigger] self.ledger@[j]).vault@ == vault@ && self.ledger@[j].bot_id == bot_id),
            decreases self.ledger@.len() - i,
        {
            if self.ledger[i].bot_id == bot_id && self.ledger[i].vault == *vault {
                proof {
                    let s = self.ledger@;
                    assert(s[i as int].vault@ == vault@ && s[i as int].bot_id == bot_id);
                    let k = choose|k: int| 0 <= k < s.len() && (#[trigger] s[k]).vault@ == vault@ && s[k].bot_id == bot_id;
                    assert(k == i);
                }
                return Some(i);
            }
            i = i + 1;
        }
        None
    }

    /// Shares booked for (vault, bot_id); zero when none.
    pub fn query_vault_shares(&self, vault: &String, bot_id: u64) -> (r: u128)
        requires
            self.wf(),
        ensures
            r == self.shares_of(vault@, bot_id),
    {
        match self.find(vault, bot_id) {
            Some(i) => self.ledger[i].shares,
            None => 0,
        }
    }

    /// Collect the collector's `shares` of `bot_id` in `vault`, as the vault
    /// reported them; keeper only. Nothing to collect is an error. On success the
    /// shares are booked and the vault is asked to redeem them to the treasury.
    pub fn collect(&mut self, sender: &String, vault: String, bot_id: u64, shares: u128) -> (r: Result<
        RedeemShares,
        ContractError,
    >)
        requires
            old(self).wf(),
            sender@ == old(self).config.keeper@ && shares > 0 ==> old(self).shares_of(vault@, bot_id) + shares
                <= u128::MAX,
        ensures
            final(self).wf(),
            sender@ != old(self).config.keeper@ ==> r == Err::<RedeemShares, ContractError>(ContractError::Unauthorized),
            sender@ == old(self).config.keeper@ && shares == 0 ==> r == Err::<RedeemShares, ContractError>(
                ContractError::NoEntitlement { vault, shares: 0 },
            ),
            r is Ok <==> sender@ == old(self).config.keeper@ && shares > 0,
            r is Err ==> final(self).ledger@ == old(self).ledger@,
            r matches Ok(m) ==> m.vault == vault && m.bot_id == bot_id && m.recipient == old(self).config.treasury,
            r is Ok ==> forall|v: Seq<char>, b: u64|
                #[trigger] final(self).shares_of(v, b) == if v == vault@ && b == bot_id {
                    old(self).shares_of(v, b) + shares
                } else {
                    old(self).shares_of(v, b)
                },
            final(self).config.governance == old(self).config.governance,
            final(self).config.registry == old(self).config.registry,
            final(self).config.keeper == old(self).config.keeper,
            final(self).config.treasury == old(self).config.treasury,
    {
        if *sender != self.config.keeper {
            return Err(ContractError::Unauthorized);
        }
        if shares == 0 {
            return Err(ContractError::NoEntitlement { vault, shares: 0 });
        }
        let ghost s = self.ledger@;
        match self.find(&vault, bot_id) {
            Some(i) => {
                let total = self.ledger[i].shares + shares;
                let entry = LedgerEntry { vault: vault.clone(), bot_id, shares: total };
                self.ledger.set(i, entry);
                proof {
                    let t = self.ledger@;
                    assert forall|v: Seq<char>, b: u64|
                        #[trigger] booked(t, v, b) == if v == vault@ && b == bot_id {
                            booked(s, v, b) + shares
                        } else {
                            booked(s, v, b)
                        } by {
                        if v == vault@ && b == bot_id {
                            assert(t[i as int].vault@ == v && t[i as int].bot_id == b);
                            let k = choose|k: int| 0 <= k < t.len() && (#[trigger] t[k]).vault@ == v && t[k].bot_id == b;
                            assert(k == i);
                        } else {
                            assert forall|k: int| 0 <= k < t.len() implies ((#[trigger] t[k]).vault@ == v && t[k].bot_id == b)
                                == (s[k].vault@ == v && s[k].bot_id == b) by {
                                if k == i {
                                    assert(s[k].vault@ == vault@);
                                }
                            }
                            if exists|k: int| 0 <= k < s.len() && (#[trigger] s[k]).vault@ == v && s[k].bot_id == b {
                                let k1 = choose|k: int| 0 <= k < s.len() && (#[trigger] s[k]).vault@ == v && s[k].bot_id == b;
                                assert(t[k1].vault@ == v && t[k1].bot_id == b);
                                let k2 = choose|k: int| 0 <= k < t.len() && (#[trigger] t[k]).vault@ == v && t[k].bot_id == b;
                                assert(s[k2].vault@ == v && s[k2].bot_id == b);
                                assert(k1 == k2);
                            } else {
                                assert(!exists|k: int| 0 <= k < t.len() && (#[trigger] t[k]).vault@ == v && t[k].bot_id == b);
                            }
                        }
                    }
                }
            },
            None => {
                let entry = LedgerEntry { vault: vault.clone(), bot_id, shares };
                self.ledger.push(entry);
                proof {
                    let t = self.ledger@;
                    let n = s.len() as int;
                    assert(t[n].vault@ == vault@);
                    assert forall|v: Seq<char>, b: u64|
                        #[trigger] booked(t, v, b) == if v == vault@ && b == bot_id {
                            booked(s, v, b) + shares
                        } else {
                            booked(s, v, b)
                        } by {
                        if v == vault@ && b == bot_id {
                            assert(t[n].vault@ == v && t[n].bot_id == b);
                            let k = choose|k: int| 0 <= k < t.len() && (#[trigger] t[k]).vault@ == v && t[k].bot_id == b;
                            assert(k == n);
                        } else {
                            if exists|k: int| 0 <= k < s.len() && (#[trigger] s[k]).vault@ == v && s[k].bot_id == b {
                                let k1 = choose|k: int| 0 <= k < s.len() && (#[trigger] s[k]).vault@ == v && s[k].bot_id == b;
                                assert(t[k1].vault@ == v && t[k1].bot_id == b);
                                let k2 = choose|k: int| 0 <= k < t.len() && (#[trigger] t[k]).vault@ == v && t[k].bot_id == b;
                                assert(k2 < n);
                                assert(s[k2].vault@ == v && s[k2].bot_id == b);
                                assert(k1 == k2);
                            } else {
                                assert forall|k: int| 0 <= k < t.len() implies !((#[trigger] t[k]).vault@ == v && t[k].bot_id
                                    == b) by {
                                    if k < n {
                                        assert(t[k] == s[k]);
                                    }
                                }
                            }
                        }
                    }
                }
            },
        }
        Ok(RedeemShares { vault, bot_id, recipient: self.config.treasury.clone() })
    }

    /// Replace the given configuration fields; governance only.
    pub fn update_config(
        &mut self,
        sender: &String,
        governance: Option<String>,
        registry: Option<String>,
        keeper: Option<String>,
        treasury: Option<String>,
        mainnet: bool,
    ) -> (r: Result<(), ContractError>)
        requires
            old(self).wf(),
        ensures
            final(self).wf(),
            r is Ok <==> sender@ == old(self).config.governance@ && !treasury_refused(mainnet, treasury),
            sender@ != old(self).config.governance@ ==> r == Err::<(), ContractError>(ContractError::Unauthorized),
            sender@ == old(self).config.governance@ && treasury_refused(mainnet, treasury) ==> r is Err && is_treasury_refusal(r->Err_0),
            r is Err ==> *final(self) == *old(self),
            r is Ok ==> {
                &&& final(self).config.governance == (match governance {
                    Some(g) => g,
                    None => old(self).config.governance,
                })
                &&& final(self).config.registry == (match registry {
                    Some(g) => g,
                    None => old(self).config.registry,
                })
                &&& final(self).config.keeper == (match keeper {
                    Some(g) => g,
                    None => old(self).config.keeper,
                })
                &&& final(self).config.treasury == (match treasury {
                    Some(g) => g,
                    None => old(self).config.treasury,
                })
                &&& final(self).ledger == old(self).ledger
            },
    {
        if *sender != self.config.governance {
            return Err(ContractError::Unauthorized);
        }
        if let Some(t) = &treasury {
            if mainnet && !text_is(t, CANONICAL_TREASURY) {
                return Err(treasury_refusal());
            }
        }
        if let Some(address) = governance {
            self.config.governance = address;
        }
        if let Some(address) = registry {
            self.config.registry = address;
        }
        if let Some(address) = keeper {
            self.config.keeper = address;
        }
        if let Some(address) = treasury {
            self.config.treasury = address;
        }
        Ok(())
    }
}

/// Migration of a stored collector: allowed from an older or the same version
/// of this contract. Says whether the stored version has to be rewritten.
pub fn migrate(stored: &Option<(String, String)>) -> (r: Result<bool, ContractError>)
    ensures
        r == (match migration_outcome(record_view(*stored), CONTRACT_NAME@, CONTRACT_VERSION@) {
            Ok(w) => Ok::<bool, ContractError>(w),
            Err(e) => Err(ContractError::Std(e)),
        }),
        // From the record that a successful migration leaves, another one
        // rewrites nothing.
        stored matches Some((n, v)) && n@ == CONTRACT_NAME@ && v@ == CONTRACT_VERSION@
            && semver_parses(CONTRACT_VERSION@) ==> r == Ok::<bool, ContractError>(false),
{
    match migration_check(stored, CONTRACT_NAME, CONTRACT_VERSION) {
        Ok(w) => Ok(w),
        Err(e) => Err(ContractError::Std(e)),
    }
}

} // verus!
