use vstd::prelude::*;

use crate::account::{Account, AccountV, StorageBalance, StorageBalanceBounds, ACCOUNT_BASE_BYTES};
use crate::account_id::{valid_account_id, AccountId};
use crate::balances::TokenBalances;
use crate::context::CallContext;
use crate::error::Error;
use crate::store::Accounts;
use crate::token_id::TokenKey;

verus! {

/// What a deposit leaves behind: the store afterwards, the balance pair
/// reported to the caller, and the native currency refunded to them.
#[verifier::ext_equal]
pub struct DepositOutcome {
    pub accounts: Map<Seq<char>, AccountV>,
    pub balance: StorageBalance,
    pub refund: u128,
}

/// The deposit transition.
///
/// A deposit targeting a registered account either re-registers idly
/// (registration only: full refund, no change) or adds the attached amount
/// to the prepaid balance. One targeting an unregistered account registers
/// it when the attached amount covers both the record's storage cost and
/// the registry-wide minimum; otherwise it changes nothing and refunds the
/// full attached amount, reporting a zero balance for the caller to detect.
pub open spec fn spec_storage_deposit(
    m: Map<Seq<char>, AccountV>,
    attached: u128,
    target: Seq<char>,
    registration_only: bool,
    price: int,
    min_bal: u128,
) -> Result<DepositOutcome, Error> {
    if m.contains_key(target) {
        if registration_only {
            Ok(
                DepositOutcome {
                    accounts: m,
                    balance: StorageBalance {
                        total: m[target].near_amount,
                        available: m[target].available() as u128,
                    },
                    refund: attached,
                },
            )
        } else if m[target].near_amount + attached > u128::MAX {
            Err(Error::AmountOverflow)
        } else {
            let a1 = AccountV {
                near_amount: (m[target].near_amount + attached) as u128,
                near_used_for_storage: m[target].near_used_for_storage,
                tokens: m[target].tokens,
            };
            Ok(
                DepositOutcome {
                    accounts: m.insert(target, a1),
                    balance: StorageBalance {
                        total: a1.near_amount,
                        available: a1.available() as u128,
                    },
                    refund: 0,
                },
            )
        }
    } else {
        let cost = (ACCOUNT_BASE_BYTES + target.len()) * price;
        if attached < cost || attached < min_bal {
            Ok(
                DepositOutcome {
                    accounts: m,
                    balance: StorageBalance { total: 0, available: 0 },
                    refund: attached,
                },
            )
        } else if registration_only {
            let a1 = AccountV {
                near_amount: cost as u128,
                near_used_for_storage: cost as u128,
                tokens: Seq::empty(),
            };
            Ok(
                DepositOutcome {
                    accounts: m.insert(target, a1),
                    balance: StorageBalance { total: cost as u128, available: 0 },
                    refund: (attached - cost) as u128,
                },
            )
        } else {
            let a1 = AccountV {
                near_amount: attached,
                near_used_for_storage: cost as u128,
                tokens: Seq::empty(),
            };
            Ok(
                DepositOutcome {
                    accounts: m.insert(target, a1),
                    balance: StorageBalance {
                        total: attached,
                        available: (attached - cost) as u128,
                    },
                    refund: 0,
                },
            )
        }
    }
}

/// The withdrawal transition: pays the requested amount — or everything
/// available, when none is named — out of the caller's available balance.
pub open spec fn spec_storage_withdraw(
    m: Map<Seq<char>, AccountV>,
    caller: Seq<char>,
    amount: Option<u128>,
) -> Result<(Map<Seq<char>, AccountV>, StorageBalance, u128), Error> {
    if !m.contains_key(caller) {
        Err(Error::AccountNotRegistered)
    } else {
        let avail = m[caller].available();
        let w = if amount is Some {
            amount->0 as int
        } else {
            avail
        };
        if w > avail {
            Err(Error::ExcessiveWithdrawal)
        } else {
            let a1 = AccountV {
                near_amount: (m[caller].near_amount - w) as u128,
                near_used_for_storage: m[caller].near_used_for_storage,
                tokens: m[caller].tokens,
            };
            Ok(
                (
                    m.insert(caller, a1),
                    StorageBalance { total: a1.near_amount, available: a1.available() as u128 },
                    w as u128,
                ),
            )
        }
    }
}

/// The forced-unregistration transition: deletes the caller's record and
/// refunds its full prepaid balance.
pub open spec fn spec_storage_unregister(m: Map<Seq<char>, AccountV>, caller: Seq<char>) -> Result<
    (Map<Seq<char>, AccountV>, u128),
    Error,
> {
    if !m.contains_key(caller) {
        Err(Error::AccountNotRegistered)
    } else {
        Ok((m.remove(caller), m[caller].near_amount))
    }
}

impl Accounts {
    /// Deposits the attached native currency for `account_id` — the caller
    /// itself when none is named — registering the account first if it has
    /// no record. Returns the reported balance pair and the amount to
    /// refund to the caller.
    pub fn storage_deposit(
        &mut self,
        ctx: &CallContext,
        account_id: Option<AccountId>,
        registration_only: Option<bool>,
    ) -> (r: Result<(StorageBalance, u128), Error>)
        requires
            old(self).wf(),
            valid_account_id(ctx.predecessor@),
            account_id matches Some(a) ==> valid_account_id(a@),
            (ACCOUNT_BASE_BYTES + 64) * ctx.storage_byte_cost <= u128::MAX,
        ensures
            ({
                let target = if account_id is Some {
                    (account_id->0)@
                } else {
                    ctx.predecessor@
                };
                let reg = registration_only == Some(true);
                let step = spec_storage_deposit(
                    old(self)@,
                    ctx.attached_deposit,
                    target,
                    reg,
                    ctx.storage_byte_cost as int,
                    old(self).default_min_storage_bal,
                );
                match r {
                    Ok((balance, refund)) => {
                        &&& step matches Ok(o)
                        &&& final(self)@ == o.accounts
                        &&& balance == o.balance
                        &&& refund == o.refund
                        &&& final(self).wf()
                        &&& final(self).default_min_storage_bal == old(
                            self,
                        ).default_min_storage_bal
                    },
                    Err(e) => {
                        &&& step == Err::<DepositOutcome, Error>(e)
                        &&& *final(self) == *old(self)
                    },
                }
            }),
    {
        let registration_only = match registration_only {
            Some(b) => b,
            None => false,
        };
        let target: AccountId = match account_id {
            Some(a) => a,
            None => ctx.predecessor.clone(),
        };
        let amount_attached = ctx.attached_deposit;
        let registered = self.get_account(&target);

        match registered {
            Some(account) => {
                if registration_only {
                    proof {
                        self.lemma_wf_lookup(target@);
                    }
                    Ok((account.storage_balance(), amount_attached))
                } else {
                    proof {
                        self.lemma_wf_lookup(target@);
                    }
                    let mut account = account;
                    match account.near_amount.checked_add(amount_attached) {
                        Some(total) => {
                            account.near_amount = total;
                            proof {
                                crate::balances::lemma_entries_bytes_nonneg(account@.tokens);
                            }
                            self.insert_account_unchecked(&target, &account);
                            Ok((account.storage_balance(), 0))
                        },
                        None => Err(Error::AmountOverflow),
                    }
                }
            },
            None => {
                // Measuring the cost of a fresh record registers it; a
                // failed registration removes it again below.
                let storage_cost = self.get_storage_cost(
                    Some(target.clone()),
                    false,
                    ctx.storage_byte_cost,
                );
                if amount_attached < storage_cost || amount_attached
                    < self.default_min_storage_bal {
                    self.remove_account_unchecked(&target);
                    proof {
                        assert(self@ =~= old(self)@);
                    }
                    Ok((StorageBalance { total: 0, available: 0 }, amount_attached))
                } else if registration_only {
                    let account = Account {
                        near_amount: storage_cost,
                        near_used_for_storage: storage_cost,
                        info: TokenBalances::new(),
                    };
                    let amount_refund = amount_attached - storage_cost;
                    proof {
                        assert(account@.tokens =~= Seq::<(TokenKey, u128)>::empty());
                    }
                    self.insert_account_unchecked(&target, &account);
                    proof {
                        assert(self@ =~= old(self)@.insert(target@, account@));
                    }
                    Ok((account.storage_balance(), amount_refund))
                } else {
                    let account = Account {
                        near_amount: amount_attached,
                        near_used_for_storage: storage_cost,
                        info: TokenBalances::new(),
                    };
                    proof {
                        assert(account@.tokens =~= Seq::<(TokenKey, u128)>::empty());
                    }
                    self.insert_account_unchecked(&target, &account);
                    proof {
                        assert(self@ =~= old(self)@.insert(target@, account@));
                    }
                    Ok((account.storage_balance(), 0))
                }
            },
        }
    }

    /// Pays the requested amount — or everything available — out of the
    /// caller's available balance. Returns the reported balance pair and
    /// the amount to transfer to the caller. The call must carry exactly
    /// one attached unit as proof of intent.
    pub fn storage_withdraw(&mut self, ctx: &CallContext, amount: Option<u128>) -> (r: Result<
        (StorageBalance, u128),
        Error,
    >)
        requires
            old(self).wf(),
            ctx.attached_deposit == 1,
        ensures
            ({
                let step = spec_storage_withdraw(old(self)@, ctx.predecessor@, amount);
                match r {
                    Ok((balance, payout)) => {
                        &&& step matches Ok(o)
                        &&& final(self)@ == o.0
                        &&& balance == o.1
                        &&& payout == o.2
                        &&& final(self).wf()
                        &&& final(self).default_min_storage_bal == old(
                            self,
                        ).default_min_storage_bal
                    },
                    Err(e) => {
                        &&& step == Err::<(Map<Seq<char>, AccountV>, StorageBalance, u128), Error>(
                            e,
                        )
                        &&& *final(self) == *old(self)
                    },
                }
            }),
    {
        match self.get_account(&ctx.predecessor) {
            Some(account) => {
                proof {
                    self.lemma_wf_lookup(ctx.predecessor@);
                }
                let mut account = account;
                let free = account.get_available_near();
                let withdraw_amount: u128 = match amount {
                    Some(a) => {
                        if a > free {
                            return Err(Error::ExcessiveWithdrawal);
                        }
                        a
                    },
                    None => free,
                };
                account.near_amount = account.near_amount - withdraw_amount;
                proof {
                    crate::balances::lemma_entries_bytes_nonneg(account@.tokens);
                }
                self.insert_account_unchecked(&ctx.predecessor, &account);
                Ok((account.storage_balance(), withdraw_amount))
            },
            None => Err(Error::AccountNotRegistered),
        }
    }

    /// Unregisters the caller. Without `force` set this is a soft no-op
    /// returning `false`; with it, the caller's record is deleted and its
    /// full prepaid balance refunded. A forced call must carry exactly one
    /// attached unit as proof of intent.
    pub fn storage_unregister(&mut self, ctx: &CallContext, force: Option<bool>) -> (r: Result<
        (bool, u128),
        Error,
    >)
        requires
            old(self).wf(),
            force == Some(true) ==> ctx.attached_deposit == 1,
        ensures
            ({
                let step = spec_storage_unregister(old(self)@, ctx.predecessor@);
                if force != Some(true) {
                    r == Ok::<(bool, u128), Error>((false, 0)) && *final(self) == *old(self)
                } else {
                    match r {
                        Ok((done, refund)) => {
                            &&& done == true
                            &&& step matches Ok(o)
                            &&& final(self)@ == o.0
                            &&& refund == o.1
                            &&& final(self).wf()
                            &&& final(self).default_min_storage_bal == old(
                                self,
                            ).default_min_storage_bal
                        },
                        Err(e) => {
                            &&& step == Err::<(Map<Seq<char>, AccountV>, u128), Error>(e)
                            &&& *final(self) == *old(self)
                        },
                    }
                }
            }),
    {
        let forced = match force {
            Some(b) => b,
            None => false,
        };
        if !forced {
            Ok((false, 0))
        } else {
            match self.remove_account_unchecked(&ctx.predecessor) {
                Some(account) => Ok((true, account.near_amount)),
                None => Err(Error::AccountNotRegistered),
            }
        }
    }

    /// The registry-wide bounds on a fresh account's prepaid balance.
    pub fn storage_balance_bounds(&self) -> (r: StorageBalanceBounds)
        ensures
            r.min == self.default_min_storage_bal,
            r.max is None,
    {
        StorageBalanceBounds { min: self.default_min_storage_bal, max: None }
    }

    /// The balance pair for `account_id`, absent when it has no record.
    pub fn storage_balance_of(&self, account_id: &AccountId) -> (r: Option<StorageBalance>)
        requires
            self.wf(),
        ensures
            match r {
                Some(b) => {
                    &&& self@.contains_key(account_id@)
                    &&& b.total == self@[account_id@].near_amount
                    &&& b.available == self@[account_id@].available()
                },
                None => !self@.contains_key(account_id@),
            },
    {
        match self.get_account(account_id) {
            Some(account) => {
                proof {
                    self.lemma_wf_lookup(account_id@);
                }
                Some(account.storage_balance())
            },
            None => None,
        }
    }
}

} // verus!
