use vstd::prelude::*;

use crate::account::{record_bytes, spec_check_storage, Account, AccountV, ACCOUNT_BASE_BYTES};
use crate::account_id::{max_len_account_id, AccountId};
use crate::balances::{
    bal_of, entry_bytes, lemma_bal_of_at, lemma_entries_bytes_nonneg, lemma_set_balance_bytes,
    lemma_set_balance_unique, spec_set_balance,
};
use crate::context::CallContext;
use crate::error::Error;
use crate::store::{stored_bytes, Accounts};
use crate::token_id::{TokenId, TokenKey};

verus! {

/// The credit transition: adds `amount` to the account's balance of asset
/// `k`, then settles the storage bill for any grown record bytes.
pub open spec fn spec_increase(
    m: Map<Seq<char>, AccountV>,
    id: Seq<char>,
    k: TokenKey,
    amount: u128,
    price: int,
) -> Result<Map<Seq<char>, AccountV>, Error> {
    if !m.contains_key(id) {
        Err(Error::AccountNotRegistered)
    } else {
        let a = m[id];
        let cur = bal_of(a.tokens, k);
        if cur + amount > u128::MAX {
            Err(Error::AmountOverflow)
        } else {
            let a1 = AccountV {
                near_amount: a.near_amount,
                near_used_for_storage: a.near_used_for_storage,
                tokens: spec_set_balance(a.tokens, k, (cur + amount) as u128),
            };
            match spec_check_storage(a1, record_bytes(id, a), record_bytes(id, a1), price) {
                Ok(a2) => Ok(m.insert(id, a2)),
                Err(e) => Err(e),
            }
        }
    }
}

/// The debit transition: takes `amount` from the account's balance of
/// asset `k`; the entry stays, whatever remains in it.
pub open spec fn spec_subtract(
    m: Map<Seq<char>, AccountV>,
    id: Seq<char>,
    k: TokenKey,
    amount: u128,
    price: int,
) -> Result<Map<Seq<char>, AccountV>, Error> {
    if !m.contains_key(id) {
        Err(Error::AccountNotRegistered)
    } else {
        let a = m[id];
        let cur = bal_of(a.tokens, k);
        if cur < amount {
            Err(Error::InsufficientBalance)
        } else {
            let a1 = AccountV {
                near_amount: a.near_amount,
                near_used_for_storage: a.near_used_for_storage,
                tokens: spec_set_balance(a.tokens, k, (cur - amount) as u128),
            };
            match spec_check_storage(a1, record_bytes(id, a), record_bytes(id, a1), price) {
                Ok(a2) => Ok(m.insert(id, a2)),
                Err(e) => Err(e),
            }
        }
    }
}

/// The account's balance of one asset.
pub fn internal_balance_get_balance(account: &Account, token_id: &TokenId) -> (r: u128)
    ensures
        r == bal_of(account@.tokens, token_id@),
{
    account.info.get_balance(token_id)
}

/// Every asset balance an account holds, in record order.
pub fn internal_balance_get_all_balances(accounts: &Accounts, account_id: &AccountId) -> (r:
    Result<Vec<(TokenId, u128)>, Error>)
    requires
        accounts.wf(),
    ensures
        match r {
            Ok(v) => {
                &&& accounts@.contains_key(account_id@)
                &&& v@.len() == accounts@[account_id@].tokens.len()
                &&& forall|i: int|
                    0 <= i < v@.len() ==> (#[trigger] v@[i]).0@ == accounts@[account_id@].tokens[i].0
                        && v@[i].1 == accounts@[account_id@].tokens[i].1
            },
            Err(e) => e == Error::AccountNotRegistered && !accounts@.contains_key(account_id@),
        },
{
    let account = match accounts.get_account_checked(account_id) {
        Ok(a) => a,
        Err(e) => {
            return Err(e);
        },
    };
    proof {
        accounts.lemma_wf_lookup(account_id@);
    }
    let tokens = account.info.get_all_tokens();
    let mut out: Vec<(TokenId, u128)> = Vec::new();
    let mut i: usize = 0;
    while i < tokens.len()
        invariant
            accounts@.contains_key(account_id@),
            account@ =~= accounts@[account_id@],
            crate::balances::tokens_unique(account@.tokens),
            tokens@.len() == account@.tokens.len(),
            forall|j: int| 0 <= j < tokens@.len() ==> tokens@[j]@ == account@.tokens[j].0,
            i <= tokens@.len(),
            out@.len() == i,
            forall|j: int|
                0 <= j < i ==> (#[trigger] out@[j]).0@ == account@.tokens[j].0 && out@[j].1
                    == account@.tokens[j].1,
        decreases tokens@.len() - i,
    {
        let bal = account.info.get_balance(&tokens[i]);
        proof {
            lemma_bal_of_at(account@.tokens, i as int);
        }
        out.push((tokens[i].clone(), bal));
        i = i + 1;
    }
    Ok(out)
}

/// Credits `amount` of asset `token_id` to the account, charging it for a
/// fresh balance entry's bytes when the asset had none.
pub fn internal_balance_increase(
    accounts: &mut Accounts,
    account_id: &AccountId,
    token_id: &TokenId,
    amount: u128,
    byte_cost: u128,
) -> (r: Result<(), Error>)
    requires
        old(accounts).wf(),
        stored_bytes(old(accounts)@, account_id@) + entry_bytes(token_id@) <= u128::MAX,
    ensures
        ({
            let step = spec_increase(
                old(accounts)@,
                account_id@,
                token_id@,
                amount,
                byte_cost as int,
            );
            match r {
                Ok(()) => {
                    &&& step matches Ok(m1)
                    &&& final(accounts)@ == m1
                    &&& final(accounts).wf()
                    &&& final(accounts).default_min_storage_bal == old(
                        accounts,
                    ).default_min_storage_bal
                },
                Err(e) => {
                    &&& step == Err::<Map<Seq<char>, AccountV>, Error>(e)
                    &&& *final(accounts) == *old(accounts)
                },
            }
        }),
{
    let mut account = match accounts.get_account_checked(account_id) {
        Ok(a) => a,
        Err(e) => {
            return Err(e);
        },
    };
    proof {
        accounts.lemma_wf_lookup(account_id@);
    }
    let current_balance = account.info.get_balance(token_id);
    let updated = match current_balance.checked_add(amount) {
        Some(u) => u,
        None => {
            return Err(Error::AmountOverflow);
        },
    };
    account.info.set_balance(token_id, updated);
    proof {
        lemma_set_balance_bytes(old(accounts)@[account_id@].tokens, token_id@, updated);
        lemma_set_balance_unique(old(accounts)@[account_id@].tokens, token_id@, updated);
    }
    match accounts.insert_account_check_storage(account_id, &mut account, byte_cost) {
        Ok(_) => Ok(()),
        Err(e) => Err(e),
    }
}

/// Debits `amount` of asset `token_id` from the account; reports
/// `InsufficientBalance` when the balance cannot cover it.
pub fn internal_balance_subtract(
    accounts: &mut Accounts,
    account_id: &AccountId,
    token: &TokenId,
    amount: u128,
    byte_cost: u128,
) -> (r: Result<(), Error>)
    requires
        old(accounts).wf(),
        stored_bytes(old(accounts)@, account_id@) + entry_bytes(token@) <= u128::MAX,
    ensures
        ({
            let step = spec_subtract(old(accounts)@, account_id@, token@, amount, byte_cost as int);
            match r {
                Ok(()) => {
                    &&& step matches Ok(m1)
                    &&& final(accounts)@ == m1
                    &&& final(accounts).wf()
                    &&& final(accounts).default_min_storage_bal == old(
                        accounts,
                    ).default_min_storage_bal
                },
                Err(e) => {
                    &&& step == Err::<Map<Seq<char>, AccountV>, Error>(e)
                    &&& *final(accounts) == *old(accounts)
                },
            }
        }),
{
    let mut account = match accounts.get_account_checked(account_id) {
        Ok(a) => a,
        Err(e) => {
            return Err(e);
        },
    };
    proof {
        accounts.lemma_wf_lookup(account_id@);
    }
    let current_balance = account.info.get_balance(token);
    if current_balance < amount {
        return Err(Error::InsufficientBalance);
    }
    let updated = current_balance - amount;
    account.info.set_balance(token, updated);
    proof {
        lemma_set_balance_bytes(old(accounts)@[account_id@].tokens, token@, updated);
        lemma_set_balance_unique(old(accounts)@[account_id@].tokens, token@, updated);
    }
    match accounts.insert_account_check_storage(account_id, &mut account, byte_cost) {
        Ok(_) => Ok(()),
        Err(e) => Err(e),
    }
}

/// Moves `amount` of an asset from the caller to `recipient`: a debit and
/// a credit, each through the storage meter. When either side fails, the
/// whole transfer is undone, the way the host discards an aborted call.
/// The call must carry exactly one attached unit as proof of intent.
pub fn internal_balance_transfer(
    accounts: &mut Accounts,
    ctx: &CallContext,
    recipient: &AccountId,
    token_id: &TokenId,
    amount: u128,
    msg: Option<String>,
) -> (r: Result<(), Error>)
    requires
        old(accounts).wf(),
        ctx.attached_deposit == 1,
        stored_bytes(old(accounts)@, ctx.predecessor@) + entry_bytes(token_id@) <= u128::MAX,
        spec_subtract(
            old(accounts)@,
            ctx.predecessor@,
            token_id@,
            amount,
            ctx.storage_byte_cost as int,
        ) matches Ok(m1) ==> stored_bytes(m1, recipient@) + entry_bytes(token_id@) <= u128::MAX,
    ensures
        ({
            let s1 = spec_subtract(
                old(accounts)@,
                ctx.predecessor@,
                token_id@,
                amount,
                ctx.storage_byte_cost as int,
            );
            match r {
                Ok(()) => {
                    &&& s1 matches Ok(m1)
                    &&& spec_increase(m1, recipient@, token_id@, amount, ctx.storage_byte_cost as int)
                        matches Ok(m2)
                    &&& final(accounts)@ == m2
                    &&& final(accounts).wf()
                    &&& final(accounts).default_min_storage_bal == old(
                        accounts,
                    ).default_min_storage_bal
                },
                Err(e) => {
                    &&& final(accounts)@ =~= old(accounts)@
                    &&& final(accounts).wf()
                    &&& final(accounts).default_min_storage_bal == old(
                        accounts,
                    ).default_min_storage_bal
                    &&& (s1 == Err::<Map<Seq<char>, AccountV>, Error>(e) || (s1 matches Ok(m1)
                        && spec_increase(
                        m1,
                        recipient@,
                        token_id@,
                        amount,
                        ctx.storage_byte_cost as int,
                    ) == Err::<Map<Seq<char>, AccountV>, Error>(e)))
                },
            }
        }),
{
    let _ = msg;
    let caller = &ctx.predecessor;
    let saved = match accounts.get_account_checked(caller) {
        Ok(a) => a,
        Err(e) => {
            return Err(e);
        },
    };
    proof {
        accounts.lemma_wf_lookup(caller@);
    }
    match internal_balance_subtract(accounts, caller, token_id, amount, ctx.storage_byte_cost) {
        Ok(()) => {},
        Err(e) => {
            return Err(e);
        },
    }
    match internal_balance_increase(accounts, recipient, token_id, amount, ctx.storage_byte_cost) {
        Ok(()) => Ok(()),
        Err(e) => {
            accounts.insert_account_unchecked(caller, &saved);
            proof {
                assert(accounts@ =~= old(accounts)@);
            }
            Err(e)
        },
    }
}

/// Prepaid balance required to track one more asset balance for an
/// account; the name the storage-management surface quotes it under.
pub fn get_storage_cost_for_one_balance(
    accounts: &mut Accounts,
    token_id: TokenId,
    byte_cost: u128,
) -> (r: u128)
    requires
        old(accounts).wf(),
        !old(accounts)@.contains_key(Seq::new(64, |i: int| 'a')),
        entry_bytes(token_id@) * byte_cost <= u128::MAX,
        ACCOUNT_BASE_BYTES + 64 + entry_bytes(token_id@) <= u128::MAX,
    ensures
        r == entry_bytes(token_id@) * byte_cost,
        final(accounts)@ == old(accounts)@,
        final(accounts).wf(),
        final(accounts).default_min_storage_bal == old(accounts).default_min_storage_bal,
{
    internal_balance_get_storage_cost(accounts, token_id, byte_cost)
}

/// Prepaid balance required to track one more asset balance for an
/// account, measured by giving a synthetic account one zero balance and
/// reading off the grown bytes.
pub fn internal_balance_get_storage_cost(
    accounts: &mut Accounts,
    token_id: TokenId,
    byte_cost: u128,
) -> (r: u128)
    requires
        old(accounts).wf(),
        !old(accounts)@.contains_key(Seq::new(64, |i: int| 'a')),
        entry_bytes(token_id@) * byte_cost <= u128::MAX,
        ACCOUNT_BASE_BYTES + 64 + entry_bytes(token_id@) <= u128::MAX,
    ensures
        r == entry_bytes(token_id@) * byte_cost,
        final(accounts)@ == old(accounts)@,
        final(accounts).wf(),
        final(accounts).default_min_storage_bal == old(accounts).default_min_storage_bal,
{
    let aid = max_len_account_id();
    let default_account = Account::default_from_account_id(&aid);
    accounts.insert_account_unchecked(&aid, &default_account);

    let mut account = match accounts.get_account(&aid) {
        Some(a) => a,
        None => {
            proof {
                assert(false);
            }
            vstd::pervasive::unreached()
        },
    };
    account.info.set_balance(&token_id, 0);
    proof {
        lemma_set_balance_bytes(default_account@.tokens, token_id@, 0);
        lemma_set_balance_unique(default_account@.tokens, token_id@, 0);
        lemma_entries_bytes_nonneg(account@.tokens);
        assert(account@.tokens == spec_set_balance(default_account@.tokens, token_id@, 0));
    }
    accounts.insert_account_unchecked(&aid, &account);

    let storage_delta = token_id.footprint() + 16;
    proof {
        assert(storage_delta == entry_bytes(token_id@));
    }

    accounts.remove_account_unchecked(&aid);
    proof {
        assert(accounts@ =~= old(accounts)@);
    }
    storage_delta * byte_cost
}

} // verus!
