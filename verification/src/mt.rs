use vstd::prelude::*;

use crate::account::{record_bytes, spec_check_storage, AccountV, ACCOUNT_BASE_BYTES};
use crate::account_id::AccountId;
use crate::balances::{
    bal_of, entry_bytes, lemma_set_balance_unique, spec_set_balance, tokens_unique,
};
use crate::context::CallContext;
use crate::error::Error;
use crate::ledger::{internal_balance_subtract, spec_subtract};
use crate::store::{stored_bytes, Accounts};
use crate::token_id::{TokenId, TokenKey};
use crate::transfer::{OnTransferOpts, PendingTransfer};

verus! {

/// The balance table after crediting, pair by pair, each listed amount of
/// the multi-token asset it names on `contract`.
pub open spec fn spec_mt_credit(
    t: Seq<(TokenKey, u128)>,
    contract: Seq<char>,
    pairs: Seq<(Seq<char>, u128)>,
) -> Result<Seq<(TokenKey, u128)>, Error>
    decreases pairs.len(),
{
    if pairs.len() == 0 {
        Ok(t)
    } else {
        match spec_mt_credit(t, contract, pairs.drop_last()) {
            Ok(t1) => {
                let k = TokenKey::MT { contract_id: contract, token_id: pairs.last().0 };
                let cur = bal_of(t1, k);
                if cur + pairs.last().1 > u128::MAX {
                    Err(Error::AmountOverflow)
                } else {
                    Ok(spec_set_balance(t1, k, (cur + pairs.last().1) as u128))
                }
            },
            Err(e) => Err(e),
        }
    }
}

/// Once a prefix of the credits has failed, the whole batch fails the
/// same way.
pub proof fn lemma_mt_credit_err(
    t: Seq<(TokenKey, u128)>,
    contract: Seq<char>,
    pairs: Seq<(Seq<char>, u128)>,
    j: int,
)
    requires
        0 <= j <= pairs.len(),
        spec_mt_credit(t, contract, pairs.take(j)) is Err,
    ensures
        spec_mt_credit(t, contract, pairs) == spec_mt_credit(t, contract, pairs.take(j)),
    decreases pairs.len() - j,
{
    if j == pairs.len() {
        assert(pairs.take(j) =~= pairs);
    } else {
        assert(pairs.take(j + 1).drop_last() =~= pairs.take(j));
        lemma_mt_credit_err(t, contract, pairs, j + 1);
    }
}

/// The inbound multi-token batch transition: every listed amount credited
/// to the named account, then one settlement of the storage bill for the
/// grown record.
pub open spec fn spec_mt_on_transfer(
    m: Map<Seq<char>, AccountV>,
    credit: Seq<char>,
    contract: Seq<char>,
    pairs: Seq<(Seq<char>, u128)>,
    price: int,
) -> Result<Map<Seq<char>, AccountV>, Error> {
    if !m.contains_key(credit) {
        Err(Error::AccountNotRegistered)
    } else {
        match spec_mt_credit(m[credit].tokens, contract, pairs) {
            Err(e) => Err(e),
            Ok(t1) => {
                let a1 = AccountV {
                    near_amount: m[credit].near_amount,
                    near_used_for_storage: m[credit].near_used_for_storage,
                    tokens: t1,
                };
                match spec_check_storage(
                    a1,
                    record_bytes(credit, m[credit]),
                    record_bytes(credit, a1),
                    price,
                ) {
                    Ok(a2) => Ok(m.insert(credit, a2)),
                    Err(e) => Err(e),
                }
            },
        }
    }
}

/// Handles a multi-token contract reporting an inbound batch transfer:
/// each listed amount is credited to the transfer's sender, or to the
/// principal the attached options name. Returns the amounts left
/// unconsumed, one per token, all zero: the full batch is accepted.
pub fn mt_on_transfer(
    accounts: &mut Accounts,
    ctx: &CallContext,
    sender_id: AccountId,
    token_ids: Vec<String>,
    amounts: Vec<u128>,
    opts: Option<OnTransferOpts>,
) -> (r: Result<Vec<u128>, Error>)
    requires
        old(accounts).wf(),
        token_ids@.len() == amounts@.len(),
        ({
            let credit = match opts {
                Some(o) => o.sender_id@,
                None => sender_id@,
            };
            let pairs = Seq::new(token_ids@.len(), |i: int| (token_ids@[i]@, amounts@[i]));
            old(accounts)@.contains_key(credit) ==> (spec_mt_credit(
                old(accounts)@[credit].tokens,
                ctx.predecessor@,
                pairs,
            ) matches Ok(t1) ==> ACCOUNT_BASE_BYTES + credit.len()
                + crate::balances::entries_bytes(t1) <= u128::MAX)
        }),
    ensures
        ({
            let credit = match opts {
                Some(o) => o.sender_id@,
                None => sender_id@,
            };
            let pairs = Seq::new(token_ids@.len(), |i: int| (token_ids@[i]@, amounts@[i]));
            let step = spec_mt_on_transfer(
                old(accounts)@,
                credit,
                ctx.predecessor@,
                pairs,
                ctx.storage_byte_cost as int,
            );
            match r {
                Ok(unused) => {
                    &&& step matches Ok(m1)
                    &&& final(accounts)@ == m1
                    &&& final(accounts).wf()
                    &&& final(accounts).default_min_storage_bal == old(
                        accounts,
                    ).default_min_storage_bal
                    &&& unused@.len() == token_ids@.len()
                    &&& forall|i: int| 0 <= i < unused@.len() ==> unused@[i] == 0
                },
                Err(e) => {
                    &&& step == Err::<Map<Seq<char>, AccountV>, Error>(e)
                    &&& *final(accounts) == *old(accounts)
                },
            }
        }),
{
    let ghost pairs = Seq::new(token_ids@.len(), |i: int| (token_ids@[i]@, amounts@[i]));
    let credit_to = match &opts {
        Some(o) => o.sender_id.clone(),
        None => sender_id.clone(),
    };
    let mut account = match accounts.get_account_checked(&credit_to) {
        Ok(a) => a,
        Err(e) => {
            return Err(e);
        },
    };
    proof {
        accounts.lemma_wf_lookup(credit_to@);
        assert(pairs.take(0) =~= Seq::<(Seq<char>, u128)>::empty());
    }
    let n = token_ids.len();
    let mut i: usize = 0;
    while i < n
        invariant
            n == token_ids@.len(),
            amounts@.len() == n,
            i <= n,
            pairs == Seq::new(token_ids@.len(), |j: int| (token_ids@[j]@, amounts@[j])),
            credit_to@ == (match opts {
                Some(o) => o.sender_id@,
                None => sender_id@,
            }),
            *accounts == *old(accounts),
            accounts.wf(),
            accounts@.contains_key(credit_to@),
            account@.near_amount == accounts@[credit_to@].near_amount,
            account@.near_used_for_storage == accounts@[credit_to@].near_used_for_storage,
            tokens_unique(account@.tokens),
            spec_mt_credit(accounts@[credit_to@].tokens, ctx.predecessor@, pairs.take(i as int))
                == Ok::<Seq<(TokenKey, u128)>, Error>(account@.tokens),
        decreases n - i,
    {
        let token = TokenId::MT {
            contract_id: ctx.predecessor.clone(),
            token_id: token_ids[i].clone(),
        };
        let cur = account.info.get_balance(&token);
        proof {
            assert(pairs.take(i + 1).drop_last() =~= pairs.take(i as int));
            assert(pairs.take(i + 1).last() == pairs[i as int]);
        }
        let updated = match cur.checked_add(amounts[i]) {
            Some(u) => u,
            None => {
                proof {
                    let t0 = accounts@[credit_to@].tokens;
                    let k = TokenKey::MT { contract_id: ctx.predecessor@, token_id: pairs[i as int].0 };
                    assert(token@ == k);
                    assert(cur == bal_of(account@.tokens, k));
                    assert(spec_mt_credit(t0, ctx.predecessor@, pairs.take(i + 1))
                        == Err::<Seq<(TokenKey, u128)>, Error>(Error::AmountOverflow));
                    lemma_mt_credit_err(t0, ctx.predecessor@, pairs, i + 1);
                    assert(pairs =~= Seq::new(
                        token_ids@.len(),
                        |q: int| (token_ids@[q]@, amounts@[q]),
                    ));
                    assert(spec_mt_on_transfer(
                        old(accounts)@,
                        credit_to@,
                        ctx.predecessor@,
                        pairs,
                        ctx.storage_byte_cost as int,
                    ) == Err::<Map<Seq<char>, AccountV>, Error>(Error::AmountOverflow));
                }
                return Err(Error::AmountOverflow);
            },
        };
        proof {
            lemma_set_balance_unique(account@.tokens, token@, updated);
        }
        account.info.set_balance(&token, updated);
        i = i + 1;
    }
    proof {
        assert(pairs.take(n as int) =~= pairs);
    }
    match accounts.insert_account_check_storage(&credit_to, &mut account, ctx.storage_byte_cost) {
        Ok(_) => {
            let mut out: Vec<u128> = Vec::new();
            let mut j: usize = 0;
            while j < n
                invariant
                    j <= n,
                    out@.len() == j,
                    forall|k: int| 0 <= k < j ==> out@[k] == 0,
                decreases n - j,
            {
                out.push(0);
                j = j + 1;
            }
            Ok(out)
        },
        Err(e) => Err(e),
    }
}

/// Debits the caller and hands back the pending outbound transfer of a
/// multi-token amount to `recipient` — the caller itself when none is
/// named. The call must carry exactly one attached unit.
pub fn mt_internal_balance_withdraw_to(
    accounts: &mut Accounts,
    ctx: &CallContext,
    amount: u128,
    contract_id: AccountId,
    token_id: String,
    recipient: Option<AccountId>,
    msg: Option<String>,
) -> (r: Result<PendingTransfer, Error>)
    requires
        old(accounts).wf(),
        ctx.attached_deposit == 1,
        stored_bytes(old(accounts)@, ctx.predecessor@) + entry_bytes(
            TokenKey::MT { contract_id: contract_id@, token_id: token_id@ },
        ) <= u128::MAX,
    ensures
        ({
            let step = spec_subtract(
                old(accounts)@,
                ctx.predecessor@,
                TokenKey::MT { contract_id: contract_id@, token_id: token_id@ },
                amount,
                ctx.storage_byte_cost as int,
            );
            match r {
                Ok(p) => {
                    &&& step matches Ok(m1)
                    &&& final(accounts)@ == m1
                    &&& final(accounts).wf()
                    &&& final(accounts).default_min_storage_bal == old(
                        accounts,
                    ).default_min_storage_bal
                    &&& p@.sender == ctx.predecessor@
                    &&& p@.recipient == (match recipient {
                        Some(rec) => rec@,
                        None => ctx.predecessor@,
                    })
                    &&& p@.token == (TokenKey::MT {
                        contract_id: contract_id@,
                        token_id: token_id@,
                    })
                    &&& p@.amount == amount
                    &&& p@.memo == (match msg {
                        Some(m) => Some(m@),
                        None => None::<Seq<char>>,
                    })
                    &&& p@.is_call == false
                },
                Err(e) => {
                    &&& step == Err::<Map<Seq<char>, AccountV>, Error>(e)
                    &&& *final(accounts) == *old(accounts)
                },
            }
        }),
{
    let caller = ctx.predecessor.clone();
    let recipient = match recipient {
        Some(rec) => rec,
        None => caller.clone(),
    };
    internal_mt_withdraw(accounts, ctx, caller, contract_id, token_id, recipient, amount, msg)
}

/// The debit leg of an outbound multi-token transfer: subtracts the
/// amount from the sender's ledger and records the transfer to carry out.
fn internal_mt_withdraw(
    accounts: &mut Accounts,
    ctx: &CallContext,
    sender: AccountId,
    contract_id: AccountId,
    token_id: String,
    recipient: AccountId,
    amount: u128,
    memo: Option<String>,
) -> (r: Result<PendingTransfer, Error>)
    requires
        old(accounts).wf(),
        sender@ == ctx.predecessor@,
        stored_bytes(old(accounts)@, sender@) + entry_bytes(
            TokenKey::MT { contract_id: contract_id@, token_id: token_id@ },
        ) <= u128::MAX,
    ensures
        ({
            let step = spec_subtract(
                old(accounts)@,
                sender@,
                TokenKey::MT { contract_id: contract_id@, token_id: token_id@ },
                amount,
                ctx.storage_byte_cost as int,
            );
            match r {
                Ok(p) => {
                    &&& step matches Ok(m1)
                    &&& final(accounts)@ == m1
                    &&& final(accounts).wf()
                    &&& final(accounts).default_min_storage_bal == old(
                        accounts,
                    ).default_min_storage_bal
                    &&& p@.sender == sender@
                    &&& p@.recipient == recipient@
                    &&& p@.token == (TokenKey::MT {
                        contract_id: contract_id@,
                        token_id: token_id@,
                    })
                    &&& p@.amount == amount
                    &&& p@.memo == (match memo {
                        Some(m) => Some(m@),
                        None => None::<Seq<char>>,
                    })
                    &&& p@.is_call == false
                },
                Err(e) => {
                    &&& step == Err::<Map<Seq<char>, AccountV>, Error>(e)
                    &&& *final(accounts) == *old(accounts)
                },
            }
        }),
{
    let token = TokenId::MT { contract_id, token_id };
    match internal_balance_subtract(accounts, &sender, &token, amount, ctx.storage_byte_cost) {
        Ok(()) => Ok(
            PendingTransfer {
                sender,
                recipient,
                token,
                amount,
                memo,
                is_call: false,
            },
        ),
        Err(e) => Err(e),
    }
}

} // verus!
