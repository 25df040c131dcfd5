use vstd::prelude::*;

use crate::account::AccountV;
use crate::account_id::AccountId;
use crate::balances::entry_bytes;
use crate::context::CallContext;
use crate::error::Error;
use crate::ledger::{internal_balance_increase, internal_balance_subtract, spec_increase,
    spec_subtract};
use crate::parse::{parse_u128, spec_parse_u128};
use crate::store::{stored_bytes, Accounts};
use crate::token_id::{TokenId, TokenKey};
use crate::transfer::{OnTransferOpts, PendingTransfer};

verus! {

/// Handles a fungible-token contract reporting an inbound transfer: the
/// amount is credited to the transfer's sender, or to the principal the
/// attached options name. Returns the amount left unconsumed, always
/// zero: the full amount is accepted.
pub fn ft_on_transfer(
    accounts: &mut Accounts,
    ctx: &CallContext,
    sender_id: AccountId,
    amount: String,
    opts: Option<OnTransferOpts>,
) -> (r: Result<String, Error>)
    requires
        old(accounts).wf(),
        spec_parse_u128(amount@) is Some,
        ({
            let credit = match opts {
                Some(o) => o.sender_id@,
                None => sender_id@,
            };
            stored_bytes(old(accounts)@, credit) + entry_bytes(
                TokenKey::FT { contract_id: ctx.predecessor@ },
            ) <= u128::MAX
        }),
    ensures
        ({
            let credit = match opts {
                Some(o) => o.sender_id@,
                None => sender_id@,
            };
            let step = spec_increase(
                old(accounts)@,
                credit,
                TokenKey::FT { contract_id: ctx.predecessor@ },
                spec_parse_u128(amount@)->0,
                ctx.storage_byte_cost as int,
            );
            match r {
                Ok(unused) => {
                    &&& step matches Ok(m1)
                    &&& final(accounts)@ == m1
                    &&& final(accounts).wf()
                    &&& final(accounts).default_min_storage_bal == old(
                        accounts,
                    ).default_min_storage_bal
                    &&& unused@ == seq!['0']
                },
                Err(e) => {
                    &&& step == Err::<Map<Seq<char>, AccountV>, Error>(e)
                    &&& *final(accounts) == *old(accounts)
                },
            }
        }),
{
    let credit_to = match opts {
        Some(o) => o.sender_id,
        None => sender_id,
    };
    let token_id = TokenId::FT { contract_id: ctx.predecessor.clone() };
    let amount_parsed = match parse_u128(amount.as_str()) {
        Some(v) => v,
        None => {
            proof {
                assert(false);
            }
            vstd::pervasive::unreached()
        },
    };
    match internal_balance_increase(
        accounts,
        &credit_to,
        &token_id,
        amount_parsed,
        ctx.storage_byte_cost,
    ) {
        Ok(()) => {
            let unused = zero_amount_string();
            Ok(unused)
        },
        Err(e) => Err(e),
    }
}

/// The decimal text of a zero amount, as inbound-transfer handlers report
/// it back to the asset contract.
fn zero_amount_string() -> (r: String)
    ensures
        r@ == seq!['0'],
{
    let r = "0".to_owned();
    proof {
        reveal_strlit("0");
        assert(r@ =~= seq!['0']);
    }
    r
}

/// Debits the caller and hands back the pending outbound transfer of a
/// fungible-token amount to `recipient` — the caller itself when none is
/// named. The call must carry exactly one attached unit.
pub fn ft_internal_balance_withdraw_to(
    accounts: &mut Accounts,
    ctx: &CallContext,
    amount: u128,
    token_id: AccountId,
    recipient: Option<AccountId>,
    msg: Option<String>,
) -> (r: Result<PendingTransfer, Error>)
    requires
        old(accounts).wf(),
        ctx.attached_deposit == 1,
        stored_bytes(old(accounts)@, ctx.predecessor@) + entry_bytes(
            TokenKey::FT { contract_id: token_id@ },
        ) <= u128::MAX,
    ensures
        ({
            let step = spec_subtract(
                old(accounts)@,
                ctx.predecessor@,
                TokenKey::FT { contract_id: token_id@ },
                amount,
                ctx.storage_byte_cost as int,
            );
            match r {
                Ok(p) => {
                    &&& step matches Ok(m1)
                    &&& final(accounts)@ == m1
                    &&& final(accounts).wf()
                    &&& final(accounts).default_min_storage_bal == old(
                        accounts,
                    ).default_min_storage_bal
                    &&& p@.sender == ctx.predecessor@
                    &&& p@.recipient == (match recipient {
                        Some(rec) => rec@,
                        None => ctx.predecessor@,
                    })
                    &&& p@.token == (TokenKey::FT { contract_id: token_id@ })
                    &&& p@.amount == amount
                    &&& p@.memo == (match msg {
                        Some(m) => Some(m@),
                        None => None::<Seq<char>>,
                    })
                    &&& p@.is_call == false
                },
                Err(e) => {
                    &&& step == Err::<Map<Seq<char>, AccountV>, Error>(e)
                    &&& *final(accounts) == *old(accounts)
                },
            }
        }),
{
    let caller = ctx.predecessor.clone();
    let recipient = match recipient {
        Some(rec) => rec,
        None => caller.clone(),
    };
    internal_ft_withdraw(accounts, ctx, caller, token_id, recipient, amount, msg)
}

/// The debit leg of an outbound fungible-token transfer: subtracts the
/// amount from the sender's ledger and records the transfer to carry out.
fn internal_ft_withdraw(
    accounts: &mut Accounts,
    ctx: &CallContext,
    sender: AccountId,
    contract_id: AccountId,
    recipient: AccountId,
    amount: u128,
    memo: Option<String>,
) -> (r: Result<PendingTransfer, Error>)
    requires
        old(accounts).wf(),
        sender@ == ctx.predecessor@,
        stored_bytes(old(accounts)@, sender@) + entry_bytes(
            TokenKey::FT { contract_id: contract_id@ },
        ) <= u128::MAX,
    ensures
        ({
            let step = spec_subtract(
                old(accounts)@,
                sender@,
                TokenKey::FT { contract_id: contract_id@ },
                amount,
                ctx.storage_byte_cost as int,
            );
            match r {
                Ok(p) => {
                    &&& step matches Ok(m1)
                    &&& final(accounts)@ == m1
                    &&& final(accounts).wf()
                    &&& final(accounts).default_min_storage_bal == old(
                        accounts,
                    ).default_min_storage_bal
                    &&& p@.sender == sender@
                    &&& p@.recipient == recipient@
                    &&& p@.token == (TokenKey::FT { contract_id: contract_id@ })
                    &&& p@.amount == amount
                    &&& p@.memo == (match memo {
                        Some(m) => Some(m@),
                        None => None::<Seq<char>>,
                    })
                    &&& p@.is_call == false
                },
                Err(e) => {
                    &&& step == Err::<Map<Seq<char>, AccountV>, Error>(e)
                    &&& *final(accounts) == *old(accounts)
                },
            }
        }),
{
    let token = TokenId::FT { contract_id };
    match internal_balance_subtract(accounts, &sender, &token, amount, ctx.storage_byte_cost) {
        Ok(()) => Ok(
            PendingTransfer {
                sender,
                recipient,
                token,
                amount,
                memo,
                is_call: false,
            },
        ),
        Err(e) => Err(e),
    }
}

} // verus!
