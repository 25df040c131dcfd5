use vstd::prelude::*;

use crate::account::AccountV;
use crate::account_id::AccountId;
use crate::balances::entry_bytes;
use crate::context::CallContext;
use crate::error::Error;
use crate::ledger::{internal_balance_increase, internal_balance_subtract, spec_increase,
    spec_subtract};
use crate::store::{stored_bytes, Accounts};
use crate::token_id::{TokenId, TokenKey};
use crate::transfer::{OnTransferOpts, PendingTransfer};

verus! {

/// Handles a non-fungible-token contract reporting an inbound transfer:
/// one unit of the token is credited to its previous owner, or to the
/// principal the attached options name. Returns whether the token should
/// be returned to the sender, always false: the token is accepted.
pub fn nft_on_transfer(
    accounts: &mut Accounts,
    ctx: &CallContext,
    sender_id: AccountId,
    previous_owner_id: AccountId,
    token_id: String,
    opts: Option<OnTransferOpts>,
) -> (r: Result<bool, Error>)
    requires
        old(accounts).wf(),
        ({
            let credit = match opts {
                Some(o) => o.sender_id@,
                None => previous_owner_id@,
            };
            stored_bytes(old(accounts)@, credit) + entry_bytes(
                TokenKey::NFT { contract_id: ctx.predecessor@, token_id: token_id@ },
            ) <= u128::MAX
        }),
    ensures
        ({
            let credit = match opts {
                Some(o) => o.sender_id@,
                None => previous_owner_id@,
            };
            let step = spec_increase(
                old(accounts)@,
                credit,
                TokenKey::NFT { contract_id: ctx.predecessor@, token_id: token_id@ },
                1,
                ctx.storage_byte_cost as int,
            );
            match r {
                Ok(returned) => {
                    &&& step matches Ok(m1)
                    &&& final(accounts)@ == m1
                    &&& final(accounts).wf()
                    &&& final(accounts).default_min_storage_bal == old(
                        accounts,
                    ).default_min_storage_bal
                    &&& returned == false
                },
                Err(e) => {
                    &&& step == Err::<Map<Seq<char>, AccountV>, Error>(e)
                    &&& *final(accounts) == *old(accounts)
                },
            }
        }),
{
    let _ = sender_id;
    let credit_to = match opts {
        Some(o) => o.sender_id,
        None => previous_owner_id,
    };
    let token = TokenId::NFT { contract_id: ctx.predecessor.clone(), token_id };
    match internal_balance_increase(accounts, &credit_to, &token, 1, ctx.storage_byte_cost) {
        Ok(()) => Ok(false),
        Err(e) => Err(e),
    }
}

/// Debits the caller's single unit of the token and hands back the
/// pending outbound transfer to `recipient` — the caller itself when none
/// is named. The call must carry exactly one attached unit.
pub fn nft_internal_balance_withdraw_to(
    accounts: &mut Accounts,
    ctx: &CallContext,
    contract_id: AccountId,
    token_id: String,
    recipient: Option<AccountId>,
    msg: Option<String>,
) -> (r: Result<PendingTransfer, Error>)
    requires
        old(accounts).wf(),
        ctx.attached_deposit == 1,
        stored_bytes(old(accounts)@, ctx.predecessor@) + entry_bytes(
            TokenKey::NFT { contract_id: contract_id@, token_id: token_id@ },
        ) <= u128::MAX,
    ensures
        ({
            let step = spec_subtract(
                old(accounts)@,
                ctx.predecessor@,
                TokenKey::NFT { contract_id: contract_id@, token_id: token_id@ },
                1,
                ctx.storage_byte_cost as int,
            );
            match r {
                Ok(p) => {
                    &&& step matches Ok(m1)
                    &&& final(accounts)@ == m1
                    &&& final(accounts).wf()
                    &&& final(accounts).default_min_storage_bal == old(
                        accounts,
                    ).default_min_storage_bal
                    &&& p@.sender == ctx.predecessor@
                    &&& p@.recipient == (match recipient {
                        Some(rec) => rec@,
                        None => ctx.predecessor@,
                    })
                    &&& p@.token == (TokenKey::NFT {
                        contract_id: contract_id@,
                        token_id: token_id@,
                    })
                    &&& p@.amount == 1
                    &&& p@.memo == (match msg {
                        Some(m) => Some(m@),
                        None => None::<Seq<char>>,
                    })
                    &&& p@.is_call == false
                },
                Err(e) => {
                    &&& step == Err::<Map<Seq<char>, AccountV>, Error>(e)
                    &&& *final(accounts) == *old(accounts)
                },
            }
        }),
{
    let caller = ctx.predecessor.clone();
    let recipient = match recipient {
        Some(rec) => rec,
        None => caller.clone(),
    };
    internal_nft_withdraw(accounts, ctx, caller, contract_id, token_id, recipient, msg)
}

/// The debit leg of an outbound non-fungible-token transfer: subtracts
/// the single unit from the sender's ledger and records the transfer to
/// carry out.
fn internal_nft_withdraw(
    accounts: &mut Accounts,
    ctx: &CallContext,
    sender: AccountId,
    contract_id: AccountId,
    token_id: String,
    recipient: AccountId,
    memo: Option<String>,
) -> (r: Result<PendingTransfer, Error>)
    requires
        old(accounts).wf(),
        sender@ == ctx.predecessor@,
        stored_bytes(old(accounts)@, sender@) + entry_bytes(
            TokenKey::NFT { contract_id: contract_id@, token_id: token_id@ },
        ) <= u128::MAX,
    ensures
        ({
            let step = spec_subtract(
                old(accounts)@,
                sender@,
                TokenKey::NFT { contract_id: contract_id@, token_id: token_id@ },
                1,
                ctx.storage_byte_cost as int,
            );
            match r {
                Ok(p) => {
                    &&& step matches Ok(m1)
                    &&& final(accounts)@ == m1
                    &&& final(accounts).wf()
                    &&& final(accounts).default_min_storage_bal == old(
                        accounts,
                    ).default_min_storage_bal
                    &&& p@.sender == sender@
                    &&& p@.recipient == recipient@
                    &&& p@.token == (TokenKey::NFT {
                        contract_id: contract_id@,
                        token_id: token_id@,
                    })
                    &&& p@.amount == 1
                    &&& p@.memo == (match memo {
                        Some(m) => Some(m@),
                        None => None::<Seq<char>>,
                    })
                    &&& p@.is_call == false
                },
                Err(e) => {
                    &&& step == Err::<Map<Seq<char>, AccountV>, Error>(e)
                    &&& *final(accounts) == *old(accounts)
                },
            }
        }),
{
    let token = TokenId::NFT { contract_id, token_id };
    match internal_balance_subtract(accounts, &sender, &token, 1, ctx.storage_byte_cost) {
        Ok(()) => Ok(
            PendingTransfer {
                sender,
                recipient,
                token,
                amount: 1,
                memo,
                is_call: false,
            },
        ),
        Err(e) => Err(e),
    }
}

} // verus!
