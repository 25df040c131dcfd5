use vstd::prelude::*;

use crate::account::AccountV;
use crate::account_id::AccountId;
use crate::balances::entry_bytes;
use crate::context::CallContext;
use crate::error::Error;
use crate::ledger::{internal_balance_increase, spec_increase, spec_subtract};
use crate::payload::{parse_reported_amount, parsed_amount};
use crate::store::{stored_bytes, Accounts};
use crate::token_id::{TokenId, TokenKey};

verus! {

/// Options an inbound transfer may attach to name the principal the
/// credit belongs to, in place of the literal transfer caller.
pub struct OnTransferOpts {
    pub sender_id: AccountId,
}

impl Clone for OnTransferOpts {
    fn clone(&self) -> (r: Self)
        ensures
            r.sender_id@ == self.sender_id@,
    {
        OnTransferOpts { sender_id: self.sender_id.clone() }
    }
}

/// Mathematical form of a pending outbound transfer.
pub struct PendingTransferV {
    pub sender: Seq<char>,
    pub recipient: Seq<char>,
    pub token: TokenKey,
    pub amount: u128,
    pub memo: Option<Seq<char>>,
    pub is_call: bool,
}

/// An outbound transfer already debited from the sender's ledger, waiting
/// for the host to carry it to the external asset contract and to invoke
/// the resolve callback with that call's outcome.
pub struct PendingTransfer {
    pub sender: AccountId,
    pub recipient: AccountId,
    pub token: TokenId,
    pub amount: u128,
    pub memo: Option<String>,
    pub is_call: bool,
}

impl View for PendingTransfer {
    type V = PendingTransferV;

    open spec fn view(&self) -> PendingTransferV {
        PendingTransferV {
            sender: self.sender@,
            recipient: self.recipient@,
            token: self.token@,
            amount: self.amount,
            memo: match self.memo {
                Some(m) => Some(m@),
                None => None,
            },
            is_call: self.is_call,
        }
    }
}

/// The ledger amount an outbound transfer of `k` debits: single
/// non-fungible assets move one at a time, the other kinds by amount.
pub open spec fn withdraw_amount(k: TokenKey, amount: u128) -> u128 {
    match k {
        TokenKey::NFT { .. } => 1,
        _ => amount,
    }
}

/// Debits the caller's balance of `token_id` and hands back the pending
/// outbound transfer for the host to carry out: the external transfer
/// itself and the resolve callback that settles the ledger afterwards.
/// The call must carry exactly one attached unit as proof of intent.
pub fn internal_balance_withdraw_to(
    accounts: &mut Accounts,
    ctx: &CallContext,
    amount: u128,
    token_id: &TokenId,
    recipient: Option<AccountId>,
    msg: Option<String>,
) -> (r: Result<PendingTransfer, Error>)
    requires
        old(accounts).wf(),
        ctx.attached_deposit == 1,
        stored_bytes(old(accounts)@, ctx.predecessor@) + entry_bytes(token_id@) <= u128::MAX,
    ensures
        ({
            let amt = withdraw_amount(token_id@, amount);
            let step = spec_subtract(
                old(accounts)@,
                ctx.predecessor@,
                token_id@,
                amt,
                ctx.storage_byte_cost as int,
            );
            match r {
                Ok(p) => {
                    &&& step matches Ok(m1)
                    &&& final(accounts)@ == m1
                    &&& final(accounts).wf()
                    &&& final(accounts).default_min_storage_bal == old(
                        accounts,
                    ).default_min_storage_bal
                    &&& p@.sender == ctx.predecessor@
                    &&& p@.recipient == (match recipient {
                        Some(rec) => rec@,
                        None => ctx.predecessor@,
                    })
                    &&& p@.token == token_id@
                    &&& p@.amount == amt
                    &&& p@.memo == (match msg {
                        Some(m) => Some(m@),
                        None => None::<Seq<char>>,
                    })
                    &&& p@.is_call == false
                },
                Err(e) => {
                    &&& step == Err::<Map<Seq<char>, AccountV>, Error>(e)
                    &&& *final(accounts) == *old(accounts)
                },
            }
        }),
{
    match token_id {
        TokenId::FT { contract_id } => crate::ft::ft_internal_balance_withdraw_to(
            accounts,
            ctx,
            amount,
            contract_id.clone(),
            recipient,
            msg,
        ),
        TokenId::MT { contract_id, token_id } => crate::mt::mt_internal_balance_withdraw_to(
            accounts,
            ctx,
            amount,
            contract_id.clone(),
            token_id.clone(),
            recipient,
            msg,
        ),
        TokenId::NFT { contract_id, token_id } => crate::nft::nft_internal_balance_withdraw_to(
            accounts,
            ctx,
            contract_id.clone(),
            token_id.clone(),
            recipient,
            msg,
        ),
    }
}

/// What resolving a settled outbound transfer leaves behind: the store
/// afterwards and the amount the external leg actually consumed.
pub open spec fn spec_resolve(
    m: Map<Seq<char>, AccountV>,
    id: Seq<char>,
    k: TokenKey,
    amount: u128,
    is_call: bool,
    promise_result: Option<Seq<u8>>,
    price: int,
) -> Result<(Map<Seq<char>, AccountV>, u128), Error> {
    if amount == 0 {
        Ok((m, 0))
    } else {
        match promise_result {
            None => match spec_increase(m, id, k, amount, price) {
                Ok(m1) => Ok((m1, 0)),
                Err(e) => Err(e),
            },
            Some(data) => {
                let used_opt = if is_call {
                    parsed_amount(data)
                } else {
                    Some(amount)
                };
                match used_opt {
                    None => Err(Error::MalformedCallbackPayload),
                    Some(used) => if used > amount {
                        Err(Error::MalformedCallbackPayload)
                    } else if amount - used > 0 {
                        match spec_increase(m, id, k, (amount - used) as u128, price) {
                            Ok(m1) => Ok((m1, used)),
                            Err(e) => Err(e),
                        }
                    } else {
                        Ok((m, used))
                    },
                }
            },
        }
    }
}

/// Settles the ledger after the external leg of an outbound transfer: a
/// failed leg is credited back in full; a plain transfer that succeeded
/// consumed everything; a transfer-and-call reports how much it consumed
/// in its return payload, and the remainder is credited back. Returns the
/// amount consumed.
pub fn resolve_internal_withdraw_call(
    accounts: &mut Accounts,
    account_id: &AccountId,
    token_id: TokenId,
    amount: u128,
    is_call: bool,
    promise_result: Option<Vec<u8>>,
    byte_cost: u128,
) -> (r: Result<u128, Error>)
    requires
        old(accounts).wf(),
        stored_bytes(old(accounts)@, account_id@) + entry_bytes(token_id@) <= u128::MAX,
    ensures
        ({
            let pr = match promise_result {
                Some(d) => Some(d@),
                None => None::<Seq<u8>>,
            };
            let step = spec_resolve(
                old(accounts)@,
                account_id@,
                token_id@,
                amount,
                is_call,
                pr,
                byte_cost as int,
            );
            match r {
                Ok(used) => {
                    &&& step matches Ok(o)
                    &&& final(accounts)@ == o.0
                    &&& used == o.1
                    &&& final(accounts).wf()
                    &&& final(accounts).default_min_storage_bal == old(
                        accounts,
                    ).default_min_storage_bal
                },
                Err(e) => {
                    &&& step == Err::<(Map<Seq<char>, AccountV>, u128), Error>(e)
                    &&& *final(accounts) == *old(accounts)
                },
            }
        }),
{
    if amount == 0 {
        return Ok(0);
    }
    match promise_result {
        None => {
            // The external leg failed or was reverted: redeposit the
            // debited amount in full.
            match internal_balance_increase(accounts, account_id, &token_id, amount, byte_cost) {
                Ok(()) => Ok(0),
                Err(e) => Err(e),
            }
        },
        Some(data) => {
            let amount_used: u128 = if is_call {
                match parse_reported_amount(&data) {
                    Some(v) => v,
                    None => {
                        return Err(Error::MalformedCallbackPayload);
                    },
                }
            } else {
                amount
            };
            if amount_used > amount {
                return Err(Error::MalformedCallbackPayload);
            }
            let amount_unused = amount - amount_used;
            if amount_unused > 0 {
                match internal_balance_increase(
                    accounts,
                    account_id,
                    &token_id,
                    amount_unused,
                    byte_cost,
                ) {
                    Ok(()) => Ok(amount_used),
                    Err(e) => Err(e),
                }
            } else {
                Ok(amount_used)
            }
        },
    }
}

} // verus!
