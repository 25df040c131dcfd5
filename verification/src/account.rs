use vstd::prelude::*;

use crate::account_id::AccountId;
use crate::balances::{entries_bytes, tokens_unique, TokenBalances};
use crate::error::Error;
use crate::token_id::TokenKey;

verus! {

/// Flat bytes a persisted account record occupies beyond its key and its
/// balance table: the two prepaid-balance fields and the record framing.
pub const ACCOUNT_BASE_BYTES: u64 = 40;

/// Mathematical form of an account record.
#[verifier::ext_equal]
pub struct AccountV {
    pub near_amount: u128,
    pub near_used_for_storage: u128,
    pub tokens: Seq<(TokenKey, u128)>,
}

impl AccountV {
    /// Prepaid balance not currently earmarked for storage.
    pub open spec fn available(self) -> int {
        self.near_amount - self.near_used_for_storage
    }

    /// The record's invariant: the storage earmark never exceeds the
    /// prepaid balance, and no asset has two entries.
    pub open spec fn wf(self) -> bool {
        self.near_used_for_storage <= self.near_amount && tokens_unique(self.tokens)
    }

    /// Bytes of the record's extension payload.
    pub open spec fn info_bytes(self) -> int {
        entries_bytes(self.tokens)
    }
}

/// Bytes the whole record for account `id` occupies when persisted.
pub open spec fn record_bytes(id: Seq<char>, a: AccountV) -> int {
    ACCOUNT_BASE_BYTES + id.len() + entries_bytes(a.tokens)
}

/// An account's storage balance as reported to callers: the full prepaid
/// amount, and the part of it not earmarked for storage.
#[derive(Clone, Copy, Debug, PartialEq, Eq, Structural)]
pub struct StorageBalance {
    pub total: u128,
    pub available: u128,
}

/// The registry-wide bounds on a fresh account's prepaid balance. There is
/// no ceiling on prepayment, so `max` is always absent.
#[derive(Clone, Copy, Debug, PartialEq, Eq, Structural)]
pub struct StorageBalanceBounds {
    pub min: u128,
    pub max: Option<u128>,
}

/// Per-account record: total prepaid native currency, the portion of it
/// earmarked as collateral for the record's own persisted bytes, and the
/// contract-specific extension payload.
pub struct Account {
    pub near_amount: u128,
    pub near_used_for_storage: u128,
    pub info: TokenBalances,
}

impl View for Account {
    type V = AccountV;

    open spec fn view(&self) -> AccountV {
        AccountV {
            near_amount: self.near_amount,
            near_used_for_storage: self.near_used_for_storage,
            tokens: self.info@,
        }
    }
}

impl Clone for Account {
    fn clone(&self) -> (r: Self)
        ensures
            r@ =~= self@,
    {
        Account {
            near_amount: self.near_amount,
            near_used_for_storage: self.near_used_for_storage,
            info: self.info.clone(),
        }
    }
}

/// The account after a mutation whose persisted record went from `b0` to
/// `b1` bytes, at `price` per byte.
///
/// Grown bytes are charged against the available balance and fail with
/// `InsufficientStorageFunds` when it cannot cover them; shrunk bytes are
/// refunded into it, the earmark floored at zero.
pub open spec fn spec_check_storage(a: AccountV, b0: int, b1: int, price: int) -> Result<
    AccountV,
    Error,
> {
    if b1 > b0 {
        let cost = (b1 - b0) * price;
        if a.available() < cost {
            Err(Error::InsufficientStorageFunds)
        } else {
            Ok(
                AccountV {
                    near_amount: a.near_amount,
                    near_used_for_storage: (a.near_used_for_storage + cost) as u128,
                    tokens: a.tokens,
                },
            )
        }
    } else if b1 < b0 {
        let refund = (b0 - b1) * price;
        if refund <= a.near_used_for_storage {
            Ok(
                AccountV {
                    near_amount: a.near_amount,
                    near_used_for_storage: (a.near_used_for_storage - refund) as u128,
                    tokens: a.tokens,
                },
            )
        } else {
            Ok(AccountV { near_amount: a.near_amount, near_used_for_storage: 0, tokens: a.tokens })
        }
    } else {
        Ok(a)
    }
}

impl Account {
    /// A fresh record with nothing prepaid, nothing earmarked, and an empty
    /// extension payload. The identifier names the account the record is
    /// made for; the default payload is the same for every account.
    pub fn default_from_account_id(account_id: &AccountId) -> (r: Account)
        ensures
            r@.near_amount == 0,
            r@.near_used_for_storage == 0,
            r@.tokens =~= Seq::<(TokenKey, u128)>::empty(),
    {
        let _ = account_id;
        Account { near_amount: 0, near_used_for_storage: 0, info: TokenBalances::new() }
    }

    /// Prepaid balance not currently earmarked for storage. Never computed
    /// as negative: callers establish the record invariant first.
    pub fn get_available_near(&self) -> (r: u128)
        requires
            self@.near_used_for_storage <= self@.near_amount,
        ensures
            r == self@.available(),
    {
        self.near_amount - self.near_used_for_storage
    }

    /// The balance pair reported by the storage-management surface.
    pub fn storage_balance(&self) -> (r: StorageBalance)
        requires
            self@.near_used_for_storage <= self@.near_amount,
        ensures
            r.total == self@.near_amount,
            r.available == self@.available(),
    {
        StorageBalance { total: self.near_amount, available: self.get_available_near() }
    }

    /// The balance pair with the storage earmark in the `total` place,
    /// as the account-level deposit surface reports it.
    pub fn near_balance(&self) -> (r: Option<StorageBalance>)
        requires
            self@.near_used_for_storage <= self@.near_amount,
        ensures
            r matches Some(b) && b.total == self@.near_used_for_storage && b.available
                == self@.available(),
    {
        Some(StorageBalance { total: self.near_used_for_storage, available: self.get_available_near() })
    }

    /// Adds an attached amount to the prepaid balance.
    pub fn near_deposit(&mut self, attached: u128) -> (r: Result<StorageBalance, Error>)
        requires
            old(self)@.near_used_for_storage <= old(self)@.near_amount,
        ensures
            match r {
                Ok(b) => {
                    &&& old(self)@.near_amount + attached <= u128::MAX
                    &&& final(self)@ =~= (AccountV {
                        near_amount: (old(self)@.near_amount + attached) as u128,
                        ..old(self)@
                    })
                    &&& b.total == final(self)@.near_used_for_storage
                    &&& b.available == final(self)@.available()
                },
                Err(e) => {
                    &&& e == Error::AmountOverflow
                    &&& old(self)@.near_amount + attached > u128::MAX
                    &&& *final(self) == *old(self)
                },
            },
    {
        match self.near_amount.checked_add(attached) {
            Some(total) => {
                self.near_amount = total;
                Ok(self.near_balance().unwrap())
            },
            None => Err(Error::AmountOverflow),
        }
    }

    /// Pays out of the available balance: the requested amount, or all of
    /// it when none is named. Returns the reported balance pair and the
    /// amount to transfer to the receiver.
    pub fn near_withdraw(&mut self, receiver_id: &AccountId, amount: Option<u128>) -> (r: Result<
        (StorageBalance, u128),
        Error,
    >)
        requires
            old(self)@.near_used_for_storage <= old(self)@.near_amount,
        ensures
            match r {
                Ok((b, payout)) => {
                    &&& payout == (if amount is Some {
                        amount->0
                    } else {
                        old(self)@.available() as u128
                    })
                    &&& amount matches Some(w) ==> w <= old(self)@.available()
                    &&& final(self)@ =~= (AccountV {
                        near_amount: (old(self)@.near_amount - payout) as u128,
                        ..old(self)@
                    })
                    &&& b.total == final(self)@.near_used_for_storage
                    &&& b.available == final(self)@.available()
                },
                Err(e) => {
                    &&& e == Error::ExcessiveWithdrawal
                    &&& amount matches Some(w) && w > old(self)@.available()
                    &&& *final(self) == *old(self)
                },
            },
    {
        let _ = receiver_id;
        let free = self.get_available_near();
        let withdraw_amount: u128 = match amount {
            Some(a) => {
                if free < a {
                    return Err(Error::ExcessiveWithdrawal);
                }
                a
            },
            None => free,
        };
        self.near_amount = self.near_amount - withdraw_amount;
        Ok((self.near_balance().unwrap(), withdraw_amount))
    }

    /// Applies the storage meter to this record: `bytes_before` and
    /// `bytes_after` are the persisted sizes around a mutation, and the
    /// earmark moves by their difference at `byte_cost` per byte.
    pub fn check_storage(&mut self, bytes_before: u128, bytes_after: u128, byte_cost: u128) -> (r:
        Result<(), Error>)
        requires
            old(self)@.near_used_for_storage <= old(self)@.near_amount,
        ensures
            match r {
                Ok(()) => {
                    &&& spec_check_storage(
                        old(self)@,
                        bytes_before as int,
                        bytes_after as int,
                        byte_cost as int,
                    ) is Ok
                    &&& final(self)@ =~= spec_check_storage(
                        old(self)@,
                        bytes_before as int,
                        bytes_after as int,
                        byte_cost as int,
                    )->Ok_0
                },
                Err(e) => {
                    &&& spec_check_storage(
                        old(self)@,
                        bytes_before as int,
                        bytes_after as int,
                        byte_cost as int,
                    ) == Err::<AccountV, Error>(e)
                    &&& *final(self) == *old(self)
                },
            },
    {
        if bytes_after > bytes_before {
            let delta = bytes_after - bytes_before;
            let free_near = self.get_available_near();
            match delta.checked_mul(byte_cost) {
                Some(cost) => {
                    if free_near < cost {
                        Err(Error::InsufficientStorageFunds)
                    } else {
                        self.near_used_for_storage = self.near_used_for_storage + cost;
                        Ok(())
                    }
                },
                None => Err(Error::InsufficientStorageFunds),
            }
        } else if bytes_after < bytes_before {
            let delta = bytes_before - bytes_after;
            match delta.checked_mul(byte_cost) {
                Some(refund) => {
                    if refund <= self.near_used_for_storage {
                        self.near_used_for_storage = self.near_used_for_storage - refund;
                    } else {
                        self.near_used_for_storage = 0;
                    }
                    Ok(())
                },
                None => {
                    self.near_used_for_storage = 0;
                    Ok(())
                },
            }
        } else {
            Ok(())
        }
    }
}

} // verus!
