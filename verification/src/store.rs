use vstd::prelude::*;

use crate::account::{record_bytes, spec_check_storage, Account, AccountV, ACCOUNT_BASE_BYTES};
use crate::account_id::{max_len_account_id, valid_account_id, AccountId};
use crate::assoc::{
    key_index, keys_unique, lemma_key_index, lemma_map_of_contains, lemma_map_of_index,
    lemma_map_of_push, lemma_map_of_swap_remove, lemma_map_of_update, map_of,
};
use crate::balances::{entries_bytes, lemma_entries_bytes_nonneg};
use crate::error::Error;

verus! {

/// One persisted record: the account's identifier and its record.
pub struct AccountEntry {
    pub key: AccountId,
    pub account: Account,
}

impl View for AccountEntry {
    type V = (Seq<char>, AccountV);

    open spec fn view(&self) -> (Seq<char>, AccountV) {
        (self.key@, self.account@)
    }
}

/// Bytes the record stored for `id` occupies, zero when none is stored.
pub open spec fn stored_bytes(m: Map<Seq<char>, AccountV>, id: Seq<char>) -> int {
    if m.contains_key(id) {
        record_bytes(id, m[id])
    } else {
        0
    }
}

/// The durable mapping from account identifier to account record, together
/// with the cached minimum prepaid balance a fresh registration needs.
pub struct Accounts {
    pub entries: Vec<AccountEntry>,
    pub default_min_storage_bal: u128,
}

impl View for Accounts {
    type V = Map<Seq<char>, AccountV>;

    open spec fn view(&self) -> Map<Seq<char>, AccountV> {
        map_of(self.pairs())
    }
}

impl Accounts {
    /// The store's records as a sequence of identifier-record pairs.
    pub open spec fn pairs(&self) -> Seq<(Seq<char>, AccountV)> {
        self.entries@.map_values(|e: AccountEntry| e@)
    }

    /// The store's invariant: identifiers are unique and within bounds,
    /// every record keeps its own invariant, and every record's byte
    /// footprint is representable.
    pub open spec fn wf(&self) -> bool {
        &&& keys_unique(self.pairs())
        &&& forall|i: int|
            0 <= i < self.pairs().len() ==> {
                &&& valid_account_id((#[trigger] self.pairs()[i]).0)
                &&& self.pairs()[i].1.wf()
                &&& record_bytes(self.pairs()[i].0, self.pairs()[i].1) <= u128::MAX
            }
    }

    /// Every record of a well-formed store keeps its own invariant and a
    /// representable footprint, under an identifier within bounds.
    pub proof fn lemma_wf_lookup(&self, id: Seq<char>)
        requires
            self.wf(),
            self@.contains_key(id),
        ensures
            self@[id].wf(),
            valid_account_id(id),
            record_bytes(id, self@[id]) <= u128::MAX,
    {
        lemma_map_of_contains(self.pairs(), id);
        lemma_key_index(self.pairs(), id);
        let i = key_index(self.pairs(), id);
        lemma_map_of_index(self.pairs(), i);
    }

    /// Index of the record for `id`, when one is present; relates the
    /// index to the denoted map.
    fn find(&self, id: &AccountId) -> (r: Option<usize>)
        requires
            keys_unique(self.pairs()),
        ensures
            match r {
                Some(i) => {
                    &&& i < self.pairs().len()
                    &&& self.pairs()[i as int].0 == id@
                    &&& self@.contains_key(id@)
                    &&& self@[id@] == self.pairs()[i as int].1
                },
                None => !self@.contains_key(id@),
            },
    {
        proof {
            lemma_map_of_contains(self.pairs(), id@);
        }
        let n = self.entries.len();
        let mut i: usize = 0;
        while i < n
            invariant
                n == self.entries.len(),
                keys_unique(self.pairs()),
                i <= n,
                forall|j: int| 0 <= j < i ==> self.pairs()[j].0 != id@,
            decreases n - i,
        {
            if self.entries[i].key.is_same(id) {
                proof {
                    lemma_map_of_index(self.pairs(), i as int);
                }
                return Some(i);
            }
            i = i + 1;
        }
        proof {
            lemma_map_of_contains(self.pairs(), id@);
        }
        None
    }

    /// The record for `id`, when one is present.
    pub fn get_account(&self, id: &AccountId) -> (r: Option<Account>)
        requires
            self.wf(),
        ensures
            match r {
                Some(a) => self@.contains_key(id@) && a@ =~= self@[id@],
                None => !self@.contains_key(id@),
            },
    {
        match self.find(id) {
            Some(i) => Some(self.entries[i].account.clone()),
            None => None,
        }
    }

    /// The record for `id`; reports `AccountNotRegistered` when none is.
    pub fn get_account_checked(&self, id: &AccountId) -> (r: Result<Account, Error>)
        requires
            self.wf(),
        ensures
            match r {
                Ok(a) => self@.contains_key(id@) && a@ =~= self@[id@],
                Err(e) => e == Error::AccountNotRegistered && !self@.contains_key(id@),
            },
    {
        match self.get_account(id) {
            Some(a) => Ok(a),
            None => Err(Error::AccountNotRegistered),
        }
    }

    /// Writes the record for `id` without consulting the storage meter,
    /// and hands back the record it replaced. Only bootstrap bookkeeping
    /// such as the minimum-cost measurement calls this.
    pub fn insert_account_unchecked(&mut self, id: &AccountId, account: &Account) -> (r: Option<
        Account,
    >)
        requires
            old(self).wf(),
            account@.wf(),
            valid_account_id(id@),
            record_bytes(id@, account@) <= u128::MAX,
        ensures
            final(self)@ == old(self)@.insert(id@, account@),
            final(self).wf(),
            final(self).default_min_storage_bal == old(self).default_min_storage_bal,
            match r {
                Some(prev) => old(self)@.contains_key(id@) && prev@ =~= old(self)@[id@],
                None => !old(self)@.contains_key(id@),
            },
    {
        match self.find(id) {
            Some(i) => {
                let prev = self.entries[i].account.clone();
                let ghost old_pairs = self.pairs();
                self.entries.set(
                    i,
                    AccountEntry { key: id.clone(), account: account.clone() },
                );
                proof {
                    assert(self.pairs() =~= old_pairs.update(i as int, (id@, account@)));
                    lemma_map_of_update(old_pairs, i as int, account@);
                    assert(self@ =~= old(self)@.insert(id@, account@));
                }
                Some(prev)
            },
            None => {
                let ghost old_pairs = self.pairs();
                self.entries.push(AccountEntry { key: id.clone(), account: account.clone() });
                proof {
                    assert(self.pairs() =~= old_pairs.push((id@, account@)));
                    lemma_map_of_push(old_pairs, id@, account@);
                    lemma_map_of_contains(old_pairs, id@);
                    assert(keys_unique(self.pairs())) by {
                        assert forall|a: int, b: int|
                            0 <= a < b < self.pairs().len() implies self.pairs()[a].0
                            != self.pairs()[b].0 by {
                            if b < self.pairs().len() - 1 {
                                assert(self.pairs()[a] == old_pairs[a]);
                                assert(self.pairs()[b] == old_pairs[b]);
                            } else {
                                assert(self.pairs()[a] == old_pairs[a]);
                            }
                        }
                    }
                }
                None
            },
        }
    }

    /// Deletes the record for `id`, and hands it back. The caller answers
    /// for any prepaid balance still in it.
    pub fn remove_account_unchecked(&mut self, id: &AccountId) -> (r: Option<Account>)
        requires
            old(self).wf(),
        ensures
            final(self)@ == old(self)@.remove(id@),
            final(self).wf(),
            final(self).default_min_storage_bal == old(self).default_min_storage_bal,
            match r {
                Some(prev) => old(self)@.contains_key(id@) && prev@ =~= old(self)@[id@],
                None => !old(self)@.contains_key(id@) && *final(self) == *old(self),
            },
    {
        match self.find(id) {
            Some(i) => {
                let ghost old_pairs = self.pairs();
                let entry = self.entries.swap_remove(i);
                proof {
                    assert(self.pairs() =~= old_pairs.update(i as int, old_pairs.last()).drop_last());
                    lemma_map_of_swap_remove(old_pairs, i as int);
                    assert(self@ =~= old(self)@.remove(id@));
                    lemma_map_of_index(old_pairs, i as int);
                }
                Some(entry.account)
            },
            None => {
                proof {
                    assert(self@ =~= self@.remove(id@));
                }
                None
            },
        }
    }

    /// Bytes the record stored for `id` occupies, zero when none does.
    fn stored_record_bytes(&self, id: &AccountId) -> (r: u128)
        requires
            self.wf(),
        ensures
            r == stored_bytes(self@, id@),
    {
        match self.find(id) {
            Some(i) => {
                proof {
                    self.lemma_wf_lookup(id@);
                    lemma_entries_bytes_nonneg(self@[id@].tokens);
                }
                let e = &self.entries[i];
                ACCOUNT_BASE_BYTES as u128 + e.key.len() as u128 + e.account.info.bytes()
            },
            None => 0,
        }
    }

    /// Writes the record for `id` through the storage meter: the account
    /// is charged for the bytes its record grows by, or refunded for the
    /// bytes it shrinks by, before it is persisted. When the available
    /// balance cannot cover grown bytes, nothing changes and
    /// `InsufficientStorageFunds` is reported.
    pub fn insert_account_check_storage(
        &mut self,
        id: &AccountId,
        account: &mut Account,
        byte_cost: u128,
    ) -> (r: Result<Option<Account>, Error>)
        requires
            old(self).wf(),
            old(account)@.wf(),
            valid_account_id(id@),
            record_bytes(id@, old(account)@) <= u128::MAX,
        ensures
            ({
                let b0 = stored_bytes(old(self)@, id@);
                let b1 = record_bytes(id@, old(account)@);
                let step = spec_check_storage(old(account)@, b0, b1, byte_cost as int);
                match r {
                    Ok(prev) => {
                        &&& step is Ok
                        &&& final(account)@ =~= step->Ok_0
                        &&& final(self)@ == old(self)@.insert(id@, final(account)@)
                        &&& final(self).wf()
                        &&& final(account)@.wf()
                        &&& final(self).default_min_storage_bal == old(self).default_min_storage_bal
                        &&& match prev {
                            Some(p) => old(self)@.contains_key(id@) && p@ =~= old(self)@[id@],
                            None => !old(self)@.contains_key(id@),
                        }
                    },
                    Err(e) => {
                        &&& step == Err::<AccountV, Error>(e)
                        &&& *final(self) == *old(self)
                        &&& *final(account) == *old(account)
                    },
                }
            }),
    {
        proof {
            lemma_entries_bytes_nonneg(account@.tokens);
        }
        let b1 = ACCOUNT_BASE_BYTES as u128 + id.len() as u128 + account.info.bytes();
        let b0 = self.stored_record_bytes(id);
        match account.check_storage(b0, b1, byte_cost) {
            Ok(()) => {
                proof {
                    assert(account@.wf());
                    assert(record_bytes(id@, account@) <= u128::MAX);
                }
                let prev = self.insert_account_unchecked(id, account);
                Ok(prev)
            },
            Err(e) => Err(e),
        }
    }

    /// Prepaid balance required to persist a fresh default record for the
    /// given identifier — or, when none is given, for a synthetic
    /// identifier of the longest legal length, which bounds the cost for
    /// every identifier. When `unregister` is false the measured record is
    /// left registered, for the caller to fill in.
    pub(crate) fn get_storage_cost(
        &mut self,
        account_id: Option<AccountId>,
        unregister: bool,
        byte_cost: u128,
    ) -> (r: u128)
        requires
            old(self).wf(),
            (ACCOUNT_BASE_BYTES + 64) * byte_cost <= u128::MAX,
            account_id matches Some(a) ==> valid_account_id(a@) && !old(self)@.contains_key(a@),
            account_id is None ==> !old(self)@.contains_key(
                Seq::new(64, |i: int| 'a'),
            ),
        ensures
            ({
                let id = if account_id is Some {
                    account_id->0@
                } else {
                    Seq::new(64, |i: int| 'a')
                };
                let fresh = AccountV {
                    near_amount: 0,
                    near_used_for_storage: 0,
                    tokens: Seq::empty(),
                };
                &&& r == (ACCOUNT_BASE_BYTES + id.len()) * byte_cost
                &&& final(self).wf()
                &&& final(self).default_min_storage_bal == old(self).default_min_storage_bal
                &&& if unregister {
                    final(self)@ == old(self)@
                } else {
                    final(self)@ == old(self)@.insert(id, fresh)
                }
            }),
    {
        let aid = match account_id {
            Some(a) => a,
            None => max_len_account_id(),
        };
        let default_account = Account::default_from_account_id(&aid);
        let footprint = ACCOUNT_BASE_BYTES as u128 + aid.len() as u128;
        proof {
            assert(record_bytes(aid@, default_account@) == footprint) by {
                assert(entries_bytes(default_account@.tokens) == 0);
            }
            vstd::arithmetic::mul::lemma_mul_inequality(
                ACCOUNT_BASE_BYTES + aid@.len(),
                ACCOUNT_BASE_BYTES + 64,
                byte_cost as int,
            );
            vstd::arithmetic::mul::lemma_mul_nonnegative(
                ACCOUNT_BASE_BYTES + aid@.len(),
                byte_cost as int,
            );
        }
        self.insert_account_unchecked(&aid, &default_account);
        let storage_cost = footprint * byte_cost;
        if unregister {
            self.remove_account_unchecked(&aid);
            proof {
                assert(self@ =~= old(self)@);
            }
        }
        storage_cost
    }

    /// A fresh store with no records, whose cached minimum balance is the
    /// cost of persisting a default record under the longest identifier at
    /// the given byte price.
    pub fn new(byte_cost: u128) -> (r: Accounts)
        requires
            (ACCOUNT_BASE_BYTES + 64) * byte_cost <= u128::MAX,
        ensures
            r.wf(),
            r@ == Map::<Seq<char>, AccountV>::empty(),
            r.default_min_storage_bal == (ACCOUNT_BASE_BYTES + 64) * byte_cost,
    {
        let mut ret = Accounts { entries: Vec::new(), default_min_storage_bal: 0 };
        proof {
            assert(ret.pairs() =~= Seq::<(Seq<char>, AccountV)>::empty());
            assert(ret@ =~= Map::<Seq<char>, AccountV>::empty());
        }
        let min = ret.get_storage_cost(None, true, byte_cost);
        ret.default_min_storage_bal = min;
        proof {
            assert(ret@ =~= Map::<Seq<char>, AccountV>::empty());
        }
        ret
    }
}

} // verus!
