use vstd::prelude::*;

use crate::account::{spec_check_storage, AccountV};
use crate::balances::{
    bal_of, entry_bytes, has_token, lemma_set_balance_bytes, lemma_set_balance_frame,
    lemma_set_balance_unique,
};
use crate::error::Error;
use crate::ledger::spec_increase;
use crate::storage::{spec_storage_deposit, spec_storage_withdraw};
use crate::store::Accounts;
use crate::token_id::TokenKey;

verus! {

/// In every well-formed store — and every operation of this library both
/// needs and leaves a well-formed store — each account's storage earmark
/// is within its prepaid balance, so its available balance is never
/// computed as negative.
pub proof fn law_collateral_within_balance(s: &Accounts, id: Seq<char>)
    requires
        s.wf(),
        s@.contains_key(id),
    ensures
        s@[id].near_used_for_storage <= s@[id].near_amount,
        s@[id].available() >= 0,
{
    s.lemma_wf_lookup(id);
}

/// A deposit to a registered account followed at once by a withdrawal of
/// the same amount returns the prepaid balance — and the available
/// balance — exactly to their values before the deposit, and pays the
/// whole amount back out.
pub proof fn law_deposit_withdraw_round_trip(
    m: Map<Seq<char>, AccountV>,
    caller: Seq<char>,
    attached: u128,
    price: int,
    min_bal: u128,
)
    requires
        m.contains_key(caller),
        m[caller].wf(),
        m[caller].near_amount + attached <= u128::MAX,
    ensures
        ({
            let dep = spec_storage_deposit(m, attached, caller, false, price, min_bal);
            &&& dep matches Ok(o)
            &&& {
                let wd = spec_storage_withdraw(o.accounts, caller, Some(attached));
                &&& wd matches Ok(t)
                &&& t.0[caller].near_amount == m[caller].near_amount
                &&& t.0[caller].available() == m[caller].available()
                &&& t.2 == attached
            }
            &&& m[caller].available() == 0 ==> {
                // Withdrawing everything available comes to the same thing
                // when nothing was available before the deposit.
                let wd = spec_storage_withdraw(dep->Ok_0.accounts, caller, None);
                &&& wd matches Ok(t)
                &&& t.0[caller].near_amount == m[caller].near_amount
                &&& t.2 == attached
            }
        }),
{
}

/// Depositing with `registration_only` set against an already-registered
/// account is a no-op on every balance, however often it is repeated: the
/// store is unchanged and each call refunds its full attached amount.
pub proof fn law_registration_only_deposit_idempotent(
    m: Map<Seq<char>, AccountV>,
    id: Seq<char>,
    attached1: u128,
    attached2: u128,
    price: int,
    min_bal: u128,
)
    requires
        m.contains_key(id),
    ensures
        ({
            let first = spec_storage_deposit(m, attached1, id, true, price, min_bal);
            &&& first matches Ok(o1)
            &&& o1.accounts == m
            &&& o1.refund == attached1
            &&& {
                let second = spec_storage_deposit(o1.accounts, attached2, id, true, price, min_bal);
                &&& second matches Ok(o2)
                &&& o2.accounts == m
                &&& o2.refund == attached2
                &&& o2.balance == o1.balance
            }
        }),
{
}

/// The storage meter moves the earmark by exactly the grown or shrunk
/// bytes at the given price: grown bytes are charged in full when the
/// available balance covers them and refused otherwise; shrunk bytes are
/// refunded in full, the earmark floored at zero; unchanged bytes change
/// nothing. A record the meter accepts keeps its invariant.
pub proof fn law_storage_meter_delta(a: AccountV, b0: int, b1: int, price: int)
    requires
        a.wf(),
        price >= 0,
    ensures
        b1 > b0 && a.available() >= (b1 - b0) * price ==> (spec_check_storage(a, b0, b1, price)
            matches Ok(a1) && a1.near_used_for_storage == a.near_used_for_storage + (b1 - b0)
            * price),
        b1 > b0 && a.available() < (b1 - b0) * price ==> spec_check_storage(a, b0, b1, price)
            == Err::<AccountV, Error>(Error::InsufficientStorageFunds),
        b1 < b0 ==> (spec_check_storage(a, b0, b1, price) matches Ok(a1)
            && a1.near_used_for_storage == (if (b0 - b1) * price <= a.near_used_for_storage {
            a.near_used_for_storage - (b0 - b1) * price
        } else {
            0
        })),
        b1 == b0 ==> spec_check_storage(a, b0, b1, price) == Ok::<AccountV, Error>(a),
        spec_check_storage(a, b0, b1, price) matches Ok(a1) ==> a1.wf(),
{
}

/// Crediting an asset the account already tracks never moves the storage
/// earmark; crediting a fresh asset charges exactly that one entry's
/// bytes at the byte price, and is refused — with nothing changed — when
/// the available balance cannot cover them.
pub proof fn law_ledger_credit_storage(
    m: Map<Seq<char>, AccountV>,
    id: Seq<char>,
    k: TokenKey,
    amount: u128,
    price: int,
)
    requires
        m.contains_key(id),
        m[id].wf(),
        price >= 0,
        bal_of(m[id].tokens, k) + amount <= u128::MAX,
    ensures
        has_token(m[id].tokens, k) ==> (spec_increase(m, id, k, amount, price) matches Ok(m1) && {
            &&& m1[id].near_used_for_storage == m[id].near_used_for_storage
            &&& m1[id].near_amount == m[id].near_amount
            &&& bal_of(m1[id].tokens, k) == bal_of(m[id].tokens, k) + amount
        }),
        !has_token(m[id].tokens, k) && m[id].available() >= entry_bytes(k) * price ==> (
        spec_increase(m, id, k, amount, price) matches Ok(m1) && {
            &&& m1[id].near_used_for_storage == m[id].near_used_for_storage + entry_bytes(k)
                * price
            &&& m1[id].near_amount == m[id].near_amount
            &&& bal_of(m1[id].tokens, k) == amount
        }),
        !has_token(m[id].tokens, k) && m[id].available() < entry_bytes(k) * price ==> spec_increase(
            m,
            id,
            k,
            amount,
            price,
        ) == Err::<Map<Seq<char>, AccountV>, Error>(Error::InsufficientStorageFunds),
{
    let t = m[id].tokens;
    let cur = bal_of(t, k);
    let updated = (cur + amount) as u128;
    lemma_set_balance_bytes(t, k, updated);
    lemma_set_balance_unique(t, k, updated);
    lemma_set_balance_frame(t, k, updated);
}

} // verus!
