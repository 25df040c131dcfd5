use near_account::account::{Account, ACCOUNT_BASE_BYTES};
use near_account::account_id::AccountId;
use near_account::balances::TokenBalances;
use near_account::context::CallContext;
use near_account::error::Error;
use near_account::ledger::internal_balance_increase;
use near_account::store::Accounts;
use near_account::token_id::TokenId;

const PRICE: u128 = 10;

fn aid(s: &str) -> AccountId {
    AccountId::new(s.to_string()).unwrap()
}

fn ctx(caller: &str, attached: u128) -> CallContext {
    CallContext { predecessor: aid(caller), attached_deposit: attached, storage_byte_cost: PRICE }
}

fn record_cost(id: &str) -> u128 {
    (ACCOUNT_BASE_BYTES as u128 + id.len() as u128) * PRICE
}

fn register_account(accounts: &mut Accounts, who: &str) {
    let min = accounts.storage_balance_bounds().min;
    accounts
        .storage_deposit(&ctx(who, min * 10), Some(aid(who)), Some(true))
        .unwrap();
}

/// Registering (registration only), depositing extra, and withdrawing some
/// of it move the reported totals exactly as the deposits and payouts say.
#[test]
fn test_account_storage() {
    let mut near_accounts = Accounts::new(PRICE);
    let account = "alice";
    register_account(&mut near_accounts, account);

    let storage_bounds = near_accounts.storage_balance_bounds();
    let storage_bal = near_accounts.storage_balance_of(&aid(account)).unwrap();
    assert!(storage_bal.total <= storage_bounds.min);
    assert_eq!(storage_bal.available, 0);

    let adding_near: u128 = 1_000_000_000_000_000;
    let (storage_bal_new, refund) = near_accounts
        .storage_deposit(&ctx(account, adding_near), Some(aid(account)), None)
        .unwrap();
    assert_eq!(refund, 0);
    assert_eq!(storage_bal.total + adding_near, storage_bal_new.total);
    assert_eq!(storage_bal_new.available, adding_near);

    let withdrawing_near: u128 = 1_000;
    let (storage_bal_new, payout) = near_accounts
        .storage_withdraw(&ctx(account, 1), Some(withdrawing_near))
        .unwrap();
    assert_eq!(payout, withdrawing_near);
    assert_eq!(storage_bal.total + adding_near - withdrawing_near, storage_bal_new.total);
    assert_eq!(storage_bal_new.available, adding_near - withdrawing_near);
}

/// A forced unregistration deletes the record.
#[test]
fn test_account_storage_unregister() {
    let mut near_accounts = Accounts::new(PRICE);
    let account = "alice";
    register_account(&mut near_accounts, account);

    let (done, _) = near_accounts.storage_unregister(&ctx(account, 1), Some(true)).unwrap();
    assert!(done);
    assert!(near_accounts.get_account(&aid(account)).is_none());
}

/// A forced unregistration refunds the account's full prepaid balance.
#[test]
fn test_unregister_refunds_full_amount() {
    let mut near_accounts = Accounts::new(PRICE);
    let account = "alice";
    register_account(&mut near_accounts, account);
    near_accounts
        .storage_deposit(&ctx(account, 5_000), Some(aid(account)), None)
        .unwrap();
    let total = near_accounts.storage_balance_of(&aid(account)).unwrap().total;

    let (done, refund) = near_accounts.storage_unregister(&ctx(account, 1), Some(true)).unwrap();
    assert!(done);
    assert_eq!(refund, total);
    assert!(near_accounts.storage_balance_of(&aid(account)).is_none());
}

/// Without `force`, unregistration is a soft no-op.
#[test]
fn test_unregister_without_force_is_noop() {
    let mut near_accounts = Accounts::new(PRICE);
    let account = "alice";
    register_account(&mut near_accounts, account);

    let r = near_accounts.storage_unregister(&ctx(account, 0), None).unwrap();
    assert_eq!(r, (false, 0));
    let r = near_accounts.storage_unregister(&ctx(account, 0), Some(false)).unwrap();
    assert_eq!(r, (false, 0));
    assert!(near_accounts.get_account(&aid(account)).is_some());
}

/// Unregistering an account with no record is an error.
#[test]
fn test_unregister_unregistered_fails() {
    let mut near_accounts = Accounts::new(PRICE);
    let r = near_accounts.storage_unregister(&ctx("alice", 1), Some(true));
    assert_eq!(r, Err(Error::AccountNotRegistered));
}

/// Looking up an unregistered account is an error.
#[test]
fn test_get_account_checked_unregistered() {
    let near_accounts = Accounts::new(PRICE);
    let r = near_accounts.get_account_checked(&aid("alice"));
    assert!(matches!(r, Err(Error::AccountNotRegistered)));
}

/// Growing a stored record charges exactly the grown bytes at the byte
/// price, out of the available balance.
#[test]
fn test_insert_account_checked_update_storage() {
    let mut near_accounts = Accounts::new(PRICE);
    let account = "alice";
    register_account(&mut near_accounts, account);

    // One fresh balance entry for this token grows the record by the
    // token's footprint plus the sixteen amount bytes.
    let token = TokenId::FT { contract_id: aid("tok") };
    let cost = (1 + 3 + 16) * PRICE;
    let orig_storage_bal = near_accounts.storage_balance_of(&aid(account)).unwrap();
    near_accounts
        .storage_deposit(&ctx(account, cost), None, None)
        .unwrap();

    let mut account_s = near_accounts.get_account_checked(&aid(account)).unwrap();
    account_s.info.set_balance(&token, 7);
    near_accounts
        .insert_account_check_storage(&aid(account), &mut account_s, PRICE)
        .unwrap();

    let storage_bal = near_accounts.storage_balance_of(&aid(account)).unwrap();
    assert_eq!(storage_bal.available, 0);
    assert_eq!(storage_bal.total, orig_storage_bal.total + cost);
}

/// Growing a record beyond what the available balance covers fails and
/// changes nothing.
#[test]
fn test_insert_account_checked_not_enough_near() {
    let mut near_accounts = Accounts::new(PRICE);
    let account = "alice";
    register_account(&mut near_accounts, account);
    let before = near_accounts.storage_balance_of(&aid(account)).unwrap();

    let token = TokenId::FT { contract_id: aid("tok") };
    let mut account_s = near_accounts.get_account_checked(&aid(account)).unwrap();
    account_s.info.set_balance(&token, 7);
    let r = near_accounts.insert_account_check_storage(&aid(account), &mut account_s, PRICE);
    assert_eq!(r.err(), Some(Error::InsufficientStorageFunds));

    let after = near_accounts.storage_balance_of(&aid(account)).unwrap();
    assert_eq!(before, after);
    let stored = near_accounts.get_account_checked(&aid(account)).unwrap();
    assert_eq!(stored.info.get_balance(&token), 0);
}

/// Persisting a fresh record through the meter demands collateral for the
/// whole record, not only for a change.
#[test]
fn test_insert_account_checked_non_registered() {
    let mut near_accounts = Accounts::new(1_000_000_000_000_000_000);
    let mut account_s = Account {
        near_amount: 1_000_000_000,
        near_used_for_storage: 0,
        info: TokenBalances::new(),
    };
    let r = near_accounts.insert_account_check_storage(
        &aid("alice"),
        &mut account_s,
        1_000_000_000_000_000_000,
    );
    assert_eq!(r.err(), Some(Error::InsufficientStorageFunds));
    assert!(near_accounts.get_account(&aid("alice")).is_none());
}

/// The minimum bound is the cost of a default record under the longest
/// legal identifier, at the construction-time byte price; there is no
/// upper bound.
#[test]
fn test_balance_bounds_formula() {
    let near_accounts = Accounts::new(PRICE);
    let bounds = near_accounts.storage_balance_bounds();
    assert_eq!(bounds.min, (ACCOUNT_BASE_BYTES as u128 + 64) * PRICE);
    assert_eq!(bounds.max, None);
}

/// Registering with ten times the minimum bound, registration only, keeps
/// exactly the measured storage cost and refunds the rest: the total is
/// the record's cost and nothing is available.
#[test]
fn test_register_with_excess_deposit() {
    let mut near_accounts = Accounts::new(PRICE);
    let account = "alice";
    let min = near_accounts.storage_balance_bounds().min;
    let (bal, refund) = near_accounts
        .storage_deposit(&ctx(account, min * 10), Some(aid(account)), Some(true))
        .unwrap();
    assert_eq!(bal.total, record_cost(account));
    assert_eq!(bal.available, 0);
    assert_eq!(refund, min * 10 - record_cost(account));
}

/// A deposit too small to register fails softly: nothing is registered,
/// the whole attached amount is refunded, and a zero balance is reported.
#[test]
fn test_register_insufficient_deposit() {
    let mut near_accounts = Accounts::new(PRICE);
    let attached = record_cost("alice") - 1;
    let (bal, refund) = near_accounts
        .storage_deposit(&ctx("alice", attached), None, None)
        .unwrap();
    assert_eq!(bal.total, 0);
    assert_eq!(bal.available, 0);
    assert_eq!(refund, attached);
    assert!(near_accounts.get_account(&aid("alice")).is_none());
}

/// A deposit under the registry-wide minimum fails softly even when it
/// covers the record's own cost.
#[test]
fn test_register_under_minimum_bound() {
    let mut near_accounts = Accounts::new(PRICE);
    let min = near_accounts.storage_balance_bounds().min;
    let attached = record_cost("al");
    assert!(attached < min);
    let (bal, refund) = near_accounts
        .storage_deposit(&ctx("al", attached), None, None)
        .unwrap();
    assert_eq!((bal.total, bal.available, refund), (0, 0, attached));
    assert!(near_accounts.get_account(&aid("al")).is_none());
}

/// A plain registration keeps the full attached amount: the overpayment
/// stays available for future storage.
#[test]
fn test_register_keeps_overpayment() {
    let mut near_accounts = Accounts::new(PRICE);
    let min = near_accounts.storage_balance_bounds().min;
    let (bal, refund) = near_accounts
        .storage_deposit(&ctx("alice", min * 10), None, None)
        .unwrap();
    assert_eq!(refund, 0);
    assert_eq!(bal.total, min * 10);
    assert_eq!(bal.available, min * 10 - record_cost("alice"));
}

/// A caller can register and fund another account; refunds still go to
/// the caller.
#[test]
fn test_register_on_behalf_of_another() {
    let mut near_accounts = Accounts::new(PRICE);
    let min = near_accounts.storage_balance_bounds().min;
    let (bal, refund) = near_accounts
        .storage_deposit(&ctx("alice", min * 2), Some(aid("bob")), Some(true))
        .unwrap();
    assert_eq!(bal.total, record_cost("bob"));
    assert_eq!(refund, min * 2 - record_cost("bob"));
    assert!(near_accounts.get_account(&aid("bob")).is_some());
    assert!(near_accounts.get_account(&aid("alice")).is_none());
}

/// Depositing with registration only against a registered account is a
/// no-op with a full refund, both times.
#[test]
fn test_registration_only_idempotent() {
    let mut near_accounts = Accounts::new(PRICE);
    let account = "alice";
    register_account(&mut near_accounts, account);
    let before = near_accounts.storage_balance_of(&aid(account)).unwrap();

    for _ in 0..2 {
        let (bal, refund) = near_accounts
            .storage_deposit(&ctx(account, 12_345), Some(aid(account)), Some(true))
            .unwrap();
        assert_eq!(bal, before);
        assert_eq!(refund, 12_345);
    }
}

/// Depositing past the largest representable balance is an error and
/// changes nothing.
#[test]
fn test_deposit_overflow_fails() {
    let mut near_accounts = Accounts::new(PRICE);
    let account = "alice";
    register_account(&mut near_accounts, account);
    let before = near_accounts.storage_balance_of(&aid(account)).unwrap();

    let r = near_accounts.storage_deposit(&ctx(account, u128::MAX), Some(aid(account)), None);
    assert_eq!(r.err(), Some(Error::AmountOverflow));
    assert_eq!(near_accounts.storage_balance_of(&aid(account)).unwrap(), before);
}

/// Withdrawing more than is available is an error and changes nothing.
#[test]
fn test_account_storage_withdraw_too_much() {
    let mut near_accounts = Accounts::new(PRICE);
    let account = "alice";
    register_account(&mut near_accounts, account);
    let total = near_accounts.storage_balance_of(&aid(account)).unwrap().total;

    let withdrawing_near = total + 1_000;
    let r = near_accounts.storage_withdraw(&ctx(account, 1), Some(withdrawing_near));
    assert_eq!(r, Err(Error::ExcessiveWithdrawal));
    assert_eq!(near_accounts.storage_balance_of(&aid(account)).unwrap().total, total);
}

/// Withdrawing without naming an amount pays out everything available.
#[test]
fn test_withdraw_all_available() {
    let mut near_accounts = Accounts::new(PRICE);
    let account = "alice";
    register_account(&mut near_accounts, account);
    near_accounts
        .storage_deposit(&ctx(account, 5_000), Some(aid(account)), None)
        .unwrap();

    let (bal, payout) = near_accounts.storage_withdraw(&ctx(account, 1), None).unwrap();
    assert_eq!(payout, 5_000);
    assert_eq!(bal.available, 0);
}

/// Deposit, withdraw the same amount, unregister: each step moves the
/// reported total exactly as far as its amount.
#[test]
fn simulate_deposit_storage() {
    let mut near_accounts = Accounts::new(PRICE);
    let alice = "alice";
    register_account(&mut near_accounts, alice);

    let deposit_amount: u128 = 1_000_000;
    let prior_bal = near_accounts.storage_balance_of(&aid(alice)).unwrap();

    near_accounts
        .storage_deposit(&ctx(alice, deposit_amount), None, None)
        .unwrap();

    let bal_post_deposit = near_accounts.storage_balance_of(&aid(alice)).unwrap();
    assert_eq!(prior_bal.total, bal_post_deposit.total - deposit_amount);

    near_accounts
        .storage_withdraw(&ctx(alice, 1), Some(deposit_amount))
        .unwrap();

    let new_bal = near_accounts.storage_balance_of(&aid(alice)).unwrap();
    assert_eq!(prior_bal.total, new_bal.total);

    let (done, _) = near_accounts.storage_unregister(&ctx(alice, 1), Some(true)).unwrap();
    assert!(done);
}

/// Growing a record borrows from the available balance and shrinking it
/// gives the bytes' cost back in full.
#[test]
fn with_macros_simulate_simple_storage_test() {
    let mut near_accounts = Accounts::new(PRICE);
    let alice = "alice";
    let min = near_accounts.storage_balance_bounds().min;
    near_accounts
        .storage_deposit(&ctx(alice, min * 10), Some(aid(alice)), None)
        .unwrap();
    let init_free = near_accounts.storage_balance_of(&aid(alice)).unwrap().available;

    // Grow the record: one fresh balance entry of a known footprint.
    let token = TokenId::FT { contract_id: aid("tok") };
    internal_balance_increase(&mut near_accounts, &aid(alice), &token, 1, PRICE).unwrap();

    let post_free = near_accounts.storage_balance_of(&aid(alice)).unwrap().available;
    assert_eq!(init_free, post_free + (1 + 3 + 16) * PRICE);

    // Shrink it back: persist the record with an emptied payload.
    let stored = near_accounts.get_account_checked(&aid(alice)).unwrap();
    let mut emptied = Account {
        near_amount: stored.near_amount,
        near_used_for_storage: stored.near_used_for_storage,
        info: TokenBalances::new(),
    };
    near_accounts
        .insert_account_check_storage(&aid(alice), &mut emptied, PRICE)
        .unwrap();

    let final_free = near_accounts.storage_balance_of(&aid(alice)).unwrap().available;
    assert_eq!(init_free, final_free);
}
