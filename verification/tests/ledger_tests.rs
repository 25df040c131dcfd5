use near_account::account_id::AccountId;
use near_account::context::CallContext;
use near_account::error::Error;
use near_account::ft::ft_on_transfer;
use near_account::ledger::{
    internal_balance_get_all_balances, internal_balance_get_balance,
    internal_balance_get_storage_cost, internal_balance_increase, internal_balance_subtract,
    internal_balance_transfer,
};
use near_account::mt::mt_on_transfer;
use near_account::nft::nft_on_transfer;
use near_account::store::Accounts;
use near_account::token_id::TokenId;
use near_account::transfer::OnTransferOpts;

const PRICE: u128 = 10;

fn aid(s: &str) -> AccountId {
    AccountId::new(s.to_string()).unwrap()
}

fn ctx(caller: &str, attached: u128) -> CallContext {
    CallContext { predecessor: aid(caller), attached_deposit: attached, storage_byte_cost: PRICE }
}

fn new_store_with(users: &[&str]) -> Accounts {
    let mut accounts = Accounts::new(PRICE);
    let min = accounts.storage_balance_bounds().min;
    for who in users {
        accounts
            .storage_deposit(&ctx(who, min * 10), Some(aid(who)), None)
            .unwrap();
    }
    accounts
}

#[test]
fn ft_test_ft_adding_balances_and_then_subtracting() {}

#[test]
fn mt_test_ft_adding_balances_and_then_subtracting() {}

#[test]
fn nft_test_nft_adding_balances_and_then_subtracting() {}

/// An inbound fungible-token transfer credits the account, and debits
/// subtract from it step by step.
#[test]
fn ft_test_ft_subtracting_balances() {
    let mut near_accounts = new_store_with(&["alice"]);
    let account = aid("alice");
    let tok_id = TokenId::FT { contract_id: aid("carol") };

    ft_on_transfer(&mut near_accounts, &ctx("carol", 0), account.clone(), 1000.to_string(), None)
        .unwrap();
    let near_account = near_accounts.get_account_checked(&account).unwrap();
    let bal = internal_balance_get_balance(&near_account, &tok_id);
    assert_eq!(bal, 1_000);

    internal_balance_subtract(&mut near_accounts, &account, &tok_id, 100, PRICE).unwrap();
    let near_account = near_accounts.get_account_checked(&account).unwrap();
    let bal = internal_balance_get_balance(&near_account, &tok_id);
    assert_eq!(bal, 900);

    internal_balance_subtract(&mut near_accounts, &account, &tok_id, 100, PRICE).unwrap();
    let near_account = near_accounts.get_account_checked(&account).unwrap();
    let bal = internal_balance_get_balance(&near_account, &tok_id);
    assert_eq!(bal, 800);
}

/// An inbound transfer with no options credits the sender itself; one with
/// options credits the principal the options name.
#[test]
fn ft_test_on_transfer() {
    let mut near_accounts = new_store_with(&["alice"]);
    let account = aid("alice");
    let tok_id = TokenId::FT { contract_id: aid("carol") };

    let near_account = near_accounts.get_account_checked(&account).unwrap();
    let bal = internal_balance_get_balance(&near_account, &tok_id);
    assert_eq!(bal, 0);

    let amount_unused = ft_on_transfer(
        &mut near_accounts,
        &ctx("carol", 0),
        account.clone(),
        1000.to_string(),
        None,
    )
    .unwrap();
    assert_eq!(amount_unused, "0");

    let near_account = near_accounts.get_account_checked(&account).unwrap();
    let bal = internal_balance_get_balance(&near_account, &tok_id);
    assert_eq!(bal, 1_000);

    let amount_unused = ft_on_transfer(
        &mut near_accounts,
        &ctx("carol", 0),
        aid("bob"),
        100.to_string(),
        Some(OnTransferOpts { sender_id: account.clone() }),
    )
    .unwrap();
    assert_eq!(amount_unused, "0");
    let near_account = near_accounts.get_account_checked(&account).unwrap();
    let bal = internal_balance_get_balance(&near_account, &tok_id);
    assert_eq!(bal, 1_100);
}

/// Multi-token inbound batches credit per listed token, and debits
/// subtract per token.
#[test]
fn mt_test_ft_subtracting_balances() {
    let mut near_accounts = new_store_with(&["alice"]);
    let account = aid("alice");
    let mt_token_id = "my tok".to_string();
    let tok_id = TokenId::MT { contract_id: aid("carol"), token_id: mt_token_id.clone() };

    mt_on_transfer(
        &mut near_accounts,
        &ctx("carol", 0),
        account.clone(),
        vec![mt_token_id],
        vec![1_000],
        None,
    )
    .unwrap();
    let near_account = near_accounts.get_account_checked(&account).unwrap();
    assert_eq!(internal_balance_get_balance(&near_account, &tok_id), 1_000);

    internal_balance_subtract(&mut near_accounts, &account, &tok_id, 100, PRICE).unwrap();
    let near_account = near_accounts.get_account_checked(&account).unwrap();
    assert_eq!(internal_balance_get_balance(&near_account, &tok_id), 900);

    internal_balance_subtract(&mut near_accounts, &account, &tok_id, 100, PRICE).unwrap();
    let near_account = near_accounts.get_account_checked(&account).unwrap();
    assert_eq!(internal_balance_get_balance(&near_account, &tok_id), 800);
}

/// A multi-token inbound batch reports one unconsumed amount per token,
/// all zero, and credits the named principal when options are attached.
#[test]
fn mt_test_on_transfer() {
    let mut near_accounts = new_store_with(&["alice"]);
    let account = aid("alice");
    let mt_token_id = "my tok".to_string();
    let tok_id = TokenId::MT { contract_id: aid("carol"), token_id: mt_token_id.clone() };

    let near_account = near_accounts.get_account_checked(&account).unwrap();
    assert_eq!(internal_balance_get_balance(&near_account, &tok_id), 0);

    let amount_unused = mt_on_transfer(
        &mut near_accounts,
        &ctx("carol", 0),
        account.clone(),
        vec![mt_token_id.clone()],
        vec![1000],
        None,
    )
    .unwrap();
    assert_eq!(amount_unused.len(), 1);
    assert_eq!(amount_unused[0], 0);

    let near_account = near_accounts.get_account_checked(&account).unwrap();
    assert_eq!(internal_balance_get_balance(&near_account, &tok_id), 1_000);

    let amount_unused = mt_on_transfer(
        &mut near_accounts,
        &ctx("carol", 0),
        aid("bob"),
        vec![mt_token_id],
        vec![100],
        Some(OnTransferOpts { sender_id: account.clone() }),
    )
    .unwrap();
    assert_eq!(amount_unused.len(), 1);
    assert_eq!(amount_unused[0], 0);
    let near_account = near_accounts.get_account_checked(&account).unwrap();
    assert_eq!(internal_balance_get_balance(&near_account, &tok_id), 1_100);
}

/// An inbound non-fungible token credits one unit, and a debit takes it.
#[test]
fn nft_test_nft_subtracting_balances() {
    let mut near_accounts = new_store_with(&["alice"]);
    let account = aid("alice");
    let tok_id_str = "tok".to_string();
    let tok_id = TokenId::NFT { contract_id: aid("carol"), token_id: tok_id_str.clone() };

    nft_on_transfer(
        &mut near_accounts,
        &ctx("carol", 0),
        account.clone(),
        account.clone(),
        tok_id_str,
        None,
    )
    .unwrap();
    let near_account = near_accounts.get_account_checked(&account).unwrap();
    assert_eq!(internal_balance_get_balance(&near_account, &tok_id), 1);

    internal_balance_subtract(&mut near_accounts, &account, &tok_id, 1, PRICE).unwrap();
    let near_account = near_accounts.get_account_checked(&account).unwrap();
    assert_eq!(internal_balance_get_balance(&near_account, &tok_id), 0);
}

/// An inbound non-fungible token is accepted — the handler does not ask
/// for it back — and the unit lands on the previous owner.
#[test]
fn nft_test_on_transfer() {
    let mut near_accounts = new_store_with(&["alice"]);
    let account = aid("alice");
    let tok_id_str = "tok".to_string();
    let tok_id = TokenId::NFT { contract_id: aid("carol"), token_id: tok_id_str.clone() };

    let near_account = near_accounts.get_account_checked(&account).unwrap();
    assert_eq!(internal_balance_get_balance(&near_account, &tok_id), 0);

    let returned = nft_on_transfer(
        &mut near_accounts,
        &ctx("carol", 0),
        account.clone(),
        account.clone(),
        tok_id_str.clone(),
        None,
    )
    .unwrap();
    assert_eq!(returned, false);

    let near_account = near_accounts.get_account_checked(&account).unwrap();
    assert_eq!(internal_balance_get_balance(&near_account, &tok_id), 1);
}

/// Subtracting more than the balance is an error and changes nothing.
#[test]
fn test_subtract_balance_insufficient() {
    let mut near_accounts = new_store_with(&["alice"]);
    let account = aid("alice");
    let tok_id = TokenId::FT { contract_id: aid("carol") };
    internal_balance_increase(&mut near_accounts, &account, &tok_id, 500, PRICE).unwrap();
    let before = near_accounts.storage_balance_of(&account).unwrap();

    let r = internal_balance_subtract(&mut near_accounts, &account, &tok_id, 501, PRICE);
    assert_eq!(r, Err(Error::InsufficientBalance));

    let near_account = near_accounts.get_account_checked(&account).unwrap();
    assert_eq!(internal_balance_get_balance(&near_account, &tok_id), 500);
    assert_eq!(near_accounts.storage_balance_of(&account).unwrap(), before);
}

/// Crediting an unregistered account is an error.
#[test]
fn test_increase_unregistered_fails() {
    let mut near_accounts = Accounts::new(PRICE);
    let tok_id = TokenId::FT { contract_id: aid("carol") };
    let r = internal_balance_increase(&mut near_accounts, &aid("alice"), &tok_id, 5, PRICE);
    assert_eq!(r, Err(Error::AccountNotRegistered));
}

/// Crediting past the largest representable amount is an error.
#[test]
fn test_increase_overflow_fails() {
    let mut near_accounts = new_store_with(&["alice"]);
    let account = aid("alice");
    let tok_id = TokenId::FT { contract_id: aid("carol") };
    internal_balance_increase(&mut near_accounts, &account, &tok_id, u128::MAX, PRICE).unwrap();
    let r = internal_balance_increase(&mut near_accounts, &account, &tok_id, 1, PRICE);
    assert_eq!(r, Err(Error::AmountOverflow));
}

/// A transfer moves the amount from the caller to the recipient.
#[test]
fn test_balance_transfer() {
    let mut near_accounts = new_store_with(&["alice", "bob"]);
    let tok_id = TokenId::FT { contract_id: aid("carol") };
    internal_balance_increase(&mut near_accounts, &aid("alice"), &tok_id, 1_000, PRICE).unwrap();

    internal_balance_transfer(&mut near_accounts, &ctx("alice", 1), &aid("bob"), &tok_id, 300, None)
        .unwrap();

    let alice = near_accounts.get_account_checked(&aid("alice")).unwrap();
    let bob = near_accounts.get_account_checked(&aid("bob")).unwrap();
    assert_eq!(internal_balance_get_balance(&alice, &tok_id), 700);
    assert_eq!(internal_balance_get_balance(&bob, &tok_id), 300);
}

/// A transfer to an unregistered recipient fails whole: the caller's
/// already-debited balance is restored.
#[test]
fn test_balance_transfer_unregistered_recipient_rolls_back() {
    let mut near_accounts = new_store_with(&["alice"]);
    let tok_id = TokenId::FT { contract_id: aid("carol") };
    internal_balance_increase(&mut near_accounts, &aid("alice"), &tok_id, 1_000, PRICE).unwrap();
    let before = near_accounts.storage_balance_of(&aid("alice")).unwrap();

    let r = internal_balance_transfer(
        &mut near_accounts,
        &ctx("alice", 1),
        &aid("bob"),
        &tok_id,
        300,
        None,
    );
    assert_eq!(r, Err(Error::AccountNotRegistered));

    let alice = near_accounts.get_account_checked(&aid("alice")).unwrap();
    assert_eq!(internal_balance_get_balance(&alice, &tok_id), 1_000);
    assert_eq!(near_accounts.storage_balance_of(&aid("alice")).unwrap(), before);
}

/// A transfer whose recipient cannot collateralize the fresh balance
/// entry fails whole: the caller's debit is undone too.
#[test]
fn test_balance_transfer_storage_shortfall_rolls_back() {
    let mut near_accounts = new_store_with(&["alice"]);
    // Register the recipient with nothing available beyond its own record.
    let min = near_accounts.storage_balance_bounds().min;
    near_accounts
        .storage_deposit(&ctx("bob", min * 10), Some(aid("bob")), Some(true))
        .unwrap();
    let tok_id = TokenId::FT { contract_id: aid("carol") };
    internal_balance_increase(&mut near_accounts, &aid("alice"), &tok_id, 1_000, PRICE).unwrap();

    let r = internal_balance_transfer(
        &mut near_accounts,
        &ctx("alice", 1),
        &aid("bob"),
        &tok_id,
        300,
        None,
    );
    assert_eq!(r, Err(Error::InsufficientStorageFunds));

    let alice = near_accounts.get_account_checked(&aid("alice")).unwrap();
    let bob = near_accounts.get_account_checked(&aid("bob")).unwrap();
    assert_eq!(internal_balance_get_balance(&alice, &tok_id), 1_000);
    assert_eq!(internal_balance_get_balance(&bob, &tok_id), 0);
}

/// Every balance an account holds comes back, in the order the assets
/// were first recorded.
#[test]
fn test_get_all_balances() {
    let mut near_accounts = new_store_with(&["alice"]);
    let account = aid("alice");
    let ft = TokenId::FT { contract_id: aid("carol") };
    let nft = TokenId::NFT { contract_id: aid("dan"), token_id: "tok".to_string() };
    internal_balance_increase(&mut near_accounts, &account, &ft, 42, PRICE).unwrap();
    internal_balance_increase(&mut near_accounts, &account, &nft, 1, PRICE).unwrap();

    let all = internal_balance_get_all_balances(&near_accounts, &account).unwrap();
    assert_eq!(all.len(), 2);
    assert!(all[0].0.is_same(&ft) && all[0].1 == 42);
    assert!(all[1].0.is_same(&nft) && all[1].1 == 1);
}

/// One batch may list the same token twice; the credits accumulate.
#[test]
fn test_mt_on_transfer_repeated_token() {
    let mut near_accounts = new_store_with(&["alice"]);
    let account = aid("alice");
    let tok_id = TokenId::MT { contract_id: aid("carol"), token_id: "t".to_string() };

    mt_on_transfer(
        &mut near_accounts,
        &ctx("carol", 0),
        account.clone(),
        vec!["t".to_string(), "t".to_string()],
        vec![5, 7],
        None,
    )
    .unwrap();
    let near_account = near_accounts.get_account_checked(&account).unwrap();
    assert_eq!(internal_balance_get_balance(&near_account, &tok_id), 12);
}

/// The quoted cost of tracking one more asset is the entry's bytes at the
/// byte price, and quoting leaves the store unchanged.
#[test]
fn test_get_storage_cost_for_one_balance() {
    let mut near_accounts = new_store_with(&["alice"]);
    let before = near_accounts.storage_balance_of(&aid("alice")).unwrap();
    let tok_id = TokenId::FT { contract_id: aid("carol") };

    let cost = internal_balance_get_storage_cost(&mut near_accounts, tok_id, PRICE);
    assert_eq!(cost, (1 + 5 + 16) * PRICE);
    assert_eq!(near_accounts.storage_balance_of(&aid("alice")).unwrap(), before);
}
