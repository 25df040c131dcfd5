use vstd::prelude::*;

use crate::account::{Account, StorageBalance, StorageBalanceBounds};
use crate::account_id::AccountId;
use crate::balances::TokenBalances;
use crate::context::CallContext;
use crate::error::Error;
use crate::token_id::TokenId;
use crate::transfer::{OnTransferOpts, PendingTransfer};

verus! {

/// How a fresh extension payload is made for an account that registers.
pub trait NewInfo: Sized {
    fn default_from_account_id(account_id: &AccountId) -> Self;
}

/// The capability an extension payload offers the balance ledger: per-asset
/// balances it can read, write and enumerate.
pub trait BalanceInfo: Sized {
    fn get_balance(&self, token_id: &TokenId) -> u128;

    fn set_balance(&mut self, token_id: &TokenId, balance: u128);

    fn get_all_tokens(&self) -> Vec<TokenId>;
}

/// What the balance ledger asks of an account's extension payload.
pub trait AccountInfoTrait: NewInfo + BalanceInfo {
}

impl NewInfo for TokenBalances {
    fn default_from_account_id(account_id: &AccountId) -> Self {
        let _ = account_id;
        TokenBalances::new()
    }
}

impl BalanceInfo for TokenBalances {
    fn get_balance(&self, token_id: &TokenId) -> u128 {
        TokenBalances::get_balance(self, token_id)
    }

    fn set_balance(&mut self, token_id: &TokenId, balance: u128) {
        TokenBalances::set_balance(self, token_id, balance)
    }

    fn get_all_tokens(&self) -> Vec<TokenId> {
        TokenBalances::get_all_tokens(self)
    }
}

impl AccountInfoTrait for TokenBalances {
}

/// The storage-management surface a hosting contract exposes externally,
/// delegating each method to its account store.
pub trait NearAccountPlugin {
    fn accounts_storage_deposit(
        &mut self,
        ctx: &CallContext,
        account_id: Option<AccountId>,
        registration_only: Option<bool>,
    ) -> Result<(StorageBalance, u128), Error>;

    fn accounts_storage_withdraw(&mut self, ctx: &CallContext, amount: Option<u128>) -> Result<
        (StorageBalance, u128),
        Error,
    >;

    fn accounts_storage_unregister(&mut self, ctx: &CallContext, force: Option<bool>) -> Result<
        (bool, u128),
        Error,
    >;

    fn accounts_storage_balance_bounds(&self) -> StorageBalanceBounds;

    fn accounts_storage_balance_of(&self, account_id: AccountId) -> Option<StorageBalance>;

    fn accounts_near_balance_of(&self, account_id: AccountId) -> Option<StorageBalance>;
}

/// The ledger operations a hosting contract keeps for internal use.
pub trait SudoInternalBalanceHandlers {
    fn internal_balance_subtract(
        &mut self,
        account_id: &AccountId,
        token_id: &TokenId,
        amount: u128,
        byte_cost: u128,
    ) -> Result<(), Error>;

    fn internal_balance_increase(
        &mut self,
        account_id: &AccountId,
        token_id: &TokenId,
        amount: u128,
        byte_cost: u128,
    ) -> Result<(), Error>;

    fn internal_balance_get_internal(&self, account_id: &AccountId, token_id: &TokenId) -> u128;

    fn internal_balance_get_storage_cost(&mut self, token_id: TokenId, byte_cost: u128) -> u128;

    fn internal_balance_transfer_internal(
        &mut self,
        ctx: &CallContext,
        recipient: AccountId,
        token_id: TokenId,
        amount: u128,
        message: Option<String>,
    ) -> Result<(), Error>;
}

/// The ledger operations a hosting contract exposes externally.
pub trait InternalBalanceHandlers {
    fn ft_on_transfer(
        &mut self,
        ctx: &CallContext,
        sender_id: AccountId,
        amount: String,
        opts: Option<OnTransferOpts>,
    ) -> Result<String, Error>;

    fn nft_on_transfer(
        &mut self,
        ctx: &CallContext,
        sender_id: AccountId,
        previous_owner_id: AccountId,
        token_id: String,
        opts: Option<OnTransferOpts>,
    ) -> Result<bool, Error>;

    fn mt_on_transfer(
        &mut self,
        ctx: &CallContext,
        sender_id: AccountId,
        token_ids: Vec<String>,
        amounts: Vec<u128>,
        opts: Option<OnTransferOpts>,
    ) -> Result<Vec<u128>, Error>;

    fn internal_balance_get_balance(&self, account_id: AccountId, token_id: TokenId) -> u128;

    fn internal_balance_get_all_balances(&self, account_id: AccountId) -> Result<
        Vec<(TokenId, u128)>,
        Error,
    >;

    fn resolve_internal_withdraw_call(
        &mut self,
        account_id: AccountId,
        token_id: TokenId,
        amount: u128,
        is_call: bool,
        promise_result: Option<Vec<u8>>,
        byte_cost: u128,
    ) -> Result<u128, Error>;

    fn internal_balance_withdraw_to(
        &mut self,
        ctx: &CallContext,
        amount: u128,
        token_id: TokenId,
        recipient: Option<AccountId>,
        msg: Option<String>,
    ) -> Result<PendingTransfer, Error>;

    fn internal_balance_transfer(
        &mut self,
        ctx: &CallContext,
        recipient: AccountId,
        token_id: TokenId,
        amount: u128,
        message: Option<String>,
    ) -> Result<(), Error>;
}

/// The full internal-balance plugin surface: what a hosting contract
/// implements to track deposits of every supported asset kind.
pub trait NearInternalBalance: SudoInternalBalanceHandlers + InternalBalanceHandlers {
}

/// The ledger operations a fungible-token-only deployment keeps for
/// internal use; asset identifiers shrink to the token contract's address.
pub trait SudoInternalBalanceFungibleToken {
    fn subtract_balance(
        &mut self,
        account_id: &AccountId,
        token_id: &AccountId,
        amount: u128,
        byte_cost: u128,
    ) -> Result<(), Error>;

    fn increase_balance(
        &mut self,
        account_id: &AccountId,
        token_id: &AccountId,
        amount: u128,
        byte_cost: u128,
    ) -> Result<(), Error>;

    fn get_ft_balance_internal(&self, account_id: &AccountId, token_id: &AccountId) -> u128;
}

/// The ledger operations a fungible-token-only deployment exposes
/// externally.
pub trait InternalBalanceFungibleTokenHandlers {
    fn ft_on_transfer(
        &mut self,
        ctx: &CallContext,
        sender_id: AccountId,
        amount: String,
        opts: Option<OnTransferOpts>,
    ) -> Result<String, Error>;

    fn get_ft_balance(&self, account_id: AccountId, token_id: AccountId) -> u128;

    fn resolve_internal_ft_transfer_call(
        &mut self,
        account_id: AccountId,
        token_id: AccountId,
        amount: u128,
        is_call: bool,
        promise_result: Option<Vec<u8>>,
        byte_cost: u128,
    ) -> Result<u128, Error>;

    fn withdraw_to(
        &mut self,
        ctx: &CallContext,
        amount: u128,
        token_id: AccountId,
        recipient: Option<AccountId>,
        msg: Option<String>,
    ) -> Result<PendingTransfer, Error>;

    fn balance_transfer(
        &mut self,
        ctx: &CallContext,
        recipient: AccountId,
        token_id: AccountId,
        amount: u128,
        message: Option<String>,
    ) -> Result<(), Error>;
}

/// The internal-balance plugin surface of a deployment that tracks
/// fungible tokens only.
pub trait NearFTInternalBalance:
    SudoInternalBalanceFungibleToken + InternalBalanceFungibleTokenHandlers {
}

/// The resolve callback as the host invokes it on this same contract
/// after an outbound transfer's external leg settles.
pub trait InternalBalanceResolver {
    fn resolve_internal_withdraw_call(
        &mut self,
        account_id: AccountId,
        token_id: TokenId,
        amount: u128,
        is_call: bool,
        promise_result: Option<Vec<u8>>,
        byte_cost: u128,
    ) -> Result<u128, Error>;
}

/// The account-record operations the store offers hosting contracts for
/// internal bookkeeping, outside the external storage-management surface.
pub trait NearAccountsPluginNonExternal {
    fn get_account_checked(&self, account_id: &AccountId) -> Result<Account, Error>;

    fn remove_account_unchecked(&mut self, account_id: &AccountId) -> Option<Account>;

    fn insert_account_unchecked(
        &mut self,
        account_id: &AccountId,
        account: &Account,
    ) -> Option<Account>;

    fn insert_account_check_storage(
        &mut self,
        account_id: &AccountId,
        account: &mut Account,
        byte_cost: u128,
    ) -> Result<Option<Account>, Error>;

    fn get_account(&self, account_id: &AccountId) -> Option<Account>;
}

/// The native-currency deposit operations of one account record: how its
/// prepaid balance is read, topped up, paid out, and billed for storage.
pub trait AccountDeposits {
    fn check_storage(
        &mut self,
        bytes_before: u128,
        bytes_after: u128,
        byte_cost: u128,
    ) -> Result<(), Error>;

    fn get_available_near(&self) -> u128;

    fn storage_balance(&self) -> StorageBalance;

    fn near_deposit(&mut self, attached: u128) -> Result<StorageBalance, Error>;

    fn near_balance(&self) -> Option<StorageBalance>;

    fn near_withdraw(&mut self, receiver_id: &AccountId, amount: Option<u128>) -> Result<
        (StorageBalance, u128),
        Error,
    >;
}

} // verus!
