use vstd::prelude::*;

use crate::account_id::AccountId;

verus! {

/// What the host hands a call when it enters the contract: who is calling,
/// the native currency attached to the call, and the live price the host
/// charges per persisted byte. The price is read anew for every call, so a
/// runtime-wide price change takes effect at each account's next mutation.
pub struct CallContext {
    pub predecessor: AccountId,
    pub attached_deposit: u128,
    pub storage_byte_cost: u128,
}

} // verus!
