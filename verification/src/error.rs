use vstd::prelude::*;

verus! {

/// Every failure an operation of this library can report.
///
/// Each variant is fatal to the call that raised it: the operation returns
/// with the store unchanged, the way the host runtime discards a call's
/// writes when the call aborts.
#[derive(Clone, Copy, Debug, PartialEq, Eq, Structural)]
pub enum Error {
    /// The targeted account has no record in the store.
    AccountNotRegistered,
    /// A mutation grew the account's record and its available balance does
    /// not cover the grown bytes at the current byte price.
    InsufficientStorageFunds,
    /// A ledger subtraction asked for more than the current token balance.
    InsufficientBalance,
    /// A withdrawal asked for more than the available balance.
    ExcessiveWithdrawal,
    /// A resolve callback's payload could not be read as the amount the
    /// external contract consumed, or reported more than was withdrawn.
    MalformedCallbackPayload,
    /// A balance addition would exceed the largest representable amount;
    /// the host would abort the call, so the operation reports it instead.
    AmountOverflow,
}

} // verus!
