//! Account registration with prepaid-storage accounting, and an internal
//! multi-asset balance ledger built on top of it.
//!
//! The store charges every account for the bytes its record occupies, against
//! a prepaid native-currency balance, at a byte price the host supplies per
//! call. All host interaction (attached deposits, the caller's identity,
//! outbound transfers, promise results) enters and leaves as plain values, so
//! every rule of the protocol is stated and proved here.

pub mod account;
pub mod account_id;
pub mod assoc;
pub mod balances;
pub mod context;
pub mod error;
pub mod ft;
pub mod laws;
pub mod ledger;
pub mod mt;
pub mod nft;
pub mod parse;
pub mod payload;
pub mod plugin;
pub mod storage;
pub mod store;
pub mod token_id;
pub mod transfer;
