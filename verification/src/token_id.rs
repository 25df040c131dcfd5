use vstd::prelude::*;
use vstd::string::StrSliceExecFns;

use crate::account_id::{valid_account_id, AccountId};

verus! {

/// Mathematical form of an asset identifier: the asset kind, the address of
/// the contract the asset lives on, and (for multi-token and non-fungible
/// assets) the asset's own sub-identifier on that contract.
pub enum TokenKey {
    MT { contract_id: Seq<char>, token_id: Seq<char> },
    FT { contract_id: Seq<char> },
    NFT { contract_id: Seq<char>, token_id: Seq<char> },
}

/// An asset identifier: the key type of the balance ledger. Equality is
/// structural across all fields.
pub enum TokenId {
    MT { contract_id: AccountId, token_id: String },
    FT { contract_id: AccountId },
    NFT { contract_id: AccountId, token_id: String },
}

impl View for TokenId {
    type V = TokenKey;

    open spec fn view(&self) -> TokenKey {
        match self {
            TokenId::MT { contract_id, token_id } => TokenKey::MT {
                contract_id: contract_id@,
                token_id: token_id@,
            },
            TokenId::FT { contract_id } => TokenKey::FT { contract_id: contract_id@ },
            TokenId::NFT { contract_id, token_id } => TokenKey::NFT {
                contract_id: contract_id@,
                token_id: token_id@,
            },
        }
    }
}

impl Clone for TokenId {
    fn clone(&self) -> (r: Self)
        ensures
            r@ == self@,
    {
        match self {
            TokenId::MT { contract_id, token_id } => TokenId::MT {
                contract_id: contract_id.clone(),
                token_id: token_id.clone(),
            },
            TokenId::FT { contract_id } => TokenId::FT { contract_id: contract_id.clone() },
            TokenId::NFT { contract_id, token_id } => TokenId::NFT {
                contract_id: contract_id.clone(),
                token_id: token_id.clone(),
            },
        }
    }
}

/// Bytes a persisted asset identifier occupies: one byte for the kind tag,
/// plus the contract address and the asset's sub-identifier.
pub open spec fn token_footprint(k: TokenKey) -> int {
    match k {
        TokenKey::MT { contract_id, token_id } => 1 + contract_id.len() + token_id.len() as int,
        TokenKey::FT { contract_id } => 1 + contract_id.len() as int,
        TokenKey::NFT { contract_id, token_id } => 1 + contract_id.len() + token_id.len() as int,
    }
}

impl TokenId {
    /// Bytes this identifier occupies when persisted.
    pub fn footprint(&self) -> (r: u128)
        ensures
            r == token_footprint(self@),
    {
        match self {
            TokenId::MT { contract_id, token_id } => {
                1 + contract_id.len() as u128 + token_id.as_str().unicode_len() as u128
            },
            TokenId::FT { contract_id } => 1 + contract_id.len() as u128,
            TokenId::NFT { contract_id, token_id } => {
                1 + contract_id.len() as u128 + token_id.as_str().unicode_len() as u128
            },
        }
    }

    /// Whether two identifiers name the same asset.
    pub fn is_same(&self, other: &TokenId) -> (r: bool)
        ensures
            r == (self@ == other@),
    {
        match (self, other) {
            (
                TokenId::MT { contract_id: c1, token_id: t1 },
                TokenId::MT { contract_id: c2, token_id: t2 },
            ) => c1.is_same(c2) && *t1 == *t2,
            (TokenId::FT { contract_id: c1 }, TokenId::FT { contract_id: c2 }) => c1.is_same(c2),
            (
                TokenId::NFT { contract_id: c1, token_id: t1 },
                TokenId::NFT { contract_id: c2, token_id: t2 },
            ) => c1.is_same(c2) && *t1 == *t2,
            _ => false,
        }
    }
}

/// An asset identifier whose address parts are known to be within the
/// host's identifier bounds.
pub enum ValidTokenId {
    MT { contract_id: AccountId, token_id: String },
    FT { contract_id: AccountId },
    NFT { contract_id: AccountId, token_id: String },
}

impl ValidTokenId {
    /// Whether every address this identifier carries is within bounds.
    pub open spec fn wf(&self) -> bool {
        match self {
            ValidTokenId::MT { contract_id, .. } => valid_account_id(contract_id@),
            ValidTokenId::FT { contract_id } => valid_account_id(contract_id@),
            ValidTokenId::NFT { contract_id, .. } => valid_account_id(contract_id@),
        }
    }

    /// The plain identifier, kind for kind.
    pub fn into_token_id(self) -> (r: TokenId)
        ensures
            match self {
                ValidTokenId::MT { contract_id, token_id } => r@ == (TokenKey::MT {
                    contract_id: contract_id@,
                    token_id: token_id@,
                }),
                ValidTokenId::FT { contract_id } => r@ == (TokenKey::FT {
                    contract_id: contract_id@,
                }),
                ValidTokenId::NFT { contract_id, token_id } => r@ == (TokenKey::NFT {
                    contract_id: contract_id@,
                    token_id: token_id@,
                }),
            },
    {
        match self {
            ValidTokenId::MT { contract_id, token_id } => TokenId::MT { contract_id, token_id },
            ValidTokenId::FT { contract_id } => TokenId::FT { contract_id },
            ValidTokenId::NFT { contract_id, token_id } => TokenId::NFT { contract_id, token_id },
        }
    }
}

} // verus!
