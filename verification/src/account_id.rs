use vstd::prelude::*;
use vstd::string::StrSliceExecFns;

verus! {

/// An account identifier is between 1 and 64 characters long.
pub open spec fn valid_account_id(s: Seq<char>) -> bool {
    1 <= s.len() && s.len() <= 64
}

/// The address of a principal: an opaque identifier string, at most as long
/// as the longest identifier the host accepts.
pub struct AccountId {
    pub id: String,
}

impl View for AccountId {
    type V = Seq<char>;

    open spec fn view(&self) -> Seq<char> {
        self.id@
    }
}

impl Clone for AccountId {
    fn clone(&self) -> (r: Self)
        ensures
            r@ == self@,
    {
        AccountId { id: self.id.clone() }
    }
}

impl AccountId {
    /// Accepts an identifier exactly when its length is within bounds.
    pub fn new(id: String) -> (r: Option<AccountId>)
        ensures
            valid_account_id(id@) <==> r is Some,
            r matches Some(a) ==> a@ == id@,
    {
        let n = id.as_str().unicode_len();
        if 1 <= n && n <= 64 {
            Some(AccountId { id })
        } else {
            None
        }
    }

    /// Length of this identifier, the measure of the record-key bytes it
    /// occupies when persisted.
    pub fn len(&self) -> (r: usize)
        ensures
            r == self@.len(),
    {
        self.id.as_str().unicode_len()
    }

    pub fn as_str(&self) -> (r: &str)
        ensures
            r@ == self@,
    {
        self.id.as_str()
    }

    /// Whether two identifiers address the same account.
    pub fn is_same(&self, other: &AccountId) -> (r: bool)
        ensures
            r == (self@ == other@),
    {
        self.id == other.id
    }
}

/// A synthetic identifier of the longest legal length, used to measure the
/// largest storage footprint a fresh account record can have.
pub fn max_len_account_id() -> (r: AccountId)
    ensures
        valid_account_id(r@),
        r@ =~= Seq::new(64, |i: int| 'a'),
{
    let mut s = String::new();
    let mut i: usize = 0;
    while i < 64
        invariant
            i <= 64,
            s@.len() == i,
            forall|j: int| 0 <= j < i ==> s@[j] == 'a',
        decreases 64 - i,
    {
        proof {
            reveal_strlit("a");
        }
        s.append("a");
        i = i + 1;
    }
    proof {
        assert(s@ =~= Seq::new(64, |i: int| 'a'));
    }
    AccountId { id: s }
}

} // verus!
