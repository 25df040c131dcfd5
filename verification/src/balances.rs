use vstd::prelude::*;

use crate::token_id::{token_footprint, TokenId, TokenKey};

verus! {

/// One tracked asset balance: the asset's identifier and the amount held.
pub struct BalanceEntry {
    pub token: TokenId,
    pub amount: u128,
}

impl View for BalanceEntry {
    type V = (TokenKey, u128);

    open spec fn view(&self) -> (TokenKey, u128) {
        (self.token@, self.amount)
    }
}

impl Clone for BalanceEntry {
    fn clone(&self) -> (r: Self)
        ensures
            r@ == self@,
    {
        BalanceEntry { token: self.token.clone(), amount: self.amount }
    }
}

/// Whether some entry carries the asset `k`.
pub open spec fn has_token(s: Seq<(TokenKey, u128)>, k: TokenKey) -> bool {
    exists|i: int| 0 <= i < s.len() && s[i].0 == k
}

/// Index of the first entry carrying the asset `k`.
pub open spec fn token_index(s: Seq<(TokenKey, u128)>, k: TokenKey) -> int
    decreases s.len(),
{
    if s.len() == 0 {
        0
    } else if s[0].0 == k {
        0
    } else {
        1 + token_index(s.drop_first(), k)
    }
}

/// Balance recorded for the asset `k`: the first entry's amount, or zero
/// when no entry carries it.
pub open spec fn bal_of(s: Seq<(TokenKey, u128)>, k: TokenKey) -> u128 {
    if has_token(s, k) {
        s[token_index(s, k)].1
    } else {
        0
    }
}

/// No two entries carry the same asset.
pub open spec fn tokens_unique(s: Seq<(TokenKey, u128)>) -> bool {
    forall|i: int, j: int| 0 <= i < j < s.len() ==> s[i].0 != s[j].0
}

/// Bytes one entry occupies when persisted: its asset identifier plus the
/// sixteen bytes of the amount.
pub open spec fn entry_bytes(k: TokenKey) -> int {
    token_footprint(k) + 16
}

/// Bytes a whole balance table occupies when persisted.
pub open spec fn entries_bytes(s: Seq<(TokenKey, u128)>) -> int
    decreases s.len(),
{
    if s.len() == 0 {
        0
    } else {
        entry_bytes(s[0].0) + entries_bytes(s.drop_first())
    }
}

/// The table after recording balance `v` for asset `k`: the first entry for
/// `k` updated in place, or a fresh entry appended.
pub open spec fn spec_set_balance(
    s: Seq<(TokenKey, u128)>,
    k: TokenKey,
    v: u128,
) -> Seq<(TokenKey, u128)> {
    if has_token(s, k) {
        s.update(token_index(s, k), (k, v))
    } else {
        s.push((k, v))
    }
}

/// The first index carrying `k` is in bounds, carries `k`, and nothing
/// before it does.
pub proof fn lemma_token_index(s: Seq<(TokenKey, u128)>, k: TokenKey)
    requires
        has_token(s, k),
    ensures
        0 <= token_index(s, k) < s.len(),
        s[token_index(s, k)].0 == k,
        forall|j: int| 0 <= j < token_index(s, k) ==> s[j].0 != k,
    decreases s.len(),
{
    if s.len() == 0 {
    } else if s[0].0 == k {
    } else {
        assert(has_token(s.drop_first(), k)) by {
            let i = choose|i: int| 0 <= i < s.len() && s[i].0 == k;
            assert(s.drop_first()[i - 1].0 == k);
        }
        lemma_token_index(s.drop_first(), k);
        assert forall|j: int| 0 <= j < token_index(s, k) implies s[j].0 != k by {
            if j > 0 {
                assert(s.drop_first()[j - 1].0 == s[j].0);
            }
        }
    }
}

/// With unique assets, each entry's amount is the balance of its asset.
pub proof fn lemma_bal_of_at(s: Seq<(TokenKey, u128)>, i: int)
    requires
        tokens_unique(s),
        0 <= i < s.len(),
    ensures
        bal_of(s, s[i].0) == s[i].1,
{
    assert(has_token(s, s[i].0));
    lemma_token_index(s, s[i].0);
}

/// A balance table never occupies a negative number of bytes.
pub proof fn lemma_entries_bytes_nonneg(s: Seq<(TokenKey, u128)>)
    ensures
        entries_bytes(s) >= 0,
    decreases s.len(),
{
    if s.len() > 0 {
        lemma_entries_bytes_nonneg(s.drop_first());
    }
}

/// Splitting a table after its first `i` entries splits its byte count.
pub proof fn lemma_entries_bytes_split(s: Seq<(TokenKey, u128)>, i: int)
    requires
        0 <= i <= s.len(),
    ensures
        entries_bytes(s) == entries_bytes(s.take(i)) + entries_bytes(s.skip(i)),
    decreases i,
{
    if i == 0 {
        assert(s.take(0) =~= Seq::<(TokenKey, u128)>::empty());
        assert(s.skip(0) =~= s);
    } else {
        lemma_entries_bytes_split(s.drop_first(), i - 1);
        assert(s.take(i).drop_first() =~= s.drop_first().take(i - 1));
        assert(s.skip(i) =~= s.drop_first().skip(i - 1));
        assert(entries_bytes(s.take(i)) == entry_bytes(s[0].0) + entries_bytes(
            s.drop_first().take(i - 1),
        ));
        assert(entries_bytes(s) == entry_bytes(s[0].0) + entries_bytes(s.drop_first()));
    }
}

/// The per-account balance table: the contract-specific extension payload
/// that the balance ledger keeps for each account.
pub struct TokenBalances {
    pub entries: Vec<BalanceEntry>,
}

impl View for TokenBalances {
    type V = Seq<(TokenKey, u128)>;

    open spec fn view(&self) -> Seq<(TokenKey, u128)> {
        self.entries@.map_values(|e: BalanceEntry| e@)
    }
}

impl Clone for TokenBalances {
    fn clone(&self) -> (r: Self)
        ensures
            r@ == self@,
    {
        let mut entries: Vec<BalanceEntry> = Vec::new();
        let mut i: usize = 0;
        while i < self.entries.len()
            invariant
                i <= self.entries.len(),
                entries@.len() == i,
                forall|j: int| 0 <= j < i ==> entries@[j]@ == self@[j],
            decreases self.entries.len() - i,
        {
            entries.push(self.entries[i].clone());
            i = i + 1;
        }
        let r = TokenBalances { entries };
        proof {
            assert(r@ =~= self@);
        }
        r
    }
}

impl TokenBalances {
    /// An empty table.
    pub fn new() -> (r: Self)
        ensures
            r@ =~= Seq::<(TokenKey, u128)>::empty(),
    {
        TokenBalances { entries: Vec::new() }
    }

    /// Balance recorded for `token`, zero when none is.
    pub fn get_balance(&self, token: &TokenId) -> (r: u128)
        ensures
            r == bal_of(self@, token@),
    {
        let n = self.entries.len();
        let mut i: usize = 0;
        while i < n
            invariant
                n == self.entries.len(),
                i <= n,
                forall|j: int| 0 <= j < i ==> self@[j].0 != token@,
            decreases n - i,
        {
            if self.entries[i].token.is_same(token) {
                proof {
                    assert(self@[i as int].0 == token@);
                    lemma_token_index(self@, token@);
                }
                return self.entries[i].amount;
            }
            i = i + 1;
        }
        proof {
            assert(!has_token(self@, token@));
        }
        0
    }

    /// Records balance `amount` for `token`, updating its entry in place or
    /// appending a fresh one. Zero is recorded like any other amount: the
    /// entry, and the bytes it occupies, remain.
    pub fn set_balance(&mut self, token: &TokenId, amount: u128)
        ensures
            final(self)@ == spec_set_balance(old(self)@, token@, amount),
    {
        let n = self.entries.len();
        let mut i: usize = 0;
        while i < n
            invariant
                n == self.entries.len(),
                i <= n,
                *self == *old(self),
                forall|j: int| 0 <= j < i ==> self@[j].0 != token@,
            decreases n - i,
        {
            if self.entries[i].token.is_same(token) {
                proof {
                    assert(self@[i as int].0 == token@);
                    lemma_token_index(self@, token@);
                }
                self.entries.set(i, BalanceEntry { token: token.clone(), amount });
                proof {
                    assert(final(self)@ =~= spec_set_balance(old(self)@, token@, amount));
                }
                return ;
            }
            i = i + 1;
        }
        proof {
            assert(!has_token(self@, token@));
        }
        self.entries.push(BalanceEntry { token: token.clone(), amount });
        proof {
            assert(final(self)@ =~= spec_set_balance(old(self)@, token@, amount));
        }
    }

    /// Every asset with an entry, in table order.
    pub fn get_all_tokens(&self) -> (r: Vec<TokenId>)
        ensures
            r@.len() == self@.len(),
            forall|i: int| 0 <= i < r@.len() ==> r@[i]@ == self@[i].0,
    {
        let mut out: Vec<TokenId> = Vec::new();
        let mut i: usize = 0;
        while i < self.entries.len()
            invariant
                i <= self.entries.len(),
                out@.len() == i,
                forall|j: int| 0 <= j < i ==> out@[j]@ == self@[j].0,
            decreases self.entries.len() - i,
        {
            out.push(self.entries[i].token.clone());
            i = i + 1;
        }
        out
    }

    /// Bytes this table occupies when persisted.
    pub fn bytes(&self) -> (r: u128)
        requires
            entries_bytes(self@) <= u128::MAX,
        ensures
            r == entries_bytes(self@),
    {
        let n = self.entries.len();
        let mut total: u128 = 0;
        let mut i: usize = 0;
        while i < n
            invariant
                n == self.entries.len(),
                i <= n,
                entries_bytes(self@) <= u128::MAX,
                total == entries_bytes(self@.take(i as int)),
            decreases n - i,
        {
            proof {
                lemma_entries_bytes_split(self@, i as int);
                lemma_entries_bytes_split(self@, i + 1);
                assert(self@.take(i + 1).drop_last() =~= self@.take(i as int));
                assert(self@.take(i + 1).last() == self@[i as int]);
                lemma_entries_bytes_take_step(self@, i as int);
                lemma_entries_bytes_nonneg(self@.skip(i + 1));
            }
            let eb = self.entries[i].token.footprint() + 16;
            total = total + eb;
            i = i + 1;
        }
        proof {
            assert(self@.take(n as int) =~= self@);
        }
        total
    }
}

/// Updating an entry in place, key kept, leaves the byte count unchanged.
pub proof fn lemma_entries_bytes_update(s: Seq<(TokenKey, u128)>, i: int, v: u128)
    requires
        0 <= i < s.len(),
    ensures
        entries_bytes(s.update(i, (s[i].0, v))) == entries_bytes(s),
    decreases s.len(),
{
    let su = s.update(i, (s[i].0, v));
    if i == 0 {
        assert(su.drop_first() =~= s.drop_first());
        assert(su[0].0 == s[0].0);
    } else {
        assert(su.drop_first() =~= s.drop_first().update(i - 1, (s[i].0, v)));
        assert(s.drop_first()[i - 1] == s[i]);
        lemma_entries_bytes_update(s.drop_first(), i - 1, v);
        assert(su[0] == s[0]);
    }
}

/// Appending an entry adds exactly that entry's bytes.
pub proof fn lemma_entries_bytes_push(s: Seq<(TokenKey, u128)>, e: (TokenKey, u128))
    ensures
        entries_bytes(s.push(e)) == entries_bytes(s) + entry_bytes(e.0),
    decreases s.len(),
{
    assert(entries_bytes(s.push(e)) == entry_bytes(s.push(e)[0].0) + entries_bytes(
        s.push(e).drop_first(),
    ));
    if s.len() == 0 {
        assert(s.push(e).drop_first() =~= Seq::<(TokenKey, u128)>::empty());
        assert(s.push(e)[0] == e);
    } else {
        assert(s.push(e).drop_first() =~= s.drop_first().push(e));
        lemma_entries_bytes_push(s.drop_first(), e);
        assert(s.push(e)[0] == s[0]);
        assert(entries_bytes(s) == entry_bytes(s[0].0) + entries_bytes(s.drop_first()));
    }
}

/// Recording a balance grows the byte count by one entry exactly when the
/// asset had none.
pub proof fn lemma_set_balance_bytes(s: Seq<(TokenKey, u128)>, k: TokenKey, v: u128)
    ensures
        entries_bytes(spec_set_balance(s, k, v)) == if has_token(s, k) {
            entries_bytes(s)
        } else {
            entries_bytes(s) + entry_bytes(k)
        },
{
    if has_token(s, k) {
        lemma_token_index(s, k);
        lemma_entries_bytes_update(s, token_index(s, k), v);
    } else {
        lemma_entries_bytes_push(s, (k, v));
    }
}

/// Recording a balance keeps assets unique.
pub proof fn lemma_set_balance_unique(s: Seq<(TokenKey, u128)>, k: TokenKey, v: u128)
    requires
        tokens_unique(s),
    ensures
        tokens_unique(spec_set_balance(s, k, v)),
{
    let su = spec_set_balance(s, k, v);
    if has_token(s, k) {
        lemma_token_index(s, k);
        let i = token_index(s, k);
        assert forall|a: int, b: int| 0 <= a < b < su.len() implies su[a].0 != su[b].0 by {
            assert(su[a].0 == s[a].0 && su[b].0 == s[b].0);
        }
    } else {
        assert forall|a: int, b: int| 0 <= a < b < su.len() implies su[a].0 != su[b].0 by {
            if b < s.len() {
                assert(su[a] == s[a] && su[b] == s[b]);
            } else {
                assert(su[a] == s[a]);
                assert(su[b].0 == k);
            }
        }
    }
}

/// Recording a balance sets that asset's balance and no other.
pub proof fn lemma_set_balance_frame(s: Seq<(TokenKey, u128)>, k: TokenKey, v: u128)
    requires
        tokens_unique(s),
    ensures
        bal_of(spec_set_balance(s, k, v), k) == v,
        forall|k2: TokenKey| k2 != k ==> bal_of(spec_set_balance(s, k, v), k2) == bal_of(s, k2),
        forall|k2: TokenKey|
            has_token(spec_set_balance(s, k, v), k2) == (has_token(s, k2) || k2 == k),
{
    let su = spec_set_balance(s, k, v);
    if has_token(s, k) {
        lemma_token_index(s, k);
        let i = token_index(s, k);
        assert forall|k2: TokenKey| #[trigger] has_token(su, k2) == (has_token(s, k2) || k2
            == k) by {
            if has_token(su, k2) {
                let j = choose|j: int| 0 <= j < su.len() && su[j].0 == k2;
                if j == i {
                    assert(k2 == k);
                } else {
                    assert(s[j].0 == k2);
                }
            }
            if has_token(s, k2) {
                let j = choose|j: int| 0 <= j < s.len() && s[j].0 == k2;
                assert(su[j].0 == s[j].0);
            }
            assert(su[i].0 == k);
        }
        assert(bal_of(su, k) == v) by {
            lemma_token_index(su, k);
            let j = token_index(su, k);
            if j != i {
                assert(su[j].0 == s[j].0);
            }
        }
        assert forall|k2: TokenKey| k2 != k implies bal_of(su, k2) == bal_of(s, k2) by {
            if has_token(s, k2) {
                lemma_token_index(s, k2);
                lemma_token_index(su, k2);
                let a = token_index(s, k2);
                let b = token_index(su, k2);
                assert(su[a].0 == s[a].0);
                assert(su[b].0 == s[b].0);
                assert(a == b);
                assert(a != i);
                assert(su[a] == s[a]);
            }
        }
    } else {
        assert forall|k2: TokenKey| #[trigger] has_token(su, k2) == (has_token(s, k2) || k2
            == k) by {
            if has_token(su, k2) {
                let j = choose|j: int| 0 <= j < su.len() && su[j].0 == k2;
                if j < s.len() {
                    assert(s[j].0 == k2);
                } else {
                    assert(k2 == k);
                }
            }
            if has_token(s, k2) {
                let j = choose|j: int| 0 <= j < s.len() && s[j].0 == k2;
                assert(su[j].0 == s[j].0);
            }
            assert(su[s.len() as int].0 == k);
        }
        assert(bal_of(su, k) == v) by {
            lemma_token_index(su, k);
            let j = token_index(su, k);
            if j < s.len() {
                assert(s[j].0 == k);
            }
        }
        assert forall|k2: TokenKey| k2 != k implies bal_of(su, k2) == bal_of(s, k2) by {
            if has_token(s, k2) {
                lemma_token_index(s, k2);
                lemma_token_index(su, k2);
                let a = token_index(s, k2);
                let b = token_index(su, k2);
                assert(su[a].0 == s[a].0);
                if b < s.len() {
                    assert(su[b].0 == s[b].0);
                } else {
                    assert(su[b].0 == k);
                }
                assert(a == b);
                assert(su[a] == s[a]);
            }
        }
    }
}

/// Taking one more entry adds exactly that entry's bytes.
pub proof fn lemma_entries_bytes_take_step(s: Seq<(TokenKey, u128)>, i: int)
    requires
        0 <= i < s.len(),
    ensures
        entries_bytes(s.take(i + 1)) == entries_bytes(s.take(i)) + entry_bytes(s[i].0),
    decreases i,
{
    if i == 0 {
        assert(s.take(1).drop_first() =~= Seq::<(TokenKey, u128)>::empty());
        assert(s.take(0) =~= Seq::<(TokenKey, u128)>::empty());
        assert(s.take(1)[0] == s[0]);
    } else {
        lemma_entries_bytes_take_step(s.drop_first(), i - 1);
        assert(s.take(i + 1).drop_first() =~= s.drop_first().take(i));
        assert(s.take(i).drop_first() =~= s.drop_first().take(i - 1));
        assert(entries_bytes(s.take(i + 1)) == entry_bytes(s[0].0) + entries_bytes(
            s.drop_first().take(i),
        ));
        assert(entries_bytes(s.take(i)) == entry_bytes(s[0].0) + entries_bytes(
            s.drop_first().take(i - 1),
        ));
        assert(s.drop_first()[i - 1] == s[i]);
    }
}

} // verus!
