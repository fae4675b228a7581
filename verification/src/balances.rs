use vstd::prelude::*;

use crate::account::AccountId;

verus! {

/// Amount that an entry list holds for the key `k`: the value of the last
/// entry whose holder views to `k`, or zero when no entry does. With pairwise
/// distinct holders there is at most one such entry.
pub open spec fn entries_get(s: Seq<(AccountId, u128)>, k: Seq<char>) -> u128
    decreases s.len(),
{
    if s.len() == 0 {
        0
    } else if s.last().0@ == k {
        s.last().1
    } else {
        entries_get(s.drop_last(), k)
    }
}

/// Sum of all amounts that an entry list holds.
pub open spec fn entries_sum(s: Seq<(AccountId, u128)>) -> int
    decreases s.len(),
{
    if s.len() == 0 {
        0
    } else {
        entries_sum(s.drop_last()) + s.last().1
    }
}

/// No two entries name the same holder.
pub open spec fn keys_unique(s: Seq<(AccountId, u128)>) -> bool {
    forall|i: int, j: int| 0 <= i < j < s.len() ==> s[i].0@ != s[j].0@
}

pub proof fn lemma_sum_nonneg(s: Seq<(AccountId, u128)>)
    ensures
        entries_sum(s) >= 0,
    decreases s.len(),
{
    if s.len() > 0 {
        lemma_sum_nonneg(s.drop_last());
    }
}

/// A single balance never exceeds the sum of all balances.
pub proof fn lemma_get_le_sum(s: Seq<(AccountId, u128)>, k: Seq<char>)
    ensures
        entries_get(s, k) <= entries_sum(s),
    decreases s.len(),
{
    if s.len() > 0 {
        lemma_sum_nonneg(s.drop_last());
        lemma_get_le_sum(s.drop_last(), k);
    }
}

pub proof fn lemma_unique_drop_last(s: Seq<(AccountId, u128)>)
    requires
        keys_unique(s),
        s.len() > 0,
    ensures
        keys_unique(s.drop_last()),
{
    assert forall|i: int, j: int|
        0 <= i < j < s.drop_last().len() implies s.drop_last()[i].0@ != s.drop_last()[j].0@ by {
        assert(s.drop_last()[i] == s[i]);
        assert(s.drop_last()[j] == s[j]);
    }
}

/// With distinct holders, the entry at index `i` decides the lookup of its
/// own key.
pub proof fn lemma_get_at_index(s: Seq<(AccountId, u128)>, i: int, k: Seq<char>)
    requires
        keys_unique(s),
        0 <= i < s.len(),
        s[i].0@ == k,
    ensures
        entries_get(s, k) == s[i].1,
    decreases s.len(),
{
    assert(s.last() == s[s.len() - 1]);
    if i < s.len() - 1 {
        assert(s[i].0@ != s[s.len() - 1].0@);
        lemma_unique_drop_last(s);
        assert(s.drop_last()[i] == s[i]);
        lemma_get_at_index(s.drop_last(), i, k);
    }
}

/// A key that no entry names looks up to zero.
pub proof fn lemma_get_absent(s: Seq<(AccountId, u128)>, k: Seq<char>)
    requires
        forall|j: int| 0 <= j < s.len() ==> s[j].0@ != k,
    ensures
        entries_get(s, k) == 0,
    decreases s.len(),
{
    if s.len() > 0 {
        assert(s.last() == s[s.len() - 1]);
        assert forall|j: int| 0 <= j < s.drop_last().len() implies s.drop_last()[j].0@ != k by {
            assert(s.drop_last()[j] == s[j]);
        }
        lemma_get_absent(s.drop_last(), k);
    }
}

/// Replacing the amount at index `i` (keeping its holder) changes the lookup
/// of that holder's key and of no other.
pub proof fn lemma_get_update_at(s: Seq<(AccountId, u128)>, i: int, e: (AccountId, u128), k: Seq<char>)
    requires
        keys_unique(s),
        0 <= i < s.len(),
        e.0@ == s[i].0@,
    ensures
        entries_get(s.update(i, e), k) == if s[i].0@ == k {
            e.1
        } else {
            entries_get(s, k)
        },
    decreases s.len(),
{
    let t = s.update(i, e);
    assert(s.last() == s[s.len() - 1]);
    assert(t.last() == t[t.len() - 1]);
    if i == s.len() - 1 {
        assert(t.last() == e);
        assert(t.drop_last() =~= s.drop_last());
    } else {
        assert(t.last() == s.last());
        assert(t.drop_last() =~= s.drop_last().update(i, e));
        lemma_unique_drop_last(s);
        assert(s.drop_last()[i] == s[i]);
        if s.last().0@ == k {
            assert(s[i].0@ != s[s.len() - 1].0@);
        } else {
            lemma_get_update_at(s.drop_last(), i, e, k);
        }
    }
}

/// Replacing the amount at index `i` moves the sum by the difference.
pub proof fn lemma_sum_update_at(s: Seq<(AccountId, u128)>, i: int, e: (AccountId, u128))
    requires
        0 <= i < s.len(),
    ensures
        entries_sum(s.update(i, e)) == entries_sum(s) - s[i].1 + e.1,
    decreases s.len(),
{
    let t = s.update(i, e);
    if i == s.len() - 1 {
        assert(t.last() == e);
        assert(t.drop_last() =~= s.drop_last());
    } else {
        assert(t.last() == s.last());
        assert(t.drop_last() =~= s.drop_last().update(i, e));
        assert(s.drop_last()[i] == s[i]);
        lemma_sum_update_at(s.drop_last(), i, e);
    }
}

/// Appending an entry decides the lookup of its key and of no other.
pub proof fn lemma_get_push(s: Seq<(AccountId, u128)>, e: (AccountId, u128), k: Seq<char>)
    ensures
        entries_get(s.push(e), k) == if e.0@ == k {
            e.1
        } else {
            entries_get(s, k)
        },
{
    assert(s.push(e).last() == e);
    assert(s.push(e).drop_last() =~= s);
}

/// Appending an entry adds its amount to the sum.
pub proof fn lemma_sum_push(s: Seq<(AccountId, u128)>, e: (AccountId, u128))
    ensures
        entries_sum(s.push(e)) == entries_sum(s) + e.1,
{
    assert(s.push(e).last() == e);
    assert(s.push(e).drop_last() =~= s);
}

pub proof fn lemma_unique_update(s: Seq<(AccountId, u128)>, i: int, e: (AccountId, u128))
    requires
        keys_unique(s),
        0 <= i < s.len(),
        e.0@ == s[i].0@,
    ensures
        keys_unique(s.update(i, e)),
{
    let t = s.update(i, e);
    assert forall|p: int, q: int| 0 <= p < q < t.len() implies t[p].0@ != t[q].0@ by {
        assert(s[p].0@ != s[q].0@);
    }
}

pub proof fn lemma_unique_push(s: Seq<(AccountId, u128)>, e: (AccountId, u128))
    requires
        keys_unique(s),
        forall|j: int| 0 <= j < s.len() ==> s[j].0@ != e.0@,
    ensures
        keys_unique(s.push(e)),
{
    let t = s.push(e);
    assert forall|p: int, q: int| 0 <= p < q < t.len() implies t[p].0@ != t[q].0@ by {
        if q < s.len() {
            assert(s[p].0@ != s[q].0@);
        } else {
            assert(t[q] == e);
            assert(s[p].0@ != e.0@);
        }
    }
}

/// The balance table: materialized (holder, amount) entries with pairwise
/// distinct holders. A holder without an entry has balance zero, and
/// materializing a zero entry is unobservable through lookups.
pub struct BalanceTable {
    entries: Vec<(AccountId, u128)>,
}

impl BalanceTable {
    /// Pairwise distinct holders.
    pub closed spec fn wf(self) -> bool {
        keys_unique(self.entries@)
    }

    /// The balance recorded for `k`, zero when absent.
    pub closed spec fn spec_get(self, k: Seq<char>) -> u128 {
        entries_get(self.entries@, k)
    }

    /// The sum of all recorded balances.
    pub closed spec fn total(self) -> int {
        entries_sum(self.entries@)
    }

    /// An empty table: every balance is zero.
    pub fn new() -> (r: BalanceTable)
        ensures
            r.wf(),
            r.total() == 0,
            forall|k: Seq<char>| r.spec_get(k) == 0,
    {
        BalanceTable { entries: Vec::new() }
    }

    fn index_of(&self, key: &AccountId) -> (r: Option<usize>)
        ensures
            match r {
                Some(i) => i < self.entries@.len() && self.entries@[i as int].0@ == key@,
                None => forall|j: int| 0 <= j < self.entries@.len() ==> self.entries@[j].0@ != key@,
            },
    {
        let n: usize = self.entries.len();
        let mut i: usize = 0;
        while i < n
            invariant
                n == self.entries@.len(),
                i <= n,
                forall|j: int| 0 <= j < i ==> self.entries@[j].0@ != key@,
            decreases n - i,
        {
            if self.entries[i].0.eq_view(key) {
                return Some(i);
            }
            i += 1;
        }
        None
    }

    /// Looks a holder's balance up; a holder with no entry has balance zero.
    pub fn get(&self, key: &AccountId) -> (r: u128)
        requires
            self.wf(),
        ensures
            r == self.spec_get(key@),
    {
        match self.index_of(key) {
            Some(i) => {
                proof {
                    lemma_get_at_index(self.entries@, i as int, key@);
                }
                self.entries[i].1
            },
            None => {
                proof {
                    lemma_get_absent(self.entries@, key@);
                }
                0
            },
        }
    }

    /// Records `value` as the balance of `key`, leaving every other balance
    /// as it was and moving the sum by the difference.
    pub fn set(&mut self, key: &AccountId, value: u128)
        requires
            old(self).wf(),
        ensures
            final(self).wf(),
            forall|k: Seq<char>| final(self).spec_get(k) == if k == key@ {
                value
            } else {
                old(self).spec_get(k)
            },
            final(self).total() == old(self).total() - old(self).spec_get(key@) + value,
    {
        match self.index_of(key) {
            Some(i) => {
                let kept: AccountId = self.entries[i].0.clone();
                proof {
                    lemma_get_at_index(self.entries@, i as int, key@);
                    lemma_sum_update_at(self.entries@, i as int, (kept, value));
                    lemma_unique_update(self.entries@, i as int, (kept, value));
                    assert forall|k: Seq<char>|
                        entries_get(self.entries@.update(i as int, (kept, value)), k) == if k == key@ {
                            value
                        } else {
                            entries_get(self.entries@, k)
                        } by {
                        lemma_get_update_at(self.entries@, i as int, (kept, value), k);
                    }
                }
                self.entries.set(i, (kept, value));
            },
            None => {
                let kept: AccountId = key.clone();
                proof {
                    lemma_get_absent(self.entries@, key@);
                    lemma_sum_push(self.entries@, (kept, value));
                    lemma_unique_push(self.entries@, (kept, value));
                    assert forall|k: Seq<char>|
                        entries_get(self.entries@.push((kept, value)), k) == if k == key@ {
                            value
                        } else {
                            entries_get(self.entries@, k)
                        } by {
                        lemma_get_push(self.entries@, (kept, value), k);
                    }
                }
                self.entries.push((kept, value));
            },
        }
    }

    /// One balance never exceeds the sum of all balances.
    pub proof fn lemma_value_le_total(self, k: Seq<char>)
        ensures
            self.spec_get(k) <= self.total(),
    {
        lemma_get_le_sum(self.entries@, k);
    }

}

} // verus!
