use vstd::prelude::*;

use crate::account::AccountId;

verus! {

/// Amount that an allowance entry list holds for the (owner, spender) pair:
/// the value of the last entry naming that pair, or zero when none does.
pub open spec fn grants_get(s: Seq<(AccountId, AccountId, u128)>, o: Seq<char>, p: Seq<char>) -> u128
    decreases s.len(),
{
    if s.len() == 0 {
        0
    } else if s.last().0@ == o && s.last().1@ == p {
        s.last().2
    } else {
        grants_get(s.drop_last(), o, p)
    }
}

/// No two entries name the same (owner, spender) pair.
pub open spec fn pairs_unique(s: Seq<(AccountId, AccountId, u128)>) -> bool {
    forall|i: int, j: int|
        0 <= i < j < s.len() ==> !(s[i].0@ == s[j].0@ && s[i].1@ == s[j].1@)
}

pub proof fn lemma_pairs_unique_drop_last(s: Seq<(AccountId, AccountId, u128)>)
    requires
        pairs_unique(s),
        s.len() > 0,
    ensures
        pairs_unique(s.drop_last()),
{
    assert forall|i: int, j: int|
        0 <= i < j < s.drop_last().len() implies !(s.drop_last()[i].0@ == s.drop_last()[j].0@
        && s.drop_last()[i].1@ == s.drop_last()[j].1@) by {
        assert(s.drop_last()[i] == s[i]);
        assert(s.drop_last()[j] == s[j]);
    }
}

/// With distinct pairs, the entry at index `i` decides the lookup of its own
/// pair.
pub proof fn lemma_grants_at_index(s: Seq<(AccountId, AccountId, u128)>, i: int)
    requires
        pairs_unique(s),
        0 <= i < s.len(),
    ensures
        grants_get(s, s[i].0@, s[i].1@) == s[i].2,
    decreases s.len(),
{
    assert(s.last() == s[s.len() - 1]);
    if i < s.len() - 1 {
        assert(!(s[i].0@ == s[s.len() - 1].0@ && s[i].1@ == s[s.len() - 1].1@));
        lemma_pairs_unique_drop_last(s);
        assert(s.drop_last()[i] == s[i]);
        lemma_grants_at_index(s.drop_last(), i);
    }
}

/// A pair that no entry names looks up to zero.
pub proof fn lemma_grants_absent(s: Seq<(AccountId, AccountId, u128)>, o: Seq<char>, p: Seq<char>)
    requires
        forall|j: int| 0 <= j < s.len() ==> !(s[j].0@ == o && s[j].1@ == p),
    ensures
        grants_get(s, o, p) == 0,
    decreases s.len(),
{
    if s.len() > 0 {
        assert(s.last() == s[s.len() - 1]);
        assert forall|j: int|
            0 <= j < s.drop_last().len() implies !(s.drop_last()[j].0@ == o && s.drop_last()[j].1@
            == p) by {
            assert(s.drop_last()[j] == s[j]);
        }
        lemma_grants_absent(s.drop_last(), o, p);
    }
}

/// Replacing the amount at index `i` (keeping its pair) changes the lookup of
/// that pair and of no other.
pub proof fn lemma_grants_update_at(
    s: Seq<(AccountId, AccountId, u128)>,
    i: int,
    e: (AccountId, AccountId, u128),
    o: Seq<char>,
    p: Seq<char>,
)
    requires
        pairs_unique(s),
        0 <= i < s.len(),
        e.0@ == s[i].0@,
        e.1@ == s[i].1@,
    ensures
        grants_get(s.update(i, e), o, p) == if s[i].0@ == o && s[i].1@ == p {
            e.2
        } else {
            grants_get(s, o, p)
        },
    decreases s.len(),
{
    let t = s.update(i, e);
    assert(s.last() == s[s.len() - 1]);
    assert(t.last() == t[t.len() - 1]);
    if i == s.len() - 1 {
        assert(t.last() == e);
        assert(t.drop_last() =~= s.drop_last());
    } else {
        assert(t.last() == s.last());
        assert(t.drop_last() =~= s.drop_last().update(i, e));
        lemma_pairs_unique_drop_last(s);
        assert(s.drop_last()[i] == s[i]);
        if s.last().0@ == o && s.last().1@ == p {
            assert(!(s[i].0@ == s[s.len() - 1].0@ && s[i].1@ == s[s.len() - 1].1@));
        } else {
            lemma_grants_update_at(s.drop_last(), i, e, o, p);
        }
    }
}

/// Appending an entry decides the lookup of its pair and of no other.
pub proof fn lemma_grants_push(
    s: Seq<(AccountId, AccountId, u128)>,
    e: (AccountId, AccountId, u128),
    o: Seq<char>,
    p: Seq<char>,
)
    ensures
        grants_get(s.push(e), o, p) == if e.0@ == o && e.1@ == p {
            e.2
        } else {
            grants_get(s, o, p)
        },
{
    assert(s.push(e).last() == e);
    assert(s.push(e).drop_last() =~= s);
}

pub proof fn lemma_pairs_unique_update(
    s: Seq<(AccountId, AccountId, u128)>,
    i: int,
    e: (AccountId, AccountId, u128),
)
    requires
        pairs_unique(s),
        0 <= i < s.len(),
        e.0@ == s[i].0@,
        e.1@ == s[i].1@,
    ensures
        pairs_unique(s.update(i, e)),
{
    let t = s.update(i, e);
    assert forall|p: int, q: int|
        0 <= p < q < t.len() implies !(t[p].0@ == t[q].0@ && t[p].1@ == t[q].1@) by {
        assert(!(s[p].0@ == s[q].0@ && s[p].1@ == s[q].1@));
    }
}

pub proof fn lemma_pairs_unique_push(
    s: Seq<(AccountId, AccountId, u128)>,
    e: (AccountId, AccountId, u128),
)
    requires
        pairs_unique(s),
        forall|j: int| 0 <= j < s.len() ==> !(s[j].0@ == e.0@ && s[j].1@ == e.1@),
    ensures
        pairs_unique(s.push(e)),
{
    let t = s.push(e);
    assert forall|p: int, q: int|
        0 <= p < q < t.len() implies !(t[p].0@ == t[q].0@ && t[p].1@ == t[q].1@) by {
        if q < s.len() {
            assert(!(s[p].0@ == s[q].0@ && s[p].1@ == s[q].1@));
        } else {
            assert(t[q] == e);
            assert(!(s[p].0@ == e.0@ && s[p].1@ == e.1@));
        }
    }
}

/// The allowance table: materialized (owner, spender, amount) entries keyed
/// by the (owner, spender) pair, pairwise distinct. An absent pair means
/// allowance zero. Keying by the full pair keeps every owner's grants in a
/// namespace of its own: grants by different owners to one spender never
/// collide.
pub struct AllowanceTable {
    entries: Vec<(AccountId, AccountId, u128)>,
}

impl AllowanceTable {
    /// Pairwise distinct (owner, spender) pairs.
    pub closed spec fn wf(self) -> bool {
        pairs_unique(self.entries@)
    }

    /// The allowance recorded for owner `o` and spender `p`, zero when
    /// absent.
    pub closed spec fn spec_get(self, o: Seq<char>, p: Seq<char>) -> u128 {
        grants_get(self.entries@, o, p)
    }

    /// An empty table: every allowance is zero.
    pub fn new() -> (r: AllowanceTable)
        ensures
            r.wf(),
            forall|o: Seq<char>, p: Seq<char>| r.spec_get(o, p) == 0,
    {
        AllowanceTable { entries: Vec::new() }
    }

    fn index_of(&self, owner: &AccountId, spender: &AccountId) -> (r: Option<usize>)
        ensures
            match r {
                Some(i) => i < self.entries@.len() && self.entries@[i as int].0@ == owner@
                    && self.entries@[i as int].1@ == spender@,
                None => forall|j: int|
                    0 <= j < self.entries@.len() ==> !(self.entries@[j].0@ == owner@
                    && self.entries@[j].1@ == spender@),
            },
    {
        let n: usize = self.entries.len();
        let mut i: usize = 0;
        while i < n
            invariant
                n == self.entries@.len(),
                i <= n,
                forall|j: int|
                    0 <= j < i ==> !(self.entries@[j].0@ == owner@ && self.entries@[j].1@
                    == spender@),
            decreases n - i,
        {
            if self.entries[i].0.eq_view(owner) && self.entries[i].1.eq_view(spender) {
                return Some(i);
            }
            i += 1;
        }
        None
    }

    /// Looks the remaining allowance of `spender` from `owner` up; an absent
    /// pair has allowance zero.
    pub fn get(&self, owner: &AccountId, spender: &AccountId) -> (r: u128)
        requires
            self.wf(),
        ensures
            r == self.spec_get(owner@, spender@),
    {
        match self.index_of(owner, spender) {
            Some(i) => {
                proof {
                    lemma_grants_at_index(self.entries@, i as int);
                }
                self.entries[i].2
            },
            None => {
                proof {
                    lemma_grants_absent(self.entries@, owner@, spender@);
                }
                0
            },
        }
    }

    /// Records `value` as the allowance of `spender` from `owner`, leaving
    /// every other pair as it was.
    pub fn set(&mut self, owner: &AccountId, spender: &AccountId, value: u128)
        requires
            old(self).wf(),
        ensures
            final(self).wf(),
            forall|o: Seq<char>, p: Seq<char>|
                final(self).spec_get(o, p) == if o == owner@ && p == spender@ {
                    value
                } else {
                    old(self).spec_get(o, p)
                },
    {
        match self.index_of(owner, spender) {
            Some(i) => {
                let kept_owner: AccountId = self.entries[i].0.clone();
                let kept_spender: AccountId = self.entries[i].1.clone();
                proof {
                    lemma_pairs_unique_update(self.entries@, i as int, (kept_owner, kept_spender, value));
                    assert forall|o: Seq<char>, p: Seq<char>|
                        grants_get(
                            self.entries@.update(i as int, (kept_owner, kept_spender, value)),
                            o,
                            p,
                        ) == if o == owner@ && p == spender@ {
                            value
                        } else {
                            grants_get(self.entries@, o, p)
                        } by {
                        lemma_grants_update_at(
                            self.entries@,
                            i as int,
                            (kept_owner, kept_spender, value),
                            o,
                            p,
                        );
                    }
                }
                self.entries.set(i, (kept_owner, kept_spender, value));
            },
            None => {
                let kept_owner: AccountId = owner.clone();
                let kept_spender: AccountId = spender.clone();
                proof {
                    lemma_pairs_unique_push(self.entries@, (kept_owner, kept_spender, value));
                    assert forall|o: Seq<char>, p: Seq<char>|
                        grants_get(self.entries@.push((kept_owner, kept_spender, value)), o, p)
                            == if o == owner@ && p == spender@ {
                            value
                        } else {
                            grants_get(self.entries@, o, p)
                        } by {
                        lemma_grants_push(self.entries@, (kept_owner, kept_spender, value), o, p);
                    }
                }
                self.entries.push((kept_owner, kept_spender, value));
            },
        }
    }
}

} // verus!
