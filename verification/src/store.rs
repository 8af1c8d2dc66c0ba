//! A deterministic model of the remote secret store: the contract the
//! client assumes of the service. A `put` replaces a name's value
//! wholesale, a `delete` removes the name, a `get` looks it up, and a
//! listing carries each stored name exactly once. The model lets the
//! operations be exercised against a fake store and fixes what the
//! put-then-get round trip means.
use vstd::prelude::*;

use crate::command::str_eq;

verus! {

/// The mapping from names to values a sequence of entries denotes; a later
/// entry for a name shadows an earlier one.
pub open spec fn map_of(s: Seq<(String, String)>) -> Map<Seq<char>, Seq<char>>
    decreases s.len(),
{
    if s.len() == 0 {
        Map::<Seq<char>, Seq<char>>::empty()
    } else {
        map_of(s.drop_last()).insert(s.last().0@, s.last().1@)
    }
}

/// Each name occurs in at most one entry.
spec fn unique_keys(s: Seq<(String, String)>) -> bool {
    forall|i: int, j: int| 0 <= i < j < s.len() ==> s[i].0@ != s[j].0@
}

proof fn lemma_map_of_absent(s: Seq<(String, String)>, k: Seq<char>)
    requires
        forall|i: int| 0 <= i < s.len() ==> s[i].0@ != k,
    ensures
        !map_of(s).contains_key(k),
    decreases s.len(),
{
    if s.len() > 0 {
        assert(s.last() == s[s.len() - 1]);
        let d = s.drop_last();
        assert(forall|i: int| 0 <= i < d.len() ==> d[i] == s[i]);
        lemma_map_of_absent(d, k);
    }
}

proof fn lemma_map_of_found(s: Seq<(String, String)>, k: Seq<char>, i: int)
    requires
        unique_keys(s),
        0 <= i < s.len(),
        s[i].0@ == k,
    ensures
        map_of(s).contains_key(k),
        map_of(s)[k] == s[i].1@,
    decreases s.len(),
{
    assert(s.last() == s[s.len() - 1]);
    if i < s.len() - 1 {
        assert(s[i].0@ != s[s.len() - 1].0@);
        let d = s.drop_last();
        assert(forall|a: int| 0 <= a < d.len() ==> d[a] == s[a]);
        lemma_map_of_found(d, k, i);
    }
}

proof fn lemma_map_of_remove(s: Seq<(String, String)>, i: int)
    requires
        unique_keys(s),
        0 <= i < s.len(),
    ensures
        map_of(s.remove(i)) =~= map_of(s).remove(s[i].0@),
    decreases s.len(),
{
    let k = s[i].0@;
    assert(s.last() == s[s.len() - 1]);
    let d = s.drop_last();
    assert(forall|a: int| 0 <= a < d.len() ==> d[a] == s[a]);
    if i == s.len() - 1 {
        assert(s.remove(i) =~= d);
        assert(forall|a: int| 0 <= a < d.len() ==> d[a].0@ != k);
        lemma_map_of_absent(d, k);
        assert(map_of(s).remove(k) =~= map_of(d));
    } else {
        let r = s.remove(i);
        assert(r.drop_last() =~= d.remove(i));
        assert(r.last() == s.last());
        lemma_map_of_remove(d, i);
        assert(s[i].0@ != s[s.len() - 1].0@);
        assert(map_of(r) == map_of(d.remove(i)).insert(s.last().0@, s.last().1@));
        assert(map_of(d).remove(k).insert(s.last().0@, s.last().1@) =~= map_of(d).insert(
            s.last().0@,
            s.last().1@,
        ).remove(k));
    }
}

/// An in-memory secret store with the remote service's contract.
pub struct SecretStore {
    entries: Vec<(String, String)>,
}

impl SecretStore {
    /// The mapping from names to values the store holds.
    pub closed spec fn view(&self) -> Map<Seq<char>, Seq<char>> {
        map_of(self.entries@)
    }

    /// Well-formed: no name is stored twice.
    pub closed spec fn wf(&self) -> bool {
        unique_keys(self.entries@)
    }

    /// An empty store.
    pub fn new() -> (s: Self)
        ensures
            s.wf(),
            s@ == Map::<Seq<char>, Seq<char>>::empty(),
    {
        SecretStore { entries: Vec::new() }
    }

    fn find(&self, key: &str) -> (r: Option<usize>)
        ensures
            r is Some ==> r->0 < self.entries@.len() && self.entries@[r->0 as int].0@ == key@,
            r is None ==> forall|i: int| 0 <= i < self.entries@.len()
                ==> self.entries@[i].0@ != key@,
    {
        let mut i: usize = 0;
        while i < self.entries.len()
            invariant
                0 <= i <= self.entries@.len(),
                forall|j: int| 0 <= j < i ==> self.entries@[j].0@ != key@,
            decreases self.entries@.len() - i,
        {
            if str_eq(self.entries[i].0.as_str(), key) {
                return Some(i);
            }
            i = i + 1;
        }
        None
    }

    /// Look a name up; `Some` exactly when the store holds it, and then
    /// with the exact stored value.
    pub fn get(&self, key: &str) -> (r: Option<String>)
        requires
            self.wf(),
        ensures
            r is Some <==> self@.contains_key(key@),
            r is Some ==> r->0@ == self@[key@],
    {
        match self.find(key) {
            Some(i) => {
                proof {
                    lemma_map_of_found(self.entries@, key@, i as int);
                }
                Some(self.entries[i].1.clone())
            },
            None => {
                proof {
                    lemma_map_of_absent(self.entries@, key@);
                }
                None
            },
        }
    }

    /// Store `value` under `key`, replacing any earlier value wholesale.
    pub fn put(&mut self, key: &str, value: &str)
        requires
            old(self).wf(),
        ensures
            final(self).wf(),
            final(self)@ == old(self)@.insert(key@, value@),
    {
        let found = self.find(key);
        let ghost s0 = self.entries@;
        if let Some(i) = found {
            self.entries.remove(i);
            proof {
                lemma_map_of_remove(s0, i as int);
                assert forall|a: int, b: int|
                    0 <= a < b < self.entries@.len() implies self.entries@[a].0@
                    != self.entries@[b].0@ by {
                    assert(self.entries@ == s0.remove(i as int));
                }
                assert forall|a: int| 0 <= a < self.entries@.len() implies self.entries@[a].0@
                    != key@ by {
                    assert(self.entries@ == s0.remove(i as int));
                    if a < i {
                        assert(self.entries@[a] == s0[a]);
                    } else {
                        assert(self.entries@[a] == s0[a + 1]);
                    }
                }
            }
        } else {
            proof {
                assert(self.entries@ == s0);
            }
        }
        let ghost s1 = self.entries@;
        self.entries.push((String::from_str(key), String::from_str(value)));
        proof {
            assert(self.entries@.drop_last() =~= s1);
            assert(self.entries@.last() == (self.entries@[s1.len() as int]));
            assert(map_of(self.entries@) == map_of(s1).insert(key@, value@));
            if found is Some {
                assert(map_of(s1) =~= map_of(s0).remove(s0[found->0 as int].0@));
                assert(map_of(s1).insert(key@, value@) =~= map_of(s0).insert(key@, value@));
            }
            assert(map_of(self.entries@) =~= map_of(s0).insert(key@, value@));
        }
    }

    /// Remove `key`; removing an absent name leaves the store as it was.
    pub fn delete(&mut self, key: &str)
        requires
            old(self).wf(),
        ensures
            final(self).wf(),
            final(self)@ == old(self)@.remove(key@),
    {
        let found = self.find(key);
        let ghost s0 = self.entries@;
        match found {
            Some(i) => {
                self.entries.remove(i);
                proof {
                    lemma_map_of_remove(s0, i as int);
                    assert forall|a: int, b: int|
                        0 <= a < b < self.entries@.len() implies self.entries@[a].0@
                        != self.entries@[b].0@ by {
                        assert(self.entries@ == s0.remove(i as int));
                    }
                    assert(map_of(self.entries@) =~= map_of(s0).remove(key@));
                }
            },
            None => {
                proof {
                    lemma_map_of_absent(s0, key@);
                    assert(map_of(s0).remove(key@) =~= map_of(s0));
                }
            },
        }
    }

    /// The stored names, each exactly once: every listed name is stored,
    /// every stored name is listed, and no name is listed twice.
    pub fn list_names(&self) -> (names: Vec<String>)
        requires
            self.wf(),
        ensures
            forall|i: int| 0 <= i < names@.len() ==> self@.contains_key(#[trigger] names@[i]@),
            forall|k: Seq<char>| self@.contains_key(k) ==> exists|i: int|
                0 <= i < names@.len() && names@[i]@ == k,
            forall|i: int, j: int| 0 <= i < j < names@.len() ==> names@[i]@ != names@[j]@,
    {
        let mut names: Vec<String> = Vec::new();
        let mut i: usize = 0;
        while i < self.entries.len()
            invariant
                0 <= i <= self.entries@.len(),
                names@.len() == i,
                forall|j: int| 0 <= j < i ==> names@[j]@ == self.entries@[j].0@,
            decreases self.entries@.len() - i,
        {
            names.push(self.entries[i].0.clone());
            i = i + 1;
        }
        proof {
            assert forall|j: int| 0 <= j < names@.len() implies self@.contains_key(
                #[trigger] names@[j]@,
            ) by {
                lemma_map_of_found(self.entries@, self.entries@[j].0@, j);
            }
            assert forall|k: Seq<char>| self@.contains_key(k) implies exists|j: int|
                0 <= j < names@.len() && names@[j]@ == k by {
                if forall|j: int| 0 <= j < self.entries@.len() ==> self.entries@[j].0@ != k {
                    lemma_map_of_absent(self.entries@, k);
                } else {
                    let j = choose|j: int|
                        0 <= j < self.entries@.len() && self.entries@[j].0@ == k;
                    assert(names@[j]@ == k);
                }
            }
        }
        names
    }
}

/// Round trip: a `put` of value `v` at name `k` followed immediately by a
/// `get` of `k` yields exactly `v`, whatever the store held before.
pub proof fn lemma_put_get_round_trip(m: Map<Seq<char>, Seq<char>>, k: Seq<char>, v: Seq<char>)
    ensures
        m.insert(k, v).contains_key(k),
        m.insert(k, v)[k] == v,
{
}

} // verus!
