//! The operator's current choices: one option id per choice-group id.
//!
//! The table is kept as a list of `(group id, option id)` pairs in which no
//! group id occurs twice. Contracts speak of it as a `Map` from group id to
//! option id, both as sequences of characters.

use vstd::prelude::*;

verus! {

/// A pair of texts as contracts see it.
pub type PairView = (Seq<char>, Seq<char>);

/// The character sequences held by a list of string pairs.
pub open spec fn pairs_of(v: Seq<(String, String)>) -> Seq<PairView> {
    v.map_values(|p: (String, String)| (p.0@, p.1@))
}

/// `i` is a position of `s` whose key is `k`.
pub open spec fn key_at(s: Seq<PairView>, k: Seq<char>, i: int) -> bool {
    0 <= i < s.len() && s[i].0 == k
}

/// Some position of `s` holds the key `k`.
pub open spec fn has_key(s: Seq<PairView>, k: Seq<char>) -> bool {
    exists|i: int| key_at(s, k, i)
}

/// No key occurs at two positions of `s`.
pub open spec fn distinct_keys(s: Seq<PairView>) -> bool {
    forall|i: int, j: int| 0 <= i < j < s.len() ==> (#[trigger] s[i]).0 != (#[trigger] s[j]).0
}

/// The mapping that results from inserting the pairs of `s` one after the
/// other into an empty map: where a key occurs more than once, its last
/// value stands.
pub open spec fn pairs_map(s: Seq<PairView>) -> Map<Seq<char>, Seq<char>>
    decreases s.len(),
{
    if s.len() == 0 {
        Map::empty()
    } else {
        pairs_map(s.drop_last()).insert(s.last().0, s.last().1)
    }
}

/// The keys of `pairs_map(s)` are exactly the keys that occur in `s`, and
/// where no key occurs twice every pair of `s` is an entry of the map.
pub proof fn lemma_pairs_map(s: Seq<PairView>)
    ensures
        forall|k: Seq<char>| #[trigger] pairs_map(s).dom().contains(k) <==> has_key(s, k),
        pairs_map(s).dom().finite(),
        distinct_keys(s) ==> forall|i: int|
            0 <= i < s.len() ==> pairs_map(s)[(#[trigger] s[i]).0] == s[i].1,
    decreases s.len(),
{
    if s.len() > 0 {
        let t = s.drop_last();
        let n = s.len() - 1;
        lemma_pairs_map(t);
        assert forall|k: Seq<char>| #[trigger] pairs_map(s).dom().contains(k) implies has_key(
            s,
            k,
        ) by {
            if k == s.last().0 {
                assert(key_at(s, k, n));
            } else {
                assert(pairs_map(t).dom().contains(k));
                let i = choose|i: int| key_at(t, k, i);
                assert(key_at(s, k, i));
            }
        }
        assert forall|k: Seq<char>| has_key(s, k) implies #[trigger] pairs_map(s).dom().contains(
            k,
        ) by {
            let i = choose|i: int| key_at(s, k, i);
            if i < n {
                assert(key_at(t, k, i));
                assert(pairs_map(t).dom().contains(k));
            }
        }
        if distinct_keys(s) {
            assert(distinct_keys(t)) by {
                assert forall|i: int, j: int| 0 <= i < j < t.len() implies (#[trigger] t[i]).0 != (
                #[trigger] t[j]).0 by {
                    assert(t[i] == s[i] && t[j] == s[j]);
                }
            }
            assert forall|i: int| 0 <= i < s.len() implies pairs_map(s)[(#[trigger] s[i]).0]
                == s[i].1 by {
                if i < n {
                    assert(t[i] == s[i]);
                    assert(s[i].0 != s[n].0);
                }
            }
        }
    }
}

/// Appending a pair to a list is an insertion into its mapping.
pub proof fn lemma_pairs_map_push(s: Seq<PairView>, p: PairView)
    ensures
        pairs_map(s.push(p)) == pairs_map(s).insert(p.0, p.1),
{
    assert(s.push(p).drop_last() =~= s);
}

/// Replacing the value at the one position that holds a key is an insertion
/// into the mapping.
pub proof fn lemma_pairs_map_update(s: Seq<PairView>, i: int, v: Seq<char>)
    requires
        0 <= i < s.len(),
        distinct_keys(s),
    ensures
        distinct_keys(s.update(i, (s[i].0, v))),
        pairs_map(s.update(i, (s[i].0, v))) == pairs_map(s).insert(s[i].0, v),
{
    let k = s[i].0;
    let u = s.update(i, (k, v));
    assert(distinct_keys(u)) by {
        assert forall|a: int, b: int| 0 <= a < b < u.len() implies (#[trigger] u[a]).0 != (
        #[trigger] u[b]).0 by {
            assert(u[a].0 == s[a].0 && u[b].0 == s[b].0);
        }
    }
    lemma_pairs_map(s);
    lemma_pairs_map(u);
    let lhs = pairs_map(u);
    let rhs = pairs_map(s).insert(k, v);
    assert forall|x: Seq<char>| lhs.dom().contains(x) <==> rhs.dom().contains(x) by {
        if has_key(u, x) {
            let a = choose|a: int| key_at(u, x, a);
            assert(key_at(s, u[a].0, a));
        }
        if has_key(s, x) {
            let a = choose|a: int| key_at(s, x, a);
            assert(key_at(u, s[a].0, a));
        }
        assert(key_at(u, k, i));
    }
    assert forall|x: Seq<char>| #[trigger] lhs.dom().contains(x) implies lhs[x] == rhs[x] by {
        let a = choose|a: int| key_at(u, x, a);
        assert(lhs[u[a].0] == u[a].1);
        if a != i {
            assert(s[a].0 != s[i].0);
            assert(pairs_map(s)[s[a].0] == s[a].1);
        }
    }
    assert(lhs =~= rhs);
}

/// A table from choice-group id to the option id currently chosen for it.
pub struct Selection {
    entries: Vec<(String, String)>,
}

impl View for Selection {
    type V = Map<Seq<char>, Seq<char>>;

    closed spec fn view(&self) -> Map<Seq<char>, Seq<char>> {
        pairs_map(pairs_of(self.entries@))
    }
}

impl Selection {
    #[verifier::type_invariant]
    spec fn keys_are_distinct(self) -> bool {
        distinct_keys(pairs_of(self.entries@))
    }

    /// A table without entries.
    pub fn new() -> (table: Selection)
        ensures
            table@ == Map::<Seq<char>, Seq<char>>::empty(),
    {
        let table = Selection { entries: Vec::new() };
        assert(pairs_of(table.entries@) =~= Seq::<PairView>::empty());
        table
    }

    /// The position of the entry for `key`, if there is one.
    fn position(&self, key: &String) -> (found: Option<usize>)
        ensures
            match found {
                Some(i) => key_at(pairs_of(self.entries@), key@, i as int),
                None => !has_key(pairs_of(self.entries@), key@),
            },
    {
        let mut i: usize = 0;
        while i < self.entries.len()
            invariant
                i <= self.entries.len(),
                forall|j: int| 0 <= j < i ==> !key_at(pairs_of(self.entries@), key@, j),
            decreases self.entries.len() - i,
        {
            if self.entries[i].0 == *key {
                return Some(i);
            }
            i += 1;
        }
        None
    }

    /// Whether the table has an entry for `key`.
    pub fn contains_key(&self, key: &String) -> (present: bool)
        ensures
            present == self@.contains_key(key@),
    {
        proof {
            lemma_pairs_map(pairs_of(self.entries@));
        }
        self.position(key).is_some()
    }

    /// The option id chosen for `key`, if any.
    pub fn get(&self, key: &String) -> (value: Option<&String>)
        ensures
            match value {
                Some(v) => self@.contains_key(key@) && self@[key@] == v@,
                None => !self@.contains_key(key@),
            },
    {
        proof {
            use_type_invariant(self);
            lemma_pairs_map(pairs_of(self.entries@));
        }
        match self.position(key) {
            Some(i) => {
                assert(pairs_of(self.entries@)[i as int].0 == key@);
                Some(&self.entries[i].1)
            },
            None => None,
        }
    }

    /// Records `value` as the choice for `key`, replacing an earlier choice
    /// for the same key.
    pub fn insert(&mut self, key: String, value: String)
        ensures
            final(self)@ == old(self)@.insert(key@, value@),
    {
        proof {
            use_type_invariant(&*self);
        }
        let found = self.position(&key);
        let mut taken = Selection::new();
        core::mem::swap(self, &mut taken);
        let mut entries = taken.entries;
        let ghost before = pairs_of(entries@);
        match found {
            Some(i) => {
                entries.set(i, (key, value));
                proof {
                    lemma_pairs_map_update(before, i as int, value@);
                    assert(pairs_of(entries@) =~= before.update(
                        i as int,
                        (before[i as int].0, value@),
                    ));
                }
            },
            None => {
                entries.push((key, value));
                proof {
                    lemma_pairs_map_push(before, (key@, value@));
                    let after = pairs_of(entries@);
                    assert(after =~= before.push((key@, value@)));
                    assert forall|a: int, b: int| 0 <= a < b < after.len() implies (
                    #[trigger] after[a]).0 != (#[trigger] after[b]).0 by {
                        if b == before.len() {
                            assert(!key_at(before, key@, a));
                        } else {
                            assert(after[a] == before[a] && after[b] == before[b]);
                        }
                    }
                }
            },
        }
        *self = Selection { entries };
    }

    /// The number of entries.
    pub fn len(&self) -> (n: usize)
        ensures
            n == self@.dom().len(),
    {
        proof {
            use_type_invariant(self);
            lemma_distinct_keys_len(pairs_of(self.entries@));
        }
        self.entries.len()
    }

    /// Gives up the table as a list of `(group id, option id)` pairs, one per
    /// entry.
    pub fn into_pairs(self) -> (pairs: Vec<(String, String)>)
        ensures
            distinct_keys(pairs_of(pairs@)),
            pairs_map(pairs_of(pairs@)) == self@,
    {
        proof {
            use_type_invariant(&self);
        }
        self.entries
    }
}

/// A list without repeated keys has as many pairs as its mapping has keys.
pub proof fn lemma_distinct_keys_len(s: Seq<PairView>)
    requires
        distinct_keys(s),
    ensures
        pairs_map(s).dom().len() == s.len(),
    decreases s.len(),
{
    if s.len() > 0 {
        let t = s.drop_last();
        assert forall|i: int, j: int| 0 <= i < j < t.len() implies (#[trigger] t[i]).0 != (
        #[trigger] t[j]).0 by {
            assert(t[i] == s[i] && t[j] == s[j]);
        }
        lemma_distinct_keys_len(t);
        lemma_pairs_map(t);
        if has_key(t, s.last().0) {
            let i = choose|i: int| key_at(t, s.last().0, i);
            assert(t[i] == s[i]);
            assert(s[i].0 != s[s.len() - 1].0);
        }
    }
}

} // verus!
