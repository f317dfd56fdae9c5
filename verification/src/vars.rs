//! A small string-keyed map for variable buckets, kept in insertion order.

use vstd::prelude::*;

use crate::text::{chars_eq_str, chars_of};

verus! {

/// The value stored under `k`: the first entry with that key.
pub open spec fn lookup_first(entries: Seq<(String, String)>, k: Seq<char>) -> Option<Seq<char>>
    decreases entries.len(),
{
    if entries.len() == 0 {
        None
    } else if entries[0].0@ == k {
        Some(entries[0].1@)
    } else {
        lookup_first(entries.drop_first(), k)
    }
}

/// No key occurs twice.
pub open spec fn keys_distinct(entries: Seq<(String, String)>) -> bool {
    forall|i: int, j: int|
        0 <= i < entries.len() && 0 <= j < entries.len() && i != j ==> (#[trigger] entries[i]).0@
            != (#[trigger] entries[j]).0@
}

/// A map from variable names to values. Each name occurs at most once; the
/// entries keep the order in which names were first inserted.
#[derive(Debug, PartialEq)]
pub struct VarMap {
    entries: Vec<(String, String)>,
}

/// `i` is the position of the first entry with key `k`.
pub open spec fn first_key_at(entries: Seq<(String, String)>, k: Seq<char>, i: int) -> bool {
    0 <= i < entries.len() && entries[i].0@ == k && forall|j: int| 0 <= j < i ==> (#[trigger] entries[j]).0@ != k
}

/// The lookup finds the first entry with the key.
pub proof fn lemma_lookup_at(entries: Seq<(String, String)>, k: Seq<char>, i: int)
    requires
        first_key_at(entries, k, i),
    ensures
        lookup_first(entries, k) == Some(entries[i].1@),
    decreases i,
{
    if i > 0 {
        assert(entries[0].0@ != k);
        lemma_lookup_at(entries.drop_first(), k, i - 1);
    }
}

/// Without an entry for the key, the lookup finds nothing.
pub proof fn lemma_lookup_none(entries: Seq<(String, String)>, k: Seq<char>)
    requires
        forall|j: int| 0 <= j < entries.len() ==> (#[trigger] entries[j]).0@ != k,
    ensures
        lookup_first(entries, k) is None,
    decreases entries.len(),
{
    if entries.len() > 0 {
        assert(entries[0].0@ != k);
        lemma_lookup_none(entries.drop_first(), k);
    }
}

/// Appending an entry with a new key adds exactly that key.
pub proof fn lemma_lookup_push(entries: Seq<(String, String)>, e: (String, String), k: Seq<char>)
    requires
        forall|j: int| 0 <= j < entries.len() ==> (#[trigger] entries[j]).0@ != e.0@,
    ensures
        lookup_first(entries.push(e), k) == if k == e.0@ {
            Some(e.1@)
        } else {
            lookup_first(entries, k)
        },
    decreases entries.len(),
{
    let s = entries.push(e);
    assert(s[0] == if entries.len() == 0 { e } else { entries[0] });
    if entries.len() == 0 {
        assert(s.drop_first() =~= Seq::<(String, String)>::empty());
        assert(lookup_first(s.drop_first(), k) is None);
    } else {
        assert(s.drop_first() =~= entries.drop_first().push(e));
        assert forall|j: int| 0 <= j < entries.drop_first().len() implies (
        #[trigger] entries.drop_first()[j]).0@ != e.0@ by {
            assert(entries.drop_first()[j] == entries[j + 1]);
        }
        lemma_lookup_push(entries.drop_first(), e, k);
        assert(entries[0].0@ != e.0@);
    }
}

/// Replacing the value at the first position of key `e.0` changes only that key.
pub proof fn lemma_lookup_update(entries: Seq<(String, String)>, i: int, e: (String, String), k: Seq<char>)
    requires
        first_key_at(entries, e.0@, i),
    ensures
        lookup_first(entries.update(i, e), k) == if k == e.0@ {
            Some(e.1@)
        } else {
            lookup_first(entries, k)
        },
    decreases i,
{
    if i == 0 {
        assert(entries.update(i, e).drop_first() =~= entries.drop_first());
    } else {
        assert(entries.update(i, e).drop_first() =~= entries.drop_first().update(i - 1, e));
        lemma_lookup_update(entries.drop_first(), i - 1, e, k);
    }
}

impl View for VarMap {
    type V = Map<Seq<char>, Seq<char>>;

    closed spec fn view(&self) -> Map<Seq<char>, Seq<char>> {
        Map::new(
            |k: Seq<char>| lookup_first(self.entries@, k) is Some,
            |k: Seq<char>| lookup_first(self.entries@, k).unwrap(),
        )
    }
}

impl VarMap {
    #[verifier::type_invariant]
    spec fn inv(self) -> bool {
        keys_distinct(self.entries@)
    }

    /// The entries, in insertion order.
    pub closed spec fn entries_view(self) -> Seq<(String, String)> {
        self.entries@
    }

    /// An empty map.
    pub fn new() -> (m: VarMap)
        ensures
            m@ == Map::<Seq<char>, Seq<char>>::empty(),
            m.entries_view().len() == 0,
    {
        let m = VarMap { entries: Vec::new() };
        assert(m@ =~= Map::<Seq<char>, Seq<char>>::empty());
        m
    }

    /// The position of the entry for `key`.
    fn position(&self, key: &str) -> (r: Option<usize>)
        ensures
            match r {
                Some(i) => first_key_at(self.entries@, key@, i as int),
                None => forall|j: int| 0 <= j < self.entries@.len() ==> (#[trigger] self.entries@[j]).0@ != key@,
            },
    {
        let mut i: usize = 0;
        while i < self.entries.len()
            invariant
                i <= self.entries.len(),
                forall|j: int| 0 <= j < i ==> (#[trigger] self.entries@[j]).0@ != key@,
            decreases self.entries.len() - i,
        {
            let k = chars_of(self.entries[i].0.as_str());
            if chars_eq_str(k.as_slice(), key) {
                return Some(i);
            }
            i = i + 1;
        }
        None
    }

    /// The value stored under `key`.
    pub fn get(&self, key: &str) -> (r: Option<&String>)
        ensures
            match r {
                Some(v) => self@.contains_key(key@) && self@[key@] == v@,
                None => !self@.contains_key(key@),
            },
    {
        match self.position(key) {
            Some(i) => {
                proof {
                    lemma_lookup_at(self.entries@, key@, i as int);
                }
                Some(&self.entries[i].1)
            },
            None => {
                proof {
                    lemma_lookup_none(self.entries@, key@);
                }
                None
            },
        }
    }

    /// Whether a value is stored under `key`.
    pub fn contains_key(&self, key: &str) -> (b: bool)
        ensures
            b == self@.contains_key(key@),
    {
        self.get(key).is_some()
    }

    /// Stores `value` under `key`, replacing any earlier value.
    pub fn insert(&mut self, key: String, value: String)
        ensures
            final(self)@ == old(self)@.insert(key@, value@),
    {
        proof {
            use_type_invariant(&*self);
        }
        let ghost old_entries = self.entries@;
        match self.position(key.as_str()) {
            Some(i) => {
                let ghost e = (key, value);
                proof {
                    assert forall|k: Seq<char>| #![auto] true implies lookup_first(
                        old_entries.update(i as int, e),
                        k,
                    ) == if k == e.0@ {
                        Some(e.1@)
                    } else {
                        lookup_first(old_entries, k)
                    } by {
                        lemma_lookup_update(old_entries, i as int, e, k);
                    }
                }
                let mut es: Vec<(String, String)> = Vec::new();
                std::mem::swap(&mut es, &mut self.entries);
                es.set(i, (key, value));
                assert(es@ =~= old_entries.update(i as int, e));
                assert(keys_distinct(es@));
                self.entries = es;
                assert(self@ =~= old(self)@.insert(e.0@, e.1@));
            },
            None => {
                let ghost e = (key, value);
                proof {
                    assert forall|k: Seq<char>| #![auto] true implies lookup_first(old_entries.push(e), k)
                        == if k == e.0@ {
                        Some(e.1@)
                    } else {
                        lookup_first(old_entries, k)
                    } by {
                        lemma_lookup_push(old_entries, e, k);
                    }
                }
                let mut es: Vec<(String, String)> = Vec::new();
                std::mem::swap(&mut es, &mut self.entries);
                es.push((key, value));
                assert(es@ =~= old_entries.push(e));
                assert(keys_distinct(es@));
                self.entries = es;
                assert(self@ =~= old(self)@.insert(e.0@, e.1@));
            },
        }
    }

    /// The number of stored names.
    pub fn len(&self) -> (n: usize)
        ensures
            n == self.entries_view().len(),
    {
        self.entries.len()
    }

    /// The entries, in insertion order.
    pub fn entries(&self) -> (r: &Vec<(String, String)>)
        ensures
            r@ == self.entries_view(),
    {
        &self.entries
    }
}

} // verus!
