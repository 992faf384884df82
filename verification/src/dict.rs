//! A map from strings, kept in the order in which its keys first came.

use crate::text::same;
use vstd::prelude::*;

verus! {

/// A map from strings. No key stands twice.
#[derive(Debug, PartialEq)]
pub struct Dict<V> {
    entries: Vec<(String, V)>,
}

/// No key stands twice.
pub open spec fn keys_distinct<V>(s: Seq<(String, V)>) -> bool {
    forall|i: int, j: int| 0 <= i < j < s.len() ==> (#[trigger] s[i]).0@ != (#[trigger] s[j]).0@
}

/// `key` is the key of some entry.
pub open spec fn has_key<V>(s: Seq<(String, V)>, key: Seq<char>) -> bool {
    exists|i: int| 0 <= i < s.len() && (#[trigger] s[i]).0@ == key
}

/// The position of the entry of a key.
pub open spec fn key_at<V>(s: Seq<(String, V)>, key: Seq<char>) -> int {
    choose|i: int| 0 <= i < s.len() && (#[trigger] s[i]).0@ == key
}

/// The map that a list of entries makes.
pub open spec fn entries_map<V>(s: Seq<(String, V)>) -> Map<Seq<char>, V> {
    Map::new(|key: Seq<char>| has_key(s, key), |key: Seq<char>| s[key_at(s, key)].1)
}

impl<V> Dict<V> {
    #[verifier::type_invariant]
    spec fn inv(self) -> bool {
        keys_distinct(self.entries@)
    }

    /// The entries, in the order in which their keys first came.
    pub closed spec fn listed(&self) -> Seq<(String, V)> {
        self.entries@
    }
}

impl<V> View for Dict<V> {
    type V = Map<Seq<char>, V>;

    open spec fn view(&self) -> Map<Seq<char>, V> {
        entries_map(self.listed())
    }
}

impl<V> Dict<V> {
    /// The map without entries.
    pub fn new() -> (r: Dict<V>)
        ensures
            r@ == Map::<Seq<char>, V>::empty(),
            r.listed() == Seq::<(String, V)>::empty(),
    {
        let r = Dict { entries: Vec::new() };
        proof {
            assert(r@ =~= Map::<Seq<char>, V>::empty());
        }
        r
    }

    /// The number of entries.
    pub fn len(&self) -> (r: usize)
        ensures
            r == self.listed().len(),
    {
        self.entries.len()
    }

    /// Whether there is no entry.
    pub fn is_empty(&self) -> (r: bool)
        ensures
            r == (self@ == Map::<Seq<char>, V>::empty()),
    {
        let r = self.entries.len() == 0;
        proof {
            if r {
                assert(self@ =~= Map::<Seq<char>, V>::empty());
            } else {
                assert(has_key(self.entries@, self.entries@[0].0@));
                assert(self@.contains_key(self.entries@[0].0@));
            }
        }
        r
    }

    /// The entry at a position.
    pub fn entry(&self, i: usize) -> (r: (&String, &V))
        requires
            i < self.listed().len(),
        ensures
            *r.0 == self.listed()[i as int].0,
            *r.1 == self.listed()[i as int].1,
            self@.contains_key(r.0@),
            self@[r.0@] == *r.1,
    {
        proof {
            use_type_invariant(self);
            assert(has_key(self.entries@, self.entries@[i as int].0@));
        }
        (&self.entries[i].0, &self.entries[i].1)
    }

    /// The position of a key.
    fn find(&self, key: &str) -> (r: Option<usize>)
        ensures
            match r {
                Some(i) => i < self.entries@.len() && self.entries@[i as int].0@ == key@
                    && self@.contains_key(key@) && self@[key@] == self.entries@[i as int].1,
                None => !self@.contains_key(key@),
            },
    {
        let mut i: usize = 0;
        while i < self.entries.len()
            invariant
                i <= self.entries@.len(),
                forall|k: int| 0 <= k < i ==> (#[trigger] self.entries@[k]).0@ != key@,
            decreases self.entries@.len() - i,
        {
            if same(self.entries[i].0.as_str(), key) {
                proof {
                    use_type_invariant(self);
                    assert(has_key(self.entries@, key@));
                }
                return Some(i);
            }
            i += 1;
        }
        None
    }

    /// The value of a key.
    pub fn get(&self, key: &str) -> (r: Option<&V>)
        ensures
            match r {
                Some(v) => self@.contains_key(key@) && self@[key@] == *v,
                None => !self@.contains_key(key@),
            },
    {
        match self.find(key) {
            Some(i) => Some(&self.entries[i].1),
            None => None,
        }
    }

    /// Whether a key has a value.
    pub fn contains_key(&self, key: &str) -> (r: bool)
        ensures
            r == self@.contains_key(key@),
    {
        self.find(key).is_some()
    }

    /// Gives a key a value.
    pub fn insert(&mut self, key: &str, value: V)
        ensures
            final(self)@ == old(self)@.insert(key@, value),
    {
        let found = self.find(key);
        let ghost before = self.entries@;
        let mut list: Vec<(String, V)> = Vec::new();
        proof {
            use_type_invariant(&*self);
        }
        core::mem::swap(&mut list, &mut self.entries);
        match found {
            Some(i) => {
                let at: usize = i;
                list.remove(at);
                list.insert(at, (key.to_owned(), value));
            },
            None => {
                list.push((key.to_owned(), value));
            },
        }
        proof {
            let m = entries_map(before).insert(key@, value);
            match found {
                Some(i) => {
                    assert forall|k: int| 0 <= k < list@.len() implies (#[trigger] list@[k]).0@
                        == before[k].0@ by {}
                    assert(keys_distinct(list@));
                    assert(list@[i as int].0@ == key@);
                    assert forall|q: Seq<char>| has_key(list@, q) == has_key(before, q) by {
                        if has_key(list@, q) {
                            let k = key_at(list@, q);
                            assert(before[k].0@ == q);
                        }
                        if has_key(before, q) {
                            let k = key_at(before, q);
                            assert(list@[k].0@ == q);
                        }
                    }
                },
                None => {
                    assert forall|k: int| 0 <= k < before.len() implies (#[trigger] before[k]).0@
                        != key@ by {
                        if before[k].0@ == key@ {
                            assert(has_key(before, key@));
                        }
                    }
                    assert forall|k: int| 0 <= k < before.len() implies #[trigger] list@[k]
                        == before[k] by {}
                    assert(keys_distinct(list@));
                    assert(list@[before.len() as int].0@ == key@);
                    assert forall|q: Seq<char>|
                        has_key(list@, q) == (has_key(before, q) || q == key@) by {
                        if has_key(list@, q) {
                            let k = key_at(list@, q);
                            if k < before.len() {
                                assert(before[k].0@ == q);
                            }
                        }
                        if has_key(before, q) {
                            let k = key_at(before, q);
                            assert(list@[k].0@ == q);
                        }
                        if q == key@ {
                            assert(list@[before.len() as int].0@ == q);
                        }
                    }
                },
            }
            assert(entries_map(list@) =~= m);
        }
        self.entries = list;
    }
}

} // verus!
