//! A table of entries under names.
//!
//! The names are indexed by a `DashMap`; the entries stand in slots that the index
//! points to.

use vstd::prelude::*;

verus! {

/// dashmap's map type.
#[verifier::external_type_specification]
#[verifier::external_body]
#[verifier::reject_recursive_types(K)]
#[verifier::reject_recursive_types(V)]
#[verifier::reject_recursive_types(S)]
pub struct ExDashMap<K, V, S>(dashmap::DashMap<K, V, S>);

/// What an index holds.
pub uninterp spec fn index_map(
    m: dashmap::DashMap<String, usize, std::collections::hash_map::RandomState>,
) -> Map<Seq<char>, usize>;

/// The index without names.
pub open spec fn no_names() -> Map<Seq<char>, usize> {
    Map::empty()
}

/// `DashMap::new`: an empty map.
#[verifier::external_body]
fn index_new() -> (r: dashmap::DashMap<String, usize, std::collections::hash_map::RandomState>)
    ensures
        index_map(r) == no_names(),
{
    dashmap::DashMap::new()
}

/// `DashMap::insert`: the key has the value, and no other key changes.
#[verifier::external_body]
fn index_insert(
    m: &mut dashmap::DashMap<String, usize, std::collections::hash_map::RandomState>,
    key: String,
    value: usize,
)
    ensures
        index_map(*final(m)) == index_map(*old(m)).insert(key@, value),
{
    m.insert(key, value);
}

/// `DashMap::remove`: the key has no value, and no other key changes.
#[verifier::external_body]
fn index_remove(
    m: &mut dashmap::DashMap<String, usize, std::collections::hash_map::RandomState>,
    key: &str,
)
    ensures
        index_map(*final(m)) == index_map(*old(m)).remove(key@),
{
    m.remove(key);
}

/// `DashMap::get`: the value of the key, where it has one.
#[verifier::external_body]
fn index_get(
    m: &dashmap::DashMap<String, usize, std::collections::hash_map::RandomState>,
    key: &str,
) -> (r: Option<usize>)
    ensures
        r == (if index_map(*m).contains_key(key@) {
            Some(index_map(*m)[key@])
        } else {
            None
        }),
{
    m.get(key).map(|v| *v)
}

/// A table of entries under names.
pub struct Registry<T> {
    index: dashmap::DashMap<String, usize, std::collections::hash_map::RandomState>,
    slots: Vec<Option<(String, T)>>,
}

/// The index and the slots agree: each name points to the slot that holds its entry, and
/// each entry is pointed to by its name.
pub open spec fn agree<T>(index: Map<Seq<char>, usize>, slots: Seq<Option<(String, T)>>) -> bool {
    &&& forall|k: Seq<char>| #[trigger]
        index.contains_key(k) ==> index[k] < slots.len() && slots[index[k] as int] is Some
            && slots[index[k] as int]->Some_0.0@ == k
    &&& forall|i: int|
        #![trigger slots[i]]
        0 <= i < slots.len() && slots[i] is Some ==> index.contains_key(slots[i]->Some_0.0@)
            && index[slots[i]->Some_0.0@] == i
}

/// One of the first `n` slots holds an entry under a name.
pub open spec fn stands_before<T>(
    slots: Seq<Option<(String, T)>>,
    n: int,
    name: Seq<char>,
) -> bool {
    exists|j: int|
        0 <= j < n && j < slots.len() && (#[trigger] slots[j]) is Some && slots[j]->Some_0.0@ == name
}

/// A list holds a text.
pub open spec fn holds_text(v: Seq<String>, text: Seq<char>) -> bool {
    exists|k: int| 0 <= k < v.len() && (#[trigger] v[k])@ == text
}

impl<T> Registry<T> {
    /// The index and the slots agree.
    pub closed spec fn wf(&self) -> bool {
        agree(index_map(self.index), self.slots@)
    }

    /// The entries by their names.
    pub closed spec fn entries(&self) -> Map<Seq<char>, T> {
        Map::new(
            |k: Seq<char>| index_map(self.index).contains_key(k),
            |k: Seq<char>| self.slots@[index_map(self.index)[k] as int]->Some_0.1,
        )
    }
}

impl<T> View for Registry<T> {
    type V = Map<Seq<char>, T>;

    open spec fn view(&self) -> Map<Seq<char>, T> {
        self.entries()
    }
}

impl<T> Registry<T> {
    /// The table without entries.
    pub fn new() -> (r: Registry<T>)
        ensures
            r.wf(),
            r@ == Map::<Seq<char>, T>::empty(),
    {
        let r = Registry { index: index_new(), slots: Vec::new() };
        proof {
            assert(r@ =~= Map::<Seq<char>, T>::empty());
        }
        r
    }

    /// The entry of a name.
    pub fn get(&self, key: &str) -> (r: Option<&T>)
        requires
            self.wf(),
        ensures
            match r {
                Some(t) => self@.contains_key(key@) && self@[key@] == *t,
                None => !self@.contains_key(key@),
            },
    {
        match index_get(&self.index, key) {
            Some(at) => {
                match &self.slots[at] {
                    Some(e) => Some(&e.1),
                    None => None,
                }
            },
            None => None,
        }
    }

    /// Whether a name has an entry.
    pub fn contains_key(&self, key: &str) -> (r: bool)
        requires
            self.wf(),
        ensures
            r == self@.contains_key(key@),
    {
        self.get(key).is_some()
    }

    /// Takes the entry of a name out.
    pub fn remove(&mut self, key: &str) -> (r: Option<T>)
        requires
            old(self).wf(),
        ensures
            final(self).wf(),
            final(self)@ == old(self)@.remove(key@),
            match r {
                Some(t) => old(self)@.contains_key(key@) && old(self)@[key@] == t,
                None => !old(self)@.contains_key(key@),
            },
    {
        let ghost before = self.slots@;
        let ghost index0 = index_map(self.index);
        match index_get(&self.index, key) {
            Some(at) => {
                index_remove(&mut self.index, key);
                let taken = self.slots.remove(at);
                self.slots.insert(at, None);
                proof {
                    let now = self.slots@;
                    assert(now =~= before.update(at as int, None));
                    assert forall|k: Seq<char>| #[trigger]
                        index_map(self.index).contains_key(k) implies index_map(self.index)[k]
                        < now.len() && now[index_map(self.index)[k] as int] is Some && now[index_map(
                        self.index,
                    )[k] as int]->Some_0.0@ == k by {
                        assert(index0.contains_key(k));
                    }
                    assert(self@ =~= old(self)@.remove(key@));
                }
                match taken {
                    Some(e) => Some(e.1),
                    None => None,
                }
            },
            None => {
                proof {
                    assert(self@.remove(key@) =~= self@);
                }
                None
            },
        }
    }

    /// Gives a name an entry, in place of the one it may have.
    pub fn insert(&mut self, key: &str, value: T)
        requires
            old(self).wf(),
        ensures
            final(self).wf(),
            final(self)@ == old(self)@.insert(key@, value),
    {
        let _ = self.remove(key);
        let ghost before = self.slots@;
        let ghost index0 = index_map(self.index);
        let ghost map0 = self@;
        let mut at: usize = 0;
        while at < self.slots.len() && self.slots[at].is_some()
            invariant
                at <= self.slots@.len(),
            decreases self.slots@.len() - at,
        {
            at += 1;
        }
        if at == self.slots.len() {
            self.slots.push(Some((key.to_owned(), value)));
        } else {
            self.slots.remove(at);
            self.slots.insert(at, Some((key.to_owned(), value)));
        }
        index_insert(&mut self.index, key.to_owned(), at);
        proof {
            let now = self.slots@;
            let index = index_map(self.index);
            assert forall|i: int| 0 <= i < before.len() && i != at implies now[i] == before[i] by {}
            assert(!map0.contains_key(key@));
            assert(!index0.contains_key(key@));
            assert forall|k: Seq<char>| #[trigger] index.contains_key(k) implies index[k] < now.len()
                && now[index[k] as int] is Some && now[index[k] as int]->Some_0.0@ == k by {
                if k != key@ {
                    assert(index0.contains_key(k));
                    assert(before[index0[k] as int] is Some);
                }
            }
            assert forall|i: int|
                #![trigger now[i]]
                0 <= i < now.len() && now[i] is Some implies index.contains_key(now[i]->Some_0.0@)
                && index[now[i]->Some_0.0@] == i by {
                if i != at {
                    assert(before[i] == now[i]);
                    assert(index0.contains_key(before[i]->Some_0.0@));
                    assert(now[i]->Some_0.0@ != key@);
                }
            }
            assert(self@ =~= map0.insert(key@, value));
            assert(map0.insert(key@, value) =~= old(self)@.insert(key@, value));
        }
    }

    /// The names, each once. Their order is that of the slots.
    pub fn keys(&self) -> (r: Vec<String>)
        requires
            self.wf(),
        ensures
            forall|i: int|
                0 <= i < r@.len() ==> self@.contains_key((#[trigger] r@[i])@),
            forall|k: Seq<char>| #[trigger]
                self@.contains_key(k) ==> exists|i: int| 0 <= i < r@.len() && (#[trigger] r@[i])@ == k,
            forall|i: int, j: int|
                0 <= i < j < r@.len() ==> (#[trigger] r@[i])@ != (#[trigger] r@[j])@,
    {
        let mut out: Vec<String> = Vec::new();
        let mut i: usize = 0;
        while i < self.slots.len()
            invariant
                i <= self.slots@.len(),
                self.wf(),
                forall|k: int|
                    0 <= k < out@.len() ==> #[trigger] stands_before(self.slots@, i as int, out@[k]@),
                forall|j: int, k: int|
                    0 <= j < k < out@.len() ==> (#[trigger] out@[j])@ != (#[trigger] out@[k])@,
                forall|j: int|
                    #![trigger self.slots@[j]]
                    0 <= j < i && self.slots@[j] is Some ==> holds_text(
                        out@,
                        self.slots@[j]->Some_0.0@,
                    ),
            decreases self.slots@.len() - i,
        {
            let ghost before = out@;
            match &self.slots[i] {
                Some(e) => {
                    out.push(e.0.clone());
                    proof {
                        let name = self.slots@[i as int]->Some_0.0@;
                        assert(out@[before.len() as int]@ == name);
                        assert forall|k: int| 0 <= k < before.len() implies before[k]@ != name by {
                            assert(stands_before(self.slots@, i as int, before[k]@));
                        }
                        assert forall|k: int| 0 <= k < out@.len() implies #[trigger] stands_before(
                            self.slots@,
                            i + 1,
                            out@[k]@,
                        ) by {
                            if k < before.len() {
                                assert(stands_before(self.slots@, i as int, before[k]@));
                            } else {
                                assert(self.slots@[i as int]->Some_0.0@ == out@[k]@);
                            }
                        }
                        assert forall|j: int, k: int| 0 <= j < k < out@.len() implies (
                        #[trigger] out@[j])@ != (#[trigger] out@[k])@ by {
                            assert(out@[j] == before[j]);
                            if k < before.len() {
                                assert(out@[k] == before[k]);
                            }
                        }
                        assert forall|j: int|
                            #![trigger self.slots@[j]]
                            0 <= j < i + 1 && self.slots@[j] is Some implies holds_text(
                            out@,
                            self.slots@[j]->Some_0.0@,
                        ) by {
                            if j < i {
                                assert(holds_text(before, self.slots@[j]->Some_0.0@));
                                let k = choose|k: int|
                                    0 <= k < before.len() && (#[trigger] before[k])@
                                        == self.slots@[j]->Some_0.0@;
                                assert(out@[k]@ == self.slots@[j]->Some_0.0@);
                            }
                        }
                    }
                },
                None => {
                    proof {
                        assert forall|k: int| 0 <= k < out@.len() implies #[trigger] stands_before(
                            self.slots@,
                            i + 1,
                            out@[k]@,
                        ) by {
                            assert(stands_before(self.slots@, i as int, out@[k]@));
                        }
                    }
                },
            }
            i += 1;
        }
        proof {
            let index = index_map(self.index);
            assert forall|k: Seq<char>| #[trigger] self@.contains_key(k) implies exists|i: int|
                0 <= i < out@.len() && (#[trigger] out@[i])@ == k by {
                assert(index.contains_key(k));
                let j = index[k] as int;
                assert(self.slots@[j] is Some);
                assert(holds_text(out@, k));
            }
            assert forall|i: int| 0 <= i < out@.len() implies self@.contains_key(
                (#[trigger] out@[i])@,
            ) by {
                assert(stands_before(self.slots@, self.slots@.len() as int, out@[i]@));
            }
        }
        out
    }
}

} // verus!
