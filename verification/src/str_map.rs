use vstd::prelude::*;

verus! {

/// A map from strings to values, such as the labels of a container or the
/// icon paths by icon name.  Inserting a key that is present replaces its
/// value, as a `HashMap` does.
pub struct StrMap<V> {
    entries: Vec<(String, V)>,
}

impl<V> StrMap<V> {
    /// No key occurs twice among the entries.
    #[verifier::type_invariant]
    closed spec fn keys_distinct(self) -> bool {
        forall|i: int, j: int|
            0 <= i < self.entries@.len() && 0 <= j < self.entries@.len() && i != j
                ==> #[trigger] self.entries@[i].0@ != #[trigger] self.entries@[j].0@
    }

    /// The index of the entry for `k`, when there is one.
    closed spec fn index_of(self, k: Seq<char>) -> int {
        choose|i: int| 0 <= i < self.entries@.len() && self.entries@[i].0@ == k
    }

    closed spec fn has(self, k: Seq<char>) -> bool {
        exists|i: int| 0 <= i < self.entries@.len() && self.entries@[i].0@ == k
    }

    /// The map from each key's characters to its value.
    pub closed spec fn to_map(self) -> Map<Seq<char>, V> {
        Map::new(|k: Seq<char>| self.has(k), |k: Seq<char>| self.entries@[self.index_of(k)].1)
    }

    /// An empty map.
    pub fn new() -> (r: Self)
        ensures
            r@ == Map::<Seq<char>, V>::empty(),
    {
        let r = StrMap { entries: Vec::new() };
        assert(r.to_map() =~= Map::<Seq<char>, V>::empty());
        r
    }

    /// The index of the entry whose key is `key`, if any.
    fn find(&self, key: &String) -> (r: Option<usize>)
        ensures
            match r {
                Some(i) => i < self.entries@.len() && self.entries@[i as int].0@ == key@,
                None => !self.has(key@),
            },
    {
        let n = self.entries.len();
        for i in 0..n
            invariant
                n == self.entries@.len(),
                forall|j: int| 0 <= j < i ==> self.entries@[j].0@ != key@,
        {
            if self.entries[i].0 == *key {
                return Some(i);
            }
        }
        None
    }

    /// Sets the value for `key`, replacing the value it had.
    pub fn insert(&mut self, key: String, value: V)
        ensures
            final(self)@ == old(self)@.insert(key@, value),
    {
        proof {
            use_type_invariant(&*self);
        }
        let ghost before = self.to_map();
        let found = self.find(&key);
        let mut taken = StrMap { entries: Vec::new() };
        std::mem::swap(self, &mut taken);
        let mut entries = taken.entries;
        match found {
            Some(i) => {
                let ghost k = key@;
                entries.set(i, (key, value));
                *self = StrMap { entries };
                proof {
                    let m = self.to_map();
                    assert forall|q: Seq<char>| #[trigger] m.contains_key(q) == before.insert(
                        k,
                        value,
                    ).contains_key(q) by {
                        if q != k && before.contains_key(q) {
                            let j = old(self).index_of(q);
                            assert(j != i);
                            assert(self.entries@[j].0@ == q);
                        }
                        if q != k && m.contains_key(q) {
                            let j = self.index_of(q);
                            assert(j != i);
                            assert(old(self).entries@[j].0@ == q);
                        }
                        if q == k {
                            assert(self.entries@[i as int].0@ == q);
                        }
                    }
                    assert forall|q: Seq<char>| #[trigger] m.contains_key(q) implies m[q]
                        == before.insert(k, value)[q] by {
                        let j = self.index_of(q);
                        if q == k {
                            assert(j == i);
                        } else {
                            assert(old(self).entries@[j].0@ == q);
                            let j0 = old(self).index_of(q);
                            assert(j0 == j);
                        }
                    }
                    assert(m =~= before.insert(k, value));
                }
            },
            None => {
                let ghost k = key@;
                entries.push((key, value));
                *self = StrMap { entries };
                proof {
                    let m = self.to_map();
                    let n = old(self).entries@.len();
                    assert forall|q: Seq<char>| #[trigger] m.contains_key(q) == before.insert(
                        k,
                        value,
                    ).contains_key(q) by {
                        if q != k && before.contains_key(q) {
                            let j = old(self).index_of(q);
                            assert(self.entries@[j].0@ == q);
                        }
                        if q == k {
                            assert(self.entries@[n as int].0@ == q);
                        }
                    }
                    assert forall|q: Seq<char>| #[trigger] m.contains_key(q) implies m[q]
                        == before.insert(k, value)[q] by {
                        let j = self.index_of(q);
                        if q == k {
                            assert(j == n);
                        } else {
                            assert(old(self).entries@[j].0@ == q);
                            let j0 = old(self).index_of(q);
                            assert(j0 == j);
                        }
                    }
                    assert(m =~= before.insert(k, value));
                }
            },
        }
    }

    /// The value for `key`, if the map has one.
    pub fn get(&self, key: &str) -> (r: Option<&V>)
        ensures
            match r {
                Some(v) => self@.contains_key(key@) && *v == self@[key@],
                None => !self@.contains_key(key@),
            },
    {
        proof {
            use_type_invariant(self);
        }
        let k = key.to_owned();
        match self.find(&k) {
            Some(i) => {
                proof {
                    let j = self.index_of(key@);
                    assert(j == i);
                }
                Some(&self.entries[i].1)
            },
            None => None,
        }
    }
}

/// A read after a write gives back what was written, and leaves the other
/// keys as they were: after `insert(k, v)`, `get(k)` is `v`, and `get(q)` for
/// another key `q` is what it was.
pub proof fn lemma_get_after_insert<V>(m: Map<Seq<char>, V>, k: Seq<char>, v: V, q: Seq<char>)
    ensures
        m.insert(k, v).contains_key(k),
        m.insert(k, v)[k] == v,
        q != k ==> m.insert(k, v).contains_key(q) == m.contains_key(q),
        q != k && m.contains_key(q) ==> m.insert(k, v)[q] == m[q],
{
}

impl<V> View for StrMap<V> {
    type V = Map<Seq<char>, V>;

    open spec fn view(&self) -> Map<Seq<char>, V> {
        self.to_map()
    }
}

} // verus!
