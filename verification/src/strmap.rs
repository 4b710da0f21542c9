//! A small string-keyed map kept as parallel vectors of distinct keys and values.
use vstd::prelude::*;

verus! {

pub struct StrMap<V> {
    keys: Vec<String>,
    values: Vec<V>,
}

impl<V> StrMap<V> {
    pub closed spec fn key_seq(&self) -> Seq<Seq<char>> {
        self.keys@.map_values(|k: String| k@)
    }

    /// Keys are distinct and every key has a value.
    #[verifier::type_invariant]
    closed spec fn wf(&self) -> bool {
        &&& self.key_seq().len() == self.values@.len()
        &&& forall|i: int, j: int|
            0 <= i < j < self.key_seq().len() ==> #[trigger] self.key_seq()[i] != #[trigger] self.key_seq()[j]
    }

    /// The position of `k` among the keys, if present.
    pub closed spec fn position(&self, k: Seq<char>) -> Option<int> {
        if exists|i: int| 0 <= i < self.key_seq().len() && self.key_seq()[i] == k {
            Some(choose|i: int| 0 <= i < self.key_seq().len() && self.key_seq()[i] == k)
        } else {
            None
        }
    }

    /// The map from keys to values.
    pub closed spec fn map(&self) -> Map<Seq<char>, V> {
        Map::new(
            |k: Seq<char>| self.position(k) is Some,
            |k: Seq<char>| self.values@[self.position(k)->0],
        )
    }

    proof fn lemma_position(&self, i: int)
        requires
            self.wf(),
            0 <= i < self.key_seq().len(),
        ensures
            self.position(self.key_seq()[i]) == Some(i),
    {
        let k = self.key_seq()[i];
        let j = choose|j: int| 0 <= j < self.key_seq().len() && self.key_seq()[j] == k;
        if j < i {
            assert(self.key_seq()[j] != self.key_seq()[i]);
        } else if j > i {
            assert(self.key_seq()[i] != self.key_seq()[j]);
        }
    }

    pub fn new() -> (m: Self)
        ensures
            m.map() == Map::<Seq<char>, V>::empty(),
    {
        let m = StrMap { keys: Vec::new(), values: Vec::new() };
        assert(m.map() =~= Map::<Seq<char>, V>::empty());
        m
    }

    /// Index of `key`, if present.
    pub fn find(&self, key: &str) -> (r: Option<usize>)
        ensures
            r is Some <==> self.map().contains_key(key@),
            r matches Some(i) ==> i < self.key_seq().len() && self.key_seq()[i as int] == key@,
    {
        proof {
            use_type_invariant(self);
        }
        let k = key.to_owned();
        let mut i: usize = 0;
        while i < self.keys.len()
            invariant
                self.wf(),
                k@ == key@,
                i <= self.keys@.len(),
                forall|j: int| 0 <= j < i ==> self.keys@[j]@ != key@,
            decreases self.keys.len() - i,
        {
            if self.keys[i] == k {
                proof {
                    self.lemma_position(i as int);
                }
                return Some(i);
            }
            i = i + 1;
        }
        None
    }

    pub fn get(&self, key: &str) -> (r: Option<&V>)
        ensures
            r is Some <==> self.map().contains_key(key@),
            r is Some ==> *r->0 == self.map()[key@],
    {
        proof {
            use_type_invariant(self);
        }
        match self.find(key) {
            Some(i) => Some(&self.values[i]),
            None => None,
        }
    }

    /// Insert or replace the value under `key`.
    pub fn insert(&mut self, key: String, value: V)
        ensures
            final(self).map() == old(self).map().insert(key@, value),
    {
        proof {
            use_type_invariant(&*self);
        }
        let found = self.find(key.as_str());
        let ghost ks = self.key_seq();
        let mut tmp: StrMap<V> = StrMap::new();
        std::mem::swap(&mut tmp, self);
        let StrMap { mut keys, mut values } = tmp;
        match found {
            Some(i) => {
                let ghost old_map = old(self).map();
                values.set(i, value);
                *self = StrMap { keys, values };
                proof {
                    assert forall|k: Seq<char>| #[trigger] self.position(k) == old(self).position(k) by {
                        assert(self.key_seq() == old(self).key_seq());
                    }
                    assert(self.map() =~= old_map.insert(key@, value));
                }
            },
            None => {
                let ghost kv = key@;
                keys.push(key);
                values.push(value);
                proof {
                    let n = ks.len() as int;
                    let ks2 = keys@.map_values(|k: String| k@);
                    assert(ks2 =~= ks.push(kv));
                    assert forall|a: int, b: int| 0 <= a < b < ks2.len() implies #[trigger] ks2[a]
                        != #[trigger] ks2[b] by {
                        if b == n {
                            assert(ks2[a] == ks[a]);
                            assert(!old(self).map().contains_key(kv));
                            old(self).lemma_position(a);
                        }
                    }
                }
                *self = StrMap { keys, values };
                proof {
                    let n = old(self).keys@.len() as int;
                    assert(self.key_seq() =~= old(self).key_seq().push(key@));
                    self.lemma_position(n);
                    assert forall|k: Seq<char>| k != key@ implies #[trigger] self.position(k) == old(self).position(k) by {
                        if old(self).position(k) is Some {
                            let j = old(self).position(k)->0;
                            old(self).lemma_position(j);
                            assert(self.key_seq()[j] == old(self).key_seq()[j]);
                            self.lemma_position(j);
                        } else {
                            if self.position(k) is Some {
                                let j = choose|j: int| 0 <= j < self.key_seq().len() && self.key_seq()[j] == k;
                                assert(j != n);
                                assert(old(self).key_seq()[j] == self.key_seq()[j]);
                            }
                        }
                    }
                    assert(self.map() =~= old(self).map().insert(key@, value));
                }
            },
        }
    }

    /// Put `value` at position `i` (as returned by `find`), giving back the
    /// value it replaces.
    pub fn swap_value(&mut self, i: usize, value: V) -> (prev: V)
        requires
            i < old(self).key_seq().len(),
        ensures
            final(self).key_seq() == old(self).key_seq(),
            final(self).map() == old(self).map().insert(old(self).key_seq()[i as int], value),
            old(self).map().contains_key(old(self).key_seq()[i as int]),
            prev == old(self).map()[old(self).key_seq()[i as int]],
    {
        proof {
            use_type_invariant(&*self);
            self.lemma_position(i as int);
        }
        let mut tmp: StrMap<V> = StrMap::new();
        std::mem::swap(&mut tmp, self);
        let StrMap { keys, mut values } = tmp;
        let mut v = value;
        std::mem::swap(&mut values[i], &mut v);
        *self = StrMap { keys, values };
        proof {
            assert(self.key_seq() == old(self).key_seq());
            assert forall|q: Seq<char>| #[trigger] self.position(q) == old(self).position(q) by {
            }
            assert(self.map() =~= old(self).map().insert(old(self).key_seq()[i as int], value));
        }
        v
    }
}

} // verus!
