use vstd::prelude::*;

verus! {

/// A key type whose equality is decided by its view.
pub trait MapKey: View + Sized {
    fn same_key(&self, other: &Self) -> (r: bool)
        ensures
            r == (self@ == other@),
    ;
}

impl MapKey for String {
    fn same_key(&self, other: &Self) -> (r: bool) {
        *self == *other
    }
}

impl MapKey for u64 {
    fn same_key(&self, other: &Self) -> (r: bool) {
        *self == *other
    }
}

/// An in-memory keyed table with one entry per key, in insertion order.
/// Its abstract contents are a finite map from key views to values.
pub struct KeyMap<K: MapKey, V> {
    keys: Vec<K>,
    vals: Vec<V>,
    contents: Ghost<Map<K::V, V>>,
}

impl<K: MapKey, V> View for KeyMap<K, V> {
    type V = Map<K::V, V>;

    closed spec fn view(&self) -> Map<K::V, V> {
        self.contents@
    }
}

impl<K: MapKey, V> KeyMap<K, V> {
    /// The entries are keyed uniquely and agree with the abstract contents.
    pub closed spec fn wf(&self) -> bool {
        &&& self.keys.len() == self.vals.len()
        &&& forall|i: int, j: int|
            0 <= i < j < self.keys.len() ==> self.keys[i]@ != self.keys[j]@
        &&& forall|i: int|
            0 <= i < self.keys.len() ==> #[trigger] self.contents@.contains_key(self.keys[i]@)
                && self.contents@[self.keys[i]@] == self.vals[i]
        &&& forall|k: K::V| #[trigger]
            self.contents@.contains_key(k) ==> exists|i: int|
                0 <= i < self.keys.len() && self.keys[i]@ == k
        &&& self.contents@.dom().finite()
        &&& self.contents@.len() == self.keys.len()
    }

    /// The values in the order in which their keys were first inserted.
    pub closed spec fn values_seq(&self) -> Seq<V> {
        self.vals@
    }

    /// The keys in insertion order, beside `values_seq`.
    pub closed spec fn keys_seq(&self) -> Seq<K::V> {
        self.keys@.map_values(|k: K| k@)
    }

    pub fn new() -> (r: Self)
        ensures
            r.wf(),
            r@ == Map::<K::V, V>::empty(),
    {
        KeyMap { keys: Vec::new(), vals: Vec::new(), contents: Ghost(Map::empty()) }
    }

    fn index_of(&self, k: &K) -> (r: Option<usize>)
        requires
            self.wf(),
        ensures
            match r {
                Some(i) => i < self.keys.len() && self.keys[i as int]@ == k@ && self@.contains_key(k@)
                    && self@[k@] == self.vals[i as int],
                None => !self@.contains_key(k@),
            },
    {
        let mut i: usize = 0;
        while i < self.keys.len()
            invariant
                self.wf(),
                i <= self.keys.len(),
                forall|j: int| 0 <= j < i ==> self.keys[j]@ != k@,
            decreases self.keys.len() - i,
        {
            if self.keys[i].same_key(k) {
                proof {
                    assert(self.contents@.contains_key(self.keys[i as int]@));
                }
                return Some(i);
            }
            i = i + 1;
        }
        None
    }

    pub fn len(&self) -> (r: usize)
        requires
            self.wf(),
        ensures
            r == self@.len(),
            r == self.values_seq().len(),
            forall|k: K::V|
                #[trigger] self@.contains_key(k) ==> exists|i: int|
                    0 <= i < self.values_seq().len() && self.values_seq()[i] == self@[k],
            self.keys_seq().len() == r,
            self.keys_seq().no_duplicates(),
            self.keys_seq().to_set() == self@.dom(),
            forall|i: int| 0 <= i < r ==> self@[#[trigger] self.keys_seq()[i]] == self.values_seq()[i],
    {
        proof {
            assert forall|k: K::V| #[trigger] self@.contains_key(k) implies exists|i: int|
                0 <= i < self.values_seq().len() && self.values_seq()[i] == self@[k] by {
                let i = choose|i: int| 0 <= i < self.keys.len() && self.keys[i]@ == k;
                assert(self.values_seq()[i] == self@[k]);
            }
            assert forall|i: int| 0 <= i < self.keys.len() implies self@[#[trigger] self.keys_seq()[i]]
                == self.values_seq()[i] by {
                assert(self.contents@.contains_key(self.keys[i]@));
            }
            assert forall|i: int, j: int|
                0 <= i < self.keys_seq().len() && 0 <= j < self.keys_seq().len() && i != j implies self.keys_seq()[i]
                != self.keys_seq()[j] by {
                if i < j {
                    assert(self.keys[i]@ != self.keys[j]@);
                } else {
                    assert(self.keys[j]@ != self.keys[i]@);
                }
            }
            assert forall|k: K::V| self.keys_seq().to_set().contains(k) <==> self@.dom().contains(k) by {
                if self@.dom().contains(k) {
                    let i = choose|i: int| 0 <= i < self.keys.len() && self.keys[i]@ == k;
                    assert(self.keys_seq()[i] == k);
                }
                if self.keys_seq().to_set().contains(k) {
                    let i = choose|i: int| 0 <= i < self.keys_seq().len() && self.keys_seq()[i] == k;
                    assert(self.contents@.contains_key(self.keys[i]@));
                }
            }
            assert(self.keys_seq().to_set() =~= self@.dom());
        }
        self.keys.len()
    }

    pub fn contains_key(&self, k: &K) -> (r: bool)
        requires
            self.wf(),
        ensures
            r == self@.contains_key(k@),
    {
        self.index_of(k).is_some()
    }

    pub fn get(&self, k: &K) -> (r: Option<&V>)
        requires
            self.wf(),
        ensures
            match r {
                Some(v) => self@.contains_key(k@) && *v == self@[k@],
                None => !self@.contains_key(k@),
            },
    {
        match self.index_of(k) {
            Some(i) => Some(&self.vals[i]),
            None => None,
        }
    }

    /// The value at position `i` of the insertion order.
    pub fn value_at(&self, i: usize) -> (r: &V)
        requires
            self.wf(),
            i < self.values_seq().len(),
        ensures
            *r == self.values_seq()[i as int],
            exists|k: K::V| #[trigger] self@.contains_key(k) && self@[k] == *r,
    {
        proof {
            assert(self@.contains_key(self.keys[i as int]@));
        }
        &self.vals[i]
    }

    pub fn insert(&mut self, k: K, v: V)
        requires
            old(self).wf(),
        ensures
            final(self).wf(),
            final(self)@ == old(self)@.insert(k@, v),
    {
        let ghost old_map = self.contents@;
        let ghost old_keys = self.keys@;
        let ghost kv = k@;
        match self.index_of(&k) {
            Some(i) => {
                self.vals.set(i, v);
                self.contents = Ghost(old_map.insert(kv, v));
                proof {
                    assert(old_map.contains_key(kv));
                    assert(old_map.insert(kv, v).dom() =~= old_map.dom());
                    assert forall|j: int| 0 <= j < self.keys.len() implies #[trigger]
                        self.contents@.contains_key(self.keys[j]@) && self.contents@[self.keys[j]@]
                            == self.vals[j] by {
                        assert(old_map.contains_key(old_keys[j]@));
                    }
                }
            },
            None => {
                self.keys.push(k);
                self.vals.push(v);
                self.contents = Ghost(old_map.insert(kv, v));
                proof {
                    let n = self.keys.len() - 1;
                    assert(self.keys[n as int]@ == kv);
                    assert forall|j: int| 0 <= j < n implies old_keys[j]@ != kv by {
                        assert(old_map.contains_key(old_keys[j]@));
                    }
                    assert forall|a: int, b: int|
                        0 <= a < b < self.keys.len() implies self.keys[a]@ != self.keys[b]@ by {
                        assert(self.keys[a] == old_keys[a]);
                        if b < n {
                            assert(self.keys[b] == old_keys[b]);
                        }
                    }
                    assert forall|j: int| 0 <= j < self.keys.len() implies #[trigger]
                        self.contents@.contains_key(self.keys[j]@) && self.contents@[self.keys[j]@]
                            == self.vals[j] by {
                        if j < n {
                            assert(self.keys[j] == old_keys[j]);
                            assert(old_map.contains_key(old_keys[j]@));
                        }
                    }
                    assert forall|kk: K::V| #[trigger]
                        self.contents@.contains_key(kk) implies exists|j: int|
                        0 <= j < self.keys.len() && self.keys[j]@ == kk by {
                        if kk != kv {
                            assert(old_map.contains_key(kk));
                            let j = choose|j: int| 0 <= j < old_keys.len() && old_keys[j]@ == kk;
                            assert(self.keys[j] == old_keys[j]);
                        } else {
                            assert(self.keys[n as int]@ == kk);
                        }
                    }
                }
            },
        }
    }

    pub fn remove(&mut self, k: &K) -> (r: Option<V>)
        requires
            old(self).wf(),
        ensures
            final(self).wf(),
            final(self)@ == old(self)@.remove(k@),
            match r {
                Some(v) => old(self)@.contains_key(k@) && v == old(self)@[k@],
                None => !old(self)@.contains_key(k@),
            },
    {
        let ghost old_map = self.contents@;
        let ghost old_keys = self.keys@;
        let ghost old_vals = self.vals@;
        match self.index_of(k) {
            Some(i) => {
                assert(old_keys[i as int]@ == k@);
                self.keys.remove(i);
                let v = self.vals.remove(i);
                self.contents = Ghost(old_map.remove(k@));
                proof {
                    assert forall|a: int, b: int|
                        0 <= a < b < self.keys.len() implies self.keys[a]@ != self.keys[b]@ by {
                        let oa = if a < i { a } else { a + 1 };
                        let ob = if b < i { b } else { b + 1 };
                        assert(self.keys[a] == old_keys[oa]);
                        assert(self.keys[b] == old_keys[ob]);
                    }
                    assert forall|a: int| 0 <= a < self.keys.len() implies #[trigger]
                        self.contents@.contains_key(self.keys[a]@) && self.contents@[self.keys[a]@]
                            == self.vals[a] by {
                        let oa = if a < i { a } else { a + 1 };
                        assert(self.keys[a] == old_keys[oa]);
                        assert(self.vals[a] == old_vals[oa]);
                        assert(old_keys[oa]@ != old_keys[i as int]@);
                        assert(old_map.contains_key(old_keys[oa]@));
                        assert(old_map[old_keys[oa]@] == old_vals[oa]);
                    }
                    assert forall|kk: K::V| #[trigger]
                        self.contents@.contains_key(kk) implies exists|j: int|
                        0 <= j < self.keys.len() && self.keys[j]@ == kk by {
                        assert(old_map.contains_key(kk));
                        let oj = choose|j: int| 0 <= j < old_keys.len() && old_keys[j]@ == kk;
                        assert(oj != i);
                        let j = if oj < i { oj } else { oj - 1 };
                        assert(self.keys[j] == old_keys[oj]);
                    }
                }
                Some(v)
            },
            None => {
                proof {
                    assert(old_map.remove(k@) =~= old_map);
                }
                None
            },
        }
    }
}

} // verus!
