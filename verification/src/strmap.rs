//! A map from strings to values that remembers the order keys were added.
use vstd::prelude::*;
use crate::text::str_eq;

verus! {

/// A map keyed by strings. Each key occurs once; keys are kept in the order
/// they were first inserted.
#[derive(Debug)]
pub struct StrMap<V> {
    keys: Vec<String>,
    vals: Vec<V>,
}

/// Whether no key occurs twice in `ks`.
pub open spec fn distinct_keys(ks: Seq<Seq<char>>) -> bool {
    forall|i: int, j: int| 0 <= i < ks.len() && 0 <= j < ks.len() && i != j ==> ks[i] != ks[j]
}

impl<V> StrMap<V> {
    /// The keys, in insertion order.
    pub closed spec fn key_seq(self) -> Seq<Seq<char>> {
        self.keys@.map_values(|k: String| k@)
    }

    /// The values, in the order of their keys.
    pub closed spec fn val_seq(self) -> Seq<V> {
        self.vals@
    }

    #[verifier::type_invariant]
    closed spec fn inv(self) -> bool {
        &&& self.keys@.len() == self.vals@.len()
        &&& distinct_keys(self.key_seq())
    }

    /// The map's contents.
    pub open spec fn view(self) -> Map<Seq<char>, V> {
        Map::new(
            |k: Seq<char>| self.key_seq().contains(k),
            |k: Seq<char>| self.val_seq()[self.key_seq().index_of(k)],
        )
    }

    proof fn lemma_at(self, i: int)
        requires
            self.inv(),
            0 <= i < self.keys@.len(),
        ensures
            self.view().contains_key(self.key_seq()[i]),
            self.view()[self.key_seq()[i]] == self.vals@[i],
    {
        let k = self.key_seq()[i];
        assert(self.key_seq().contains(k));
        let j = self.key_seq().index_of(k);
        assert(self.key_seq()[j] == k);
    }

    proof fn lemma_facts(self)
        requires
            self.inv(),
        ensures
            self.key_seq().len() == self.val_seq().len(),
            distinct_keys(self.key_seq()),
            forall|k: Seq<char>| #[trigger]
                self.view().contains_key(k) <==> self.key_seq().contains(k),
            forall|i: int|
                0 <= i < self.key_seq().len() ==> self.view()[#[trigger] self.key_seq()[i]]
                    == self.val_seq()[i],
    {
        assert forall|i: int| 0 <= i < self.key_seq().len() implies self.view()[#[trigger] self.key_seq()[i]]
            == self.val_seq()[i] by {
            self.lemma_at(i);
        }
    }

    /// The keys in insertion order never repeat, and they are exactly the map's keys.
    pub fn keys_are_distinct(&self)
        ensures
            self.key_seq().len() == self.val_seq().len(),
            distinct_keys(self.key_seq()),
            forall|k: Seq<char>| #[trigger]
                self@.contains_key(k) <==> self.key_seq().contains(k),
            forall|i: int|
                0 <= i < self.key_seq().len() ==> self@[#[trigger] self.key_seq()[i]]
                    == self.val_seq()[i],
    {
        proof {
            use_type_invariant(self);
            self.lemma_facts();
        }
    }

    /// An empty map.
    pub fn new() -> (r: Self)
        ensures
            r@ == Map::<Seq<char>, V>::empty(),
            r.key_seq() == Seq::<Seq<char>>::empty(),
    {
        let r = StrMap { keys: Vec::new(), vals: Vec::new() };
        proof {
            assert(r.key_seq() =~= Seq::<Seq<char>>::empty());
            assert(r.view() =~= Map::<Seq<char>, V>::empty());
        }
        r
    }

    /// The number of entries.
    pub fn len(&self) -> (r: usize)
        ensures
            r == self.key_seq().len(),
    {
        self.keys.len()
    }

    /// Whether the map has no entries.
    pub fn is_empty(&self) -> (r: bool)
        ensures
            r == (self@ == Map::<Seq<char>, V>::empty()),
            r == (self.key_seq().len() == 0),
    {
        proof {
            use_type_invariant(self);
            if self.keys@.len() > 0 {
                self.lemma_at(0);
                assert(self@.contains_key(self.key_seq()[0]));
            } else {
                assert(self@ =~= Map::<Seq<char>, V>::empty());
            }
        }
        self.keys.len() == 0
    }

    /// The position of `k` among the keys, if present.
    fn find(&self, k: &str) -> (r: Option<usize>)
        ensures
            match r {
                Some(i) => i < self.keys@.len() && self.key_seq()[i as int] == k@,
                None => !self.key_seq().contains(k@),
            },
    {
        let mut i: usize = 0;
        while i < self.keys.len()
            invariant
                0 <= i <= self.keys@.len(),
                forall|j: int| 0 <= j < i ==> self.key_seq()[j] != k@,
            decreases self.keys@.len() - i,
        {
            if str_eq(self.keys[i].as_str(), k) {
                return Some(i);
            }
            i = i + 1;
        }
        None
    }

    /// Whether `k` is a key.
    pub fn contains_key(&self, k: &str) -> (r: bool)
        ensures
            r == self@.contains_key(k@),
    {
        self.find(k).is_some()
    }

    /// The value stored under `k`, if any.
    pub fn get(&self, k: &str) -> (r: Option<&V>)
        ensures
            match r {
                Some(v) => self@.contains_key(k@) && *v == self@[k@],
                None => !self@.contains_key(k@),
            },
    {
        proof {
            use_type_invariant(self);
        }
        match self.find(k) {
            Some(i) => {
                proof {
                    self.lemma_at(i as int);
                }
                Some(&self.vals[i])
            },
            None => None,
        }
    }

    /// Stores `v` under `k`. A new key goes after the existing ones; an
    /// existing key keeps its place and its old value is returned.
    pub fn insert(&mut self, k: String, v: V) -> (r: Option<V>)
        ensures
            final(self)@ == old(self)@.insert(k@, v),
            r == (if old(self)@.contains_key(k@) {
                Some(old(self)@[k@])
            } else {
                None::<V>
            }),
            old(self)@.contains_key(k@) ==> final(self).key_seq() == old(self).key_seq(),
            !old(self)@.contains_key(k@) ==> final(self).key_seq() == old(self).key_seq().push(k@),
    {
        proof {
            use_type_invariant(&*self);
            self.lemma_facts();
        }
        let found = self.find(k.as_str());
        let ghost before = *self;
        let mut taken = StrMap::new();
        std::mem::swap(self, &mut taken);
        let StrMap { mut keys, mut vals } = taken;
        match found {
            Some(i) => {
                let mut v = v;
                std::mem::swap(&mut vals[i], &mut v);
                let ghost new_val = vals@[i as int];
                *self = StrMap { keys, vals };
                proof {
                    assert(self.key_seq() == before.key_seq());
                    self.lemma_facts();
                    assert(self.view() =~= before.view().insert(k@, new_val));
                }
                Some(v)
            },
            None => {
                let ghost kv = k@;
                keys.push(k);
                vals.push(v);
                proof {
                    let ks = keys@.map_values(|k: String| k@);
                    assert(ks =~= before.key_seq().push(kv));
                    assert(distinct_keys(ks));
                }
                *self = StrMap { keys, vals };
                proof {
                    self.lemma_facts();
                    let n = before.key_seq().len();
                    assert(self.key_seq()[n as int] == kv);
                    assert forall|j: Seq<char>| #[trigger] before.view().contains_key(j) implies self.view().contains_key(j)
                        && self.view()[j] == before.view()[j] by {
                        let p = before.key_seq().index_of(j);
                        assert(self.key_seq()[p] == j);
                    }
                    assert(self.view() =~= before.view().insert(kv, self.vals@.last()));
                }
                None
            },
        }
    }

    /// Removes `k`, returning its value if it was present. The remaining
    /// keys keep their relative order.
    pub fn remove(&mut self, k: &str) -> (r: Option<V>)
        ensures
            final(self)@ == old(self)@.remove(k@),
            r == (if old(self)@.contains_key(k@) {
                Some(old(self)@[k@])
            } else {
                None::<V>
            }),
            !old(self)@.contains_key(k@) ==> *final(self) == *old(self),
    {
        proof {
            use_type_invariant(&*self);
            self.lemma_facts();
        }
        match self.find(k) {
            Some(i) => {
                let ghost before = *self;
                let mut taken = StrMap::new();
                std::mem::swap(self, &mut taken);
                let StrMap { mut keys, mut vals } = taken;
                let _ = keys.remove(i);
                let v = vals.remove(i);
                proof {
                    let ks = keys@.map_values(|k: String| k@);
                    assert(ks =~= before.key_seq().remove(i as int));
                    assert(distinct_keys(ks));
                }
                *self = StrMap { keys, vals };
                proof {
                    self.lemma_facts();
                    assert forall|j: Seq<char>| #[trigger] self.view().contains_key(j) implies before.view().contains_key(j)
                        && j != k@ && self.view()[j] == before.view()[j] by {
                        let p = self.key_seq().index_of(j);
                        if p < i {
                            assert(before.key_seq()[p] == j);
                        } else {
                            assert(before.key_seq()[p + 1] == j);
                        }
                    }
                    assert forall|j: Seq<char>| #[trigger] before.view().contains_key(j) && j != k@ implies self.view().contains_key(j) by {
                        let p = before.key_seq().index_of(j);
                        if p < i {
                            assert(self.key_seq()[p] == j);
                        } else {
                            assert(p != i);
                            assert(self.key_seq()[p - 1] == j);
                        }
                    }
                    assert(self.view() =~= before.view().remove(k@));
                }
                Some(v)
            },
            None => {
                proof {
                    assert(self.view() =~= self.view().remove(k@));
                }
                None
            },
        }
    }
}


impl<V> StrMap<V> {
    /// The earliest inserted key that is still present, if any.
    pub fn first_key(&self) -> (r: Option<String>)
        ensures
            r is None <==> self@ == Map::<Seq<char>, V>::empty(),
            match r {
                Some(k) => self@.contains_key(k@) && k@ == self.key_seq()[0],
                None => true,
            },
    {
        proof {
            use_type_invariant(self);
            self.lemma_facts();
            if self.keys@.len() == 0 {
                assert(self@ =~= Map::<Seq<char>, V>::empty());
            } else {
                assert(self@.contains_key(self.key_seq()[0]));
            }
        }
        if self.keys.len() == 0 {
            None
        } else {
            Some(self.keys[0].clone())
        }
    }

    /// All keys, in insertion order.
    pub fn keys(&self) -> (r: Vec<String>)
        ensures
            r@.map_values(|k: String| k@) == self.key_seq(),
    {
        let mut out: Vec<String> = Vec::new();
        let mut i: usize = 0;
        while i < self.keys.len()
            invariant
                0 <= i <= self.keys@.len(),
                out@.map_values(|k: String| k@) == self.key_seq().subrange(0, i as int),
            decreases self.keys@.len() - i,
        {
            let c = self.keys[i].clone();
            let ghost prev = out@;
            out.push(c);
            proof {
                assert(c@ == self.key_seq()[i as int]);
                assert(out@ == prev.push(c));
                assert(out@.map_values(|k: String| k@) =~= prev.map_values(|k: String| k@).push(c@));
            }
            i = i + 1;
            proof {
                assert(out@.map_values(|k: String| k@) =~= self.key_seq().subrange(0, i as int));
            }
        }
        proof {
            assert(self.key_seq().subrange(0, i as int) =~= self.key_seq());
        }
        out
    }
}

impl<T> StrMap<Vec<T>> {
    /// Adds `x` to the end of the list stored under `k`, starting a new list
    /// (placed after the existing keys) when `k` is absent.
    pub fn append(&mut self, k: String, x: T)
        ensures
            final(self)@.contains_key(k@),
            final(self)@[k@]@ == (if old(self)@.contains_key(k@) {
                old(self)@[k@]@
            } else {
                Seq::<T>::empty()
            }).push(x),
            final(self)@.remove(k@) == old(self)@.remove(k@),
            old(self)@.contains_key(k@) ==> final(self).key_seq() == old(self).key_seq(),
            !old(self)@.contains_key(k@) ==> final(self).key_seq() == old(self).key_seq().push(k@),
    {
        proof {
            use_type_invariant(&*self);
            self.lemma_facts();
        }
        let found = self.find(k.as_str());
        let ghost before = *self;
        let mut taken = StrMap::new();
        std::mem::swap(self, &mut taken);
        let StrMap { keys, mut vals } = taken;
        match found {
            Some(i) => {
                vals[i].push(x);
                *self = StrMap { keys, vals };
                proof {
                    assert(self.key_seq() == before.key_seq());
                    self.lemma_facts();
                    assert forall|j: Seq<char>| #[trigger] before.view().contains_key(j) && j != k@ implies self.view()[j] == before.view()[j] by {
                        let p = before.key_seq().index_of(j);
                        assert(self.key_seq()[p] == j);
                    }
                    assert(self.view().remove(k@) =~= before.view().remove(k@));
                }
            },
            None => {
                let ghost kv = k@;
                let mut keys = keys;
                let mut fresh: Vec<T> = Vec::new();
                fresh.push(x);
                keys.push(k);
                vals.push(fresh);
                proof {
                    let ks = keys@.map_values(|k: String| k@);
                    assert(ks =~= before.key_seq().push(kv));
                    assert(distinct_keys(ks));
                }
                *self = StrMap { keys, vals };
                proof {
                    self.lemma_facts();
                    let n = before.key_seq().len();
                    assert(self.key_seq()[n as int] == kv);
                    assert forall|j: Seq<char>| #[trigger] before.view().contains_key(j) implies self.view().contains_key(j)
                        && self.view()[j] == before.view()[j] by {
                        let p = before.key_seq().index_of(j);
                        assert(self.key_seq()[p] == j);
                    }
                    assert(self.view().remove(kv) =~= before.view().remove(kv));
                    assert(self.view()[kv]@ =~= seq![x]);
                }
            },
        }
    }
}

} // verus!
