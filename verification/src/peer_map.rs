//! A map keyed by peer, kept as a list of entries in which no peer occurs twice.

use crate::peer::PeerId;
use vstd::prelude::*;

verus! {

/// Maps peers to values. Peers are told apart by their bytes.
pub struct PeerMap<V> {
    keys: Vec<PeerId>,
    values: Vec<V>,
}

impl<V> PeerMap<V> {
    /// No peer occurs twice, and every peer has its value.
    pub closed spec fn wf(&self) -> bool {
        &&& self.keys.len() == self.values.len()
        &&& forall|i: int, j: int|
            0 <= i < self.keys.len() && 0 <= j < self.keys.len() && #[trigger] self.keys[i]@
                == #[trigger] self.keys[j]@ ==> i == j
    }

    spec fn holds_at(&self, k: Seq<u8>, i: int) -> bool {
        0 <= i < self.keys.len() && self.keys[i]@ == k
    }

    /// The map from each peer's bytes to its value.
    pub closed spec fn view(&self) -> Map<Seq<u8>, V> {
        Map::new(
            |k: Seq<u8>| exists|i: int| self.holds_at(k, i),
            |k: Seq<u8>| self.values[choose|i: int| self.holds_at(k, i)],
        )
    }

    proof fn lemma_entry(&self, i: int)
        requires
            self.wf(),
            0 <= i < self.keys.len(),
        ensures
            self@.contains_key(self.keys[i]@),
            self@[self.keys[i]@] == self.values[i],
    {
        let k = self.keys[i]@;
        assert(self.holds_at(k, i));
        let c = choose|c: int| self.holds_at(k, c);
        assert(self.holds_at(k, c));
        assert(c == i);
    }

    proof fn lemma_value_replaced(before: Self, after: Self, i: int)
        requires
            before.wf(),
            0 <= i < before.keys.len(),
            after.keys == before.keys,
            after.values@ == before.values@.update(i, after.values@[i]),
        ensures
            after.wf(),
            after@ == before@.insert(before.keys[i]@, after.values@[i]),
    {
        let key = before.keys[i]@;
        let expected = before@.insert(key, after.values@[i]);
        assert forall|k: Seq<u8>| #[trigger] after@.contains_key(k) == expected.contains_key(k) by {
            if before.holds_at(k, i) {
                assert(after.holds_at(k, i));
            }
            if exists|j: int| before.holds_at(k, j) {
                let j = choose|j: int| before.holds_at(k, j);
                assert(after.holds_at(k, j));
            }
            if exists|j: int| after.holds_at(k, j) {
                let j = choose|j: int| after.holds_at(k, j);
                assert(before.holds_at(k, j));
            }
        }
        assert forall|k: Seq<u8>| after@.contains_key(k) implies #[trigger] after@[k]
            == expected[k] by {
            let j = choose|j: int| after.holds_at(k, j);
            assert(after.holds_at(k, j));
            assert(before.holds_at(k, j));
            after.lemma_entry(j);
            before.lemma_entry(j);
        }
        assert(after@ =~= expected);
    }

    /// An empty map.
    pub fn new() -> (m: Self)
        ensures
            m.wf(),
            m@ == Map::<Seq<u8>, V>::empty(),
    {
        let m = PeerMap { keys: Vec::new(), values: Vec::new() };
        proof {
            assert(m@ =~= Map::<Seq<u8>, V>::empty());
        }
        m
    }

    fn position(&self, key: &PeerId) -> (r: Option<usize>)
        requires
            self.wf(),
        ensures
            match r {
                Some(i) => self.holds_at(key@, i as int),
                None => !self@.contains_key(key@),
            },
    {
        let mut i: usize = 0;
        while i < self.keys.len()
            invariant
                i <= self.keys.len(),
                forall|j: int| 0 <= j < i ==> !self.holds_at(key@, j),
            decreases self.keys.len() - i,
        {
            if self.keys[i].same(key) {
                return Some(i);
            }
            i = i + 1;
        }
        None
    }

    /// Whether the peer has a value.
    pub fn contains_key(&self, key: &PeerId) -> (b: bool)
        requires
            self.wf(),
        ensures
            b == self@.contains_key(key@),
    {
        match self.position(key) {
            Some(i) => {
                proof {
                    self.lemma_entry(i as int);
                }
                true
            },
            None => false,
        }
    }

    /// The peer's value, if it has one.
    pub fn get(&self, key: &PeerId) -> (r: Option<&V>)
        requires
            self.wf(),
        ensures
            match r {
                Some(v) => self@.contains_key(key@) && *v == self@[key@],
                None => !self@.contains_key(key@),
            },
    {
        match self.position(key) {
            Some(i) => {
                proof {
                    self.lemma_entry(i as int);
                }
                Some(&self.values[i])
            },
            None => None,
        }
    }

    /// The value of a peer that has one, to change in place.
    pub fn get_mut(&mut self, key: &PeerId) -> (v: &mut V)
        requires
            old(self).wf(),
            old(self)@.contains_key(key@),
        ensures
            *v == old(self)@[key@],
            final(self).wf(),
            final(self)@ == old(self)@.insert(key@, *final(v)),
    {
        let found = self.position(key);
        let i: usize = found.unwrap();
        proof {
            self.lemma_entry(i as int);
        }
        proof {
            let before = *self;
            assert forall|after: Self|
                after.keys == before.keys && after.values@ == before.values@.update(
                    i as int,
                    after.values@[i as int],
                ) implies #[trigger] after.wf() && after@ == before@.insert(
                key@,
                after.values@[i as int],
            ) by {
                Self::lemma_value_replaced(before, after, i as int);
            }
        }
        let v = &mut self.values[i];
        v
    }

    /// Gives a peer that has no value yet its value.
    pub fn insert(&mut self, key: PeerId, value: V)
        requires
            old(self).wf(),
            !old(self)@.contains_key(key@),
        ensures
            final(self).wf(),
            final(self)@ == old(self)@.insert(key@, value),
    {
        let ghost before = *self;
        let ghost k0 = key@;
        self.keys.push(key);
        self.values.push(value);
        proof {
            let after = *self;
            let n = before.keys.len() as int;
            assert forall|j: int| 0 <= j < n implies before.keys[j]@ != k0 by {
                if before.keys[j]@ == k0 {
                    assert(before.holds_at(k0, j));
                }
            }
            assert(after.wf());
            let expected = before@.insert(k0, value);
            assert forall|k: Seq<u8>| #[trigger] after@.contains_key(k) == expected.contains_key(
                k,
            ) by {
                if k == k0 {
                    assert(after.holds_at(k, n));
                }
                if exists|j: int| before.holds_at(k, j) {
                    let j = choose|j: int| before.holds_at(k, j);
                    assert(after.holds_at(k, j));
                }
                if exists|j: int| after.holds_at(k, j) {
                    let j = choose|j: int| after.holds_at(k, j);
                    if j < n {
                        assert(before.holds_at(k, j));
                    }
                }
            }
            assert forall|k: Seq<u8>| after@.contains_key(k) implies #[trigger] after@[k]
                == expected[k] by {
                let j = choose|j: int| after.holds_at(k, j);
                assert(after.holds_at(k, j));
                after.lemma_entry(j);
                if j < n {
                    assert(before.holds_at(k, j));
                    before.lemma_entry(j);
                }
            }
            assert(after@ =~= expected);
        }
    }

    /// Takes a peer's value out of the map, if it has one.
    pub fn remove(&mut self, key: &PeerId) -> (r: Option<V>)
        requires
            old(self).wf(),
        ensures
            final(self).wf(),
            final(self)@ == old(self)@.remove(key@),
            r == if old(self)@.contains_key(key@) {
                Some(old(self)@[key@])
            } else {
                None
            },
    {
        let ghost before = *self;
        match self.position(key) {
            Some(i) => {
                proof {
                    before.lemma_entry(i as int);
                }
                let _ = self.keys.remove(i);
                let value = self.values.remove(i);
                proof {
                    let after = *self;
                    let expected = before@.remove(key@);
                    assert forall|a: int, b: int|
                        0 <= a < after.keys.len() && 0 <= b < after.keys.len()
                            && #[trigger] after.keys[a]@ == #[trigger] after.keys[b]@ implies a
                        == b by {
                        let a0 = if a < i { a } else { a + 1 };
                        let b0 = if b < i { b } else { b + 1 };
                        assert(before.keys[a0]@ == before.keys[b0]@);
                    }
                    assert(after.wf());
                    assert forall|k: Seq<u8>| #[trigger] after@.contains_key(k)
                        == expected.contains_key(k) by {
                        if exists|j: int| before.holds_at(k, j) {
                            let j = choose|j: int| before.holds_at(k, j);
                            if j < i {
                                assert(after.holds_at(k, j));
                            } else if j > i {
                                assert(after.holds_at(k, j - 1));
                            } else {
                                assert(k == key@);
                            }
                        }
                        if exists|j: int| after.holds_at(k, j) {
                            let j = choose|j: int| after.holds_at(k, j);
                            let j0 = if j < i { j } else { j + 1 };
                            assert(before.holds_at(k, j0));
                            assert(before.holds_at(key@, i as int));
                            assert(k != key@);
                        }
                    }
                    assert forall|k: Seq<u8>| after@.contains_key(k) implies #[trigger] after@[k]
                        == expected[k] by {
                        let j = choose|j: int| after.holds_at(k, j);
                        assert(after.holds_at(k, j));
                        after.lemma_entry(j);
                        let j0 = if j < i { j } else { j + 1 };
                        assert(before.holds_at(k, j0));
                        before.lemma_entry(j0);
                    }
                    assert(after@ =~= expected);
                }
                Some(value)
            },
            None => {
                proof {
                    assert(self@ =~= before@.remove(key@));
                }
                None
            },
        }
    }
}

} // verus!
