use std::collections::HashMap;
use vstd::prelude::*;

verus! {

broadcast use vstd::std_specs::hash::group_hash_axioms;

/// Whether `x` occurs in `v`.
pub fn list_contains(v: &Vec<u64>, x: u64) -> (r: bool)
    ensures
        r == v@.contains(x),
{
    let mut i: usize = 0;
    while i < v.len()
        invariant
            i <= v@.len(),
            forall|j: int| 0 <= j < i ==> v@[j] != x,
        decreases v@.len() - i,
    {
        if v[i] == x {
            return true;
        }
        i = i + 1;
    }
    false
}

/// A map from 64-bit identifiers to values that also remembers its keys in
/// insertion order, so that a sweep can visit every entry by position.
pub struct Table<V> {
    map: HashMap<u64, V>,
    keys: Vec<u64>,
}

impl<V> View for Table<V> {
    type V = Map<u64, V>;

    closed spec fn view(&self) -> Map<u64, V> {
        self.map@
    }
}

impl<V: Copy> Table<V> {
    /// The keys in the order a sweep visits them.
    pub closed spec fn key_seq(&self) -> Seq<u64> {
        self.keys@
    }

    /// Each key is listed once, and the listed keys are exactly the map's keys.
    pub closed spec fn wf(&self) -> bool {
        &&& self.keys@.no_duplicates()
        &&& forall|k: u64| self.map@.contains_key(k) <==> self.keys@.contains(k)
    }

    pub proof fn lemma_keys(&self)
        requires
            self.wf(),
        ensures
            self.key_seq().no_duplicates(),
            forall|k: u64| self@.contains_key(k) <==> self.key_seq().contains(k),
            forall|i: int| 0 <= i < self.key_seq().len() ==> self@.contains_key(#[trigger] self.key_seq()[i]),
    {
        assert forall|i: int| 0 <= i < self.key_seq().len() implies self@.contains_key(#[trigger] self.key_seq()[i]) by {
            assert(self.keys@.contains(self.keys@[i]));
        }
    }

    pub fn new() -> (t: Self)
        ensures
            t.wf(),
            t@ == Map::<u64, V>::empty(),
            t.key_seq().len() == 0,
    {
        Table { map: HashMap::new(), keys: Vec::new() }
    }

    pub fn len(&self) -> (n: usize)
        requires
            self.wf(),
        ensures
            n == self.key_seq().len(),
    {
        self.keys.len()
    }

    pub fn key_at(&self, i: usize) -> (k: u64)
        requires
            self.wf(),
            i < self.key_seq().len(),
        ensures
            k == self.key_seq()[i as int],
            self@.contains_key(k),
    {
        proof { self.lemma_keys(); }
        self.keys[i]
    }

    /// The keys, in the order a sweep visits them.
    pub fn keys(&self) -> (r: Vec<u64>)
        ensures
            r@ == self.key_seq(),
    {
        let mut r: Vec<u64> = Vec::new();
        for i in 0..self.keys.len()
            invariant
                r@ == self.keys@.subrange(0, i as int),
        {
            r.push(self.keys[i]);
            assert(r@ =~= self.keys@.subrange(0, i + 1));
        }
        assert(r@ =~= self.keys@);
        r
    }

    pub fn get(&self, k: u64) -> (r: Option<V>)
        ensures
            r == (if self@.contains_key(k) { Some(self@[k]) } else { None::<V> }),
    {
        match self.map.get(&k) {
            Some(v) => Some(*v),
            None => None,
        }
    }

    pub fn contains(&self, k: u64) -> (r: bool)
        ensures
            r == self@.contains_key(k),
    {
        self.map.contains_key(&k)
    }

    /// Sets the value of `k`, adding the key at the end of the order if it is new.
    pub fn insert(&mut self, k: u64, v: V)
        requires
            old(self).wf(),
        ensures
            final(self).wf(),
            final(self)@ == old(self)@.insert(k, v),
            old(self)@.contains_key(k) ==> final(self).key_seq() == old(self).key_seq(),
            !old(self)@.contains_key(k) ==> final(self).key_seq() == old(self).key_seq().push(k),
    {
        if !self.map.contains_key(&k) {
            self.keys.push(k);
            proof {
                assert(self.keys@.last() == k);
                assert(!old(self).keys@.contains(k));
                assert forall|a: int, b: int| 0 <= a < self.keys@.len() && 0 <= b < self.keys@.len() && a != b
                    implies self.keys@[a] != self.keys@[b] by {
                    if a < old(self).keys@.len() && b < old(self).keys@.len() {
                        assert(old(self).keys@[a] != old(self).keys@[b]);
                    } else if a < old(self).keys@.len() {
                        assert(old(self).keys@.contains(old(self).keys@[a]));
                    } else if b < old(self).keys@.len() {
                        assert(old(self).keys@.contains(old(self).keys@[b]));
                    }
                }
                assert forall|j: u64| self.keys@.contains(j) <==> (old(self).keys@.contains(j) || j == k) by {
                    if self.keys@.contains(j) {
                        let i = choose|i: int| 0 <= i < self.keys@.len() && self.keys@[i] == j;
                        if i < old(self).keys@.len() {
                            assert(old(self).keys@[i] == j);
                        }
                    }
                    if old(self).keys@.contains(j) {
                        let i = choose|i: int| 0 <= i < old(self).keys@.len() && old(self).keys@[i] == j;
                        assert(self.keys@[i] == j);
                    }
                    if j == k {
                        assert(self.keys@[self.keys@.len() - 1] == j);
                    }
                }
            }
        }
        self.map.insert(k, v);
    }

    /// Removes `k` and returns its value, if it was there.
    pub fn remove(&mut self, k: u64) -> (r: Option<V>)
        requires
            old(self).wf(),
        ensures
            final(self).wf(),
            final(self)@ == old(self)@.remove(k),
            r == (if old(self)@.contains_key(k) { Some(old(self)@[k]) } else { None::<V> }),
    {
        let r = self.map.remove(&k);
        let mut i: usize = 0;
        let n = self.keys.len();
        while i < n
            invariant
                n == self.keys@.len(),
                self.keys@ == old(self).keys@,
                self.keys@.no_duplicates(),
                forall|j: u64| old(self).map@.contains_key(j) <==> self.keys@.contains(j),
                self.map@ == old(self).map@.remove(k),
                r == (if old(self)@.contains_key(k) { Some(old(self)@[k]) } else { None::<V> }),
                i <= n,
                forall|j: int| 0 <= j < i ==> self.keys@[j] != k,
            decreases n - i,
        {
            if self.keys[i] == k {
                let ghost before = self.keys@;
                self.keys.remove(i);
                proof {
                    assert forall|a: int, b: int| 0 <= a < self.keys@.len() && 0 <= b < self.keys@.len() && a != b
                        implies self.keys@[a] != self.keys@[b] by {
                        let a2 = if a < i { a } else { a + 1 };
                        let b2 = if b < i { b } else { b + 1 };
                        assert(self.keys@[a] == before[a2]);
                        assert(self.keys@[b] == before[b2]);
                        assert(before[a2] != before[b2]);
                    }
                    assert forall|j: u64| self.keys@.contains(j) <==> (before.contains(j) && j != k) by {
                        if self.keys@.contains(j) {
                            let a = choose|a: int| 0 <= a < self.keys@.len() && self.keys@[a] == j;
                            let a2 = if a < i { a } else { a + 1 };
                            assert(before[a2] == j);
                            assert(a2 != i as int);
                            assert(before.contains(j));
                        }
                        if before.contains(j) && j != k {
                            let a = choose|a: int| 0 <= a < before.len() && before[a] == j;
                            assert(a != i as int);
                            let a1 = if a < i { a } else { a - 1 };
                            assert(self.keys@[a1] == j);
                        }
                    }
                    assert(self.keys@.no_duplicates());
                    assert forall|j: u64| self.map@.contains_key(j) <==> self.keys@.contains(j) by {
                        assert(self.map@.contains_key(j) <==> (old(self).map@.contains_key(j) && j != k));
                        assert(self.keys@.contains(j) <==> (before.contains(j) && j != k));
                        assert(before.contains(j) <==> old(self).map@.contains_key(j));
                    }
                }
                return r;
            }
            i = i + 1;
        }
        proof {
            assert(!self.keys@.contains(k));
        }
        r
    }
}

} // verus!
