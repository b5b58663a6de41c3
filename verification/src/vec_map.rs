use vstd::prelude::*;

verus! {

/// Keys that the maps of this library can compare.
pub trait MapKey: Copy {
    fn same(&self, other: &Self) -> (res: bool)
        ensures
            res == (*self == *other),
    ;
}

/// A map held as a list of entries, no key twice.
pub struct VecMap<K, V> {
    entries: Vec<(K, V)>,
}

impl<K: MapKey, V> VecMap<K, V> {
    pub closed spec fn entries(&self) -> Seq<(K, V)> {
        self.entries@
    }

    /// No key has two entries.
    pub closed spec fn wf(&self) -> bool {
        forall|i: int, j: int|
            0 <= i < self.entries().len() && 0 <= j < self.entries().len() && i != j
                ==> #[trigger] self.entries()[i].0 != #[trigger] self.entries()[j].0
    }

    pub closed spec fn has(&self, k: K) -> bool {
        exists|i: int| 0 <= i < self.entries().len() && #[trigger] self.entries()[i].0 == k
    }

    /// The map that the entries stand for.
    pub closed spec fn view(&self) -> Map<K, V> {
        Map::new(
            |k: K| self.has(k),
            |k: K| self.entries()[choose|i: int| 0 <= i < self.entries().len() && #[trigger] self.entries()[i].0 == k].1,
        )
    }

    proof fn lemma_index(&self, i: int)
        requires
            self.wf(),
            0 <= i < self.entries().len(),
        ensures
            self@.contains_key(self.entries()[i].0),
            self@[self.entries()[i].0] == self.entries()[i].1,
    {
        let k = self.entries()[i].0;
        assert(self.has(k));
        let j = choose|j: int| 0 <= j < self.entries().len() && #[trigger] self.entries()[j].0 == k;
        assert(self.entries()[j].0 == self.entries()[i].0);
    }

    /// An empty map.
    pub fn new() -> (res: Self)
        ensures
            res.wf(),
            res@ == Map::<K, V>::empty(),
    {
        let res = VecMap { entries: Vec::new() };
        assert(res@ =~= Map::<K, V>::empty());
        res
    }

    fn find(&self, k: &K) -> (res: Option<usize>)
        requires
            self.wf(),
        ensures
            res matches Some(i) ==> i < self.entries().len() && self.entries()[i as int].0 == *k,
            res is None ==> !self@.contains_key(*k),
    {
        let mut i: usize = 0;
        while i < self.entries.len()
            invariant
                i <= self.entries@.len(),
                forall|j: int| 0 <= j < i ==> self.entries@[j].0 != *k,
            decreases self.entries@.len() - i,
        {
            if self.entries[i].0.same(k) {
                return Some(i);
            }
            i += 1;
        }
        None
    }

    /// The value of the key, if it has one.
    pub fn get(&self, k: &K) -> (res: Option<&V>)
        requires
            self.wf(),
        ensures
            res is Some <==> self@.contains_key(*k),
            res matches Some(v) ==> *v == self@[*k],
    {
        match self.find(k) {
            Some(i) => {
                proof {
                    self.lemma_index(i as int);
                }
                Some(&self.entries[i].1)
            },
            None => None,
        }
    }

    /// Whether the key has a value.
    pub fn contains_key(&self, k: &K) -> (res: bool)
        requires
            self.wf(),
        ensures
            res == self@.contains_key(*k),
    {
        match self.find(k) {
            Some(i) => {
                proof {
                    self.lemma_index(i as int);
                }
                true
            },
            None => false,
        }
    }

    /// No key has two entries.
    pub fn is_wf(&self) -> (res: bool)
        ensures
            res == self.wf(),
    {
        let n = self.entries.len();
        let mut i: usize = 0;
        while i < n
            invariant
                n == self.entries().len(),
                i <= n,
                forall|a: int, b: int| 0 <= a < i && 0 <= b < n && a != b
                    ==> #[trigger] self.entries()[a].0 != #[trigger] self.entries()[b].0,
            decreases n - i,
        {
            let mut j: usize = 0;
            while j < n
                invariant
                    n == self.entries().len(),
                    i < n,
                    j <= n,
                    forall|a: int, b: int| 0 <= a < i && 0 <= b < n && a != b
                        ==> #[trigger] self.entries()[a].0 != #[trigger] self.entries()[b].0,
                    forall|b: int| 0 <= b < j && b != i ==> self.entries()[i as int].0 != #[trigger] self.entries()[b].0,
                decreases n - j,
            {
                if j != i && self.entries[i].0.same(&self.entries[j].0) {
                    return false;
                }
                j += 1;
            }
            i += 1;
        }
        true
    }

    /// The number of entries, one for each key.
    pub fn len(&self) -> (res: usize)
        ensures
            res == self.entries().len(),
    {
        self.entries.len()
    }

    /// Whether the map is empty.
    pub fn is_empty(&self) -> (res: bool)
        requires
            self.wf(),
        ensures
            res == (self@.dom() == Set::<K>::empty()),
    {
        if self.entries.len() == 0 {
            assert(self@.dom() =~= Set::<K>::empty());
            true
        } else {
            proof {
                self.lemma_index(0);
                assert(self@.dom().contains(self.entries()[0].0));
            }
            false
        }
    }

    /// Sets the value of the key; returns the old value, if any.
    pub fn insert(&mut self, k: K, v: V) -> (res: Option<V>)
        requires
            old(self).wf(),
        ensures
            final(self).wf(),
            final(self)@ == old(self)@.insert(k, v),
            res is Some <==> old(self)@.contains_key(k),
            res matches Some(o) ==> o == old(self)@[k],
    {
        let old_value = self.remove(&k);
        let ghost before = *self;
        self.entries.push((k, v));
        proof {
            let n = before.entries().len();
            assert forall|a: int, b: int|
                0 <= a < self.entries().len() && 0 <= b < self.entries().len() && a != b
                    implies #[trigger] self.entries()[a].0 != #[trigger] self.entries()[b].0 by {
                if a < n && b < n {
                    assert(before.entries()[a] == self.entries()[a]);
                    assert(before.entries()[b] == self.entries()[b]);
                } else if a < n {
                    assert(before.entries()[a] == self.entries()[a]);
                    before.lemma_index(a);
                } else if b < n {
                    assert(before.entries()[b] == self.entries()[b]);
                    before.lemma_index(b);
                }
            }
            self.lemma_index(n as int);
            assert forall|x: K| #[trigger] self@.contains_key(x) == before@.insert(k, v).contains_key(x) by {
                if x != k && before.has(x) {
                    let j = choose|j: int| 0 <= j < before.entries().len() && #[trigger] before.entries()[j].0 == x;
                    assert(self.entries()[j] == before.entries()[j]);
                }
                if x != k && self.has(x) {
                    let j = choose|j: int| 0 <= j < self.entries().len() && #[trigger] self.entries()[j].0 == x;
                    assert(j < n);
                    assert(before.entries()[j] == self.entries()[j]);
                }
            }
            assert forall|x: K| #[trigger] self@.contains_key(x) implies self@[x] == before@.insert(k, v)[x] by {
                if x != k {
                    let j = choose|j: int| 0 <= j < self.entries().len() && #[trigger] self.entries()[j].0 == x;
                    assert(j < n);
                    assert(before.entries()[j] == self.entries()[j]);
                    self.lemma_index(j);
                    before.lemma_index(j);
                }
            }
            assert(self@ =~= before@.insert(k, v));
            assert(before@.insert(k, v) =~= old(self)@.insert(k, v));
        }
        old_value
    }

    /// Removes the key; returns its value, if any.
    pub fn remove(&mut self, k: &K) -> (res: Option<V>)
        requires
            old(self).wf(),
        ensures
            final(self).wf(),
            final(self)@ == old(self)@.remove(*k),
            res is Some <==> old(self)@.contains_key(*k),
            res matches Some(o) ==> o == old(self)@[*k],
    {
        match self.find(k) {
            None => {
                assert(self@ =~= old(self)@.remove(*k));
                None
            },
            Some(i) => {
                proof {
                    self.lemma_index(i as int);
                }
                let ghost before = *self;
                let (_, v) = self.entries.swap_remove(i);
                proof {
                    let n = before.entries().len();
                    let last = n - 1;
                    assert forall|j: int| 0 <= j < self.entries().len() implies #[trigger] self.entries()[j] == (if j == i {
                        before.entries()[last]
                    } else {
                        before.entries()[j]
                    }) by {}
                    assert forall|a: int, b: int|
                        0 <= a < self.entries().len() && 0 <= b < self.entries().len() && a != b
                            implies #[trigger] self.entries()[a].0 != #[trigger] self.entries()[b].0 by {
                        let a2 = if a == i { last } else { a };
                        let b2 = if b == i { last } else { b };
                        assert(self.entries()[a] == before.entries()[a2]);
                        assert(self.entries()[b] == before.entries()[b2]);
                    }
                    assert forall|x: K| #[trigger] self@.contains_key(x) == before@.remove(*k).contains_key(x) by {
                        if self.has(x) {
                            let j = choose|j: int| 0 <= j < self.entries().len() && #[trigger] self.entries()[j].0 == x;
                            let j2 = if j == i { last } else { j };
                            assert(self.entries()[j] == before.entries()[j2]);
                            assert(j2 != i);
                            before.lemma_index(j2);
                            before.lemma_index(i as int);
                        }
                        if x != *k && before.has(x) {
                            let j = choose|j: int| 0 <= j < before.entries().len() && #[trigger] before.entries()[j].0 == x;
                            assert(j != i);
                            let j2 = if j == last { i as int } else { j };
                            assert(self.entries()[j2] == before.entries()[j]);
                        }
                    }
                    assert forall|x: K| #[trigger] self@.contains_key(x) implies self@[x] == before@[x] by {
                        let j = choose|j: int| 0 <= j < self.entries().len() && #[trigger] self.entries()[j].0 == x;
                        let j2 = if j == i { last } else { j };
                        assert(self.entries()[j] == before.entries()[j2]);
                        self.lemma_index(j);
                        before.lemma_index(j2);
                    }
                    assert(self@ =~= before@.remove(*k));
                }
                Some(v)
            },
        }
    }
}

} // verus!
