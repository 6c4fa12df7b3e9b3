//! A small map from strings to values that keeps its entries in a vector.
use vstd::prelude::*;

verus! {

/// A map keyed by strings in which no key occurs twice.
pub struct StringMap<V> {
    keys: Vec<String>,
    values: Vec<V>,
}

impl<V> StringMap<V> {
    /// Every key has a value and no key occurs twice.
    pub closed spec fn wf(&self) -> bool {
        &&& self.keys@.len() == self.values@.len()
        &&& forall|i: int, j: int|
            0 <= i < j < self.keys@.len() ==> self.keys@[i]@ != self.keys@[j]@
    }

    pub closed spec fn has(&self, key: Seq<char>, i: int) -> bool {
        0 <= i < self.keys@.len() && self.keys@[i]@ == key
    }

    /// The entries as a mathematical map.
    pub closed spec fn view(&self) -> Map<Seq<char>, V> {
        Map::new(
            |key: Seq<char>| exists|i: int| self.has(key, i),
            |key: Seq<char>| self.values@[choose|i: int| self.has(key, i)],
        )
    }

    /// The keys that have a value.
    pub closed spec fn domain(&self) -> Set<Seq<char>> {
        Set::new(|key: Seq<char>| exists|i: int| self.has(key, i))
    }

    /// The keys in the order in which they were first inserted.
    pub closed spec fn keys(&self) -> Seq<Seq<char>> {
        Seq::new(self.keys@.len(), |i: int| self.keys@[i]@)
    }

    pub proof fn lemma_keys(&self)
        requires
            self.wf(),
        ensures
            self.keys().no_duplicates(),
            forall|key: Seq<char>| self@.contains_key(key) <==> self.keys().contains(key),
    {
        assert forall|key: Seq<char>| self@.contains_key(key) implies self.keys().contains(
            key,
        ) by {
            let i = choose|i: int| self.has(key, i);
            assert(self.keys()[i] == key);
        }
        assert forall|key: Seq<char>| self.keys().contains(key) implies self@.contains_key(
            key,
        ) by {
            let i = choose|i: int| 0 <= i < self.keys().len() && self.keys()[i] == key;
            assert(self.has(key, i));
        }
    }

    pub fn new() -> (map: Self)
        ensures
            map.wf(),
            map@ == Map::<Seq<char>, V>::empty(),
            map.domain() == Set::<Seq<char>>::empty(),
    {
        let map = StringMap { keys: Vec::new(), values: Vec::new() };
        assert(map@ =~= Map::<Seq<char>, V>::empty());
        assert(map.domain() =~= Set::<Seq<char>>::empty());
        map
    }

    /// The number of entries.
    pub fn len(&self) -> (n: usize)
        requires
            self.wf(),
        ensures
            n == self.keys().len(),
    {
        self.keys.len()
    }

    /// The key of the entry at position `i`.
    pub fn key_at(&self, i: usize) -> (key: &String)
        requires
            self.wf(),
            i < self.keys().len(),
        ensures
            key@ == self.keys()[i as int],
    {
        &self.keys[i]
    }

    /// The value of the entry at position `i`.
    pub fn value_at(&self, i: usize) -> (value: &V)
        requires
            self.wf(),
            i < self.keys().len(),
        ensures
            self@.contains_key(self.keys()[i as int]),
            *value == self@[self.keys()[i as int]],
    {
        assert(self.has(self.keys()[i as int], i as int));
        &self.values[i]
    }

    fn position(&self, key: &str) -> (found: Option<usize>)
        requires
            self.wf(),
        ensures
            match found {
                Some(i) => self.has(key@, i as int),
                None => forall|i: int| !self.has(key@, i),
            },
    {
        let wanted = key.to_owned();
        let mut i: usize = 0;
        while i < self.keys.len()
            invariant
                i <= self.keys@.len(),
                wanted@ == key@,
                forall|j: int| 0 <= j < i ==> self.keys@[j]@ != key@,
            decreases self.keys@.len() - i,
        {
            if self.keys[i] == wanted {
                return Some(i);
            }
            i += 1;
        }
        None
    }

    /// The value stored for `key`, if there is one.
    pub fn get(&self, key: &str) -> (found: Option<&V>)
        requires
            self.wf(),
        ensures
            match found {
                Some(value) => self@.contains_key(key@) && *value == self@[key@],
                None => !self@.contains_key(key@),
            },
            found is Some <==> self.domain().contains(key@),
    {
        match self.position(key) {
            Some(i) => Some(&self.values[i]),
            None => None,
        }
    }

    /// Stores `value` for `key`, in place of the value the key had before.
    pub fn insert(&mut self, key: String, value: V)
        requires
            old(self).wf(),
        ensures
            final(self).wf(),
            final(self)@ == old(self)@.insert(key@, value),
            final(self).domain() == old(self).domain().insert(key@),
    {
        let ghost before = *self;
        let ghost after = before@.insert(key@, value);
        match self.position(key.as_str()) {
            Some(i) => {
                self.values.set(i, value);
                proof {
                    assert(self.keys@ == before.keys@);
                    assert forall|k: Seq<char>| #[trigger] after.contains_key(k) implies
                        self@.contains_key(k) && self@[k] == after[k] by {
                        if k == key@ {
                            assert(self.has(k, i as int));
                        } else {
                            let j2 = choose|j: int| before.has(k, j);
                            assert(before.has(k, j2));
                            assert(self.has(k, j2));
                        }
                        let j1 = choose|j: int| self.has(k, j);
                        assert(self.has(k, j1));
                        assert(before.has(k, j1));
                    }
                    assert forall|k: Seq<char>| #[trigger] self@.contains_key(k) implies
                        after.contains_key(k) by {
                        let j1 = choose|j: int| self.has(k, j);
                        assert(before.has(k, j1));
                    }
                    assert(self@ =~= after);
                    assert(self.domain() =~= before.domain().insert(key@));
                }
            },
            None => {
                let ghost n = before.keys@.len() as int;
                self.keys.push(key);
                self.values.push(value);
                proof {
                    assert forall|i: int, j: int| 0 <= i < j < self.keys@.len() implies
                        self.keys@[i]@ != self.keys@[j]@ by {
                        if j == n {
                            assert(!before.has(key@, i));
                        }
                    }
                    assert forall|k: Seq<char>| #[trigger] after.contains_key(k) implies
                        self@.contains_key(k) && self@[k] == after[k] by {
                        if k == key@ {
                            assert(self.has(k, n));
                        } else {
                            let j2 = choose|j: int| before.has(k, j);
                            assert(before.has(k, j2));
                            assert(self.has(k, j2));
                        }
                        let j1 = choose|j: int| self.has(k, j);
                        assert(self.has(k, j1));
                        if k != key@ {
                            assert(before.has(k, j1));
                        }
                    }
                    assert forall|k: Seq<char>| #[trigger] self@.contains_key(k) implies
                        after.contains_key(k) by {
                        let j1 = choose|j: int| self.has(k, j);
                        if k != key@ {
                            assert(before.has(k, j1));
                        }
                    }
                    assert(self@ =~= after);
                    assert(self.domain() =~= before.domain().insert(key@)) by {
                        assert(self.has(key@, n));
                    }
                }
            },
        }
    }
}

} // verus!
