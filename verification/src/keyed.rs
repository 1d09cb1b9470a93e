//! A map with text keys.

use vstd::prelude::*;

use crate::text;

verus! {

/// A map from texts to values, which keeps its entries in the order in which
/// their keys came.
pub struct KeyedMap<V> {
    entries: Vec<(String, V)>,
}

impl<V> KeyedMap<V> {
    /// The entry of a key.
    pub closed spec fn is_at(self, key: Seq<char>, i: int) -> bool {
        0 <= i < self.entries@.len() && self.entries@[i].0@ == key
    }

    /// No key occurs twice.
    pub closed spec fn wf(self) -> bool {
        forall|i: int, j: int|
            #![trigger self.entries@[i], self.entries@[j]]
            0 <= i < j < self.entries@.len() ==> self.entries@[i].0@ != self.entries@[j].0@
    }

    /// The keys in their order.
    pub closed spec fn keys(self) -> Seq<Seq<char>> {
        self.entries@.map_values(|e: (String, V)| e.0@)
    }
}

impl<V> View for KeyedMap<V> {
    type V = Map<Seq<char>, V>;

    closed spec fn view(&self) -> Map<Seq<char>, V> {
        Map::new(
            |key: Seq<char>| exists|i: int| self.is_at(key, i),
            |key: Seq<char>| self.entries@[choose|i: int| self.is_at(key, i)].1,
        )
    }
}

impl<V> KeyedMap<V> {
    proof fn lemma_at(&self, i: int)
        requires
            self.wf(),
            0 <= i < self.entries@.len(),
        ensures
            self@.contains_key(self.entries@[i].0@),
            self@[self.entries@[i].0@] == self.entries@[i].1,
    {
        let key = self.entries@[i].0@;
        assert(self.is_at(key, i));
        let j = choose|j: int| self.is_at(key, j);
        assert(self.is_at(key, j));
        if i < j {
            assert(self.entries@[i].0@ != self.entries@[j].0@);
        } else if j < i {
            assert(self.entries@[j].0@ != self.entries@[i].0@);
        }
    }

    /// The keys are those of the map, each once.
    pub proof fn lemma_keys(&self)
        requires
            self.wf(),
        ensures
            self.keys().no_duplicates(),
            forall|k: Seq<char>| #[trigger] self@.contains_key(k) <==> self.keys().contains(k),
    {
        assert forall|k: Seq<char>| #[trigger] self@.contains_key(k) implies self.keys().contains(
            k,
        ) by {
            let i = choose|i: int| self.is_at(k, i);
            assert(self.keys()[i] == k);
        }
        assert forall|k: Seq<char>| self.keys().contains(k) implies #[trigger] self@.contains_key(
            k,
        ) by {
            let i = choose|i: int| 0 <= i < self.keys().len() && self.keys()[i] == k;
            self.lemma_at(i);
        }
    }

    pub fn new() -> (r: Self)
        ensures
            r.wf(),
            r@ == Map::<Seq<char>, V>::empty(),
            r.keys().len() == 0,
    {
        let r = KeyedMap { entries: Vec::new() };
        assert(r@ =~= Map::<Seq<char>, V>::empty());
        r
    }

    fn find(&self, key: &str) -> (r: Option<usize>)
        requires
            self.wf(),
        ensures
            match r {
                Some(i) => self.is_at(key@, i as int) && self@.contains_key(key@) && self@[key@]
                    == self.entries@[i as int].1,
                None => !self@.contains_key(key@) && forall|i: int| !self.is_at(key@, i),
            },
    {
        let mut i: usize = 0;
        while i < self.entries.len()
            invariant
                self.wf(),
                i <= self.entries@.len(),
                forall|j: int| 0 <= j < i ==> (#[trigger] self.entries@[j]).0@ != key@,
            decreases self.entries.len() - i,
        {
            if text::same(self.entries[i].0.as_str(), key) {
                proof {
                    self.lemma_at(i as int);
                }
                return Some(i);
            }
            i += 1;
        }
        None
    }

    /// The number of entries.
    pub fn len(&self) -> (r: usize)
        ensures
            r == self.keys().len(),
    {
        self.entries.len()
    }

    /// The entry at a place in the order.
    pub fn entry(&self, i: usize) -> (r: (&String, &V))
        requires
            self.wf(),
            i < self.keys().len(),
        ensures
            r.0@ == self.keys()[i as int],
            self@.contains_key(r.0@),
            *r.1 == self@[r.0@],
    {
        proof {
            self.lemma_at(i as int);
        }
        (&self.entries[i].0, &self.entries[i].1)
    }

    pub fn contains(&self, key: &str) -> (r: bool)
        requires
            self.wf(),
        ensures
            r == self@.contains_key(key@),
    {
        self.find(key).is_some()
    }

    pub fn get(&self, key: &str) -> (r: Option<&V>)
        requires
            self.wf(),
        ensures
            match r {
                Some(v) => self@.contains_key(key@) && *v == self@[key@],
                None => !self@.contains_key(key@),
            },
    {
        match self.find(key) {
            Some(i) => Some(&self.entries[i].1),
            None => None,
        }
    }

    /// The value of a key, to be changed in place.
    pub fn get_mut(&mut self, key: &str) -> (r: Option<&mut V>)
        requires
            old(self).wf(),
        ensures
            final(self).wf(),
            match r {
                Some(v) => {
                    &&& old(self)@.contains_key(key@) && *v == old(self)@[key@]
                    &&& final(self)@ == old(self)@.insert(key@, *final(v))
                    &&& final(self).keys() == old(self).keys()
                },
                None => !old(self)@.contains_key(key@) && *final(self) == *old(self),
            },
    {
        match self.find(key) {
            Some(i) => {
                let ghost before = *self;
                proof {
                    let k = before.entries@[i as int].0;
                    assert forall|after: KeyedMap<V>|
                        (#[trigger] after.entries@) == before.entries@.update(
                            i as int,
                            (k, after.entries@[i as int].1),
                        ) implies replaced(before, after, key@, after.entries@[i as int].1) by {
                        lemma_replaced(before, after, i as int, after.entries@[i as int].1);
                    }
                }
                let r = &mut self.entries[i];
                Some(&mut r.1)
            },
            None => None,
        }
    }

    /// Gives a key a value, in place of the one that it had.
    pub fn insert(&mut self, key: String, value: V)
        requires
            old(self).wf(),
        ensures
            final(self).wf(),
            final(self)@ == old(self)@.insert(key@, value),
            final(self).keys() == if old(self)@.contains_key(key@) {
                old(self).keys()
            } else {
                old(self).keys().push(key@)
            },
    {
        let ghost before = *self;
        match self.find(key.as_str()) {
            Some(i) => {
                let ghost k = self.entries@[i as int].0;
                self.entries[i].1 = value;
                proof {
                    assert(self.entries@ =~= before.entries@.update(i as int, (k, value)));
                    lemma_replaced(before, *self, i as int, value);
                }
            },
            None => {
                self.entries.push((key, value));
                proof {
                    assert(self.keys() =~= before.keys().push(key@));
                    let n = before.entries@.len() as int;
                    assert forall|i: int, j: int|
                        #![trigger self.entries@[i], self.entries@[j]]
                        0 <= i < j < self.entries@.len() implies self.entries@[i].0@
                        != self.entries@[j].0@ by {
                        assert(self.entries@[i] == before.entries@[i]);
                        if j < n {
                            assert(self.entries@[j] == before.entries@[j]);
                        } else {
                            assert(!before.is_at(key@, i));
                        }
                    }
                    lemma_view_by_entries(*self);
                    lemma_view_by_entries(before);
                    assert forall|k: Seq<char>| #[trigger] self@.contains_key(k)
                        == before@.insert(key@, value).contains_key(k) by {
                        if self@.contains_key(k) {
                            let i = choose|i: int| self.is_at(k, i);
                            if i < n {
                                assert(before.is_at(k, i));
                            }
                        }
                        if before@.contains_key(k) {
                            let i = choose|i: int| before.is_at(k, i);
                            assert(self.is_at(k, i));
                        }
                        assert(self.is_at(key@, n));
                    }
                    assert forall|k: Seq<char>| #[trigger] self@.contains_key(k) implies self@[k]
                        == before@.insert(key@, value)[k] by {
                        if k == key@ {
                            self.lemma_at(n);
                        } else {
                            let i = choose|i: int| self.is_at(k, i);
                            assert(before.entries@[i] == self.entries@[i]);
                            self.lemma_at(i);
                            before.lemma_at(i);
                        }
                    }
                    assert(self@ =~= before@.insert(key@, value));
                }
            },
        }
    }

    /// Takes a key out.
    pub fn remove(&mut self, key: &str) -> (r: Option<V>)
        requires
            old(self).wf(),
        ensures
            final(self).wf(),
            final(self)@ == old(self)@.remove(key@),
            match r {
                Some(v) => old(self)@.contains_key(key@) && v == old(self)@[key@],
                None => !old(self)@.contains_key(key@),
            },
    {
        let ghost before = *self;
        match self.find(key) {
            None => {
                assert(self@ =~= before@.remove(key@));
                None
            },
            Some(i) => {
                let (_, v) = self.entries.remove(i);
                proof {
                    let a = before.entries@;
                    let b = self.entries@;
                    assert forall|x: int, y: int|
                        #![trigger b[x], b[y]]
                        0 <= x < y < b.len() implies b[x].0@ != b[y].0@ by {
                        let x2 = if x < i { x } else { x + 1 };
                        let y2 = if y < i { y } else { y + 1 };
                        assert(b[x] == a[x2] && b[y] == a[y2]);
                    }
                    assert forall|k: Seq<char>| #[trigger] self@.contains_key(k)
                        == before@.remove(key@).contains_key(k) by {
                        if self@.contains_key(k) {
                            let x = choose|x: int| self.is_at(k, x);
                            let x2 = if x < i { x } else { x + 1 };
                            assert(b[x] == a[x2]);
                            assert(before.is_at(k, x2));
                            if k == key@ {
                                assert(a[x2].0@ == a[i as int].0@);
                            }
                        }
                        if before@.contains_key(k) && k != key@ {
                            let x = choose|x: int| before.is_at(k, x);
                            let x2 = if x < i { x } else { x - 1 };
                            assert(a[x] == b[x2]);
                            assert(self.is_at(k, x2));
                        }
                    }
                    assert forall|k: Seq<char>| #[trigger] self@.contains_key(k) implies self@[k]
                        == before@.remove(key@)[k] by {
                        let x = choose|x: int| self.is_at(k, x);
                        let x2 = if x < i { x } else { x + 1 };
                        assert(b[x] == a[x2]);
                        self.lemma_at(x);
                        before.lemma_at(x2);
                    }
                    assert(self@ =~= before@.remove(key@));
                }
                Some(v)
            },
        }
    }

    /// Takes every key out.
    pub fn clear(&mut self)
        ensures
            final(self).wf(),
            final(self)@ == Map::<Seq<char>, V>::empty(),
            final(self).keys().len() == 0,
    {
        self.entries.clear();
        assert(self@ =~= Map::<Seq<char>, V>::empty());
    }
}

proof fn lemma_view_by_entries<V>(m: KeyedMap<V>)
    ensures
        forall|k: Seq<char>| #[trigger] m@.contains_key(k) <==> exists|i: int| m.is_at(k, i),
{
}

spec fn replaced<V>(before: KeyedMap<V>, after: KeyedMap<V>, key: Seq<char>, v: V) -> bool {
    &&& after.wf()
    &&& after@ == before@.insert(key, v)
    &&& after.keys() == before.keys()
}

proof fn lemma_replaced<V>(before: KeyedMap<V>, after: KeyedMap<V>, i: int, v: V)
    requires
        before.wf(),
        0 <= i < before.entries@.len(),
        after.entries@ == before.entries@.update(i, (before.entries@[i].0, v)),
    ensures
        replaced(before, after, before.entries@[i].0@, v),
{
    let key = before.entries@[i].0@;
    let a = before.entries@;
    let b = after.entries@;
    assert forall|x: int, y: int|
        #![trigger b[x], b[y]]
        0 <= x < y < b.len() implies b[x].0@ != b[y].0@ by {
        assert(a[x].0@ != a[y].0@);
    }
    assert(after.keys() =~= before.keys());
    assert forall|k: Seq<char>| #[trigger] after@.contains_key(k) == before@.insert(
        key,
        v,
    ).contains_key(k) by {
        if after@.contains_key(k) {
            let x = choose|x: int| after.is_at(k, x);
            assert(before.is_at(k, x));
        }
        if before@.contains_key(k) {
            let x = choose|x: int| before.is_at(k, x);
            assert(after.is_at(k, x));
        }
        assert(after.is_at(key, i));
    }
    assert forall|k: Seq<char>| #[trigger] after@.contains_key(k) implies after@[k]
        == before@.insert(key, v)[k] by {
        let x = choose|x: int| after.is_at(k, x);
        assert(a[x].0 == b[x].0);
        after.lemma_at(x);
        before.lemma_at(x);
        if k == key {
            after.lemma_at(i);
        }
    }
    assert(after@ =~= before@.insert(key, v));
}

/// A map from texts to texts.
pub struct TextMap {
    table: KeyedMap<String>,
}

impl View for TextMap {
    type V = Map<Seq<char>, Seq<char>>;

    closed spec fn view(&self) -> Map<Seq<char>, Seq<char>> {
        self.table@.map_values(|s: String| s@)
    }
}

impl TextMap {
    #[verifier::type_invariant]
    closed spec fn inv(self) -> bool {
        self.table.wf()
    }

    pub fn new() -> (r: Self)
        ensures
            r@ == Map::<Seq<char>, Seq<char>>::empty(),
    {
        let r = TextMap { table: KeyedMap::new() };
        assert(r@ =~= Map::<Seq<char>, Seq<char>>::empty());
        r
    }

    /// The map with a value for a key, in place of the one that it had.
    pub fn with(self, key: String, value: String) -> (r: Self)
        ensures
            r@ == self@.insert(key@, value@),
    {
        proof {
            use_type_invariant(&self);
        }
        let mut table = self.table;
        table.insert(key, value);
        let r = TextMap { table };
        assert(r@ =~= self@.insert(key@, value@));
        r
    }

    pub fn get(&self, key: &str) -> (r: Option<&String>)
        ensures
            match r {
                Some(s) => self@.contains_key(key@) && self@[key@] == s@,
                None => !self@.contains_key(key@),
            },
    {
        proof {
            use_type_invariant(self);
        }
        self.table.get(key)
    }
}

} // verus!
