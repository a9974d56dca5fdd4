//! An ordered association table with unique keys, modelled as a `Map` from
//! key views to value views.
use vstd::prelude::*;

verus! {

/// Keys that can be compared at run time in agreement with their views.
pub trait Key: View + Sized {
    fn same_key(&self, other: &Self) -> (r: bool)
        ensures
            r == (self@ == other@),
    ;
}

impl Key for String {
    fn same_key(&self, other: &Self) -> (r: bool) {
        *self == *other
    }
}

impl Key for u64 {
    fn same_key(&self, other: &Self) -> (r: bool) {
        *self == *other
    }
}

impl Key for u128 {
    fn same_key(&self, other: &Self) -> (r: bool) {
        *self == *other
    }
}

/// A table of `(key, value)` entries in which no two keys have the same view.
#[derive(Debug)]
pub struct KeyMap<K: Key, V: View> {
    entries: Vec<(K, V)>,
}

impl<K: Key, V: View> View for KeyMap<K, V> {
    type V = Map<K::V, V::V>;

    closed spec fn view(&self) -> Map<K::V, V::V> {
        map_of(self.entries@)
    }
}

/// The map that a sequence of entries with unique keys stands for.
pub closed spec fn map_of<K: Key, V: View>(entries: Seq<(K, V)>) -> Map<K::V, V::V> {
    Map::new(
        |k: K::V| exists|i: int| 0 <= i < entries.len() && entries[i].0@ == k,
        |k: K::V| entries[choose|i: int| 0 <= i < entries.len() && entries[i].0@ == k].1@,
    )
}

/// No two entries have keys with the same view.
pub closed spec fn unique_keys<K: Key, V: View>(entries: Seq<(K, V)>) -> bool {
    forall|i: int, j: int|
        0 <= i < entries.len() && 0 <= j < entries.len() && i != j
            ==> #[trigger] entries[i].0@ != #[trigger] entries[j].0@
}

proof fn lemma_entry_in_map<K: Key, V: View>(entries: Seq<(K, V)>, i: int)
    requires
        unique_keys(entries),
        0 <= i < entries.len(),
    ensures
        map_of(entries).contains_key(entries[i].0@),
        map_of(entries)[entries[i].0@] == entries[i].1@,
{
    let k = entries[i].0@;
    assert(exists|j: int| 0 <= j < entries.len() && entries[j].0@ == k);
    let j = choose|j: int| 0 <= j < entries.len() && entries[j].0@ == k;
    assert(i == j);
}

proof fn lemma_entries_map<K: Key, V: View>(entries: Seq<(K, V)>)
    requires
        unique_keys(entries),
    ensures
        forall|i: int|
            0 <= i < entries.len() ==> map_of(entries).contains_key(#[trigger] entries[i].0@)
                && map_of(entries)[entries[i].0@] == entries[i].1@,
        forall|k: K::V|
            map_of(entries).contains_key(k) ==> exists|i: int|
                0 <= i < entries.len() && #[trigger] entries[i].0@ == k,
{
    assert forall|i: int| 0 <= i < entries.len() implies map_of(entries).contains_key(
        #[trigger] entries[i].0@,
    ) && map_of(entries)[entries[i].0@] == entries[i].1@ by {
        lemma_entry_in_map(entries, i);
    }
}

impl<K: Key, V: View> KeyMap<K, V> {
    #[verifier::type_invariant]
    closed spec fn keys_unique(&self) -> bool {
        unique_keys(self.entries@)
    }

    /// The entry at position `i`, for walking the table in order.
    pub closed spec fn entry(&self, i: int) -> (K, V) {
        self.entries@[i]
    }

    pub closed spec fn size(&self) -> nat {
        self.entries@.len()
    }

    pub fn new() -> (r: Self)
        ensures
            r@ == Map::<K::V, V::V>::empty(),
            r.size() == 0,
    {
        let r = KeyMap { entries: Vec::new() };
        assert(r@ =~= Map::<K::V, V::V>::empty());
        r
    }

    pub fn len(&self) -> (r: usize)
        ensures
            r == self.size(),
            r == self@.len(),
    {
        proof {
            use_type_invariant(self);
            self.lemma_view_len();
        }
        self.entries.len()
    }

    proof fn lemma_view_len(&self)
        requires
            unique_keys(self.entries@),
        ensures
            self@.dom().finite(),
            self@.len() == self.entries@.len(),
    {
        lemma_entries_map(self.entries@);
        let keys = self.entries@.map_values(|e: (K, V)| e.0@);
        assert forall|x: K::V| self@.dom().contains(x) <==> keys.to_set().contains(x) by {
            if self@.dom().contains(x) {
                let i = choose|i: int| 0 <= i < self.entries@.len() && #[trigger] self.entries@[i].0@ == x;
                assert(keys[i] == x);
                assert(keys.contains(x));
            }
            if keys.to_set().contains(x) {
                assert(keys.contains(x));
                let i = choose|i: int| 0 <= i < keys.len() && keys[i] == x;
                assert(self.entries@[i].0@ == x);
            }
        }
        assert(self@.dom() =~= keys.to_set());
        assert forall|i: int, j: int| 0 <= i < keys.len() && 0 <= j < keys.len() && i != j
            implies keys[i] != keys[j] by {
            assert(keys[i] == self.entries@[i].0@);
            assert(keys[j] == self.entries@[j].0@);
        }
        assert(keys.no_duplicates());
        keys.unique_seq_to_set();
    }

    /// Position of the entry whose key has the view of `k`.
    pub fn find(&self, k: &K) -> (r: Option<usize>)
        ensures
            match r {
                Some(i) => i < self.size() && self.entry(i as int).0@ == k@,
                None => !self@.contains_key(k@),
            },
    {
        proof {
            use_type_invariant(self);
            lemma_entries_map(self.entries@);
        }
        let mut i: usize = 0;
        while i < self.entries.len()
            invariant
                i <= self.entries@.len(),
                forall|j: int| 0 <= j < i ==> self.entries@[j].0@ != k@,
            decreases self.entries@.len() - i,
        {
            if self.entries[i].0.same_key(k) {
                return Some(i);
            }
            i = i + 1;
        }
        None
    }

    pub fn contains_key(&self, k: &K) -> (r: bool)
        ensures
            r == self@.contains_key(k@),
    {
        match self.find(k) {
            Some(i) => {
                proof {
                    use_type_invariant(self);
                    lemma_entry_in_map(self.entries@, i as int);
                }
                true
            },
            None => false,
        }
    }

    pub fn get(&self, k: &K) -> (r: Option<&V>)
        ensures
            match r {
                Some(v) => self@.contains_key(k@) && self@[k@] == v@,
                None => !self@.contains_key(k@),
            },
    {
        match self.find(k) {
            Some(i) => {
                proof {
                    use_type_invariant(self);
                    lemma_entry_in_map(self.entries@, i as int);
                }
                Some(&self.entries[i].1)
            },
            None => None,
        }
    }

    /// The key and value stored at position `i`.
    pub fn entry_at(&self, i: usize) -> (r: (&K, &V))
        requires
            i < self.size(),
        ensures
            *r.0 == self.entry(i as int).0,
            *r.1 == self.entry(i as int).1,
            self@.contains_key(r.0@),
            self@[r.0@] == r.1@,
    {
        proof {
            use_type_invariant(self);
            lemma_entry_in_map(self.entries@, i as int);
        }
        let e = &self.entries[i];
        (&e.0, &e.1)
    }

    /// Moves the entries out, leaving an empty table behind.
    fn take_entries(&mut self) -> (r: Vec<(K, V)>)
        ensures
            unique_keys(r@),
            map_of(r@) == old(self)@,
            r@ == old(self).entries@,
    {
        let mut taken = KeyMap::new();
        core::mem::swap(self, &mut taken);
        proof {
            use_type_invariant(&taken);
        }
        let KeyMap { entries } = taken;
        entries
    }

    pub fn insert(&mut self, k: K, v: V)
        ensures
            final(self)@ == old(self)@.insert(k@, v@),
    {
        let pos = self.find(&k);
        let mut entries = self.take_entries();
        let ghost old_entries = entries@;
        let ghost kv = k@;
        let ghost vv = v@;
        proof {
            lemma_entries_map(old_entries);
        }
        match pos {
            Some(i) => {
                entries.set(i, (k, v));
                proof {
                    assert(entries@[i as int].0@ == kv);
                    assert forall|a: int, b: int|
                        0 <= a < entries@.len() && 0 <= b < entries@.len() && a != b
                            implies #[trigger] entries@[a].0@ != #[trigger] entries@[b].0@ by {
                        assert(old_entries[a].0@ != old_entries[b].0@);
                    }
                    lemma_entries_map(entries@);
                    assert(map_of(entries@).contains_key(kv));
                }
            },
            None => {
                entries.push((k, v));
                proof {
                    assert(entries@[old_entries.len() as int].0@ == kv);
                    assert forall|a: int, b: int|
                        0 <= a < entries@.len() && 0 <= b < entries@.len() && a != b
                            implies #[trigger] entries@[a].0@ != #[trigger] entries@[b].0@ by {
                        if a < old_entries.len() && b < old_entries.len() {
                            assert(old_entries[a].0@ != old_entries[b].0@);
                        } else if a < old_entries.len() {
                            assert(map_of(old_entries).contains_key(old_entries[a].0@));
                        } else {
                            assert(map_of(old_entries).contains_key(old_entries[b].0@));
                        }
                    }
                    lemma_entries_map(entries@);
                    assert(map_of(entries@).contains_key(kv));
                }
            },
        }
        proof {
            let now = map_of(entries@);
            let target = map_of(old_entries).insert(kv, vv);
            assert forall|key: K::V| #[trigger] now.contains_key(key) <==> target.contains_key(key) by {
                if now.contains_key(key) && key != kv {
                    let j = choose|j: int| 0 <= j < entries@.len() && entries@[j].0@ == key;
                    assert(old_entries[j].0@ == key);
                }
                if target.contains_key(key) && key != kv {
                    let j = choose|j: int| 0 <= j < old_entries.len() && old_entries[j].0@ == key;
                    assert(entries@[j].0@ == key);
                }
            }
            assert forall|key: K::V| #[trigger] now.contains_key(key) implies now[key] == target[key] by {
                let j = choose|j: int| 0 <= j < entries@.len() && entries@[j].0@ == key;
                if key != kv {
                    assert(old_entries[j] == entries@[j]);
                    lemma_entry_in_map(old_entries, j);
                }
            }
            assert(now =~= target);
        }
        *self = KeyMap { entries };
    }

    pub fn remove(&mut self, k: &K) -> (r: Option<V>)
        ensures
            final(self)@ == old(self)@.remove(k@),
            match r {
                Some(v) => old(self)@.contains_key(k@) && old(self)@[k@] == v@,
                None => !old(self)@.contains_key(k@),
            },
    {
        let pos = self.find(k);
        match pos {
            Some(i) => {
                let mut entries = self.take_entries();
                let ghost old_entries = entries@;
                proof {
                    lemma_entries_map(old_entries);
                    lemma_entry_in_map(old_entries, i as int);
                }
                let (_, v) = entries.remove(i);
                proof {
                    assert forall|a: int, b: int|
                        0 <= a < entries@.len() && 0 <= b < entries@.len() && a != b
                            implies #[trigger] entries@[a].0@ != #[trigger] entries@[b].0@ by {
                        let oa = if a < i { a } else { a + 1 };
                        let ob = if b < i { b } else { b + 1 };
                        assert(entries@[a] == old_entries[oa]);
                        assert(entries@[b] == old_entries[ob]);
                    }
                    lemma_entries_map(entries@);
                    let now = map_of(entries@);
                    let target = map_of(old_entries).remove(k@);
                    assert forall|key: K::V| #[trigger] now.contains_key(key) <==> target.contains_key(key) by {
                        if now.contains_key(key) {
                            let j = choose|j: int| 0 <= j < entries@.len() && entries@[j].0@ == key;
                            let oj = if j < i { j } else { j + 1 };
                            assert(entries@[j] == old_entries[oj]);
                            assert(old_entries[oj].0@ != old_entries[i as int].0@);
                        }
                        if target.contains_key(key) {
                            let j = choose|j: int| 0 <= j < old_entries.len() && old_entries[j].0@ == key;
                            assert(j != i);
                            let nj = if j < i { j } else { j - 1 };
                            assert(entries@[nj] == old_entries[j]);
                        }
                    }
                    assert forall|key: K::V| #[trigger] now.contains_key(key) implies now[key] == target[key] by {
                        let j = choose|j: int| 0 <= j < entries@.len() && entries@[j].0@ == key;
                        let oj = if j < i { j } else { j + 1 };
                        assert(entries@[j] == old_entries[oj]);
                        lemma_entry_in_map(old_entries, oj);
                    }
                    assert(now =~= target);
                }
                *self = KeyMap { entries };
                Some(v)
            },
            None => {
                proof {
                    assert(old(self)@.remove(k@) =~= old(self)@);
                }
                None
            },
        }
    }
}

} // verus!
