//! A keyed store: every key holds at most one value.
use vstd::prelude::*;

verus! {

/// A type whose values can index a [`StorageMap`]. Two keys are the same key
/// exactly when their views are equal.
pub trait StorageKey: View + Sized {
    /// Whether both keys are the same.
    fn same(&self, other: &Self) -> (same: bool)
        ensures
            same == (self@ == other@),
    ;
}

impl StorageKey for u16 {
    fn same(&self, other: &Self) -> (same: bool) {
        *self == *other
    }
}

impl StorageKey for u64 {
    fn same(&self, other: &Self) -> (same: bool) {
        *self == *other
    }
}

impl<const N: usize> StorageKey for [u8; N] {
    fn same(&self, other: &Self) -> (same: bool) {
        let mut i: usize = 0;
        while i < N
            invariant
                i <= N,
                forall|j: int| 0 <= j < i ==> self@[j] == other@[j],
            decreases N - i,
        {
            if self[i] != other[i] {
                return false;
            }
            i += 1;
        }
        assert(self@ =~= other@);
        true
    }
}

impl StorageKey for Vec<u8> {
    fn same(&self, other: &Self) -> (same: bool) {
        if self.len() != other.len() {
            return false;
        }
        let mut i: usize = 0;
        while i < self.len()
            invariant
                i <= self.len(),
                self.len() == other.len(),
                forall|j: int| 0 <= j < i ==> self@[j] == other@[j],
            decreases self.len() - i,
        {
            if self[i] != other[i] {
                return false;
            }
            i += 1;
        }
        assert(self@ =~= other@);
        true
    }
}

impl<A: StorageKey, B: StorageKey> StorageKey for (A, B) {
    fn same(&self, other: &Self) -> (same: bool) {
        self.0.same(&other.0) && self.1.same(&other.1)
    }
}

/// A finite map from keys to values. Its view is the mathematical map from the
/// keys' views to the values.
pub struct StorageMap<K: StorageKey, V: Copy> {
    entries: Vec<(K, V)>,
}

/// Whether `entries` holds the key `k` at position `i`.
spec fn holds<K: StorageKey, V: Copy>(entries: Seq<(K, V)>, k: K::V, i: int) -> bool {
    0 <= i < entries.len() && entries[i].0@ == k
}

/// Whether no two entries have the same key.
spec fn distinct_keys<K: StorageKey, V: Copy>(entries: Seq<(K, V)>) -> bool {
    forall|i: int, j: int|
        0 <= i < entries.len() && 0 <= j < entries.len() && (#[trigger] entries[i]).0@ == (
        #[trigger] entries[j]).0@ ==> i == j
}

/// The map that `entries` stands for.
spec fn entries_map<K: StorageKey, V: Copy>(entries: Seq<(K, V)>) -> Map<K::V, V> {
    Map::new(
        |k: K::V| exists|i: int| #[trigger] holds(entries, k, i),
        |k: K::V| entries[choose|i: int| #[trigger] holds(entries, k, i)].1,
    )
}

proof fn lemma_entry<K: StorageKey, V: Copy>(entries: Seq<(K, V)>, i: int)
    requires
        distinct_keys(entries),
        0 <= i < entries.len(),
    ensures
        entries_map(entries).dom().contains(entries[i].0@),
        entries_map(entries)[entries[i].0@] == entries[i].1,
{
    assert(holds(entries, entries[i].0@, i));
}

impl<K: StorageKey, V: Copy> View for StorageMap<K, V> {
    type V = Map<K::V, V>;

    closed spec fn view(&self) -> Map<K::V, V> {
        entries_map(self.entries@)
    }
}

impl<K: StorageKey, V: Copy> StorageMap<K, V> {
    #[verifier::type_invariant]
    spec fn keys_are_distinct(self) -> bool {
        distinct_keys(self.entries@)
    }

    /// The keys, in the order in which [`StorageMap::key_at`] numbers them.
    pub closed spec fn keys(self) -> Seq<K::V> {
        Seq::new(self.entries@.len(), |i: int| self.entries@[i].0@)
    }

    /// The numbered keys are the keys of the map.
    pub proof fn lemma_keys(self)
        ensures
            forall|k: K::V| self@.dom().contains(k) <==> #[trigger] self.keys().contains(k),
    {
        assert forall|k: K::V| self@.dom().contains(k) <==> #[trigger] self.keys().contains(k) by {
            if self@.dom().contains(k) {
                let i = choose|i: int| #[trigger] holds(self.entries@, k, i);
                assert(self.keys()[i] == k);
            }
            if self.keys().contains(k) {
                let i = choose|i: int| 0 <= i < self.keys().len() && self.keys()[i] == k;
                assert(holds(self.entries@, k, i));
            }
        }
    }

    /// A map without entries.
    pub fn new() -> (map: Self)
        ensures
            map@ == Map::<K::V, V>::empty(),
    {
        let map = StorageMap { entries: Vec::new() };
        assert(map@ =~= Map::<K::V, V>::empty());
        map
    }

    /// The position of `key` among the entries, or `None` where it has none.
    fn position(&self, key: &K) -> (position: Option<usize>)
        ensures
            position matches Some(i) ==> holds(self.entries@, key@, i as int),
            position is None ==> forall|i: int| !#[trigger] holds(self.entries@, key@, i),
    {
        let mut i: usize = 0;
        while i < self.entries.len()
            invariant
                i <= self.entries.len(),
                forall|j: int| 0 <= j < i ==> !#[trigger] holds(self.entries@, key@, j),
            decreases self.entries.len() - i,
        {
            if self.entries[i].0.same(key) {
                return Some(i);
            }
            i += 1;
        }
        None
    }

    /// The value under `key`, if there is one.
    pub fn get(&self, key: &K) -> (value: Option<V>)
        ensures
            value == (if self@.dom().contains(key@) {
                Some(self@[key@])
            } else {
                None
            }),
    {
        proof {
            use_type_invariant(self);
        }
        match self.position(key) {
            Some(i) => {
                proof {
                    lemma_entry(self.entries@, i as int);
                }
                Some(self.entries[i].1)
            },
            None => None,
        }
    }

    /// Whether there is a value under `key`.
    pub fn contains_key(&self, key: &K) -> (contains: bool)
        ensures
            contains == self@.dom().contains(key@),
    {
        self.get(key).is_some()
    }

    /// The number of keys.
    pub fn len(&self) -> (len: usize)
        ensures
            len == self.keys().len(),
    {
        self.entries.len()
    }

    /// The entry at position `i`.
    pub fn entry_at(&self, i: usize) -> (entry: &(K, V))
        requires
            i < self.keys().len(),
        ensures
            entry.0@ == self.keys()[i as int],
            self@.dom().contains(entry.0@),
            self@[entry.0@] == entry.1,
    {
        proof {
            use_type_invariant(self);
            lemma_entry(self.entries@, i as int);
        }
        &self.entries[i]
    }

    /// Puts `value` under `key`, in place of the value that was there.
    pub fn insert(&mut self, key: K, value: V)
        ensures
            final(self)@ == old(self)@.insert(key@, value),
    {
        self.remove(&key);
        let ghost before = self@;
        proof {
            use_type_invariant(&*self);
        }
        let mut entries: Vec<(K, V)> = Vec::new();
        std::mem::swap(&mut entries, &mut self.entries);
        let ghost shorter = entries@;
        entries.push((key, value));
        proof {
            assert(before == entries_map(shorter));
            assert forall|i: int| !#[trigger] holds(shorter, key@, i) by {
                if holds(shorter, key@, i) {
                    assert(before.dom().contains(key@));
                }
            }
            assert forall|i: int, j: int|
                0 <= i < entries@.len() && 0 <= j < entries@.len() && (#[trigger] entries@[i]).0@
                    == (#[trigger] entries@[j]).0@ implies i == j by {
                assert(!holds(shorter, key@, i));
                assert(!holds(shorter, key@, j));
            }
            assert forall|k: K::V|
                entries_map(entries@).dom().contains(k) <==> before.insert(
                    key@,
                    value,
                ).dom().contains(k) by {
                if k == key@ {
                    assert(holds(entries@, k, shorter.len() as int));
                } else {
                    if before.dom().contains(k) {
                        let i = choose|i: int| #[trigger] holds(shorter, k, i);
                        assert(holds(entries@, k, i));
                    }
                    if entries_map(entries@).dom().contains(k) {
                        let i = choose|i: int| #[trigger] holds(entries@, k, i);
                        assert(holds(shorter, k, i));
                    }
                }
            }
            assert forall|k: K::V| entries_map(entries@).dom().contains(k) implies entries_map(
                entries@,
            )[k] == before.insert(key@, value)[k] by {
                let i = choose|i: int| #[trigger] holds(entries@, k, i);
                lemma_entry(entries@, i);
                if i < shorter.len() {
                    lemma_entry(shorter, i);
                }
            }
            assert(entries_map(entries@) =~= before.insert(key@, value));
            assert(before.insert(key@, value) =~= old(self)@.insert(key@, value));
        }
        self.entries = entries;
    }

    /// Takes the value under `key` away, if there is one.
    pub fn remove(&mut self, key: &K)
        ensures
            final(self)@ == old(self)@.remove(key@),
    {
        proof {
            use_type_invariant(&*self);
        }
        let found = self.position(key);
        let ghost longer = self.entries@;
        match found {
            Some(i) => {
                let mut entries: Vec<(K, V)> = Vec::new();
                std::mem::swap(&mut entries, &mut self.entries);
                entries.remove(i);
                proof {
                    lemma_remove_entry(longer, key@, i as int);
                }
                self.entries = entries;
            },
            None => {
                assert(self@ =~= old(self)@.remove(key@));
            },
        }
    }
}

proof fn lemma_remove_entry<K: StorageKey, V: Copy>(entries: Seq<(K, V)>, key: K::V, at: int)
    requires
        distinct_keys(entries),
        holds(entries, key, at),
    ensures
        distinct_keys(entries.remove(at)),
        entries_map(entries.remove(at)) == entries_map(entries).remove(key),
{
    let shorter = entries.remove(at);
    assert forall|k: K::V|
        entries_map(shorter).dom().contains(k) <==> entries_map(entries).remove(key).dom().contains(
            k,
        ) by {
        if entries_map(shorter).dom().contains(k) {
            let i = choose|i: int| #[trigger] holds(shorter, k, i);
            let j = if i < at { i } else { i + 1 };
            assert(entries[j] == shorter[i]);
            assert(holds(entries, k, j));
            assert(entries[at].0@ == key);
        }
        if entries_map(entries).remove(key).dom().contains(k) {
            let j = choose|j: int| #[trigger] holds(entries, k, j);
            let i = if j < at { j } else { j - 1 };
            assert(shorter[i] == entries[j]);
            assert(holds(shorter, k, i));
        }
    }
    assert forall|k: K::V| entries_map(shorter).dom().contains(k) implies entries_map(shorter)[k]
        == entries_map(entries).remove(key)[k] by {
        let i = choose|i: int| #[trigger] holds(shorter, k, i);
        let j = if i < at { i } else { i + 1 };
        assert(entries[j] == shorter[i]);
        lemma_entry(shorter, i);
        lemma_entry(entries, j);
    }
    assert(entries_map(shorter) =~= entries_map(entries).remove(key));
}

} // verus!
