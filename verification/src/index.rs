use vstd::prelude::*;
use std::collections::HashMap;
use std::hash::Hash;
use vstd::std_specs::hash::obeys_key_model;

verus! {

/// What an index holds under `key`: the sequence stored there, and the empty
/// sequence where nothing was appended yet.
pub open spec fn entries_of<K, V>(index: Map<K, Seq<V>>, key: K) -> Seq<V> {
    if index.contains_key(key) {
        index[key]
    } else {
        Seq::empty()
    }
}

/// An index after `value` was appended under `key`.
pub open spec fn appended<K, V>(index: Map<K, Seq<V>>, key: K, value: V) -> Map<K, Seq<V>> {
    index.insert(key, entries_of(index, key).push(value))
}

/// An append-only index from a key to the sequence of the values appended
/// under it, in the order of their arrival and with repetitions.
pub struct AppendIndex<K, V> {
    lists: HashMap<K, Vec<V>>,
}

impl<K, V> View for AppendIndex<K, V> {
    type V = Map<K, Seq<V>>;

    closed spec fn view(&self) -> Map<K, Seq<V>> {
        Map::new(|k: K| self.lists@.contains_key(k), |k: K| self.lists@[k]@)
    }
}

impl<V: Copy> AppendIndex<u64, V> {
    /// The empty index with keys of 64 bits, as the students are.
    pub fn new() -> (index: Self)
        ensures
            index.wf(),
            index@ == Map::<u64, Seq<V>>::empty(),
    {
        let index = AppendIndex { lists: HashMap::new() };
        assert(index@ =~= Map::<u64, Seq<V>>::empty());
        index
    }
}

impl<V: Copy> AppendIndex<u16, V> {
    /// The empty index with keys of 16 bits, as the terms are.
    pub fn new() -> (index: Self)
        ensures
            index.wf(),
            index@ == Map::<u16, Seq<V>>::empty(),
    {
        let index = AppendIndex { lists: HashMap::new() };
        assert(index@ =~= Map::<u16, Seq<V>>::empty());
        index
    }
}

impl<K: Copy + Eq + Hash, V: Copy> AppendIndex<K, V> {
    /// The keys are found again under the value they were stored with.
    pub closed spec fn wf(&self) -> bool {
        obeys_key_model::<K>()
    }

    /// The values appended under `key` so far, oldest first; none where
    /// nothing was appended.
    pub fn get(&self, key: K) -> (values: Vec<V>)
        requires
            self.wf(),
        ensures
            values@ == entries_of(self@, key),
    {
        let mut values: Vec<V> = Vec::new();
        match self.lists.get(&key) {
            Some(list) => {
                let mut i: usize = 0;
                while i < list.len()
                    invariant
                        i <= list@.len(),
                        values@ == list@.take(i as int),
                    decreases list@.len() - i,
                {
                    values.push(list[i]);
                    i += 1;
                    assert(list@.take(i as int) == list@.take(i - 1).push(list@[i - 1]));
                }
                assert(list@.take(i as int) == list@);
            },
            None => {},
        }
        values
    }

    /// Appends `value` to the sequence under `key`.
    pub fn append(&mut self, key: K, value: V)
        requires
            old(self).wf(),
        ensures
            final(self).wf(),
            final(self)@ == appended(old(self)@, key, value),
    {
        let mut list = match self.lists.remove(&key) {
            Some(list) => list,
            None => Vec::new(),
        };
        list.push(value);
        self.lists.insert(key, list);
        assert(self@ =~= appended(old(self)@, key, value));
    }
}

} // verus!
