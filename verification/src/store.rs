use vstd::prelude::*;
use crate::ident::same_id;
use crate::index::{entries_of, AppendIndex};
use crate::types::{Error, RecordId};

verus! {

/// The slot under which a store files an identifier: its first eight bytes,
/// read as one integer.
pub open spec fn slot_of(id: RecordId) -> u64 {
    (id[0] + 0x100 * id[1] + 0x1_0000 * id[2] + 0x100_0000 * id[3] + 0x1_0000_0000 * id[4]
        + 0x100_0000_0000 * id[5] + 0x1_0000_0000_0000 * id[6] + 0x100_0000_0000_0000
        * id[7]) as u64
}

fn slot(id: &RecordId) -> (at: u64)
    ensures
        at == slot_of(*id),
{
    id[0] as u64 + 0x100 * (id[1] as u64) + 0x1_0000 * (id[2] as u64) + 0x100_0000 * (id[3] as u64)
        + 0x1_0000_0000 * (id[4] as u64) + 0x100_0000_0000 * (id[5] as u64) + 0x1_0000_0000_0000
        * (id[6] as u64) + 0x100_0000_0000_0000 * (id[7] as u64)
}

/// A write-once store of records, keyed by identifier. Its view is the map
/// from each identifier to the record stored under it.
pub struct RecordStore<R> {
    ids: Vec<RecordId>,
    records: Vec<R>,
    slots: AppendIndex<u64, usize>,
}

impl<R> View for RecordStore<R> {
    type V = Map<RecordId, R>;

    closed spec fn view(&self) -> Map<RecordId, R> {
        Map::new(
            |id: RecordId| self.ids@.contains(id),
            |id: RecordId| self.records@[self.ids@.index_of(id)],
        )
    }
}

impl<R> RecordStore<R> {
    /// Every identifier has its record and is filed under its slot, and no
    /// identifier occurs twice.
    pub closed spec fn wf(&self) -> bool {
        &&& self.ids@.len() == self.records@.len()
        &&& self.ids@.no_duplicates()
        &&& self.slots.wf()
        &&& forall|i: int|
            0 <= i < self.ids@.len() ==> entries_of(
                self.slots@,
                slot_of(#[trigger] self.ids@[i]),
            ).contains(i as usize)
        &&& forall|at: u64, k: int|
            0 <= k < entries_of(self.slots@, at).len() ==> (#[trigger] entries_of(
                self.slots@,
                at,
            )[k]) < self.ids@.len()
    }

    proof fn lemma_slot(&self, i: int)
        requires
            self.wf(),
            0 <= i < self.ids@.len(),
        ensures
            self@.contains_key(self.ids@[i]),
            self@[self.ids@[i]] == self.records@[i],
    {
        let id = self.ids@[i];
        assert(self.ids@.contains(id));
        assert(self.ids@.index_of(id) == i);
    }

    /// A well-formed store holds finitely many records.
    pub proof fn lemma_finite(&self)
        requires
            self.wf(),
        ensures
            self@.dom().finite(),
    {
        assert(self@.dom() =~= self.ids@.to_set());
    }

    /// The empty store.
    pub fn new() -> (store: Self)
        ensures
            store.wf(),
            store@ == Map::<RecordId, R>::empty(),
    {
        let store = RecordStore {
            ids: Vec::new(),
            records: Vec::new(),
            slots: AppendIndex::<u64, usize>::new(),
        };
        assert(store@ =~= Map::<RecordId, R>::empty());
        store
    }

    /// The number of records in the store.
    pub fn len(&self) -> (n: usize)
        requires
            self.wf(),
        ensures
            self@.dom().finite(),
            n == self@.len(),
    {
        proof {
            assert(self@.dom() =~= self.ids@.to_set());
            self.ids@.unique_seq_to_set();
        }
        self.ids.len()
    }

    fn position(&self, id: &RecordId) -> (at: Option<usize>)
        requires
            self.wf(),
        ensures
            match at {
                Some(i) => i < self.ids@.len() && self.ids@[i as int] == *id,
                None => !self.ids@.contains(*id),
            },
    {
        let filed = self.slots.get(slot(id));
        let mut k: usize = 0;
        while k < filed.len()
            invariant
                self.wf(),
                filed@ == entries_of(self.slots@, slot_of(*id)),
                k <= filed@.len(),
                forall|j: int| 0 <= j < k ==> self.ids@[filed@[j] as int] != *id,
            decreases filed@.len() - k,
        {
            let i = filed[k];
            assert(filed@[k as int] < self.ids@.len());
            if same_id(&self.ids[i], id) {
                return Some(i);
            }
            k += 1;
        }
        proof {
            if self.ids@.contains(*id) {
                let i = self.ids@.index_of(*id);
                assert(self.ids@[i] == *id);
                assert(i < self.ids.len());
                assert(filed@.contains(i as usize));
                let j = filed@.index_of(i as usize);
                assert(filed@[j] == i as usize);
            }
        }
        None
    }

    /// Whether a record is stored under `id`.
    pub fn contains(&self, id: &RecordId) -> (found: bool)
        requires
            self.wf(),
        ensures
            found == self@.contains_key(*id),
    {
        self.position(id).is_some()
    }

    /// The record stored under `id`, if there is one.
    pub fn get(&self, id: &RecordId) -> (found: Option<&R>)
        requires
            self.wf(),
        ensures
            match found {
                Some(record) => self@.contains_key(*id) && *record == self@[*id],
                None => !self@.contains_key(*id),
            },
    {
        match self.position(id) {
            Some(i) => {
                proof {
                    self.lemma_slot(i as int);
                }
                Some(&self.records[i])
            },
            None => None,
        }
    }

    /// Stores `record` under `id`, unless the identifier is taken: a stored
    /// record is never replaced.
    pub fn insert(&mut self, id: RecordId, record: R) -> (res: Result<(), Error>)
        requires
            old(self).wf(),
        ensures
            final(self).wf(),
            res is Ok <==> !old(self)@.contains_key(id),
            res is Ok ==> final(self)@ == old(self)@.insert(id, record),
            res is Err ==> res == Err::<(), Error>(Error::DuplicateIdentifier) && *final(self)
                == *old(self),
    {
        if self.position(&id).is_some() {
            return Err(Error::DuplicateIdentifier);
        }
        let at = self.ids.len();
        self.ids.push(id);
        self.records.push(record);
        self.slots.append(slot(&id), at);
        proof {
            let before = *old(self);
            let after = *self;
            let n = before.ids@.len() as int;
            assert(after.ids@ == before.ids@.push(id));
            assert(after.records@ == before.records@.push(record));
            let filed = entries_of(before.slots@, slot_of(id));
            assert forall|p: u64| #[trigger]
                entries_of(after.slots@, p) == if p == slot_of(id) {
                    filed.push(at)
                } else {
                    entries_of(before.slots@, p)
                } by {}
            assert forall|i: int| 0 <= i < after.ids@.len() implies entries_of(
                after.slots@,
                slot_of(#[trigger] after.ids@[i]),
            ).contains(i as usize) by {
                if i == n {
                    assert(filed.push(at)[filed.len() as int] == at);
                } else {
                    let list = entries_of(before.slots@, slot_of(before.ids@[i]));
                    let j = list.index_of(i as usize);
                    assert(list[j] == i as usize);
                    assert(entries_of(after.slots@, slot_of(after.ids@[i]))[j] == i as usize);
                }
            }
            assert forall|p: u64, k: int|
                0 <= k < entries_of(after.slots@, p).len() implies (#[trigger] entries_of(
                after.slots@,
                p,
            )[k]) < after.ids@.len() by {
                if p == slot_of(id) && k == filed.len() {
                } else {
                    assert(entries_of(after.slots@, p)[k] == entries_of(before.slots@, p)[k]);
                }
            }
            assert(after.wf());
            assert forall|k: RecordId| after@.contains_key(k) <==> before@.insert(
                id,
                record,
            ).contains_key(k) by {
                if before.ids@.contains(k) {
                    let i = before.ids@.index_of(k);
                    assert(after.ids@[i] == k);
                }
                if k == id {
                    assert(after.ids@[n] == k);
                }
            }
            assert forall|k: RecordId| after@.contains_key(k) implies after@[k] == before@.insert(
                id,
                record,
            )[k] by {
                if k == id {
                    after.lemma_slot(n);
                } else {
                    let i = before.ids@.index_of(k);
                    before.lemma_slot(i);
                    after.lemma_slot(i);
                }
            }
            assert(after@ =~= before@.insert(id, record));
        }
        Ok(())
    }
}

} // verus!
