//! The ledger store: a mapping from phone-number identifier to trust
//! record, with point lookup, existence check, and overwriting insert.

use vstd::prelude::*;

use crate::record::{PhoneRecord, RecordView};
use vstd::pervasive::VecAdditionalExecFns;

verus! {

/// The persistent identifier-to-record mapping, modelled as a
/// `Map<Seq<u8>, RecordView>`. The host owns a value of this type and
/// passes it by reference into every state-machine operation.
pub struct Ledger {
    entries: Vec<(Vec<u8>, PhoneRecord)>,
}

/// The mapping held by a sequence of entries; a later entry for the same
/// key overrides an earlier one.
spec fn map_of(entries: Seq<(Vec<u8>, PhoneRecord)>) -> Map<Seq<u8>, RecordView>
    decreases entries.len(),
{
    if entries.len() == 0 {
        Map::empty()
    } else {
        map_of(entries.drop_last()).insert(entries.last().0@, entries.last().1@)
    }
}

impl View for Ledger {
    type V = Map<Seq<u8>, RecordView>;

    closed spec fn view(&self) -> Map<Seq<u8>, RecordView> {
        map_of(self.entries@)
    }
}

/// A key occurs in the mapping exactly when some entry holds it.
proof fn lemma_map_of_contains(entries: Seq<(Vec<u8>, PhoneRecord)>, key: Seq<u8>)
    ensures
        map_of(entries).contains_key(key) <==> exists|i: int|
            0 <= i < entries.len() && entries[i].0@ == key,
    decreases entries.len(),
{
    if entries.len() > 0 {
        lemma_map_of_contains(entries.drop_last(), key);
        if entries.last().0@ == key {
            assert(entries[entries.len() - 1].0@ == key);
        } else if map_of(entries).contains_key(key) {
            let i = choose|i: int| 0 <= i < entries.drop_last().len() && entries.drop_last()[i].0@ == key;
            assert(entries[i].0@ == key);
        } else {
            assert forall|i: int| 0 <= i < entries.len() implies entries[i].0@ != key by {
                if i < entries.len() - 1 {
                    assert(entries.drop_last()[i].0@ == entries[i].0@);
                }
            }
        }
    }
}

/// With keys unique, the entry at any index gives the mapping's value for
/// its key.
proof fn lemma_map_of_get(entries: Seq<(Vec<u8>, PhoneRecord)>, i: int)
    requires
        forall|p: int, q: int|
            0 <= p < q < entries.len() ==> entries[p].0@ != entries[q].0@,
        0 <= i < entries.len(),
    ensures
        map_of(entries).contains_key(entries[i].0@),
        map_of(entries)[entries[i].0@] == entries[i].1@,
    decreases entries.len(),
{
    if i == entries.len() - 1 {
    } else {
        assert(entries.drop_last()[i] == entries[i]);
        lemma_map_of_get(entries.drop_last(), i);
        assert(entries[i].0@ != entries.last().0@);
    }
}

/// Overwriting the entry at an index whose key equals the new entry's key
/// inserts that key-value pair into the mapping.
proof fn lemma_map_of_update(entries: Seq<(Vec<u8>, PhoneRecord)>, i: int, entry: (Vec<u8>, PhoneRecord))
    requires
        forall|p: int, q: int|
            0 <= p < q < entries.len() ==> entries[p].0@ != entries[q].0@,
        0 <= i < entries.len(),
        entries[i].0@ == entry.0@,
    ensures
        map_of(entries.update(i, entry)) == map_of(entries).insert(entry.0@, entry.1@),
    decreases entries.len(),
{
    let updated = entries.update(i, entry);
    if i == entries.len() - 1 {
        assert(updated.drop_last() =~= entries.drop_last());
        assert(map_of(updated) == map_of(entries.drop_last()).insert(entry.0@, entry.1@));
        assert(map_of(entries).insert(entry.0@, entry.1@) =~= map_of(
            entries.drop_last(),
        ).insert(entry.0@, entry.1@));
    } else {
        assert(updated.drop_last() =~= entries.drop_last().update(i, entry));
        assert(entries.drop_last()[i] == entries[i]);
        lemma_map_of_update(entries.drop_last(), i, entry);
        assert(updated.last() == entries.last());
        assert(entries[i].0@ != entries.last().0@);
        assert(map_of(updated) == map_of(entries.drop_last()).insert(entry.0@, entry.1@).insert(
            entries.last().0@,
            entries.last().1@,
        ));
        assert(map_of(entries.drop_last()).insert(entry.0@, entry.1@).insert(
            entries.last().0@,
            entries.last().1@,
        ) =~= map_of(entries).insert(entry.0@, entry.1@));
    }
}

/// Byte-for-byte equality of two identifiers.
fn bytes_eq(a: &Vec<u8>, b: &Vec<u8>) -> (r: bool)
    ensures
        r == (a@ == b@),
{
    if a.len() != b.len() {
        return false;
    }
    let mut i: usize = 0;
    while i < a.len()
        invariant
            i <= a.len(),
            a@.len() == b@.len(),
            forall|j: int| 0 <= j < i ==> a@[j] == b@[j],
        decreases a.len() - i,
    {
        if a[i] != b[i] {
            return false;
        }
        i += 1;
    }
    proof {
        assert(a@ =~= b@);
    }
    true
}

impl Ledger {
    /// No two entries hold the same identifier.
    pub closed spec fn wf(&self) -> bool {
        forall|p: int, q: int|
            0 <= p < q < self.entries@.len() ==> self.entries@[p].0@ != self.entries@[q].0@
    }

    /// An empty store.
    pub fn new() -> (r: Ledger)
        ensures
            r.wf(),
            r@ == Map::<Seq<u8>, RecordView>::empty(),
    {
        Ledger { entries: Vec::new() }
    }

    /// The index of the entry holding `id`, if any.
    fn find(&self, id: &Vec<u8>) -> (r: Option<usize>)
        ensures
            match r {
                Some(i) => i < self.entries@.len() && self.entries@[i as int].0@ == id@,
                None => forall|j: int| 0 <= j < self.entries@.len() ==> self.entries@[j].0@ != id@,
            },
    {
        let mut i: usize = 0;
        while i < self.entries.len()
            invariant
                i <= self.entries@.len(),
                forall|j: int| 0 <= j < i ==> self.entries@[j].0@ != id@,
            decreases self.entries@.len() - i,
        {
            if bytes_eq(&self.entries[i].0, id) {
                return Some(i);
            }
            i += 1;
        }
        None
    }

    /// Whether `id` has a record.
    pub fn contains(&self, id: &Vec<u8>) -> (r: bool)
        ensures
            r == self@.contains_key(id@),
    {
        let found = self.find(id);
        proof {
            lemma_map_of_contains(self.entries@, id@);
        }
        found.is_some()
    }

    /// Point lookup of the record for `id`.
    pub fn get(&self, id: &Vec<u8>) -> (r: Option<&PhoneRecord>)
        requires
            self.wf(),
        ensures
            match r {
                Some(record) => self@.contains_key(id@) && record@ == self@[id@],
                None => !self@.contains_key(id@),
            },
    {
        proof {
            lemma_map_of_contains(self.entries@, id@);
        }
        match self.find(id) {
            Some(i) => {
                proof {
                    lemma_map_of_get(self.entries@, i as int);
                }
                Some(&self.entries[i].1)
            },
            None => None,
        }
    }

    /// Unconditional overwrite of the record for `id`; uniqueness of
    /// registration is enforced by the caller, not at this layer.
    pub fn insert(&mut self, id: Vec<u8>, record: PhoneRecord)
        requires
            old(self).wf(),
        ensures
            final(self).wf(),
            final(self)@ == old(self)@.insert(id@, record@),
    {
        let ghost ghost_entries = self.entries@;
        match self.find(&id) {
            Some(i) => {
                proof {
                    lemma_map_of_update(ghost_entries, i as int, (id, record));
                }
                self.entries.set(i, (id, record));
                assert forall|p: int, q: int|
                    0 <= p < q < self.entries@.len() implies self.entries@[p].0@
                    != self.entries@[q].0@ by {
                    assert(ghost_entries[p].0@ != ghost_entries[q].0@);
                }
            },
            None => {
                self.entries.push((id, record));
                proof {
                    assert(self.entries@.drop_last() =~= ghost_entries);
                    assert forall|p: int, q: int|
                        0 <= p < q < self.entries@.len() implies self.entries@[p].0@
                        != self.entries@[q].0@ by {
                        if q < self.entries@.len() - 1 {
                            assert(ghost_entries[p].0@ != ghost_entries[q].0@);
                        } else {
                            assert(ghost_entries[p].0@ != id@);
                        }
                    }
                }
            },
        }
    }

    /// Upsert-by-mutation: at this layer, the same unconditional overwrite
    /// as [`Ledger::insert`].
    pub fn upsert(&mut self, id: Vec<u8>, record: PhoneRecord)
        requires
            old(self).wf(),
        ensures
            final(self).wf(),
            final(self)@ == old(self)@.insert(id@, record@),
    {
        self.insert(id, record);
    }
}

} // verus!
