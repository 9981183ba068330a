//! The record store: one record under each name, read and written through
//! accessors that each speak of one kind of record.

use vstd::prelude::*;
use crate::sums::{
    lemma_total_covers,
    lemma_total_push,
    lemma_total_remove,
    lemma_total_update,
    total,
};
use crate::types::{well_kinded, Address, DataKey, Proposal, Record, TokenConfig, Vote};

verus! {

struct Entry {
    key: DataKey,
    record: Record,
}

/// A store of governance records.
pub struct Store {
    entries: Vec<Entry>,
}

spec fn names(entries: Seq<Entry>, key: DataKey) -> bool {
    exists|i: int| 0 <= i < entries.len() && #[trigger] entries[i].key == key
}

spec fn place(entries: Seq<Entry>, key: DataKey) -> int {
    choose|i: int| 0 <= i < entries.len() && #[trigger] entries[i].key == key
}

/// The tokens that a record locks: its amount for a lock record, else none.
pub open spec fn locks(record: Record) -> int {
    match record {
        Record::Locked(amount) => amount as int,
        _ => 0,
    }
}

/// The tokens locked under one name: none where nothing is kept under it.
pub open spec fn locks_under(records: Map<DataKey, Record>, key: DataKey) -> int {
    if records.contains_key(key) {
        locks(records[key])
    } else {
        0
    }
}

spec fn entry_locks(entries: Seq<Entry>) -> Seq<int> {
    entries.map_values(|entry: Entry| locks(entry.record))
}

/// The record kept under `key` among `records`.
pub open spec fn record_in(records: Map<DataKey, Record>, key: DataKey) -> Option<Record> {
    if records.contains_key(key) {
        Some(records[key])
    } else {
        None
    }
}

/// The token settings among `records`.
pub open spec fn config_in(records: Map<DataKey, Record>) -> Option<TokenConfig> {
    if records.contains_key(DataKey::TokenConfig) {
        match records[DataKey::TokenConfig] {
            Record::Config(config) => Some(config),
            _ => None,
        }
    } else {
        None
    }
}

/// The proposal counter among `records`.
pub open spec fn count_in(records: Map<DataKey, Record>) -> Option<u64> {
    if records.contains_key(DataKey::ProposalCount) {
        match records[DataKey::ProposalCount] {
            Record::Count(count) => Some(count),
            _ => None,
        }
    } else {
        None
    }
}

/// The proposal kept under `id` among `records`.
pub open spec fn proposal_in(records: Map<DataKey, Record>, id: u64) -> Option<Proposal> {
    if records.contains_key(DataKey::Proposal(id)) {
        match records[DataKey::Proposal(id)] {
            Record::Proposal(proposal) => Some(proposal),
            _ => None,
        }
    } else {
        None
    }
}

/// The vote of `voter` on proposal `id` among `records`.
pub open spec fn vote_in(records: Map<DataKey, Record>, id: u64, voter: Address) -> Option<Vote> {
    if records.contains_key(DataKey::Vote(id, voter)) {
        match records[DataKey::Vote(id, voter)] {
            Record::Vote(vote) => Some(vote),
            _ => None,
        }
    } else {
        None
    }
}

/// The lock record of `voter` among `records`.
pub open spec fn lock_in(records: Map<DataKey, Record>, voter: Address) -> Option<u64> {
    if records.contains_key(DataKey::LockedTokens(voter)) {
        match records[DataKey::LockedTokens(voter)] {
            Record::Locked(amount) => Some(amount),
            _ => None,
        }
    } else {
        None
    }
}

impl View for Store {
    type V = Map<DataKey, Record>;

    closed spec fn view(&self) -> Map<DataKey, Record> {
        Map::new(
            |key: DataKey| names(self.entries@, key),
            |key: DataKey| self.entries[place(self.entries@, key)].record,
        )
    }
}

impl Store {
    /// No name is kept twice, and each holds a record of its own kind.
    pub closed spec fn wf(&self) -> bool {
        &&& forall|i: int, j: int|
            0 <= i < j < self.entries.len() ==> self.entries[i].key != self.entries[j].key
        &&& forall|i: int|
            0 <= i < self.entries.len() ==> well_kinded(
                #[trigger] self.entries[i].key,
                self.entries[i].record,
            )
    }

    /// The sum of all lock records.
    pub closed spec fn locked_total(&self) -> int {
        total(entry_locks(self.entries@))
    }

    /// Every record kept is of the kind that its name asks for.
    pub proof fn law_records_are_of_their_kind(&self)
        requires
            self.wf(),
        ensures
            forall|key: DataKey| #[trigger]
                self@.contains_key(key) ==> well_kinded(key, self@[key]),
    {
    }

    /// No lock record exceeds the sum of them all.
    pub proof fn lemma_within_locked_total(&self, key: DataKey)
        requires
            self.wf(),
        ensures
            0 <= locks_under(self@, key) <= self.locked_total(),
    {
        let amounts = entry_locks(self.entries@);
        assert forall|j: int| 0 <= j < amounts.len() implies amounts[j] >= 0 by {}
        crate::sums::lemma_total_nonnegative(amounts);
        if names(self.entries@, key) {
            lemma_total_covers(amounts, place(self.entries@, key));
        }
    }

    /// A store that holds nothing.
    pub fn new() -> (store: Store)
        ensures
            store.wf(),
            store@ == Map::<DataKey, Record>::empty(),
            store.locked_total() == 0,
    {
        let store = Store { entries: Vec::new() };
        assert(store@ =~= Map::<DataKey, Record>::empty());
        store
    }

    fn position(&self, key: &DataKey) -> (found: Option<usize>)
        requires
            self.wf(),
        ensures
            found matches Some(i) ==> i < self.entries.len() && self.entries[i as int].key == *key
                && self@.contains_key(*key) && self@[*key] == self.entries[i as int].record,
            found is None ==> !self@.contains_key(*key),
    {
        let mut i: usize = 0;
        while i < self.entries.len()
            invariant
                self.wf(),
                i <= self.entries.len(),
                forall|j: int| 0 <= j < i ==> self.entries[j].key != *key,
            decreases self.entries.len() - i,
        {
            if self.entries[i].key.same(key) {
                proof {
                    let k = place(self.entries@, *key);
                    assert(self.entries@[i as int].key == *key);
                    assert(self.entries@[k].key == *key);
                    assert(k == i);
                }
                return Some(i);
            }
            i += 1;
        }
        None
    }

    /// Whether a record is kept under `key`.
    pub fn has(&self, key: &DataKey) -> (found: bool)
        requires
            self.wf(),
        ensures
            found == self@.contains_key(*key),
    {
        self.position(key).is_some()
    }

    /// The record kept under `key`.
    pub fn get(&self, key: &DataKey) -> (found: Option<Record>)
        requires
            self.wf(),
        ensures
            found == record_in(self@, *key),
    {
        match self.position(key) {
            Some(i) => Some(self.entries[i].record.clone()),
            None => None,
        }
    }

    /// The token settings, once they are written.
    pub fn config(&self) -> (found: Option<TokenConfig>)
        requires
            self.wf(),
        ensures
            found == config_in(self@),
    {
        match self.get(&DataKey::TokenConfig) {
            Some(Record::Config(config)) => Some(config),
            _ => None,
        }
    }

    /// The proposal counter, once it is written.
    pub fn proposal_count(&self) -> (found: Option<u64>)
        requires
            self.wf(),
        ensures
            found == count_in(self@),
    {
        match self.get(&DataKey::ProposalCount) {
            Some(Record::Count(count)) => Some(count),
            _ => None,
        }
    }

    /// The proposal kept under `id`.
    pub fn proposal(&self, id: u64) -> (found: Option<Proposal>)
        requires
            self.wf(),
        ensures
            found == proposal_in(self@, id),
    {
        match self.get(&DataKey::Proposal(id)) {
            Some(Record::Proposal(proposal)) => Some(proposal),
            _ => None,
        }
    }

    /// The vote of `voter` on proposal `id`.
    pub fn vote(&self, id: u64, voter: &Address) -> (found: Option<Vote>)
        requires
            self.wf(),
        ensures
            found == vote_in(self@, id, *voter),
    {
        match self.get(&DataKey::Vote(id, *voter)) {
            Some(Record::Vote(vote)) => Some(vote),
            _ => None,
        }
    }

    /// The lock record of `voter`.
    pub fn locked(&self, voter: &Address) -> (found: Option<u64>)
        requires
            self.wf(),
        ensures
            found == lock_in(self@, *voter),
    {
        match self.get(&DataKey::LockedTokens(*voter)) {
            Some(Record::Locked(amount)) => Some(amount),
            _ => None,
        }
    }

    /// Keeps `record` under `key`, in place of what was there.
    pub fn set(&mut self, key: DataKey, record: Record)
        requires
            old(self).wf(),
            well_kinded(key, record),
        ensures
            final(self).wf(),
            final(self)@ == old(self)@.insert(key, record),
            final(self).locked_total() == old(self).locked_total() - locks_under(old(self)@, key)
                + locks(record),
    {
        let ghost before = self.entries@;
        match self.position(&key) {
            Some(i) => {
                self.entries.set(i, Entry { key, record });
                proof {
                    let after = self.entries@;
                    assert(entry_locks(after) =~= entry_locks(before).update(
                        i as int,
                        locks(record),
                    ));
                    lemma_total_update(entry_locks(before), i as int, locks(record));
                    assert forall|other: DataKey| names(after, other) == names(before, other) by {
                        if names(before, other) {
                            assert(after[place(before, other)].key == other);
                        }
                        if names(after, other) {
                            assert(before[place(after, other)].key == other);
                        }
                    }
                    assert forall|other: DataKey| other != key && names(before, other) implies place(
                        after,
                        other,
                    ) == place(before, other) by {
                        assert(after[place(before, other)].key == other);
                    }
                    assert(after[i as int].key == key);
                    assert(place(after, key) == i);
                    assert(self@ =~= old(self)@.insert(key, record));
                }
            },
            None => {
                self.entries.push(Entry { key, record });
                proof {
                    let after = self.entries@;
                    let last = before.len() as int;
                    assert(entry_locks(after) =~= entry_locks(before).push(locks(record)));
                    lemma_total_push(entry_locks(before), locks(record));
                    assert(after[last].key == key);
                    assert(place(after, key) == last);
                    assert forall|other: DataKey| other != key implies names(after, other)
                        == names(before, other) by {
                        if names(before, other) {
                            assert(after[place(before, other)].key == other);
                        }
                        if names(after, other) {
                            assert(before[place(after, other)].key == other);
                        }
                    }
                    assert forall|other: DataKey| other != key && names(before, other) implies place(
                        after,
                        other,
                    ) == place(before, other) by {
                        assert(after[place(before, other)].key == other);
                    }
                    assert(self@ =~= old(self)@.insert(key, record));
                }
            },
        }
    }

    /// Drops the record kept under `key`, if there is one.
    pub fn remove(&mut self, key: &DataKey)
        requires
            old(self).wf(),
        ensures
            final(self).wf(),
            final(self)@ == old(self)@.remove(*key),
            final(self).locked_total() == old(self).locked_total() - locks_under(old(self)@, *key),
    {
        let ghost before = self.entries@;
        match self.position(key) {
            Some(i) => {
                let _ = self.entries.remove(i);
                proof {
                    let after = self.entries@;
                    assert(entry_locks(after) =~= entry_locks(before).remove(i as int));
                    lemma_total_remove(entry_locks(before), i as int);
                    assert forall|other: DataKey| other != *key implies names(after, other)
                        == names(before, other) by {
                        if names(before, other) {
                            let k = place(before, other);
                            if k < i {
                                assert(after[k].key == other);
                            } else {
                                assert(after[k - 1].key == other);
                            }
                        }
                        if names(after, other) {
                            let k = place(after, other);
                            if k < i {
                                assert(before[k].key == other);
                            } else {
                                assert(before[k + 1].key == other);
                            }
                        }
                    }
                    assert(!names(after, *key)) by {
                        if names(after, *key) {
                            let k = place(after, *key);
                            if k < i {
                                assert(before[k].key == *key);
                            } else {
                                assert(before[k + 1].key == *key);
                            }
                        }
                    }
                    assert forall|other: DataKey| other != *key && names(before, other) implies after[place(
                        after,
                        other,
                    )].record == before[place(before, other)].record by {
                        let k = place(after, other);
                        if k < i {
                            assert(before[k].key == other);
                        } else {
                            assert(before[k + 1].key == other);
                        }
                    }
                    assert(self@ =~= old(self)@.remove(*key));
                }
            },
            None => {
                assert(self@ =~= old(self)@.remove(*key));
            },
        }
    }
}

} // verus!
