//! A table keyed by device.

use std::collections::HashMap;
use vstd::prelude::*;
use vstd::std_specs::iter::IteratorSpec;

use crate::types::DeviceId;

verus! {

broadcast use vstd::std_specs::hash::group_hash_axioms;

/// One entry per device.
pub struct DeviceTable<T> {
    entries: HashMap<u128, T>,
}

impl<T> View for DeviceTable<T> {
    type V = Map<u128, T>;

    /// The entries, by the bits of their device's identifier.
    closed spec fn view(&self) -> Map<u128, T> {
        self.entries@
    }
}

/// Whether identifiers stand in ascending order, none of them twice.
pub open spec fn strictly_ascending(ids: Seq<DeviceId>) -> bool {
    forall|i: int, j: int| 0 <= i < j < ids.len() ==> ids[i].0 < ids[j].0
}

impl<T> DeviceTable<T> {
    pub fn new() -> (table: Self)
        ensures
            table@ == Map::<u128, T>::empty(),
    {
        DeviceTable { entries: HashMap::new() }
    }

    /// Puts an entry in, and hands back the one that it replaces.
    pub fn insert(&mut self, id: DeviceId, entry: T) -> (replaced: Option<T>)
        ensures
            final(self)@ == old(self)@.insert(id.0, entry),
            match replaced {
                Some(previous) => old(self)@.contains_key(id.0) && previous == old(self)@[id.0],
                None => !old(self)@.contains_key(id.0),
            },
    {
        self.entries.insert(id.0, entry)
    }

    /// The entry of a device.
    pub fn get(&self, id: DeviceId) -> (entry: Option<&T>)
        ensures
            match entry {
                Some(found) => self@.contains_key(id.0) && *found == self@[id.0],
                None => !self@.contains_key(id.0),
            },
    {
        self.entries.get(&id.0)
    }

    /// Takes the entry of a device out.
    pub fn remove(&mut self, id: DeviceId) -> (entry: Option<T>)
        ensures
            final(self)@ == old(self)@.remove(id.0),
            match entry {
                Some(found) => old(self)@.contains_key(id.0) && found == old(self)@[id.0],
                None => !old(self)@.contains_key(id.0),
            },
    {
        let entry = self.entries.remove(&id.0);
        assert(entry is None ==> old(self)@.remove(id.0) =~= old(self)@);
        entry
    }

    /// Whether a device has an entry.
    pub fn contains(&self, id: DeviceId) -> (contained: bool)
        ensures
            contained == self@.contains_key(id.0),
    {
        self.entries.contains_key(&id.0)
    }

    /// How many devices have an entry.
    pub fn len(&self) -> (count: usize)
        ensures
            count == self@.dom().len(),
    {
        self.entries.len()
    }

    /// Whether no device has an entry.
    pub fn is_empty(&self) -> (empty: bool)
        ensures
            empty == (self@.dom().len() == 0),
    {
        self.entries.len() == 0
    }

    /// The devices that have an entry, in ascending order.
    pub fn ids(&self) -> (ids: Vec<DeviceId>)
        ensures
            strictly_ascending(ids@),
            ids@.len() == self@.dom().len(),
            forall|id: DeviceId| #[trigger] ids@.contains(id) <==> self@.contains_key(id.0),
    {
        let mut ids: Vec<DeviceId> = Vec::new();
        let ghost order = vstd::std_specs::hash::spec_keys_iter(&self.entries).remaining();
        for key in it: self.entries.keys()
            invariant
                strictly_ascending(ids@),
                ids@.len() == it.index(),
                it.seq() == order,
                it.seq().no_duplicates(),
                forall|id: DeviceId| #[trigger]
                    ids@.contains(id) <==> exists|i: int|
                        0 <= i < it.index() && *(#[trigger] it.seq()[i]) == id.0,
        {
            let id = DeviceId(*key);
            let ghost before = ids@;
            let mut at: usize = 0;
            while at < ids.len() && ids[at].0 < id.0
                invariant
                    at <= ids@.len(),
                    ids@ == before,
                    forall|i: int| 0 <= i < at ==> ids@[i].0 < id.0,
                decreases ids@.len() - at,
            {
                at += 1;
            }
            proof {
                assert(!before.contains(id)) by {
                    if before.contains(id) {
                        let i = choose|i: int|
                            0 <= i < it.index() && *(#[trigger] it.seq()[i]) == id.0;
                        assert(it.seq()[i] == it.seq()[it.index()]);
                    }
                }
                if at < before.len() {
                    assert(before.contains(before[at as int]));
                    assert(before[at as int] != id);
                }
            }
            ids.insert(at, id);
            proof {
                assert(ids@ =~= before.insert(at as int, id));
                assert forall|other: DeviceId| #[trigger]
                    ids@.contains(other) <==> exists|i: int|
                        0 <= i < it.index() + 1 && *(#[trigger] it.seq()[i]) == other.0 by {
                    lemma_insert_contains(before, at as int, id, other);
                    if other == id {
                        assert(*it.seq()[it.index() as int] == other.0);
                    } else if before.contains(other) {
                        let i = choose|i: int|
                            0 <= i < it.index() && *(#[trigger] it.seq()[i]) == other.0;
                        assert(0 <= i < it.index() + 1 && *it.seq()[i] == other.0);
                    } else if exists|i: int|
                        0 <= i < it.index() + 1 && *(#[trigger] it.seq()[i]) == other.0 {
                        let i = choose|i: int|
                            0 <= i < it.index() + 1 && *(#[trigger] it.seq()[i]) == other.0;
                        assert(i < it.index());
                    }
                }
            }
        }
        proof {
            assert(order.unref().to_set() == self@.dom());
            assert forall|id: DeviceId| #[trigger] ids@.contains(id) <==> self@.contains_key(
                id.0,
            ) by {
                if ids@.contains(id) {
                    let i = choose|i: int| 0 <= i < order.len() && *(#[trigger] order[i]) == id.0;
                    assert(order.unref()[i] == id.0);
                    assert(order.unref().contains(id.0));
                    assert(order.unref().to_set().contains(id.0));
                }
                if self@.contains_key(id.0) {
                    assert(order.unref().to_set().contains(id.0));
                    let i = choose|i: int| 0 <= i < order.unref().len() && order.unref()[i] == id.0;
                    assert(*order[i] == id.0);
                }
            }
        }
        ids
    }
}

proof fn lemma_insert_contains(s: Seq<DeviceId>, at: int, id: DeviceId, other: DeviceId)
    requires
        0 <= at <= s.len(),
    ensures
        s.insert(at, id).contains(other) <==> other == id || s.contains(other),
{
    let t = s.insert(at, id);
    assert(t[at] == id);
    if s.contains(other) {
        let i = choose|i: int| 0 <= i < s.len() && s[i] == other;
        if i < at {
            assert(t[i] == other);
        } else {
            assert(t[i + 1] == other);
        }
    }
    if t.contains(other) {
        let i = choose|i: int| 0 <= i < t.len() && t[i] == other;
        if i < at {
            assert(s[i] == other);
        } else if i > at {
            assert(s[i - 1] == other);
        }
    }
}

} // verus!
