//! The databases loaded for the media slots of the players: which slots
//! get one, which formats are loaded under a preference, and the registry
//! of what was loaded. The caller downloads and opens the files; `T` is
//! whatever it keeps of an opened database.

use vstd::prelude::*;
use crate::constants::{MAX_CDJ_DEVICE_ID, MIN_CDJ_DEVICE_ID};
use crate::error::Error;
use crate::localdb::database_adapter::{DatabasePreference, DatabaseType};
use crate::text::{owned, str_eq};
use crate::types::{Device, DeviceType, MediaSlot};

verus! {

/// Local databases are read off the media of CDJs numbered 1 to 6 only;
/// other devices may crash when asked.
pub fn is_local_database_device(device: &Device) -> (r: bool)
    ensures
        r == (device.device_type == DeviceType::Cdj && MIN_CDJ_DEVICE_ID <= device.id <= MAX_CDJ_DEVICE_ID),
{
    device.device_type == DeviceType::Cdj && MIN_CDJ_DEVICE_ID <= device.id && device.id <= MAX_CDJ_DEVICE_ID
}

/// The database formats tried for a slot, in order: the first, and the one
/// used where the first is not on the medium.
#[derive(Debug, Clone, Copy, PartialEq, Eq, Structural)]
pub struct LoadPlan {
    pub first: DatabaseType,
    pub fallback: Option<DatabaseType>,
}

/// The plan under a preference: a forced format alone, or under 'auto'
/// OneLibrary and then the pdb.
pub open spec fn plan_for(p: DatabasePreference) -> LoadPlan {
    match p {
        DatabasePreference::Pdb => LoadPlan { first: DatabaseType::Pdb, fallback: None },
        DatabasePreference::OneLibrary => LoadPlan { first: DatabaseType::OneLibrary, fallback: None },
        DatabasePreference::Auto => LoadPlan { first: DatabaseType::OneLibrary, fallback: Some(DatabaseType::Pdb) },
    }
}

pub fn load_plan(p: DatabasePreference) -> (r: LoadPlan)
    ensures
        r == plan_for(p),
{
    match p {
        DatabasePreference::Pdb => LoadPlan { first: DatabaseType::Pdb, fallback: None },
        DatabasePreference::OneLibrary => LoadPlan { first: DatabaseType::OneLibrary, fallback: None },
        DatabasePreference::Auto => LoadPlan { first: DatabaseType::OneLibrary, fallback: Some(DatabaseType::Pdb) },
    }
}

/// The message when a forced OneLibrary database is not on the medium.
pub open spec fn one_library_missing_text() -> Seq<char> {
    "OneLibrary database not found and preference is set to oneLibrary only"@
}

/// The error when a forced OneLibrary database is not on the medium.
pub fn one_library_missing() -> (r: Error)
    ensures
        r matches Error::Database(m) && m@ == one_library_missing_text(),
{
    let m = "OneLibrary database not found and preference is set to oneLibrary only";
    proof {
        reveal_strlit("OneLibrary database not found and preference is set to oneLibrary only");
    }
    Error::Database(owned(m))
}

/// The format loaded to check a lookup against: the other one, and only
/// under the 'auto' preference (a forced format has no alternate).
pub open spec fn alternate_of(p: DatabasePreference, active: DatabaseType) -> Option<DatabaseType> {
    if p == DatabasePreference::Auto {
        Some(
            match active {
                DatabaseType::OneLibrary => DatabaseType::Pdb,
                DatabaseType::Pdb => DatabaseType::OneLibrary,
            },
        )
    } else {
        None
    }
}

pub fn alternate_format(p: DatabasePreference, active: DatabaseType) -> (r: Option<DatabaseType>)
    ensures
        r == alternate_of(p, active),
{
    match p {
        DatabasePreference::Auto => Some(
            match active {
                DatabaseType::OneLibrary => DatabaseType::Pdb,
                DatabaseType::Pdb => DatabaseType::OneLibrary,
            },
        ),
        _ => None,
    }
}

/// The other format on a slot's medium.
pub enum Alternate<T> {
    /// Not tried yet.
    Untried,
    /// Tried: the medium has none, or it did not load; not tried again.
    Missing,
    Loaded(T),
}

/// The databases of one media slot.
pub struct SlotEntry<T> {
    /// The identifier of the medium.
    pub media_id: String,
    pub device_id: u8,
    pub slot: MediaSlot,
    /// The database lookups are answered from.
    pub active: T,
    pub alternate: Alternate<T>,
}

/// The loaded databases, in the order they were loaded.
pub struct SlotDatabases<T> {
    entries: Vec<SlotEntry<T>>,
}

impl<T> View for SlotDatabases<T> {
    type V = Seq<SlotEntry<T>>;

    closed spec fn view(&self) -> Seq<SlotEntry<T>> {
        self.entries@
    }
}

/// The entry after switching to its alternate: the alternate answers, and
/// the database that answered before is kept as the alternate.
pub open spec fn switched<T>(e: SlotEntry<T>) -> SlotEntry<T> {
    match e.alternate {
        Alternate::Loaded(a) => SlotEntry {
            media_id: e.media_id,
            device_id: e.device_id,
            slot: e.slot,
            active: a,
            alternate: Alternate::Loaded(e.active),
        },
        _ => e,
    }
}

impl<T> SlotDatabases<T> {
    pub fn new() -> (r: SlotDatabases<T>)
        ensures
            r@ == Seq::<SlotEntry<T>>::empty(),
    {
        SlotDatabases { entries: Vec::new() }
    }

    pub fn len(&self) -> (r: usize)
        ensures
            r == self@.len(),
    {
        self.entries.len()
    }

    /// The entry at `i`.
    pub fn entry(&self, i: usize) -> (r: &SlotEntry<T>)
        requires
            i < self@.len(),
        ensures
            *r == self@[i as int],
    {
        &self.entries[i]
    }

    /// Records a loaded medium.
    pub fn add(&mut self, e: SlotEntry<T>)
        ensures
            final(self)@ == old(self)@.push(e),
    {
        self.entries.push(e);
    }

    /// The first entry for the medium `media_id`, if any: a medium seen
    /// before is not loaded again.
    pub fn find_media(&self, media_id: &str) -> (r: Option<usize>)
        ensures
            match r {
                Some(i) => i < self@.len() && self@[i as int].media_id@ == media_id@ && forall|j: int|
                    0 <= j < i ==> (#[trigger] self@[j]).media_id@ != media_id@,
                None => forall|j: int| 0 <= j < self@.len() ==> (#[trigger] self@[j]).media_id@ != media_id@,
            },
    {
        let mut i: usize = 0;
        while i < self.entries.len()
            invariant
                i <= self@.len(),
                forall|j: int| 0 <= j < i ==> (#[trigger] self@[j]).media_id@ != media_id@,
            decreases self@.len() - i,
        {
            if str_eq(self.entries[i].media_id.as_str(), media_id) {
                return Some(i);
            }
            i = i + 1;
        }
        None
    }

    /// The first entry loaded for a device's slot, if any.
    pub fn find_slot(&self, device_id: u8, slot: MediaSlot) -> (r: Option<usize>)
        ensures
            match r {
                Some(i) => i < self@.len() && self@[i as int].device_id == device_id && self@[i as int].slot == slot
                    && forall|j: int|
                    0 <= j < i ==> !((#[trigger] self@[j]).device_id == device_id && self@[j].slot == slot),
                None => forall|j: int|
                    0 <= j < self@.len() ==> !((#[trigger] self@[j]).device_id == device_id && self@[j].slot == slot),
            },
    {
        let mut i: usize = 0;
        while i < self.entries.len()
            invariant
                i <= self@.len(),
                forall|j: int| 0 <= j < i ==> !((#[trigger] self@[j]).device_id == device_id && self@[j].slot == slot),
            decreases self@.len() - i,
        {
            let e = &self.entries[i];
            if e.device_id == device_id && e.slot == slot {
                return Some(i);
            }
            i = i + 1;
        }
        None
    }

    /// Removes the entries of a device that left the network, handing them
    /// back to be closed; the others keep their order.
    pub fn remove_device(&mut self, device_id: u8) -> (r: Vec<SlotEntry<T>>)
        ensures
            final(self)@ == old(self)@.filter(|e: SlotEntry<T>| e.device_id != device_id),
            r@ == old(self)@.filter(|e: SlotEntry<T>| e.device_id == device_id),
    {
        let ghost all = self.entries@;
        let mut rest: Vec<SlotEntry<T>> = Vec::new();
        while self.entries.len() > 0
            invariant
                self.entries@ + rest@.reverse() == all,
            decreases self.entries@.len(),
        {
            let e = self.entries.pop().unwrap();
            proof {
                assert(rest@.push(e).reverse() =~= seq![e] + rest@.reverse());
            }
            rest.push(e);
            assert(self.entries@ + rest@.reverse() =~= all);
        }
        assert(rest@.reverse() =~= all);
        let mut kept: Vec<SlotEntry<T>> = Vec::new();
        let mut gone: Vec<SlotEntry<T>> = Vec::new();
        let ghost mut i: int = 0;
        while rest.len() > 0
            invariant
                rest@.reverse() == all.skip(i),
                0 <= i,
                i + rest@.len() == all.len(),
                kept@ == all.take(i).filter(|e: SlotEntry<T>| e.device_id != device_id),
                gone@ == all.take(i).filter(|e: SlotEntry<T>| e.device_id == device_id),
            decreases rest@.len(),
        {
            let e = rest.pop().unwrap();
            proof {
                let old_rest = rest@.push(e);
                assert(old_rest.reverse()[0] == e);
                assert(all.skip(i)[0] == e);
                assert(all[i] == e);
                assert(all.take(i + 1) =~= all.take(i).push(e));
                all.take(i).lemma_filter_push(e, |x: SlotEntry<T>| x.device_id != device_id);
                all.take(i).lemma_filter_push(e, |x: SlotEntry<T>| x.device_id == device_id);
                assert(rest@.reverse() =~= all.skip(i + 1)) by {
                    assert(all.skip(i).drop_first() =~= all.skip(i + 1));
                }
                i = i + 1;
            }
            if e.device_id != device_id {
                kept.push(e);
            } else {
                gone.push(e);
            }
        }
        assert(all.take(all.len() as int) =~= all);
        self.entries = kept;
        gone
    }

    /// Records the outcome of trying the alternate of entry `i`.
    pub fn set_alternate(&mut self, i: usize, alternate: Alternate<T>)
        requires
            i < old(self)@.len(),
        ensures
            final(self)@ == old(self)@.update(i as int, SlotEntry { alternate, ..old(self)@[i as int] }),
    {
        let e = self.entries.remove(i);
        let SlotEntry { media_id, device_id, slot, active, alternate: _ } = e;
        self.entries.insert(i, SlotEntry { media_id, device_id, slot, active, alternate });
        assert(self.entries@ =~= old(self)@.update(i as int, SlotEntry { alternate, ..old(self)@[i as int] }));
    }

    /// Entry `i` answers from its alternate from now on, keeping the
    /// database it answered from before as its alternate. An entry with no
    /// loaded alternate stays as it is.
    pub fn switch_to_alternate(&mut self, i: usize)
        requires
            i < old(self)@.len(),
        ensures
            final(self)@ == old(self)@.update(i as int, switched(old(self)@[i as int])),
    {
        let e = self.entries.remove(i);
        let SlotEntry { media_id, device_id, slot, active, alternate } = e;
        let next = match alternate {
            Alternate::Loaded(a) => SlotEntry {
                media_id,
                device_id,
                slot,
                active: a,
                alternate: Alternate::Loaded(active),
            },
            Alternate::Untried => SlotEntry { media_id, device_id, slot, active, alternate: Alternate::Untried },
            Alternate::Missing => SlotEntry { media_id, device_id, slot, active, alternate: Alternate::Missing },
        };
        self.entries.insert(i, next);
        assert(self.entries@ =~= old(self)@.update(i as int, switched(old(self)@[i as int])));
    }
}

/// Switching twice gives back the databases as they were: the slot answers
/// from the database it answered from before, with the other kept beside it.
pub proof fn law_switching_back_restores<T>(e: SlotEntry<T>)
    ensures
        switched(switched(e)) == e,
{
}

} // verus!
