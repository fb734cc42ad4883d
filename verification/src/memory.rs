//! A store that keeps the collection in memory.

use crate::ident::{decode_id, is_id_text, TodoId};
use crate::item::{records_of, saved, Fields, Record, TodoItem, TodoItemInput};
use crate::store::{
    after_delete, after_insert, after_update, calls_keep_well_formed, completes, holds, index_of,
    well_formed, CallModel, ReplyModel, StoreCall, StoreError, StoreReply,
};
use vstd::prelude::*;

verus! {

/// The identifier of the item with serial number `n`: four zero bytes, then
/// `n` in eight bytes, the highest first.
pub open spec fn serial_bytes(n: u64) -> Seq<u8> {
    seq![
        0u8,
        0u8,
        0u8,
        0u8,
        (n / 0x100_0000_0000_0000) as u8,
        (n / 0x1_0000_0000_0000 % 256) as u8,
        (n / 0x100_0000_0000 % 256) as u8,
        (n / 0x1_0000_0000 % 256) as u8,
        (n / 0x100_0000 % 256) as u8,
        (n / 0x1_0000 % 256) as u8,
        (n / 0x100 % 256) as u8,
        (n % 256) as u8,
    ]
}

/// The number that the last eight bytes of an identifier spell, the highest
/// byte first.
pub open spec fn serial_of(bytes: Seq<u8>) -> int {
    bytes[4] * 0x100_0000_0000_0000 + bytes[5] * 0x1_0000_0000_0000 + bytes[6] * 0x100_0000_0000
        + bytes[7] * 0x1_0000_0000 + bytes[8] * 0x100_0000 + bytes[9] * 0x1_0000 + bytes[10] * 0x100
        + bytes[11]
}

/// A serial number can be read back from its identifier, so two serial numbers
/// never share one.
pub proof fn serial_reads_back(n: u64)
    ensures
        serial_bytes(n).len() == 12,
        serial_of(serial_bytes(n)) == n,
{
    assert(n / 0x100_0000_0000_0000 < 256) by (bit_vector);
    assert((n / 0x100_0000_0000_0000) * 0x100_0000_0000_0000 + (n / 0x1_0000_0000_0000 % 256)
        * 0x1_0000_0000_0000 + (n / 0x100_0000_0000 % 256) * 0x100_0000_0000 + (n / 0x1_0000_0000
        % 256) * 0x1_0000_0000 + (n / 0x100_0000 % 256) * 0x100_0000 + (n / 0x1_0000 % 256)
        * 0x1_0000 + (n / 0x100 % 256) * 0x100 + n % 256 == n) by (bit_vector);
}

fn serial_id(n: u64) -> (id: TodoId)
    ensures
        id@ == serial_bytes(n),
{
    let bytes: [u8; 12] = [
        0,
        0,
        0,
        0,
        (n / 0x100_0000_0000_0000) as u8,
        (n / 0x1_0000_0000_0000 % 256) as u8,
        (n / 0x100_0000_0000 % 256) as u8,
        (n / 0x1_0000_0000 % 256) as u8,
        (n / 0x100_0000 % 256) as u8,
        (n / 0x1_0000 % 256) as u8,
        (n / 0x100 % 256) as u8,
        (n % 256) as u8,
    ];
    assert(bytes@ =~= serial_bytes(n));
    TodoId::from_bytes(bytes)
}

/// A collection of todo items held in memory. It names its items by serial
/// number and keeps them in the order in which they were stored.
pub struct MemoryStore {
    records: Vec<TodoItem>,
    next: u64,
}

impl View for MemoryStore {
    type V = Seq<Record>;

    closed spec fn view(&self) -> Seq<Record> {
        records_of(self.records@)
    }
}

impl MemoryStore {
    /// The collection is well formed, and every item in it was named by a
    /// serial number that has been passed.
    #[verifier::type_invariant]
    spec fn inv(self) -> bool {
        &&& well_formed(records_of(self.records@))
        &&& forall|i: int|
            0 <= i < self.records@.len() ==> serial_of(
                (#[trigger] records_of(self.records@)[i]).id->0,
            ) < self.next
    }

    /// How many items the store has named so far: the serial number of the
    /// next one.
    pub closed spec fn issued(&self) -> u64 {
        self.next
    }

    /// The identifier that the next new item will get.
    pub open spec fn next_id(&self) -> Seq<u8> {
        serial_bytes(self.issued())
    }

    /// Whether the store has no name left to give.
    pub open spec fn exhausted(&self) -> bool {
        self.issued() == u64::MAX
    }

    /// An empty store that has named no item yet.
    pub fn new() -> (store: MemoryStore)
        ensures
            store@ == Seq::<Record>::empty(),
            store.issued() == 0,
    {
        MemoryStore { records: Vec::new(), next: 0 }
    }

    /// An empty store that goes on from the serial number `issued`.
    pub fn starting_at(issued: u64) -> (store: MemoryStore)
        ensures
            store@ == Seq::<Record>::empty(),
            store.issued() == issued,
    {
        MemoryStore { records: Vec::new(), next: issued }
    }

    /// Recalls to the verifier what holds of every store: its collection is
    /// well formed, and the identifier it will give next is not in use. Does
    /// nothing when run.
    pub fn recall(&self)
        ensures
            well_formed(self@),
            !holds(self@, self.next_id()),
    {
        proof {
            use_type_invariant(self);
            serial_reads_back(self.next);
        }
    }

    fn find(&self, id: &TodoId) -> (place: Option<usize>)
        ensures
            well_formed(self@),
            place is Some <==> holds(self@, id@),
            place matches Some(i) ==> i < self@.len() && i == index_of(self@, id@),
    {
        proof {
            use_type_invariant(self);
        }
        let mut i: usize = 0;
        while i < self.records.len()
            invariant
                i <= self.records@.len(),
                well_formed(records_of(self.records@)),
                forall|j: int| 0 <= j < i ==> (#[trigger] records_of(self.records@)[j]).id != Some(id@),
            decreases self.records@.len() - i,
        {
            let found = match &self.records[i].id {
                Some(other) => other.same(id),
                None => false,
            };
            if found {
                assert(records_of(self.records@)[i as int].id == Some(id@));
                return Some(i);
            }
            i += 1;
        }
        None
    }

    /// Every item of the collection, in the order in which they were stored.
    pub fn list(&self) -> (items: Vec<TodoItem>)
        ensures
            records_of(items@) == self@,
            well_formed(self@),
    {
        proof {
            use_type_invariant(self);
        }
        let mut items: Vec<TodoItem> = Vec::new();
        let mut i: usize = 0;
        while i < self.records.len()
            invariant
                i <= self.records@.len(),
                items@.len() == i,
                forall|j: int| 0 <= j < i ==> (#[trigger] items@[j])@ == self.records@[j]@,
            decreases self.records@.len() - i,
        {
            items.push(self.records[i].clone());
            i += 1;
        }
        assert(records_of(items@) =~= records_of(self.records@));
        items
    }

    fn add(&mut self, fields: TodoItemInput) -> (r: Option<TodoId>)
        ensures
            well_formed(old(self)@),
            well_formed(final(self)@),
            !holds(old(self)@, old(self).next_id()),
            old(self).exhausted() ==> {
                &&& r is None
                &&& final(self)@ == old(self)@
                &&& final(self).issued() == old(self).issued()
            },
            !old(self).exhausted() ==> {
                &&& r matches Some(id)
                &&& id@ == old(self).next_id()
                &&& final(self)@ == after_insert(old(self)@, id@, fields@)
                &&& final(self).issued() == old(self).issued() + 1
            },
    {
        proof {
            use_type_invariant(&*self);
            serial_reads_back(self.next);
        }
        if self.next == u64::MAX {
            return None;
        }
        let id = serial_id(self.next);
        let ghost before = records_of(self.records@);
        let mut item = TodoItem::new(fields);
        item.id = Some(id);
        self.next = self.next + 1;
        let mut records: Vec<TodoItem> = Vec::new();
        core::mem::swap(&mut self.records, &mut records);
        records.push(item);
        proof {
            let after = records_of(records@);
            assert(after =~= after_insert(before, id@, fields@));
            assert forall|i: int, j: int| 0 <= i < j < after.len() implies (#[trigger] after[i]).id
                != (#[trigger] after[j]).id by {
                assert(after[i] == before[i]);
                if j < before.len() {
                    assert(after[j] == before[j]);
                }
            }
        }
        core::mem::swap(&mut self.records, &mut records);
        Some(id)
    }

    fn overwrite(&mut self, id: &TodoId, fields: TodoItemInput) -> (found: bool)
        ensures
            well_formed(old(self)@),
            well_formed(final(self)@),
            found == holds(old(self)@, id@),
            final(self)@ == after_update(old(self)@, id@, fields@),
            final(self).issued() == old(self).issued(),
    {
        proof {
            use_type_invariant(&*self);
        }
        let ghost before = records_of(self.records@);
        match self.find(id) {
            Some(i) => {
                let item = TodoItem { id: Some(*id), title: fields.title, completed: fields.completed };
                let mut records: Vec<TodoItem> = Vec::new();
                core::mem::swap(&mut self.records, &mut records);
                records.set(i, item);
                proof {
                    let after = records_of(records@);
                    assert(after =~= before.update(i as int, saved(id@, fields@)));
                    calls_keep_well_formed(
                        before,
                        CallModel::Update { id: id@, fields: fields@ },
                        id@,
                    );
                }
                core::mem::swap(&mut self.records, &mut records);
                true
            },
            None => false,
        }
    }

    fn remove(&mut self, id: &TodoId) -> (found: bool)
        ensures
            well_formed(old(self)@),
            well_formed(final(self)@),
            found == holds(old(self)@, id@),
            final(self)@ == after_delete(old(self)@, id@),
            final(self).issued() == old(self).issued(),
    {
        proof {
            use_type_invariant(&*self);
        }
        let ghost before = records_of(self.records@);
        match self.find(id) {
            Some(i) => {
                let mut records: Vec<TodoItem> = Vec::new();
                core::mem::swap(&mut self.records, &mut records);
                records.remove(i);
                proof {
                    let after = records_of(records@);
                    assert(after =~= before.remove(i as int));
                    calls_keep_well_formed(before, CallModel::Delete { id: id@ }, id@);
                    assert forall|k: int| 0 <= k < after.len() implies serial_of(
                        (#[trigger] after[k]).id->0,
                    ) < self.next by {
                        let k0 = if k < i { k } else { k + 1 };
                        assert(after[k] == before[k0]);
                    }
                }
                core::mem::swap(&mut self.records, &mut records);
                true
            },
            None => false,
        }
    }

    /// Stores a new item with the given title and flag, as the last of the
    /// collection, and returns the identifier that it gave to it. Fails, and
    /// changes nothing, once the store has no name left to give.
    pub fn insert(&mut self, title: String, completed: bool) -> (r: Result<TodoId, StoreError>)
        ensures
            well_formed(old(self)@),
            well_formed(final(self)@),
            !holds(old(self)@, old(self).next_id()),
            old(self).exhausted() ==> {
                &&& r == Err::<TodoId, StoreError>(StoreError::Unavailable)
                &&& final(self)@ == old(self)@
                &&& final(self).issued() == old(self).issued()
            },
            !old(self).exhausted() ==> {
                &&& r matches Ok(id)
                &&& id@ == old(self).next_id()
                &&& final(self)@ == after_insert(
                    old(self)@,
                    id@,
                    (Fields { title: title@, completed }),
                )
                &&& final(self).issued() == old(self).issued() + 1
            },
    {
        match self.add(TodoItemInput { title, completed }) {
            Some(id) => Ok(id),
            None => Err(StoreError::Unavailable),
        }
    }

    /// Overwrites the title and the flag of the item that `id` names and says
    /// whether there was such an item. Fails, and changes nothing, where `id`
    /// is not the text form of an identifier.
    pub fn update_by_id(&mut self, id: &str, title: String, completed: bool) -> (r: Result<
        bool,
        StoreError,
    >)
        ensures
            well_formed(old(self)@),
            well_formed(final(self)@),
            final(self).issued() == old(self).issued(),
            !is_id_text(id@) ==> {
                &&& r == Err::<bool, StoreError>(StoreError::MalformedId)
                &&& final(self)@ == old(self)@
            },
            is_id_text(id@) ==> {
                &&& r == Ok::<bool, StoreError>(holds(old(self)@, decode_id(id@)))
                &&& final(self)@ == after_update(
                    old(self)@,
                    decode_id(id@),
                    (Fields { title: title@, completed }),
                )
            },
    {
        match TodoId::parse(id) {
            Ok(id) => Ok(self.overwrite(&id, TodoItemInput { title, completed })),
            Err(_) => {
                self.recall();
                Err(StoreError::MalformedId)
            },
        }
    }

    /// Removes the item that `id` names and says whether there was such an
    /// item; the other items keep their order. Fails, and changes nothing,
    /// where `id` is not the text form of an identifier.
    pub fn delete_by_id(&mut self, id: &str) -> (r: Result<bool, StoreError>)
        ensures
            well_formed(old(self)@),
            well_formed(final(self)@),
            final(self).issued() == old(self).issued(),
            !is_id_text(id@) ==> {
                &&& r == Err::<bool, StoreError>(StoreError::MalformedId)
                &&& final(self)@ == old(self)@
            },
            is_id_text(id@) ==> {
                &&& r == Ok::<bool, StoreError>(holds(old(self)@, decode_id(id@)))
                &&& final(self)@ == after_delete(old(self)@, decode_id(id@))
            },
    {
        match TodoId::parse(id) {
            Ok(id) => Ok(self.remove(&id)),
            Err(_) => {
                self.recall();
                Err(StoreError::MalformedId)
            },
        }
    }

    /// Carries out `call`. Only an insertion into a store that has no name
    /// left to give fails, and it changes nothing.
    pub fn execute(&mut self, call: &StoreCall) -> (reply: StoreReply)
        ensures
            well_formed(old(self)@),
            well_formed(final(self)@),
            !holds(old(self)@, old(self).next_id()),
            call@ is Insert && old(self).exhausted() ==> {
                &&& reply@ == ReplyModel::Failed(StoreError::Unavailable)
                &&& final(self)@ == old(self)@
                &&& final(self).issued() == old(self).issued()
            },
            !(call@ is Insert && old(self).exhausted()) ==> {
                &&& (final(self)@, reply@) == completes(old(self)@, call@, old(self).next_id())
                &&& final(self).issued() == old(self).issued() + if call@ is Insert {
                    1int
                } else {
                    0int
                }
            },
    {
        proof {
            use_type_invariant(&*self);
            serial_reads_back(self.next);
        }
        match call {
            StoreCall::List => StoreReply::Listed(self.list()),
            StoreCall::Insert { fields } => match self.add(fields.clone()) {
                Some(id) => StoreReply::Inserted(Some(id)),
                None => StoreReply::Failed(StoreError::Unavailable),
            },
            StoreCall::Update { id, fields } => {
                let found = self.overwrite(id, fields.clone());
                StoreReply::Updated(if found { 1 } else { 0 })
            },
            StoreCall::Delete { id } => {
                let found = self.remove(id);
                StoreReply::Deleted(if found { 1 } else { 0 })
            },
        }
    }
}

} // verus!
