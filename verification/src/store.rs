//! The collection of todo items as a mathematical value, the four calls that
//! a store accepts, and what each of them does to the collection.

use crate::ident::TodoId;
use crate::item::{records_of, saved, Fields, Record, TodoItem, TodoItemInput};
use vstd::prelude::*;

verus! {

/// Name of the database that holds the collection.
pub const DATABASE_NAME: &'static str = "todo_db";

/// Name of the collection of todo items.
pub const COLLECTION_NAME: &'static str = "todos";

/// Whether some item of `records` has the identifier `id`.
pub open spec fn holds(records: Seq<Record>, id: Seq<u8>) -> bool {
    exists|i: int| 0 <= i < records.len() && (#[trigger] records[i]).id == Some(id)
}

/// The place of an item that has the identifier `id`, where there is one. A
/// well-formed collection has at most one such place.
pub open spec fn index_of(records: Seq<Record>, id: Seq<u8>) -> int {
    choose|i: int| 0 <= i < records.len() && (#[trigger] records[i]).id == Some(id)
}

/// What a store guarantees of its collection: every item has an identifier of
/// twelve bytes, and no two items share one.
pub open spec fn well_formed(records: Seq<Record>) -> bool {
    &&& forall|i: int|
        0 <= i < records.len() ==> (#[trigger] records[i]).id is Some && records[i].id->0.len()
            == 12
    &&& forall|i: int, j: int|
        0 <= i < j < records.len() ==> (#[trigger] records[i]).id != (#[trigger] records[j]).id
}

/// How many items an update or a removal of `id` finds: one or none.
pub open spec fn matched(records: Seq<Record>, id: Seq<u8>) -> u64 {
    if holds(records, id) {
        1
    } else {
        0
    }
}

/// The collection after a new item with `fields` was stored under `id`: the
/// new item comes last.
pub open spec fn after_insert(records: Seq<Record>, id: Seq<u8>, fields: Fields) -> Seq<Record> {
    records.push(saved(id, fields))
}

/// The collection after the item `id` was given new `fields`: that item keeps
/// its identifier and its place, every other item is untouched, and nothing
/// changes where no item has that identifier.
pub open spec fn after_update(records: Seq<Record>, id: Seq<u8>, fields: Fields) -> Seq<Record> {
    if holds(records, id) {
        records.update(index_of(records, id), saved(id, fields))
    } else {
        records
    }
}

/// The collection after the item `id` was removed: the other items stay in
/// their order, and nothing changes where no item has that identifier.
pub open spec fn after_delete(records: Seq<Record>, id: Seq<u8>) -> Seq<Record> {
    if holds(records, id) {
        records.remove(index_of(records, id))
    } else {
        records
    }
}

/// Why a store did not carry out an operation.
#[derive(Clone, Copy, Debug, PartialEq, Eq, Structural)]
pub enum StoreError {
    /// The text that should name an item is not the text form of an
    /// identifier. The client can mend this.
    MalformedId,
    /// The store could not read or write.
    Unavailable,
}

/// A call that a handler asks the store to carry out.
#[derive(Debug, PartialEq, Eq)]
pub enum StoreCall {
    /// Read every item.
    List,
    /// Store a new item with these fields and name it.
    Insert { fields: TodoItemInput },
    /// Overwrite the fields of the item named `id`.
    Update { id: TodoId, fields: TodoItemInput },
    /// Remove the item named `id`.
    Delete { id: TodoId },
}

/// A call as a mathematical value.
pub enum CallModel {
    List,
    Insert { fields: Fields },
    Update { id: Seq<u8>, fields: Fields },
    Delete { id: Seq<u8> },
}

impl View for StoreCall {
    type V = CallModel;

    open spec fn view(&self) -> CallModel {
        match *self {
            StoreCall::List => CallModel::List,
            StoreCall::Insert { fields } => CallModel::Insert { fields: fields@ },
            StoreCall::Update { id, fields } => CallModel::Update { id: id@, fields: fields@ },
            StoreCall::Delete { id } => CallModel::Delete { id: id@ },
        }
    }
}

/// What came back from the store.
#[derive(Debug, PartialEq, Eq)]
pub enum StoreReply {
    /// The items of the collection, in the order in which the store gave them.
    Listed(Vec<TodoItem>),
    /// The name that the store gave to the new item; `None` where that name is
    /// not an identifier of the kind this service uses.
    Inserted(Option<TodoId>),
    /// The number of items that the update found.
    Updated(u64),
    /// The number of items that the removal took away.
    Deleted(u64),
    /// The store did not carry out the call.
    Failed(StoreError),
}

/// A reply as a mathematical value.
pub enum ReplyModel {
    Listed(Seq<Record>),
    Inserted(Option<Seq<u8>>),
    Updated(u64),
    Deleted(u64),
    Failed(StoreError),
}

impl View for StoreReply {
    type V = ReplyModel;

    open spec fn view(&self) -> ReplyModel {
        match *self {
            StoreReply::Listed(items) => ReplyModel::Listed(records_of(items@)),
            StoreReply::Inserted(id) => ReplyModel::Inserted(
                match id {
                    Some(id) => Some(id@),
                    None => None,
                },
            ),
            StoreReply::Updated(count) => ReplyModel::Updated(count),
            StoreReply::Deleted(count) => ReplyModel::Deleted(count),
            StoreReply::Failed(error) => ReplyModel::Failed(error),
        }
    }
}

/// The collection and the reply after a store has carried out `call` on
/// `records`; `fresh` is the identifier that it gives to a new item.
pub open spec fn completes(records: Seq<Record>, call: CallModel, fresh: Seq<u8>) -> (
    Seq<Record>,
    ReplyModel,
) {
    match call {
        CallModel::List => (records, ReplyModel::Listed(records)),
        CallModel::Insert { fields } => (
            after_insert(records, fresh, fields),
            ReplyModel::Inserted(Some(fresh)),
        ),
        CallModel::Update { id, fields } => (
            after_update(records, id, fields),
            ReplyModel::Updated(matched(records, id)),
        ),
        CallModel::Delete { id } => (
            after_delete(records, id),
            ReplyModel::Deleted(matched(records, id)),
        ),
    }
}

/// A store keeps its guarantee through every call, as long as the identifier
/// it gives to a new item has twelve bytes and is not in use.
pub proof fn calls_keep_well_formed(records: Seq<Record>, call: CallModel, fresh: Seq<u8>)
    requires
        well_formed(records),
        call is Insert ==> fresh.len() == 12 && !holds(records, fresh),
    ensures
        well_formed(completes(records, call, fresh).0),
{
    let after = completes(records, call, fresh).0;
    match call {
        CallModel::List => {},
        CallModel::Insert { fields } => {
            assert forall|i: int, j: int| 0 <= i < j < after.len() implies (#[trigger] after[i]).id
                != (#[trigger] after[j]).id by {
                if j == records.len() {
                    assert(records[i].id != Some(fresh));
                }
            }
        },
        CallModel::Update { id, fields } => {
            if holds(records, id) {
                let k = index_of(records, id);
                assert forall|i: int, j: int| 0 <= i < j < after.len() implies (#[trigger] after[i]).id
                    != (#[trigger] after[j]).id by {
                    assert(after[i].id == records[i].id);
                    assert(after[j].id == records[j].id);
                }
            }
        },
        CallModel::Delete { id } => {
            if holds(records, id) {
                let k = index_of(records, id);
                assert forall|i: int, j: int| 0 <= i < j < after.len() implies (#[trigger] after[i]).id
                    != (#[trigger] after[j]).id by {
                    let i0 = if i < k { i } else { i + 1 };
                    let j0 = if j < k { j } else { j + 1 };
                    assert(after[i] == records[i0]);
                    assert(after[j] == records[j0]);
                }
                assert forall|i: int| 0 <= i < after.len() implies (#[trigger] after[i]).id is Some
                    && after[i].id->0.len() == 12 by {
                    let i0 = if i < k { i } else { i + 1 };
                    assert(after[i] == records[i0]);
                }
            }
        },
    }
}

} // verus!
