//! A whole request against a store: the handler's first step, the store's
//! work, and the answer; and what holds of requests that follow one another.

use crate::handlers::{
    create_step, delete_step, failure, list_step, respond, response_to, success, update_step,
    BodyModel, Failure, Response, ResponseModel, Step, StepModel, TEXT_DELETED, TEXT_UPDATED,
};
use crate::ident::{decode_id, encode_id, is_id_text, text_form_reads_back};
use crate::item::{saved, Fields, Record};
use crate::memory::MemoryStore;
use crate::store::{calls_keep_well_formed, completes, holds, index_of, well_formed, CallModel};
use vstd::prelude::*;

verus! {

/// The collection and the answer after a request whose first step is `step`,
/// on a store that carries out what it is asked; `fresh` is the identifier
/// that the store gives to a new item.
pub open spec fn served(records: Seq<Record>, step: StepModel, fresh: Seq<u8>) -> (
    Seq<Record>,
    ResponseModel,
) {
    match step {
        StepModel::Done(response) => (records, response),
        StepModel::Call(call) => {
            let (after, reply) = completes(records, call, fresh);
            (after, response_to(call, reply))
        },
    }
}

/// Whether `step` asks the store to name a new item.
pub open spec fn names_item(step: StepModel) -> bool {
    step matches StepModel::Call(call) && call is Insert
}

/// Carries a request through on a store in memory: makes the call that `step`
/// asks for, if any, and answers.
///
/// Only a store with no name left can fail, and only on a new item: the
/// answer is then the store's failure and the collection is unchanged.
pub fn serve(store: &mut MemoryStore, step: Step) -> (response: Response)
    ensures
        well_formed(old(store)@),
        well_formed(final(store)@),
        !holds(old(store)@, old(store).next_id()),
        names_item(step@) && old(store).exhausted() ==> {
            &&& response@ == failure(Failure::Store)
            &&& final(store)@ == old(store)@
            &&& final(store).issued() == old(store).issued()
        },
        !(names_item(step@) && old(store).exhausted()) ==> {
            &&& (final(store)@, response@) == served(old(store)@, step@, old(store).next_id())
            &&& final(store).issued() == old(store).issued() + if names_item(step@) {
                1int
            } else {
                0int
            }
        },
{
    match step {
        Step::Done(response) => {
            store.recall();
            response
        },
        Step::Call(call) => {
            let reply = store.execute(&call);
            respond(&call, reply)
        },
    }
}

/// An item that was created is listed, once, with exactly the title and the
/// flag it was created with and under the identifier that the answer gave;
/// the items that were there before are listed unchanged before it. The text
/// form of that identifier is well formed and reads back as the identifier.
pub proof fn created_item_is_listed(records: Seq<Record>, fields: Fields, fresh: Seq<u8>)
    requires
        well_formed(records),
        fresh.len() == 12,
        !holds(records, fresh),
    ensures
        ({
            let (after, created) = served(records, create_step(Some(fields)), fresh);
            let (last, listed) = served(after, list_step(), fresh);
            &&& created == success(BodyModel::Id(fresh))
            &&& listed == success(BodyModel::Items(after))
            &&& last == after
            &&& after == records.push(
                Record { id: Some(fresh), title: fields.title, completed: fields.completed },
            )
            &&& forall|i: int|
                0 <= i < after.len() ==> ((#[trigger] after[i]).id == Some(fresh) <==> i
                    == records.len())
            &&& well_formed(after)
            &&& is_id_text(encode_id(fresh))
            &&& decode_id(encode_id(fresh)) == fresh
        }),
{
    calls_keep_well_formed(records, CallModel::Insert { fields }, fresh);
    text_form_reads_back(fresh);
}

/// An update of an item that the collection holds answers 200 and changes
/// the title and the flag of that item and nothing else; an update of an
/// item that it does not hold answers 404 and changes nothing.
pub proof fn update_changes_its_item_only(
    records: Seq<Record>,
    id: Seq<char>,
    fields: Fields,
    fresh: Seq<u8>,
)
    requires
        well_formed(records),
        is_id_text(id),
    ensures
        ({
            let name = decode_id(id);
            let (after, answer) = served(records, update_step(id, Some(fields)), fresh);
            &&& holds(records, name) ==> answer == success(BodyModel::Text(TEXT_UPDATED@))
            &&& !holds(records, name) ==> answer == failure(Failure::NotFound)
            &&& after.len() == records.len()
            &&& forall|i: int|
                0 <= i < records.len() ==> #[trigger] after[i] == if records[i].id == Some(name) {
                    Record { id: Some(name), title: fields.title, completed: fields.completed }
                } else {
                    records[i]
                }
            &&& well_formed(after)
        }),
{
    let name = decode_id(id);
    calls_keep_well_formed(records, CallModel::Update { id: name, fields }, fresh);
    if holds(records, name) {
        let k = index_of(records, name);
        assert forall|i: int| 0 <= i < records.len() && records[i].id == Some(name) implies i
            == k by {
            if i < k {
                assert(records[i].id != records[k].id);
            } else if k < i {
                assert(records[k].id != records[i].id);
            }
        }
    }
}

/// A request with a malformed identifier, or with a body that could not be
/// read, answers 400 and never reaches the store.
pub proof fn malformed_request_is_refused(id: Seq<char>, body: Option<Fields>)
    ensures
        create_step(None) == StepModel::Done(failure(Failure::ClientInput)),
        update_step(id, None) == StepModel::Done(failure(Failure::ClientInput)),
        !is_id_text(id) ==> update_step(id, body) == StepModel::Done(failure(Failure::ClientInput)),
        !is_id_text(id) ==> delete_step(id) == StepModel::Done(failure(Failure::ClientInput)),
        failure(Failure::ClientInput).status == 400,
{
}

/// A removal of an item that the collection holds answers 200 and takes away
/// that item and nothing else; the same removal once more answers 404 and
/// changes nothing.
pub proof fn deleted_item_is_gone(records: Seq<Record>, id: Seq<char>, fresh: Seq<u8>)
    requires
        well_formed(records),
        is_id_text(id),
        holds(records, decode_id(id)),
    ensures
        ({
            let name = decode_id(id);
            let (after, first) = served(records, delete_step(id), fresh);
            let (last, second) = served(after, delete_step(id), fresh);
            &&& first == success(BodyModel::Text(TEXT_DELETED@))
            &&& second == failure(Failure::NotFound)
            &&& last == after
            &&& !holds(after, name)
            &&& after.len() == records.len() - 1
            &&& forall|other: Seq<u8>| other != name ==> holds(after, other) == holds(records, other)
            &&& well_formed(after)
        }),
{
    let name = decode_id(id);
    let k = index_of(records, name);
    let after = records.remove(k);
    calls_keep_well_formed(records, CallModel::Delete { id: name }, fresh);
    assert forall|i: int| 0 <= i < after.len() implies (#[trigger] after[i]).id != Some(name) by {
        if i < k {
            assert(after[i] == records[i]);
            assert(records[i].id != records[k].id);
        } else {
            assert(after[i] == records[i + 1]);
            assert(records[k].id != records[i + 1].id);
        }
    }
    assert forall|other: Seq<u8>| other != name implies holds(after, other) == holds(
        records,
        other,
    ) by {
        if holds(after, other) {
            let i = index_of(after, other);
            let i0 = if i < k { i } else { i + 1 };
            assert(records[i0].id == Some(other));
        }
        if holds(records, other) {
            let i = index_of(records, other);
            let i0 = if i < k { i } else { i - 1 };
            assert(after[i0].id == Some(other));
        }
    }
}

/// A removal of an item that the collection does not hold answers 404, not
/// 200 and not 500, and changes nothing, however often it is repeated.
pub proof fn absent_item_is_not_found_twice(records: Seq<Record>, id: Seq<char>, fresh: Seq<u8>)
    requires
        is_id_text(id),
        !holds(records, decode_id(id)),
    ensures
        ({
            let (after, first) = served(records, delete_step(id), fresh);
            let (last, second) = served(after, delete_step(id), fresh);
            &&& first == failure(Failure::NotFound)
            &&& second == failure(Failure::NotFound)
            &&& first.status == 404
            &&& after == records
            &&& last == records
        }),
{
}

/// The collection after one item was created for each of `bodies`, one after
/// the other; `names[k]` is the identifier that the store gave to the item of
/// `bodies[k]`.
pub open spec fn after_creations(
    records: Seq<Record>,
    bodies: Seq<Fields>,
    names: Seq<Seq<u8>>,
) -> Seq<Record>
    decreases bodies.len(),
{
    if bodies.len() == 0 {
        records
    } else {
        served(
            after_creations(records, bodies.drop_last(), names.drop_last()),
            create_step(Some(bodies.last())),
            names.last(),
        ).0
    }
}

/// Whether the store named each of the new items as it must: by twelve bytes
/// that named no item of the collection at that moment.
pub open spec fn named_afresh(
    records: Seq<Record>,
    bodies: Seq<Fields>,
    names: Seq<Seq<u8>>,
) -> bool
    decreases bodies.len(),
{
    &&& names.len() == bodies.len()
    &&& bodies.len() > 0 ==> {
        &&& named_afresh(records, bodies.drop_last(), names.drop_last())
        &&& names.last().len() == 12
        &&& !holds(
            after_creations(records, bodies.drop_last(), names.drop_last()),
            names.last(),
        )
    }
}

/// Items that are created one after the other, in whatever order the store
/// takes them, get identifiers that differ from one another, and a listing
/// afterwards shows each of them once, after the items that were there
/// before: as many more items as were created.
pub proof fn creations_get_distinct_names(
    records: Seq<Record>,
    bodies: Seq<Fields>,
    names: Seq<Seq<u8>>,
)
    requires
        well_formed(records),
        named_afresh(records, bodies, names),
    ensures
        ({
            let after = after_creations(records, bodies, names);
            &&& forall|j: int, k: int| 0 <= j < k < names.len() ==> names[j] != names[k]
            &&& after == records + Seq::new(bodies.len(), |k: int| saved(names[k], bodies[k]))
            &&& after.len() == records.len() + bodies.len()
            &&& well_formed(after)
            &&& served(after, list_step(), Seq::empty()).1 == success(BodyModel::Items(after))
        }),
    decreases bodies.len(),
{
    let after = after_creations(records, bodies, names);
    let added = Seq::new(bodies.len(), |k: int| saved(names[k], bodies[k]));
    if bodies.len() == 0 {
        assert(after =~= records + added);
    } else {
        let earlier_bodies = bodies.drop_last();
        let earlier_names = names.drop_last();
        let before = after_creations(records, earlier_bodies, earlier_names);
        let earlier = Seq::new(earlier_bodies.len(), |k: int| saved(earlier_names[k], earlier_bodies[k]));
        creations_get_distinct_names(records, earlier_bodies, earlier_names);
        calls_keep_well_formed(before, CallModel::Insert { fields: bodies.last() }, names.last());
        assert(after == before.push(saved(names.last(), bodies.last())));
        assert(after =~= records + added);
        assert forall|j: int, k: int| 0 <= j < k < names.len() implies names[j] != names[k] by {
            if k == names.len() - 1 {
                assert(before[records.len() + j].id == Some(names[j]));
            } else {
                assert(earlier_names[j] != earlier_names[k]);
            }
        }
    }
}

} // verus!
