//! The four HTTP handlers. Each one decides in two steps: before the store is
//! asked, what to ask it or what to answer at once; after the store has
//! replied, what to answer.

use crate::ident::{decode_id, is_id_text, TodoId};
use crate::item::{records_of, Fields, Record, TodoItem, TodoItemInput};
use crate::store::{CallModel, ReplyModel, StoreCall, StoreError, StoreReply};
use vstd::prelude::*;

verus! {

/// Status of a request that was carried out.
pub const STATUS_OK: u16 = 200;

/// Status of a request whose body or identifier is malformed.
pub const STATUS_BAD_REQUEST: u16 = 400;

/// Status of a request that names an item which the collection does not hold.
pub const STATUS_NOT_FOUND: u16 = 404;

/// Status of a request on which the store failed.
pub const STATUS_SERVER_ERROR: u16 = 500;

/// Body of the answer to an update that found its item.
pub const TEXT_UPDATED: &'static str = "Todo item updated";

/// Body of the answer to a removal that found its item.
pub const TEXT_DELETED: &'static str = "Todo item deleted";

/// Body of the answer to an update or a removal that found no item.
pub const TEXT_NOT_FOUND: &'static str = "Todo item not found";

/// Why a request was not carried out.
#[derive(Clone, Copy, Debug, PartialEq, Eq, Structural)]
pub enum Failure {
    /// The body or the identifier of the request is malformed.
    ClientInput,
    /// The identifier is well formed and names no item.
    NotFound,
    /// The store could not carry out the call.
    Store,
}

/// What an answer carries.
#[derive(Debug, PartialEq, Eq)]
pub enum Body {
    /// Nothing.
    Empty,
    /// Plain text.
    Text(String),
    /// An identifier, to be written as a JSON value.
    Id(TodoId),
    /// Items, to be written as a JSON array.
    Items(Vec<TodoItem>),
}

/// A body as a mathematical value.
pub enum BodyModel {
    Empty,
    Text(Seq<char>),
    Id(Seq<u8>),
    Items(Seq<Record>),
}

impl View for Body {
    type V = BodyModel;

    open spec fn view(&self) -> BodyModel {
        match *self {
            Body::Empty => BodyModel::Empty,
            Body::Text(text) => BodyModel::Text(text@),
            Body::Id(id) => BodyModel::Id(id@),
            Body::Items(items) => BodyModel::Items(records_of(items@)),
        }
    }
}

/// The answer to a request.
#[derive(Debug, PartialEq, Eq)]
pub struct Response {
    pub status: u16,
    pub body: Body,
}

/// An answer as a mathematical value.
pub struct ResponseModel {
    pub status: u16,
    pub body: BodyModel,
}

impl View for Response {
    type V = ResponseModel;

    open spec fn view(&self) -> ResponseModel {
        ResponseModel { status: self.status, body: self.body@ }
    }
}

/// The answer to a request that was carried out.
pub open spec fn success(body: BodyModel) -> ResponseModel {
    ResponseModel { status: 200, body }
}

/// The answer to a request that was not carried out: 400 and 500 carry
/// nothing, 404 says that the item was not found.
pub open spec fn failure(why: Failure) -> ResponseModel {
    match why {
        Failure::ClientInput => ResponseModel { status: 400, body: BodyModel::Empty },
        Failure::NotFound => ResponseModel { status: 404, body: BodyModel::Text(TEXT_NOT_FOUND@) },
        Failure::Store => ResponseModel { status: 500, body: BodyModel::Empty },
    }
}

/// How a failure of the store counts: a malformed identifier is the client's
/// to mend, anything else is the store's.
pub open spec fn failure_of(error: StoreError) -> Failure {
    match error {
        StoreError::MalformedId => Failure::ClientInput,
        StoreError::Unavailable => Failure::Store,
    }
}

impl Failure {
    /// The failure that a request ends in when the store refused with `error`.
    pub fn of(error: StoreError) -> (why: Failure)
        ensures
            why == failure_of(error),
    {
        match error {
            StoreError::MalformedId => Failure::ClientInput,
            StoreError::Unavailable => Failure::Store,
        }
    }

    /// The status that tells a client of this failure.
    pub fn status(&self) -> (status: u16)
        ensures
            status == failure(*self).status,
    {
        match self {
            Failure::ClientInput => STATUS_BAD_REQUEST,
            Failure::NotFound => STATUS_NOT_FOUND,
            Failure::Store => STATUS_SERVER_ERROR,
        }
    }

    /// The answer that tells a client of this failure.
    pub fn response(&self) -> (response: Response)
        ensures
            response@ == failure(*self),
    {
        let body = match self {
            Failure::NotFound => Body::Text(TEXT_NOT_FOUND.to_owned()),
            _ => Body::Empty,
        };
        Response { status: self.status(), body }
    }
}

/// What a handler does next.
#[derive(Debug, PartialEq, Eq)]
pub enum Step {
    /// Ask the store to carry out this call, then answer with `respond`.
    Call(StoreCall),
    /// Answer at once.
    Done(Response),
}

/// A step as a mathematical value.
pub enum StepModel {
    Call(CallModel),
    Done(ResponseModel),
}

impl View for Step {
    type V = StepModel;

    open spec fn view(&self) -> StepModel {
        match *self {
            Step::Call(call) => StepModel::Call(call@),
            Step::Done(response) => StepModel::Done(response@),
        }
    }
}

/// First step of `GET /todos`: list the collection.
pub open spec fn list_step() -> StepModel {
    StepModel::Call(CallModel::List)
}

/// First step of `POST /todos`: store a new item with the fields of the body,
/// or refuse a body that could not be read.
pub open spec fn create_step(body: Option<Fields>) -> StepModel {
    match body {
        Some(fields) => StepModel::Call(CallModel::Insert { fields }),
        None => StepModel::Done(failure(Failure::ClientInput)),
    }
}

/// First step of `PUT /todos/{id}`: overwrite the fields of the item that the
/// path names, or refuse a malformed identifier or a body that could not be
/// read.
pub open spec fn update_step(id: Seq<char>, body: Option<Fields>) -> StepModel {
    match body {
        Some(fields) if is_id_text(id) => StepModel::Call(
            CallModel::Update { id: decode_id(id), fields },
        ),
        _ => StepModel::Done(failure(Failure::ClientInput)),
    }
}

/// First step of `DELETE /todos/{id}`: remove the item that the path names,
/// or refuse a malformed identifier.
pub open spec fn delete_step(id: Seq<char>) -> StepModel {
    if is_id_text(id) {
        StepModel::Call(CallModel::Delete { id: decode_id(id) })
    } else {
        StepModel::Done(failure(Failure::ClientInput))
    }
}

/// The answer to a request, given the call that was made for it and what the
/// store replied. Where the store failed, the answer says whose failure it
/// is. A reply of another kind than the call asks for counts as a failure of
/// the store, and so does a new item named by something that is not an
/// identifier.
pub open spec fn response_to(call: CallModel, reply: ReplyModel) -> ResponseModel {
    match (call, reply) {
        (_, ReplyModel::Failed(error)) => failure(failure_of(error)),
        (CallModel::List, ReplyModel::Listed(items)) => success(BodyModel::Items(items)),
        (CallModel::Insert { .. }, ReplyModel::Inserted(Some(id))) => success(BodyModel::Id(id)),
        (CallModel::Update { .. }, ReplyModel::Updated(count)) => if count == 1 {
            success(BodyModel::Text(TEXT_UPDATED@))
        } else {
            failure(Failure::NotFound)
        },
        (CallModel::Delete { .. }, ReplyModel::Deleted(count)) => if count == 1 {
            success(BodyModel::Text(TEXT_DELETED@))
        } else {
            failure(Failure::NotFound)
        },
        _ => failure(Failure::Store),
    }
}

/// `GET /todos`, before the store is asked.
pub fn get_todos() -> (step: Step)
    ensures
        step@ == list_step(),
{
    Step::Call(StoreCall::List)
}

/// `POST /todos`, before the store is asked. `body` is `None` where the
/// request's body is not a title and a flag.
pub fn create_todo(body: Option<TodoItemInput>) -> (step: Step)
    ensures
        step@ == create_step(
            match body {
                Some(fields) => Some(fields@),
                None => None,
            },
        ),
{
    match body {
        Some(fields) => Step::Call(StoreCall::Insert { fields }),
        None => Step::Done(Failure::ClientInput.response()),
    }
}

/// `PUT /todos/{id}`, before the store is asked. `id` is the last segment of
/// the path; `body` is `None` where the request's body is not a title and a
/// flag.
pub fn update_todo(id: &str, body: Option<TodoItemInput>) -> (step: Step)
    ensures
        step@ == update_step(
            id@,
            match body {
                Some(fields) => Some(fields@),
                None => None,
            },
        ),
{
    match (TodoId::parse(id), body) {
        (Ok(id), Some(fields)) => Step::Call(StoreCall::Update { id, fields }),
        _ => Step::Done(Failure::ClientInput.response()),
    }
}

/// `DELETE /todos/{id}`, before the store is asked. `id` is the last segment
/// of the path.
pub fn delete_todo(id: &str) -> (step: Step)
    ensures
        step@ == delete_step(id@),
{
    match TodoId::parse(id) {
        Ok(id) => Step::Call(StoreCall::Delete { id }),
        Err(_) => Step::Done(Failure::ClientInput.response()),
    }
}

/// The answer of any handler, after the store has replied to `call`.
pub fn respond(call: &StoreCall, reply: StoreReply) -> (response: Response)
    ensures
        response@ == response_to(call@, reply@),
{
    match (call, reply) {
        (_, StoreReply::Failed(error)) => Failure::of(error).response(),
        (StoreCall::List, StoreReply::Listed(items)) => Response {
            status: STATUS_OK,
            body: Body::Items(items),
        },
        (StoreCall::Insert { .. }, StoreReply::Inserted(Some(id))) => Response {
            status: STATUS_OK,
            body: Body::Id(id),
        },
        (StoreCall::Update { .. }, StoreReply::Updated(count)) => if count == 1 {
            Response { status: STATUS_OK, body: Body::Text(TEXT_UPDATED.to_owned()) }
        } else {
            Failure::NotFound.response()
        },
        (StoreCall::Delete { .. }, StoreReply::Deleted(count)) => if count == 1 {
            Response { status: STATUS_OK, body: Body::Text(TEXT_DELETED.to_owned()) }
        } else {
            Failure::NotFound.response()
        },
        _ => Failure::Store.response(),
    }
}

} // verus!
