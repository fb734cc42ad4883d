//! Todo items: what a client sends, and what the collection keeps.

use crate::ident::TodoId;
use vstd::prelude::*;

verus! {

/// The two fields that a client supplies, as mathematical values.
pub struct Fields {
    pub title: Seq<char>,
    pub completed: bool,
}

/// A todo item as a mathematical value.
pub struct Record {
    pub id: Option<Seq<u8>>,
    pub title: Seq<char>,
    pub completed: bool,
}

/// The item that comes of `fields` before the collection has named it.
pub open spec fn unsaved(fields: Fields) -> Record {
    Record { id: None, title: fields.title, completed: fields.completed }
}

/// The item that comes of `fields` once the collection has named it `id`.
pub open spec fn saved(id: Seq<u8>, fields: Fields) -> Record {
    Record { id: Some(id), title: fields.title, completed: fields.completed }
}

/// The body of a request that creates or updates an item.
#[derive(Debug, PartialEq, Eq)]
pub struct TodoItemInput {
    pub title: String,
    pub completed: bool,
}

impl View for TodoItemInput {
    type V = Fields;

    open spec fn view(&self) -> Fields {
        Fields { title: self.title@, completed: self.completed }
    }
}

impl Clone for TodoItemInput {
    fn clone(&self) -> (r: TodoItemInput)
        ensures
            r@ == self@,
    {
        TodoItemInput { title: self.title.clone(), completed: self.completed }
    }
}

/// A todo item. It has no identifier until the collection has stored it, and
/// keeps the one it was given from then on.
#[derive(Debug, PartialEq, Eq)]
pub struct TodoItem {
    pub id: Option<TodoId>,
    pub title: String,
    pub completed: bool,
}

impl View for TodoItem {
    type V = Record;

    open spec fn view(&self) -> Record {
        Record {
            id: match self.id {
                Some(id) => Some(id@),
                None => None,
            },
            title: self.title@,
            completed: self.completed,
        }
    }
}

impl Clone for TodoItem {
    fn clone(&self) -> (r: TodoItem)
        ensures
            r@ == self@,
    {
        TodoItem { id: self.id, title: self.title.clone(), completed: self.completed }
    }
}

impl TodoItem {
    /// A new item with the given fields and no identifier yet.
    pub fn new(input: TodoItemInput) -> (item: TodoItem)
        ensures
            item@ == unsaved(input@),
    {
        TodoItem { id: None, title: input.title, completed: input.completed }
    }
}

/// The mathematical values of a list of items, in the same order.
pub open spec fn records_of(items: Seq<TodoItem>) -> Seq<Record> {
    items.map_values(|item: TodoItem| item@)
}

} // verus!
