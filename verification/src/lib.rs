//! A todo-list service core: identifiers, records, the store's operations and
//! the HTTP handlers' decisions, each with a machine-checked contract.

pub mod handlers;
pub mod ident;
pub mod item;
pub mod memory;
pub mod service;
pub mod store;
