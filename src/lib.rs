//! An in-memory task tracker: a store of to-do items with unique, rising
//! identifiers, and the request handlers that answer its HTTP interface
//! with status codes and bodies.

use vstd::prelude::*;

pub mod ids;
pub mod task;
pub mod store;
pub mod service;
pub mod laws;

verus! {

} // verus!
