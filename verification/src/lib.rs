//! A vector store adapter: the decisions of a store that keeps embedding vectors in a remote
//! document database, written as functions from plain values to plain values.
//!
//! The caller performs the network round trips. The library validates the arguments, converts
//! documents to and from their stored form, decides which request comes next and turns the
//! backend's replies into the result of the operation.

pub mod batch;
pub mod codec;
pub mod collection;
pub mod error;
pub mod firestore;
pub mod first;
pub mod json;
pub mod laws;
pub mod model;
pub mod number;
pub mod search;
