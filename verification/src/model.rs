//! The unit of storage and the options of a call.

use crate::json::{entries_model, JsonModel, JsonValue};
use vstd::prelude::*;

verus! {

/// A stored unit: an identifier, an embedding vector, and the payload that goes with it.
///
/// A coordinate of the embedding is held by the IEEE 754 bit pattern of its
/// double-precision value. The store never changes a document that it is given: on
/// creation the backend's identifier is returned beside it.
#[derive(Clone, Debug, PartialEq, Eq)]
pub struct VectorDocument {
    /// The identifier; `None` until a backend has assigned one.
    pub id: Option<String>,
    pub embedding: Vec<u64>,
    pub content: String,
    /// An open mapping from keys to values, passed through as it is.
    pub metadata: Vec<(String, JsonValue)>,
}

/// The mathematical content of a [`VectorDocument`].
pub ghost struct DocumentModel {
    pub id: Option<Seq<char>>,
    pub embedding: Seq<u64>,
    pub content: Seq<char>,
    pub metadata: Seq<(Seq<char>, JsonModel)>,
}

/// The characters of an optional string.
pub open spec fn text_of(s: Option<String>) -> Option<Seq<char>> {
    match s {
        Some(s) => Some(s@),
        None => None,
    }
}

impl View for VectorDocument {
    type V = DocumentModel;

    open spec fn view(&self) -> DocumentModel {
        DocumentModel {
            id: text_of(self.id),
            embedding: self.embedding@,
            content: self.content@,
            metadata: entries_model(self.metadata@),
        }
    }
}

/// The contents of a list of documents.
pub open spec fn documents_model(docs: Seq<VectorDocument>) -> Seq<DocumentModel> {
    Seq::new(docs.len(), |i: int| docs[i]@)
}

/// How strongly a write is confirmed before the call returns.
#[derive(Clone, Copy, Debug, PartialEq, Eq)]
pub enum WriteConcern {
    /// The backend has accepted the request.
    Unacknowledged,
    /// The backend has applied the write.
    Acknowledged,
    /// The backend has applied the write and made it durable.
    Durable,
}

/// The tuning knobs of one call. They are read, handed on to the backend, and never stored.
#[derive(Clone, Copy, Debug, PartialEq, Eq)]
pub struct VecStoreOptions {
    pub write_concern: WriteConcern,
}

} // verus!
