//! The errors that a store operation reports, by kind.

use vstd::prelude::*;

verus! {

/// The four kinds of failure that a caller can tell apart.
#[derive(Clone, Copy, Debug, PartialEq, Eq)]
pub enum ErrorKind {
    Connection,
    Validation,
    Serialization,
    Backend,
}

/// Why the arguments of an operation were refused before anything was sent.
#[derive(Clone, Copy, Debug, PartialEq, Eq)]
pub enum ValidationIssue {
    /// A search asked for no results at all.
    ZeroTopK,
    /// The query vector has no coordinates.
    EmptyQuery,
    /// The query vector has `found` coordinates where the collection has `expected`.
    QueryDimension { expected: usize, found: usize },
    /// The document at `index` has `found` coordinates where the collection has `expected`.
    DocumentDimension { index: usize, expected: usize, found: usize },
}

/// A field of the stored form of a document.
#[derive(Clone, Copy, Debug, PartialEq, Eq)]
pub enum Field {
    Embedding,
    Content,
    Metadata,
}

/// Why a document could not be converted to or from its stored form.
#[derive(Clone, Debug, PartialEq, Eq)]
pub enum SerializationIssue {
    /// The coordinate at `index` is an infinity or a NaN.
    NonFiniteCoordinate { index: usize },
    /// The stored document has no such field.
    MissingField(Field),
    /// The stored document has the field, with a value of another shape.
    MalformedField(Field),
    /// The backend client could not convert a document, and said why.
    Reported(String),
}

/// The mathematical content of a [`SerializationIssue`].
pub ghost enum IssueModel {
    NonFiniteCoordinate { index: usize },
    MissingField(Field),
    MalformedField(Field),
    Reported(Seq<char>),
}

impl View for SerializationIssue {
    type V = IssueModel;

    open spec fn view(&self) -> IssueModel {
        match self {
            SerializationIssue::NonFiniteCoordinate { index } => IssueModel::NonFiniteCoordinate {
                index: *index,
            },
            SerializationIssue::MissingField(field) => IssueModel::MissingField(*field),
            SerializationIssue::MalformedField(field) => IssueModel::MalformedField(*field),
            SerializationIssue::Reported(message) => IssueModel::Reported(message@),
        }
    }
}

/// The failure of a store operation. An operation returns either its result or one of
/// these, never both.
#[derive(Clone, Debug, PartialEq, Eq)]
pub enum StoreError {
    /// The backend could not be reached, or refused the credentials.
    Connection(String),
    /// The arguments were refused; nothing was sent.
    Validation(ValidationIssue),
    /// A document could not be converted to or from its stored form.
    Serialization(SerializationIssue),
    /// The backend reported a failure of its own; the message is the backend's.
    Backend(String),
}

/// The mathematical content of a [`StoreError`].
pub ghost enum ErrorModel {
    Connection(Seq<char>),
    Validation(ValidationIssue),
    Serialization(IssueModel),
    Backend(Seq<char>),
}

impl View for StoreError {
    type V = ErrorModel;

    open spec fn view(&self) -> ErrorModel {
        match self {
            StoreError::Connection(message) => ErrorModel::Connection(message@),
            StoreError::Validation(issue) => ErrorModel::Validation(*issue),
            StoreError::Serialization(issue) => ErrorModel::Serialization(issue@),
            StoreError::Backend(message) => ErrorModel::Backend(message@),
        }
    }
}

/// The kind of an error.
pub open spec fn kind_of(error: ErrorModel) -> ErrorKind {
    match error {
        ErrorModel::Connection(_) => ErrorKind::Connection,
        ErrorModel::Validation(_) => ErrorKind::Validation,
        ErrorModel::Serialization(_) => ErrorKind::Serialization,
        ErrorModel::Backend(_) => ErrorKind::Backend,
    }
}

impl StoreError {
    /// The kind of this error.
    pub fn kind(&self) -> (r: ErrorKind)
        ensures
            r == kind_of(self@),
    {
        match self {
            StoreError::Connection(_) => ErrorKind::Connection,
            StoreError::Validation(_) => ErrorKind::Validation,
            StoreError::Serialization(_) => ErrorKind::Serialization,
            StoreError::Backend(_) => ErrorKind::Backend,
        }
    }
}

} // verus!
