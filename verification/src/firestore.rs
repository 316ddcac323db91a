//! The Firestore backend: a store bound to one session and one collection, and the
//! reading of what the Firestore client reports.

use crate::collection::Collection;
use crate::error::{ErrorKind, ErrorModel, IssueModel, SerializationIssue, StoreError};
use vstd::prelude::*;

verus! {

/// A failure as the Firestore client reports it, variant by variant, with the texts
/// that it carries.
#[derive(Clone, Debug, PartialEq, Eq)]
pub enum BackendFailure {
    /// A failure that fits no other variant.
    Generic(String),
    /// A response with an error status and no error document in its body.
    UnexpectedResponse { status: u16, body: String, context: String },
    /// An error document of the Firestore API: its code, its message, and the path or
    /// user that the request was about.
    Api { code: usize, message: String, context: String },
    /// The request did not get through: it was malformed, or the connection broke.
    Request(String),
    /// A token could not be encoded or decoded.
    Jwt(String),
    /// A token was not valid.
    JwtValidation(String),
    /// A document could not be converted.
    Ser { doc: Option<String>, detail: String },
    /// A document could not be read back; `input_doc` is what was received.
    SerdeVerbose { doc: Option<String>, input_doc: String, detail: String },
    /// The private key of the credentials was rejected.
    Rsa(String),
    /// The credentials could not be read from disk.
    Io(String),
}

impl BackendFailure {
    /// The text that says what went wrong.
    pub open spec fn message(self) -> Seq<char> {
        match self {
            BackendFailure::Generic(message) => message@,
            BackendFailure::UnexpectedResponse { body, .. } => body@,
            BackendFailure::Api { message, .. } => message@,
            BackendFailure::Request(message) => message@,
            BackendFailure::Jwt(message) => message@,
            BackendFailure::JwtValidation(message) => message@,
            BackendFailure::Ser { detail, .. } => detail@,
            BackendFailure::SerdeVerbose { detail, .. } => detail@,
            BackendFailure::Rsa(message) => message@,
            BackendFailure::Io(message) => message@,
        }
    }

    /// The kind of error that the failure stands for: the backend was not reached or
    /// did not accept the credentials; a document could not be converted; or the
    /// backend answered with a failure of its own.
    pub open spec fn kind(self) -> ErrorKind {
        match self {
            BackendFailure::Request(_) | BackendFailure::Io(_) => ErrorKind::Connection,
            BackendFailure::Jwt(_) | BackendFailure::JwtValidation(_) | BackendFailure::Rsa(
                _,
            ) => ErrorKind::Connection,
            BackendFailure::Ser { .. } | BackendFailure::SerdeVerbose { .. } => ErrorKind::Serialization,
            BackendFailure::Generic(_) | BackendFailure::UnexpectedResponse { .. } | BackendFailure::Api {
                ..
            } => ErrorKind::Backend,
        }
    }

    /// Takes the failure's text out of it.
    pub fn into_message(self) -> (r: String)
        ensures
            r@ == self.message(),
    {
        match self {
            BackendFailure::Generic(message) => message,
            BackendFailure::UnexpectedResponse { body, .. } => body,
            BackendFailure::Api { message, .. } => message,
            BackendFailure::Request(message) => message,
            BackendFailure::Jwt(message) => message,
            BackendFailure::JwtValidation(message) => message,
            BackendFailure::Ser { detail, .. } => detail,
            BackendFailure::SerdeVerbose { detail, .. } => detail,
            BackendFailure::Rsa(message) => message,
            BackendFailure::Io(message) => message,
        }
    }
}

/// The error that a failure of a request becomes. It carries the failure's text.
pub open spec fn classified(failure: BackendFailure) -> ErrorModel {
    match failure.kind() {
        ErrorKind::Connection => ErrorModel::Connection(failure.message()),
        ErrorKind::Serialization => ErrorModel::Serialization(IssueModel::Reported(failure.message())),
        _ => ErrorModel::Backend(failure.message()),
    }
}

/// Turns a failure of a request into the error that the caller sees.
pub fn classify(failure: BackendFailure) -> (r: StoreError)
    ensures
        r@ == classified(failure),
{
    match failure {
        BackendFailure::Request(message) => StoreError::Connection(message),
        BackendFailure::Io(message) => StoreError::Connection(message),
        BackendFailure::Jwt(message) => StoreError::Connection(message),
        BackendFailure::JwtValidation(message) => StoreError::Connection(message),
        BackendFailure::Rsa(message) => StoreError::Connection(message),
        BackendFailure::Ser { detail, .. } => StoreError::Serialization(
            SerializationIssue::Reported(detail),
        ),
        BackendFailure::SerdeVerbose { detail, .. } => StoreError::Serialization(
            SerializationIssue::Reported(detail),
        ),
        BackendFailure::Generic(message) => StoreError::Backend(message),
        BackendFailure::UnexpectedResponse { body, .. } => StoreError::Backend(body),
        BackendFailure::Api { message, .. } => StoreError::Backend(message),
    }
}

/// Turns the outcome of a request into the reply that a batch or a search takes: what
/// the backend returned as it is, and a failure as the error that it becomes.
pub fn reply_of<T>(outcome: Result<T, BackendFailure>) -> (r: Result<T, StoreError>)
    ensures
        match outcome {
            Ok(value) => r == Ok::<T, StoreError>(value),
            Err(failure) => r is Err && r->Err_0@ == classified(failure),
        },
{
    match outcome {
        Ok(value) => Ok(value),
        Err(failure) => Err(classify(failure)),
    }
}

/// What follows the last `/` of a name, or the whole name where it has none.
pub open spec fn last_segment(name: Seq<char>) -> Seq<char>
    decreases name.len(),
{
    if name.len() == 0 || name.last() == '/' {
        Seq::empty()
    } else {
        last_segment(name.drop_last()).push(name.last())
    }
}

/// The last segment starts behind the last `/`.
proof fn lemma_last_segment(name: Seq<char>, start: int)
    requires
        0 <= start <= name.len(),
        forall|j: int| start <= j < name.len() ==> name[j] != '/',
        start == 0 || name[start - 1] == '/',
    ensures
        last_segment(name) == name.subrange(start, name.len() as int),
    decreases name.len(),
{
    if name.len() == start {
        assert(name.subrange(start, name.len() as int) =~= Seq::<char>::empty());
    } else {
        let shorter = name.drop_last();
        lemma_last_segment(shorter, start);
        assert(shorter.subrange(start, shorter.len() as int).push(name.last()) =~= name.subrange(
            start,
            name.len() as int,
        ));
    }
}

/// The identifier of a document, from the name under which Firestore returns it: a
/// path whose last segment is the identifier.
pub fn document_id(name: &str) -> (r: String)
    ensures
        r@ == last_segment(name@),
{
    let end = name.unicode_len();
    let mut start: usize = end;
    while start > 0 && name.get_char(start - 1) != '/'
        invariant
            start <= end,
            end == name@.len(),
            forall|j: int| start <= j < end ==> name@[j] != '/',
        decreases start,
    {
        start -= 1;
    }
    proof {
        lemma_last_segment(name@, start as int);
    }
    name.substring_char(start, end).to_owned()
}

/// A vector store on a Firestore collection. It owns its session, which it shares with
/// no other store, and is bound to one collection for as long as it lives.
#[derive(Debug)]
pub struct FirestoreStore<S> {
    session: S,
    collection: Collection,
}

impl<S> FirestoreStore<S> {
    /// The session that the store owns.
    pub closed spec fn bound_session(self) -> S {
        self.session
    }

    /// The collection that the store is bound to.
    pub closed spec fn bound_collection(self) -> Collection {
        self.collection
    }

    /// Makes the store from the outcome of opening a session.
    ///
    /// Where the session was opened the store owns it and is bound to
    /// `collection_name`, with no dimension configured. Where it was not, whatever the
    /// reason, there is no store: the result is a connection error with the failure's
    /// text.
    pub fn new(handshake: Result<S, BackendFailure>, collection_name: &str) -> (r: Result<
        Self,
        StoreError,
    >)
        ensures
            match handshake {
                Ok(session) => r is Ok && r->Ok_0.bound_session() == session
                    && r->Ok_0.bound_collection().name@ == collection_name@
                    && r->Ok_0.bound_collection().dimension is None,
                Err(failure) => r is Err && r->Err_0@ == ErrorModel::Connection(failure.message()),
            },
    {
        match handshake {
            Ok(session) => Ok(
                FirestoreStore {
                    session,
                    collection: Collection { name: collection_name.to_owned(), dimension: None },
                },
            ),
            Err(failure) => Err(StoreError::Connection(failure.into_message())),
        }
    }

    /// Configures the number of coordinates that every embedding of the collection has.
    pub fn with_dimension(self, dimension: usize) -> (r: Self)
        ensures
            r.bound_session() == self.bound_session(),
            r.bound_collection().name == self.bound_collection().name,
            r.bound_collection().dimension == Some(dimension),
    {
        FirestoreStore {
            session: self.session,
            collection: Collection { name: self.collection.name, dimension: Some(dimension) },
        }
    }

    /// The session, for the caller to send requests with.
    pub fn session(&self) -> (r: &S)
        ensures
            *r == self.bound_session(),
    {
        &self.session
    }

    /// The collection, which prepares the store's operations.
    pub fn collection(&self) -> (r: &Collection)
        ensures
            *r == self.bound_collection(),
    {
        &self.collection
    }
}

} // verus!
