//! Adding documents: one create request per document, in the order of the input.
//!
//! The dimensions of all documents are checked before anything is sent. Each document is
//! then converted to its stored form just before its own request goes out, and the
//! requests are sent one after the other. A batch is not atomic: when a document cannot
//! be converted, or the backend fails a request, the documents before it stay stored, and
//! the failure names their identifiers. Nothing is rolled back.

use crate::codec::{encode, encode_model, NativeDocument, NativeModel};
use crate::collection::Collection;
use crate::error::{ErrorModel, IssueModel, StoreError, ValidationIssue};
use crate::first::{first_where, is_first, lemma_first_absent, lemma_first_found};
use crate::model::{documents_model, DocumentModel, VecStoreOptions, VectorDocument, WriteConcern};
use vstd::prelude::*;

verus! {

/// A batch with at least one document still to be created. It borrows the documents
/// and holds the stored form of the one whose request is to be sent now.
#[derive(Debug)]
pub struct AddBatch<'a> {
    collection: String,
    write_concern: WriteConcern,
    documents: &'a [VectorDocument],
    current: NativeDocument,
    assigned: Vec<String>,
}

/// The mathematical content of an [`AddBatch`].
pub ghost struct BatchModel {
    pub collection: Seq<char>,
    pub write_concern: WriteConcern,
    /// All documents of the batch, in the order of the input.
    pub documents: Seq<DocumentModel>,
    /// The identifiers that the backend has assigned so far, in the same order.
    pub assigned: Seq<Seq<char>>,
}

impl BatchModel {
    /// Not every document has its identifier yet, and the first one without has a
    /// stored form.
    pub open spec fn wf(self) -> bool {
        &&& self.assigned.len() < self.documents.len()
        &&& encode_model(self.documents[self.assigned.len() as int]) is Ok
    }

    /// The stored form of the document whose request is to be sent now.
    pub open spec fn current(self) -> NativeModel {
        encode_model(self.documents[self.assigned.len() as int])->Ok_0
    }
}

/// The create request that a batch sends next.
#[derive(Debug)]
pub struct CreateRequest<'a> {
    pub collection: &'a str,
    pub document: &'a NativeDocument,
    pub write_concern: WriteConcern,
}

/// A batch that did not complete.
#[derive(Debug, PartialEq, Eq)]
pub struct AddFailure {
    pub error: StoreError,
    /// The identifiers of the documents that were created before the failure.
    pub committed: Vec<String>,
}

/// The mathematical content of an [`AddFailure`].
pub ghost struct FailureModel {
    pub error: ErrorModel,
    pub committed: Seq<Seq<char>>,
}

/// Where a batch stands.
#[derive(Debug)]
pub enum AddProgress<'a> {
    /// A request is to be sent, and its reply handed to [`AddBatch::advance`].
    Pending(AddBatch<'a>),
    /// Every document was created; these are the identifiers, in the order of the input.
    Done(Vec<String>),
    Failed(AddFailure),
}

/// The mathematical content of an [`AddProgress`].
pub ghost enum ProgressModel {
    Pending(BatchModel),
    Done(Seq<Seq<char>>),
    Failed(FailureModel),
}

/// The characters of each string of a list.
pub open spec fn texts(strings: Seq<String>) -> Seq<Seq<char>> {
    Seq::new(strings.len(), |i: int| strings[i]@)
}

impl<'a> View for AddBatch<'a> {
    type V = BatchModel;

    closed spec fn view(&self) -> BatchModel {
        BatchModel {
            collection: self.collection@,
            write_concern: self.write_concern,
            documents: documents_model(self.documents@),
            assigned: texts(self.assigned@),
        }
    }
}

impl View for AddFailure {
    type V = FailureModel;

    open spec fn view(&self) -> FailureModel {
        FailureModel { error: self.error@, committed: texts(self.committed@) }
    }
}

impl<'a> View for AddProgress<'a> {
    type V = ProgressModel;

    open spec fn view(&self) -> ProgressModel {
        match self {
            AddProgress::Pending(batch) => ProgressModel::Pending(batch@),
            AddProgress::Done(ids) => ProgressModel::Done(texts(ids@)),
            AddProgress::Failed(failure) => ProgressModel::Failed(failure@),
        }
    }
}

/// The test that an embedding does not have `expected` coordinates.
pub open spec fn wrong_dimension(expected: usize) -> spec_fn(DocumentModel) -> bool {
    |doc: DocumentModel| doc.embedding.len() != expected
}

/// The first document whose embedding does not fit the configured dimension.
pub open spec fn first_mismatch(dimension: Option<usize>, docs: Seq<DocumentModel>) -> Option<int> {
    match dimension {
        Some(expected) => first_where(docs, wrong_dimension(expected)),
        None => None,
    }
}

/// Where a batch stands once the documents before `assigned.len()` have the identifiers
/// `assigned`. With none left it is done. Otherwise the next document is converted: the
/// batch waits for the reply to its request, or, where the document has no stored form,
/// fails with a serialization error that names what was created so far.
pub open spec fn next_model(
    collection: Seq<char>,
    write_concern: WriteConcern,
    docs: Seq<DocumentModel>,
    assigned: Seq<Seq<char>>,
) -> ProgressModel {
    if assigned.len() >= docs.len() {
        ProgressModel::Done(assigned)
    } else {
        match encode_model(docs[assigned.len() as int]) {
            Err(issue) => ProgressModel::Failed(
                FailureModel { error: ErrorModel::Serialization(issue), committed: assigned },
            ),
            Ok(_) => ProgressModel::Pending(
                BatchModel { collection, write_concern, documents: docs, assigned },
            ),
        }
    }
}

/// Where a batch stands before anything is sent. The first document of a wrong
/// dimension fails the batch with a validation error. Failing that, the batch goes on
/// with its first document, and a batch of no documents is done at once.
pub open spec fn begin_model(
    collection: Seq<char>,
    dimension: Option<usize>,
    docs: Seq<DocumentModel>,
    write_concern: WriteConcern,
) -> ProgressModel {
    match first_mismatch(dimension, docs) {
        Some(i) => ProgressModel::Failed(
            FailureModel {
                error: ErrorModel::Validation(
                    ValidationIssue::DocumentDimension {
                        index: i as usize,
                        expected: dimension->Some_0,
                        found: docs[i].embedding.len() as usize,
                    },
                ),
                committed: Seq::empty(),
            },
        ),
        None => next_model(collection, write_concern, docs, Seq::empty()),
    }
}

/// Where a batch stands after the backend has replied to its request. A failure ends
/// the batch with the backend's error. An identifier is noted, and the batch goes on
/// with the next document.
pub open spec fn step_model(batch: BatchModel, reply: Result<Seq<char>, ErrorModel>) -> ProgressModel {
    match reply {
        Err(error) => ProgressModel::Failed(FailureModel { error, committed: batch.assigned }),
        Ok(id) => next_model(
            batch.collection,
            batch.write_concern,
            batch.documents,
            batch.assigned.push(id),
        ),
    }
}

/// The contents of a backend's reply to a create request.
pub open spec fn created_model(reply: Result<String, StoreError>) -> Result<Seq<char>, ErrorModel> {
    match reply {
        Ok(id) => Ok(id@),
        Err(error) => Err(error@),
    }
}

/// Goes on with the first document that has no identifier yet.
fn next<'a>(
    collection: String,
    write_concern: WriteConcern,
    documents: &'a [VectorDocument],
    assigned: Vec<String>,
) -> (r: AddProgress<'a>)
    ensures
        r@ == next_model(collection@, write_concern, documents_model(documents@), texts(assigned@)),
{
    if assigned.len() >= documents.len() {
        return AddProgress::Done(assigned);
    }
    match encode(&documents[assigned.len()]) {
        Err(issue) => AddProgress::Failed(
            AddFailure { error: StoreError::Serialization(issue), committed: assigned },
        ),
        Ok(current) => AddProgress::Pending(
            AddBatch { collection, write_concern, documents, current, assigned },
        ),
    }
}

impl Collection {
    /// Prepares the creation of `docs` in this collection.
    ///
    /// The documents are not changed. Where the result is `Pending`, the caller sends
    /// the batch's request and hands the reply to [`AddBatch::advance`], until the
    /// batch is done or has failed.
    pub fn add_documents<'a>(&self, docs: &'a [VectorDocument], opt: &VecStoreOptions) -> (r:
        AddProgress<'a>)
        ensures
            r@ == begin_model(self.name@, self.dimension, documents_model(docs@), opt.write_concern),
    {
        let ghost models = documents_model(docs@);
        let assigned: Vec<String> = Vec::new();
        assert(texts(assigned@) =~= Seq::<Seq<char>>::empty());
        match self.dimension {
            Some(expected) => {
                let ghost p = wrong_dimension(expected);
                let mut i: usize = 0;
                while i < docs.len()
                    invariant
                        i <= docs.len(),
                        models == documents_model(docs@),
                        p == wrong_dimension(expected),
                        self.dimension == Some(expected),
                        texts(assigned@) == Seq::<Seq<char>>::empty(),
                        forall|j: int| 0 <= j < i ==> !p(#[trigger] models[j]),
                    decreases docs.len() - i,
                {
                    let found = docs[i].embedding.len();
                    if found != expected {
                        proof {
                            assert(p(models[i as int]));
                            assert(is_first(models, p, i as int));
                            lemma_first_found(models, p, i as int);
                        }
                        return AddProgress::Failed(
                            AddFailure {
                                error: StoreError::Validation(
                                    ValidationIssue::DocumentDimension { index: i, expected, found },
                                ),
                                committed: assigned,
                            },
                        );
                    }
                    assert(!p(models[i as int]));
                    i += 1;
                }
                proof {
                    lemma_first_absent(models, p);
                }
            },
            None => {},
        }
        next(self.name.clone(), opt.write_concern, docs, assigned)
    }
}

impl<'a> AddBatch<'a> {
    #[verifier::type_invariant]
    spec fn inv(self) -> bool {
        &&& self.assigned@.len() < self.documents@.len()
        &&& encode_model(self.documents@[self.assigned@.len() as int]@) == Ok::<
            NativeModel,
            IssueModel,
        >(self.current@)
    }

    /// The request to send now: the creation of the first document that has no
    /// identifier yet, in its stored form.
    pub fn request(&self) -> (r: CreateRequest<'_>)
        ensures
            self@.wf(),
            r.collection@ == self@.collection,
            r.document@ == self@.current(),
            r.write_concern == self@.write_concern,
    {
        proof {
            use_type_invariant(self);
        }
        CreateRequest {
            collection: self.collection.as_str(),
            document: &self.current,
            write_concern: self.write_concern,
        }
    }

    /// Gives the batch up before it is done, as a caller does whose deadline has passed.
    /// No further request is sent; the result names the documents that were created.
    pub fn abandon(self) -> (r: Vec<String>)
        ensures
            texts(r@) == self@.assigned,
    {
        self.assigned
    }

    /// Takes the backend's reply to the request and says where the batch stands now.
    pub fn advance(self, reply: Result<String, StoreError>) -> (r: AddProgress<'a>)
        ensures
            r@ == step_model(self@, created_model(reply)),
    {
        let AddBatch { collection, write_concern, documents, current, assigned } = self;
        match reply {
            Err(error) => AddProgress::Failed(AddFailure { error, committed: assigned }),
            Ok(id) => {
                let mut assigned = assigned;
                let ghost before = texts(assigned@);
                assigned.push(id);
                assert(texts(assigned@) =~= before.push(id@));
                next(collection, write_concern, documents, assigned)
            },
        }
    }
}

} // verus!
