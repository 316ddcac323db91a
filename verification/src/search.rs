//! Similarity search: what is asked of the backend, and what becomes of its answer.

use crate::codec::{
    decode, decode_model, embedding_key, encode_vector, encode_vector_model, natives_model,
    NativeDocument, NativeModel,
};
use crate::collection::Collection;
use crate::error::{ErrorKind, ErrorModel, StoreError, ValidationIssue, kind_of};
use crate::first::{first_where, is_first, lemma_first_absent, lemma_first_found};
use crate::json::{JsonModel, JsonValue};
use crate::model::{documents_model, DocumentModel, VecStoreOptions, VectorDocument};
use vstd::prelude::*;

verus! {

/// A search that has passed validation and waits for the backend's answer.
#[derive(Debug)]
pub struct SearchPlan {
    collection: String,
    vector: JsonValue,
    top_k: usize,
}

/// The mathematical content of a [`SearchPlan`].
pub ghost struct PlanModel {
    pub collection: Seq<char>,
    /// The query vector in its stored form: an array of numbers.
    pub vector: JsonModel,
    pub top_k: usize,
}

/// The one query that a search sends: the `top_k` documents of `collection` whose
/// vectors, held in `field`, are nearest to `vector`.
#[derive(Debug)]
pub struct QueryRequest<'a> {
    pub collection: &'a str,
    /// The key of the field that holds the vectors to rank.
    pub field: &'static str,
    pub vector: &'a JsonValue,
    pub top_k: usize,
}

impl View for SearchPlan {
    type V = PlanModel;

    closed spec fn view(&self) -> PlanModel {
        PlanModel { collection: self.collection@, vector: self.vector@, top_k: self.top_k }
    }
}

/// What a search over `collection` does with its arguments. The checks come in this
/// order: `top_k`, an empty query, the dimension, the coordinates.
pub open spec fn plan_model(
    collection: Seq<char>,
    dimension: Option<usize>,
    query: Seq<u64>,
    top_k: usize,
) -> Result<PlanModel, ErrorModel> {
    if top_k == 0 {
        Err(ErrorModel::Validation(ValidationIssue::ZeroTopK))
    } else if query.len() == 0 {
        Err(ErrorModel::Validation(ValidationIssue::EmptyQuery))
    } else if dimension is Some && dimension->Some_0 != query.len() {
        Err(
            ErrorModel::Validation(
                ValidationIssue::QueryDimension {
                    expected: dimension->Some_0,
                    found: query.len() as usize,
                },
            ),
        )
    } else {
        match encode_vector_model(query) {
            Err(issue) => Err(ErrorModel::Serialization(issue)),
            Ok(vector) => Ok(PlanModel { collection, vector, top_k }),
        }
    }
}

/// The test that a stored document cannot be read back.
pub open spec fn undecodable() -> spec_fn(NativeModel) -> bool {
    |native: NativeModel| decode_model(native) is Err
}

/// The documents that a list of stored documents stands for.
pub open spec fn decoded(natives: Seq<NativeModel>) -> Seq<DocumentModel> {
    Seq::new(natives.len(), |i: int| decode_model(natives[i])->Ok_0)
}

/// How many of `returned` documents a search for `top_k` keeps.
pub open spec fn kept(top_k: usize, returned: nat) -> int {
    if top_k <= returned {
        top_k as int
    } else {
        returned as int
    }
}

/// The result of a search for `top_k` documents, given the backend's answer. A failure
/// of the backend is handed on. Every returned document is read back; the first that
/// cannot be read fails the search. Otherwise the documents are returned in the
/// backend's order, the first `top_k` of them where it sent more.
pub open spec fn result_model(top_k: usize, reply: Result<Seq<NativeModel>, ErrorModel>) -> Result<
    Seq<DocumentModel>,
    ErrorModel,
> {
    match reply {
        Err(error) => Err(error),
        Ok(natives) => match first_where(natives, undecodable()) {
            Some(i) => Err(ErrorModel::Serialization(decode_model(natives[i])->Err_0)),
            None => Ok(decoded(natives).take(kept(top_k, natives.len()))),
        },
    }
}

/// The contents of a backend's answer to a query.
pub open spec fn reply_model(reply: Result<Vec<NativeDocument>, StoreError>) -> Result<
    Seq<NativeModel>,
    ErrorModel,
> {
    match reply {
        Ok(natives) => Ok(natives_model(natives@)),
        Err(error) => Err(error@),
    }
}

impl Collection {
    /// Prepares a search for the `top_k` documents nearest to `query_vector`.
    ///
    /// Nothing is sent on an error: a search for no documents, an empty query, and a
    /// query whose length is not the collection's configured dimension are refused with
    /// a validation error, and a query with a coordinate that is not finite with a
    /// serialization error. Otherwise the plan holds the request to send. The options
    /// do not bear on a search.
    pub fn similarity_search(
        &self,
        query_vector: &[u64],
        top_k: usize,
        opt: &VecStoreOptions,
    ) -> (r: Result<SearchPlan, StoreError>)
        ensures
            match r {
                Ok(plan) => plan_model(self.name@, self.dimension, query_vector@, top_k) == Ok::<
                    PlanModel,
                    ErrorModel,
                >(plan@),
                Err(error) => plan_model(self.name@, self.dimension, query_vector@, top_k) == Err::<
                    PlanModel,
                    ErrorModel,
                >(error@),
            },
            top_k == 0 ==> r is Err && kind_of(r->Err_0@) == ErrorKind::Validation,
            query_vector@.len() == 0 ==> r is Err && kind_of(r->Err_0@) == ErrorKind::Validation,
            self.dimension is Some && self.dimension->Some_0 != query_vector@.len() ==> r is Err
                && kind_of(r->Err_0@) == ErrorKind::Validation,
    {
        if top_k == 0 {
            return Err(StoreError::Validation(ValidationIssue::ZeroTopK));
        }
        if query_vector.len() == 0 {
            return Err(StoreError::Validation(ValidationIssue::EmptyQuery));
        }
        match self.dimension {
            Some(expected) => {
                if expected != query_vector.len() {
                    return Err(
                        StoreError::Validation(
                            ValidationIssue::QueryDimension {
                                expected,
                                found: query_vector.len(),
                            },
                        ),
                    );
                }
            },
            None => {},
        }
        match encode_vector(query_vector) {
            Err(issue) => Err(StoreError::Serialization(issue)),
            Ok(vector) => Ok(SearchPlan { collection: self.name.clone(), vector, top_k }),
        }
    }
}

impl SearchPlan {
    /// The query to send to the backend.
    pub fn request(&self) -> (r: QueryRequest<'_>)
        ensures
            r.collection@ == self@.collection,
            r.field@ == embedding_key(),
            r.vector@ == self@.vector,
            r.top_k == self@.top_k,
    {
        QueryRequest {
            collection: self.collection.as_str(),
            field: "embedding",
            vector: &self.vector,
            top_k: self.top_k,
        }
    }

    /// Turns the backend's answer into the result of the search.
    ///
    /// The result never holds more than `top_k` documents, and holds them in the
    /// backend's order.
    pub fn finish(&self, reply: Result<Vec<NativeDocument>, StoreError>) -> (r: Result<
        Vec<VectorDocument>,
        StoreError,
    >)
        ensures
            match r {
                Ok(docs) => result_model(self@.top_k, reply_model(reply)) == Ok::<
                    Seq<DocumentModel>,
                    ErrorModel,
                >(documents_model(docs@)),
                Err(error) => result_model(self@.top_k, reply_model(reply)) == Err::<
                    Seq<DocumentModel>,
                    ErrorModel,
                >(error@),
            },
            r matches Ok(docs) ==> docs@.len() <= self@.top_k,
    {
        let natives = match reply {
            Ok(natives) => natives,
            Err(error) => {
                return Err(error);
            },
        };
        let ghost models = natives_model(natives@);
        let ghost p = undecodable();
        let mut docs: Vec<VectorDocument> = Vec::new();
        let mut i: usize = 0;
        while i < natives.len()
            invariant
                i <= natives.len(),
                models == natives_model(natives@),
                reply_model(reply) == Ok::<Seq<NativeModel>, ErrorModel>(models),
                p == undecodable(),
                forall|j: int| 0 <= j < i ==> !p(#[trigger] models[j]),
                docs@.len() == kept(self.top_k, i as nat),
                documents_model(docs@) == decoded(models).take(kept(self.top_k, i as nat)),
            decreases natives.len() - i,
        {
            match decode(&natives[i]) {
                Err(issue) => {
                    proof {
                        assert(p(models[i as int]));
                        assert(is_first(models, p, i as int));
                        lemma_first_found(models, p, i as int);
                    }
                    return Err(StoreError::Serialization(issue));
                },
                Ok(doc) => {
                    assert(!p(models[i as int]));
                    if docs.len() < self.top_k {
                        let ghost before = documents_model(docs@);
                        docs.push(doc);
                        assert(documents_model(docs@) =~= before.push(doc@));
                        assert(documents_model(docs@) =~= decoded(models).take(
                            kept(self.top_k, (i + 1) as nat),
                        ));
                    } else {
                        assert(kept(self.top_k, i as nat) == kept(self.top_k, (i + 1) as nat));
                    }
                },
            }
            i += 1;
        }
        proof {
            lemma_first_absent(models, p);
        }
        Ok(docs)
    }
}

} // verus!
