//! What holds of whole operations, whatever the backend does.
//!
//! An operation is modelled from its arguments and from the backend's replies: the
//! replies to the create requests of a batch, in the order in which they arrive, and
//! the answer to the query of a search, as a function of that query.

use crate::batch::{
    begin_model, first_mismatch, next_model, step_model, wrong_dimension, FailureModel,
    ProgressModel,
};
use crate::codec::{
    decode_model, encode_model, first_non_finite, lemma_decode_inverts_encode, non_finite,
    NativeModel,
};
use crate::error::{kind_of, ErrorKind, ErrorModel};
use crate::first::{lemma_first_absent, lemma_first_where};
use crate::json::is_finite_bits;
use crate::model::{DocumentModel, WriteConcern};
use crate::search::{decoded, kept, plan_model, result_model, undecodable, PlanModel};
use vstd::prelude::*;

verus! {

/// Where a batch stands after the given replies. Replies that arrive after the batch
/// is done or has failed change nothing.
pub open spec fn run_model(
    progress: ProgressModel,
    replies: Seq<Result<Seq<char>, ErrorModel>>,
) -> ProgressModel
    decreases replies.len(),
{
    if replies.len() == 0 {
        progress
    } else {
        match progress {
            ProgressModel::Pending(batch) => run_model(
                step_model(batch, replies[0]),
                replies.drop_first(),
            ),
            _ => progress,
        }
    }
}

/// The replies of a backend that creates one document after the other and assigns
/// them `ids`.
pub open spec fn created(ids: Seq<Seq<char>>) -> Seq<Result<Seq<char>, ErrorModel>> {
    Seq::new(ids.len(), |i: int| Ok(ids[i]))
}

/// The whole of a search: the plan, and what becomes of the backend's answer to it.
pub open spec fn search_model(
    collection: Seq<char>,
    dimension: Option<usize>,
    query: Seq<u64>,
    top_k: usize,
    backend: spec_fn(PlanModel) -> Result<Seq<NativeModel>, ErrorModel>,
) -> Result<Seq<DocumentModel>, ErrorModel> {
    match plan_model(collection, dimension, query, top_k) {
        Err(error) => Err(error),
        Ok(plan) => result_model(top_k, backend(plan)),
    }
}

/// Every document of `docs` from position `from` up to, but not including, position
/// `to` has a stored form.
pub open spec fn convertible(docs: Seq<DocumentModel>, from: int, to: int) -> bool {
    forall|j: int| from <= j < to && 0 <= j < docs.len() ==> encode_model(#[trigger] docs[j]) is Ok
}

/// Documents whose coordinates are all finite have stored forms.
pub proof fn lemma_finite_documents_convert(docs: Seq<DocumentModel>)
    requires
        forall|i: int, j: int|
            0 <= i < docs.len() && 0 <= j < docs[i].embedding.len() ==> is_finite_bits(
                #[trigger] docs[i].embedding[j],
            ),
    ensures
        convertible(docs, 0, docs.len() as int),
{
    assert forall|i: int| 0 <= i < docs.len() implies encode_model(#[trigger] docs[i]) is Ok by {
        let vector = docs[i].embedding;
        assert forall|j: int| 0 <= j < vector.len() implies !non_finite()(#[trigger] vector[j]) by {
            assert(is_finite_bits(docs[i].embedding[j]));
        }
        lemma_first_absent(vector, non_finite());
        assert(first_non_finite(vector) is None);
    }
}

/// A batch that is done or has failed stays as it is, whatever arrives.
pub proof fn lemma_settled_stays(progress: ProgressModel, replies: Seq<Result<Seq<char>, ErrorModel>>)
    requires
        !(progress is Pending),
    ensures
        run_model(progress, replies) == progress,
{
}

/// Replies may be taken in two parts.
pub proof fn lemma_run_append(
    progress: ProgressModel,
    first: Seq<Result<Seq<char>, ErrorModel>>,
    then: Seq<Result<Seq<char>, ErrorModel>>,
)
    ensures
        run_model(progress, first + then) == run_model(run_model(progress, first), then),
    decreases first.len(),
{
    if first.len() == 0 {
        assert(first + then =~= then);
    } else {
        match progress {
            ProgressModel::Pending(batch) => {
                assert((first + then)[0] == first[0]);
                assert((first + then).drop_first() =~= first.drop_first() + then);
                lemma_run_append(step_model(batch, first[0]), first.drop_first(), then);
            },
            _ => {
                lemma_settled_stays(progress, first + then);
                lemma_settled_stays(progress, then);
            },
        }
    }
}

/// A batch whose next documents have stored forms, and whose backend creates them,
/// notes the identifiers in order, after those that it had, and then goes on with the
/// document that follows.
pub proof fn lemma_created_in_order(
    collection: Seq<char>,
    write_concern: WriteConcern,
    docs: Seq<DocumentModel>,
    assigned: Seq<Seq<char>>,
    ids: Seq<Seq<char>>,
)
    requires
        assigned.len() + ids.len() <= docs.len(),
        convertible(docs, assigned.len() as int, (assigned.len() + ids.len()) as int),
    ensures
        run_model(next_model(collection, write_concern, docs, assigned), created(ids))
            == next_model(collection, write_concern, docs, assigned + ids),
    decreases ids.len(),
{
    if ids.len() == 0 {
        assert(assigned + ids =~= assigned);
    } else {
        let replies = created(ids);
        let rest = ids.drop_first();
        assert(encode_model(docs[assigned.len() as int]) is Ok);
        let start = next_model(collection, write_concern, docs, assigned);
        assert(start is Pending);
        assert(replies[0] == Ok::<Seq<char>, ErrorModel>(ids[0]));
        assert(replies.drop_first() =~= created(rest));
        assert(assigned.push(ids[0]) + rest =~= assigned + ids);
        assert(run_model(start, replies) == run_model(
            step_model(start->Pending_0, replies[0]),
            replies.drop_first(),
        ));
        lemma_created_in_order(collection, write_concern, docs, assigned.push(ids[0]), rest);
    }
}

/// Adding documents returns one identifier for each, in the order of the input.
///
/// Take documents whose embeddings have the collection's dimension, where one is
/// configured, and only finite coordinates, and a backend that creates each of them.
/// Then the result is the list of the identifiers that the backend assigned, the
/// `i`-th being that of the `i`-th document: as many as there are documents. And the
/// request that is sent once `k` documents are created holds the stored form of
/// document `k`.
pub proof fn lemma_add_returns_ids_in_order(
    collection: Seq<char>,
    dimension: Option<usize>,
    docs: Seq<DocumentModel>,
    write_concern: WriteConcern,
    ids: Seq<Seq<char>>,
)
    requires
        dimension is Some ==> forall|i: int|
            0 <= i < docs.len() ==> (#[trigger] docs[i]).embedding.len() == dimension->Some_0,
        forall|i: int, j: int|
            0 <= i < docs.len() && 0 <= j < docs[i].embedding.len() ==> is_finite_bits(
                #[trigger] docs[i].embedding[j],
            ),
        ids.len() == docs.len(),
    ensures
        run_model(begin_model(collection, dimension, docs, write_concern), created(ids))
            == ProgressModel::Done(ids),
        forall|k: int|
            0 <= k < docs.len() ==> {
                let progress = #[trigger] run_model(
                    begin_model(collection, dimension, docs, write_concern),
                    created(ids.take(k)),
                );
                &&& progress is Pending
                &&& progress->Pending_0.wf()
                &&& progress->Pending_0.assigned == ids.take(k)
                &&& progress->Pending_0.current() == encode_model(docs[k])->Ok_0
            },
{
    lemma_matching_documents_pass(dimension, docs);
    lemma_finite_documents_convert(docs);
    let none = Seq::<Seq<char>>::empty();
    lemma_created_in_order(collection, write_concern, docs, none, ids);
    assert(none + ids =~= ids);
    assert forall|k: int| 0 <= k < docs.len() implies {
        let progress = #[trigger] run_model(
            begin_model(collection, dimension, docs, write_concern),
            created(ids.take(k)),
        );
        &&& progress is Pending
        &&& progress->Pending_0.wf()
        &&& progress->Pending_0.assigned == ids.take(k)
        &&& progress->Pending_0.current() == encode_model(docs[k])->Ok_0
    } by {
        lemma_created_in_order(collection, write_concern, docs, none, ids.take(k));
        assert(none + ids.take(k) =~= ids.take(k));
        assert(encode_model(docs[k]) is Ok);
    }
}

/// Documents of the configured dimension pass the check that comes before anything is
/// sent.
pub proof fn lemma_matching_documents_pass(dimension: Option<usize>, docs: Seq<DocumentModel>)
    requires
        dimension is Some ==> forall|i: int|
            0 <= i < docs.len() ==> (#[trigger] docs[i]).embedding.len() == dimension->Some_0,
    ensures
        first_mismatch(dimension, docs) is None,
{
    if dimension is Some {
        lemma_first_where(docs, wrong_dimension(dimension->Some_0));
    }
}

/// A batch is not atomic, and a failure of the backend is what it reports.
///
/// Take documents that pass the dimension check, of which the backend creates the
/// first `ids.len()` and fails the next, all of these having stored forms. Then the
/// batch fails with the backend's error, the documents created before stay committed
/// and are named in the failure, and neither the documents behind the failing one nor
/// anything that arrives later matters.
pub proof fn lemma_backend_failure_keeps_prefix(
    collection: Seq<char>,
    dimension: Option<usize>,
    docs: Seq<DocumentModel>,
    write_concern: WriteConcern,
    ids: Seq<Seq<char>>,
    error: ErrorModel,
    later: Seq<Result<Seq<char>, ErrorModel>>,
)
    requires
        first_mismatch(dimension, docs) is None,
        ids.len() < docs.len(),
        convertible(docs, 0, (ids.len() + 1) as int),
    ensures
        run_model(
            begin_model(collection, dimension, docs, write_concern),
            created(ids) + seq![Err::<Seq<char>, ErrorModel>(error)] + later,
        ) == ProgressModel::Failed(FailureModel { error, committed: ids }),
{
    let begin = begin_model(collection, dimension, docs, write_concern);
    let none = Seq::<Seq<char>>::empty();
    let failing = seq![Err::<Seq<char>, ErrorModel>(error)];
    lemma_created_in_order(collection, write_concern, docs, none, ids);
    assert(none + ids =~= ids);
    let reached = next_model(collection, write_concern, docs, ids);
    assert(encode_model(docs[ids.len() as int]) is Ok);
    assert(reached is Pending);
    let failed = ProgressModel::Failed(FailureModel { error, committed: ids });
    assert(run_model(reached, failing) == failed) by {
        assert(failing.drop_first().len() == 0);
        assert(run_model(step_model(reached->Pending_0, failing[0]), failing.drop_first())
            == failed);
    }
    lemma_run_append(begin, created(ids), failing);
    lemma_run_append(begin, created(ids) + failing, later);
    lemma_settled_stays(failed, later);
}

/// A document that cannot be converted ends the batch where it stands.
///
/// Take documents that pass the dimension check, of which the first `ids.len()` have
/// stored forms and are created by the backend, and the next has none. Then the batch
/// fails with the serialization error of that document, no request is sent for it or
/// for any document behind it, and the documents created before stay committed and
/// are named in the failure.
pub proof fn lemma_unconvertible_document_keeps_prefix(
    collection: Seq<char>,
    dimension: Option<usize>,
    docs: Seq<DocumentModel>,
    write_concern: WriteConcern,
    ids: Seq<Seq<char>>,
    later: Seq<Result<Seq<char>, ErrorModel>>,
)
    requires
        first_mismatch(dimension, docs) is None,
        ids.len() < docs.len(),
        convertible(docs, 0, ids.len() as int),
        encode_model(docs[ids.len() as int]) is Err,
    ensures
        run_model(begin_model(collection, dimension, docs, write_concern), created(ids) + later)
            == ProgressModel::Failed(
            FailureModel {
                error: ErrorModel::Serialization(encode_model(docs[ids.len() as int])->Err_0),
                committed: ids,
            },
        ),
{
    let begin = begin_model(collection, dimension, docs, write_concern);
    let none = Seq::<Seq<char>>::empty();
    lemma_created_in_order(collection, write_concern, docs, none, ids);
    assert(none + ids =~= ids);
    lemma_run_append(begin, created(ids), later);
    lemma_settled_stays(next_model(collection, write_concern, docs, ids), later);
}

/// A search never returns more than `top_k` documents, whatever the backend answers.
pub proof fn lemma_search_within_top_k(
    collection: Seq<char>,
    dimension: Option<usize>,
    query: Seq<u64>,
    top_k: usize,
    backend: spec_fn(PlanModel) -> Result<Seq<NativeModel>, ErrorModel>,
)
    ensures
        search_model(collection, dimension, query, top_k, backend) matches Ok(docs) ==> docs.len()
            <= top_k,
{
}

/// A query whose length is not the collection's dimension fails with a validation
/// error, and the backend has no part in it: the result is the same whatever the
/// backend would have answered.
pub proof fn lemma_mismatched_query_is_refused(
    collection: Seq<char>,
    dimension: usize,
    query: Seq<u64>,
    top_k: usize,
    backend: spec_fn(PlanModel) -> Result<Seq<NativeModel>, ErrorModel>,
    other: spec_fn(PlanModel) -> Result<Seq<NativeModel>, ErrorModel>,
)
    requires
        query.len() != dimension,
    ensures
        search_model(collection, Some(dimension), query, top_k, backend) is Err,
        kind_of(search_model(collection, Some(dimension), query, top_k, backend)->Err_0)
            == ErrorKind::Validation,
        search_model(collection, Some(dimension), query, top_k, backend) == search_model(
            collection,
            Some(dimension),
            query,
            top_k,
            other,
        ),
{
}

/// What was added comes back. Where the backend answers a search with the stored form
/// of an added document in the first place, under the name that it gave it, and the
/// search succeeds, the first result is that document: its identifier is the backend's
/// name, and every other field is as it was added.
pub proof fn lemma_first_ranked_comes_back(
    doc: DocumentModel,
    name: Seq<char>,
    others: Seq<NativeModel>,
    top_k: usize,
)
    requires
        encode_model(doc) is Ok,
        top_k >= 1,
        forall|i: int| 0 <= i < others.len() ==> decode_model(#[trigger] others[i]) is Ok,
    ensures
        ({
            let stored = NativeModel { name: Some(name), fields: encode_model(doc)->Ok_0.fields };
            let result = result_model(top_k, Ok(seq![stored] + others));
            &&& result is Ok
            &&& result->Ok_0.len() >= 1
            &&& result->Ok_0[0] == DocumentModel { id: Some(name), ..doc }
        }),
{
    let stored = NativeModel { name: Some(name), fields: encode_model(doc)->Ok_0.fields };
    let natives = seq![stored] + others;
    lemma_decode_inverts_encode(doc, Some(name));
    assert forall|i: int| 0 <= i < natives.len() implies !undecodable()(#[trigger] natives[i]) by {
        if i > 0 {
            assert(natives[i] == others[i - 1]);
        }
    }
    lemma_first_absent(natives, undecodable());
    assert(decoded(natives).take(kept(top_k, natives.len()))[0] == decoded(natives)[0]);
}

/// A search is repeatable: against a collection that has not changed, that is, a
/// backend that answers a query by a function of the query alone, the same arguments
/// give the same documents in the same order.
pub proof fn lemma_search_is_repeatable(
    collection: Seq<char>,
    dimension: Option<usize>,
    query: Seq<u64>,
    top_k: usize,
    backend: spec_fn(PlanModel) -> Result<Seq<NativeModel>, ErrorModel>,
    again: spec_fn(PlanModel) -> Result<Seq<NativeModel>, ErrorModel>,
)
    requires
        forall|plan: PlanModel| #[trigger] backend(plan) == again(plan),
    ensures
        search_model(collection, dimension, query, top_k, backend) == search_model(
            collection,
            dimension,
            query,
            top_k,
            again,
        ),
{
}

} // verus!
