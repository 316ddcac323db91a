use vectorstore::batch::{AddFailure, AddProgress};
use vectorstore::codec::{decode, NativeDocument};
use vectorstore::collection::Collection;
use vectorstore::error::{ErrorKind, Field, SerializationIssue, StoreError, ValidationIssue};
use vectorstore::firestore::{classify, document_id, reply_of, BackendFailure, FirestoreStore};
use vectorstore::json::{JsonNumber, JsonValue};
use vectorstore::model::{VecStoreOptions, VectorDocument, WriteConcern};

fn bits(values: &[f32]) -> Vec<u64> {
    values.iter().map(|x| (*x as f64).to_bits()).collect()
}

fn options() -> VecStoreOptions {
    VecStoreOptions { write_concern: WriteConcern::Acknowledged }
}

fn document(embedding: &[f32], content: &str) -> VectorDocument {
    VectorDocument {
        id: None,
        embedding: bits(embedding),
        content: content.to_string(),
        metadata: vec![],
    }
}

fn collection(dimension: Option<usize>) -> Collection {
    Collection { name: "docs".to_string(), dimension }
}

/// A backend that keeps what it is given and answers every query with all of it.
struct Memory {
    stored: Vec<NativeDocument>,
    requests: usize,
}

impl Memory {
    fn new() -> Memory {
        Memory { stored: Vec::new(), requests: 0 }
    }

    fn create(&mut self, document: &NativeDocument) -> Result<String, StoreError> {
        self.requests += 1;
        let id = format!("id-{}", self.stored.len());
        self.stored.push(NativeDocument { name: Some(id.clone()), fields: document.fields.clone() });
        Ok(id)
    }

    fn query(&mut self, top_k: usize) -> Result<Vec<NativeDocument>, StoreError> {
        self.requests += 1;
        Ok(self.stored.iter().take(top_k).cloned().collect())
    }
}

fn add(
    collection: &Collection,
    backend: &mut Memory,
    docs: &[VectorDocument],
) -> Result<Vec<String>, AddFailure> {
    let mut progress = collection.add_documents(docs, &options());
    loop {
        match progress {
            AddProgress::Pending(batch) => {
                let reply = backend.create(batch.request().document);
                progress = batch.advance(reply);
            }
            AddProgress::Done(ids) => return Ok(ids),
            AddProgress::Failed(failure) => return Err(failure),
        }
    }
}

fn search(
    collection: &Collection,
    backend: &mut Memory,
    query: &[u64],
    top_k: usize,
) -> Result<Vec<VectorDocument>, StoreError> {
    let plan = collection.similarity_search(query, top_k, &options())?;
    let reply = backend.query(plan.request().top_k);
    plan.finish(reply)
}

#[test]
fn one_document_is_added_and_found_again() {
    let c = collection(None);
    let mut backend = Memory::new();
    let ids = add(&c, &mut backend, &[document(&[0.1, 0.2, 0.3], "a")]).unwrap();
    assert_eq!(ids.len(), 1);
    assert!(!ids[0].is_empty());
    let found = search(&c, &mut backend, &bits(&[0.1, 0.2, 0.3]), 1).unwrap();
    assert_eq!(found.len(), 1);
    assert_eq!(found[0].content, "a");
    assert_eq!(found[0].id, Some(ids[0].clone()));
    assert_eq!(found[0].embedding, bits(&[0.1, 0.2, 0.3]));
}

#[test]
fn a_search_for_no_documents_is_refused() {
    let c = collection(None);
    let r = c.similarity_search(&bits(&[0.1]), 0, &options());
    assert_eq!(r.err(), Some(StoreError::Validation(ValidationIssue::ZeroTopK)));
    let r = collection(Some(1)).similarity_search(&[], 0, &options());
    assert_eq!(r.unwrap_err().kind(), ErrorKind::Validation);
}

#[test]
fn a_store_is_not_made_from_a_failed_handshake() {
    let failure = BackendFailure::Io("No such file or directory".to_string());
    let r = FirestoreStore::<()>::new(Err(failure), "docs");
    match r {
        Err(error) => {
            assert_eq!(error.kind(), ErrorKind::Connection);
            assert_eq!(error, StoreError::Connection("No such file or directory".to_string()));
        }
        Ok(_) => panic!("a store was made"),
    }
}

#[test]
fn every_failed_handshake_is_a_connection_error() {
    let failures = vec![
        BackendFailure::Generic("g".to_string()),
        BackendFailure::Api { code: 403, message: "denied".to_string(), context: "c".to_string() },
        BackendFailure::Rsa("bad key".to_string()),
        BackendFailure::Ser { doc: None, detail: "bad json".to_string() },
    ];
    let texts = ["g", "denied", "bad key", "bad json"];
    for (failure, text) in failures.into_iter().zip(texts) {
        let r = FirestoreStore::<u8>::new(Err(failure), "docs");
        assert_eq!(r.err(), Some(StoreError::Connection(text.to_string())));
    }
}

#[test]
fn a_store_owns_its_session_and_is_bound_to_its_collection() {
    let store = FirestoreStore::new(Ok(41u32), "docs").unwrap();
    assert_eq!(*store.session(), 41);
    assert_eq!(store.collection(), &Collection { name: "docs".to_string(), dimension: None });
    let store = store.with_dimension(3);
    assert_eq!(*store.session(), 41);
    assert_eq!(store.collection(), &Collection { name: "docs".to_string(), dimension: Some(3) });
}

#[test]
fn failures_are_sorted_by_kind() {
    let s = |t: &str| t.to_string();
    assert_eq!(classify(BackendFailure::Request(s("r"))), StoreError::Connection(s("r")));
    assert_eq!(classify(BackendFailure::Io(s("i"))), StoreError::Connection(s("i")));
    assert_eq!(classify(BackendFailure::Jwt(s("j"))), StoreError::Connection(s("j")));
    assert_eq!(classify(BackendFailure::JwtValidation(s("v"))), StoreError::Connection(s("v")));
    assert_eq!(classify(BackendFailure::Rsa(s("k"))), StoreError::Connection(s("k")));
    assert_eq!(
        classify(BackendFailure::Ser { doc: Some(s("d")), detail: s("e") }),
        StoreError::Serialization(SerializationIssue::Reported(s("e")))
    );
    assert_eq!(
        classify(BackendFailure::SerdeVerbose { doc: None, input_doc: s("in"), detail: s("e2") }),
        StoreError::Serialization(SerializationIssue::Reported(s("e2")))
    );
    assert_eq!(classify(BackendFailure::Generic(s("g"))), StoreError::Backend(s("g")));
    assert_eq!(
        classify(BackendFailure::UnexpectedResponse { status: 500, body: s("b"), context: s("c") }),
        StoreError::Backend(s("b"))
    );
    assert_eq!(
        classify(BackendFailure::Api { code: 404, message: s("m"), context: s("c") }),
        StoreError::Backend(s("m"))
    );
}

#[test]
fn an_outcome_becomes_a_reply() {
    assert_eq!(reply_of(Ok::<u8, BackendFailure>(3)), Ok(3));
    assert_eq!(
        reply_of::<u8>(Err(BackendFailure::Request("down".to_string()))),
        Err(StoreError::Connection("down".to_string()))
    );
}

#[test]
fn an_error_has_its_kind() {
    let s = |t: &str| t.to_string();
    assert_eq!(StoreError::Connection(s("x")).kind(), ErrorKind::Connection);
    assert_eq!(StoreError::Validation(ValidationIssue::EmptyQuery).kind(), ErrorKind::Validation);
    assert_eq!(
        StoreError::Serialization(SerializationIssue::MissingField(Field::Content)).kind(),
        ErrorKind::Serialization
    );
    assert_eq!(StoreError::Backend(s("x")).kind(), ErrorKind::Backend);
}

#[test]
fn identifiers_come_back_in_the_order_of_the_input() {
    let c = collection(Some(2));
    let mut backend = Memory::new();
    let docs = vec![document(&[1.0, 2.0], "x"), document(&[3.0, 4.0], "y"), document(&[5.0, 6.0], "z")];
    let ids = add(&c, &mut backend, &docs).unwrap();
    assert_eq!(ids, vec!["id-0".to_string(), "id-1".to_string(), "id-2".to_string()]);
    assert_eq!(backend.requests, 3);
    for (i, doc) in docs.iter().enumerate() {
        let back = decode(&backend.stored[i]).unwrap();
        assert_eq!(back.content, doc.content);
        assert_eq!(back.embedding, doc.embedding);
        assert_eq!(back.id, Some(ids[i].clone()));
    }
}

#[test]
fn the_request_names_collection_document_and_write_concern() {
    let c = collection(None);
    let opt = VecStoreOptions { write_concern: WriteConcern::Durable };
    let docs = vec![document(&[1.0], "x"), document(&[2.0], "y")];
    let batch = match c.add_documents(&docs, &opt) {
        AddProgress::Pending(batch) => batch,
        other => panic!("not pending: {:?}", other),
    };
    {
        let request = batch.request();
        assert_eq!(request.collection, "docs");
        assert_eq!(request.write_concern, WriteConcern::Durable);
        assert_eq!(decode(request.document).unwrap().content, "x");
    }
    let batch = match batch.advance(Ok("first".to_string())) {
        AddProgress::Pending(batch) => batch,
        other => panic!("not pending: {:?}", other),
    };
    assert_eq!(decode(batch.request().document).unwrap().content, "y");
    match batch.advance(Ok("second".to_string())) {
        AddProgress::Done(ids) => assert_eq!(ids, vec!["first".to_string(), "second".to_string()]),
        other => panic!("not done: {:?}", other),
    }
}

#[test]
fn an_empty_batch_is_done_at_once() {
    let c = collection(Some(3));
    match c.add_documents(&[], &options()) {
        AddProgress::Done(ids) => assert!(ids.is_empty()),
        other => panic!("not done: {:?}", other),
    }
}

#[test]
fn a_document_of_another_dimension_fails_the_batch_before_anything_is_sent() {
    let c = collection(Some(2));
    let mut backend = Memory::new();
    let docs = vec![document(&[1.0, 2.0], "x"), document(&[3.0], "y"), document(&[], "z")];
    let failure = add(&c, &mut backend, &docs).unwrap_err();
    assert_eq!(
        failure,
        AddFailure {
            error: StoreError::Validation(ValidationIssue::DocumentDimension {
                index: 1,
                expected: 2,
                found: 1,
            }),
            committed: vec![],
        }
    );
    assert_eq!(backend.requests, 0);
}

#[test]
fn without_a_dimension_any_length_is_sent() {
    let c = collection(None);
    let mut backend = Memory::new();
    let docs = vec![document(&[1.0, 2.0], "x"), document(&[], "y")];
    assert_eq!(add(&c, &mut backend, &docs).unwrap().len(), 2);
}

#[test]
fn a_document_without_a_stored_form_ends_the_batch_where_it_stands() {
    let c = collection(None);
    let mut backend = Memory::new();
    let docs =
        vec![document(&[1.0], "x"), document(&[2.0], "y"), document(&[f32::NAN], "z"), document(&[4.0], "w")];
    let failure = add(&c, &mut backend, &docs).unwrap_err();
    assert_eq!(
        failure,
        AddFailure {
            error: StoreError::Serialization(SerializationIssue::NonFiniteCoordinate { index: 0 }),
            committed: vec!["id-0".to_string(), "id-1".to_string()],
        }
    );
    assert_eq!(backend.requests, 2);
    assert_eq!(backend.stored.len(), 2);
    assert_eq!(decode(&backend.stored[0]).unwrap().content, "x");
    assert_eq!(decode(&backend.stored[1]).unwrap().content, "y");
}

#[test]
fn a_first_document_without_a_stored_form_sends_nothing() {
    let c = collection(None);
    let mut backend = Memory::new();
    let docs = vec![document(&[1.0, f32::INFINITY], "x"), document(&[2.0], "y")];
    let failure = add(&c, &mut backend, &docs).unwrap_err();
    assert_eq!(
        failure.error,
        StoreError::Serialization(SerializationIssue::NonFiniteCoordinate { index: 1 })
    );
    assert!(failure.committed.is_empty());
    assert_eq!(backend.requests, 0);
}

#[test]
fn a_failure_of_the_backend_comes_before_a_later_document_that_cannot_be_converted() {
    let c = collection(None);
    let docs = vec![document(&[1.0], "x"), document(&[2.0], "y"), document(&[f32::NAN], "z")];
    let batch = match c.add_documents(&docs, &options()) {
        AddProgress::Pending(batch) => batch,
        other => panic!("not pending: {:?}", other),
    };
    let batch = match batch.advance(Ok("one".to_string())) {
        AddProgress::Pending(batch) => batch,
        other => panic!("not pending: {:?}", other),
    };
    let reply = reply_of(Err(BackendFailure::Generic("refused".to_string())));
    match batch.advance(reply) {
        AddProgress::Failed(failure) => {
            assert_eq!(failure.error, StoreError::Backend("refused".to_string()));
            assert_eq!(failure.error.kind(), ErrorKind::Backend);
            assert_eq!(failure.committed, vec!["one".to_string()]);
        }
        other => panic!("not failed: {:?}", other),
    }
}

#[test]
fn the_dimension_is_checked_before_the_coordinates() {
    let c = collection(Some(1));
    let docs = vec![document(&[f32::INFINITY], "x"), document(&[1.0, 2.0], "y")];
    match c.add_documents(&docs, &options()) {
        AddProgress::Failed(failure) => assert_eq!(failure.error.kind(), ErrorKind::Validation),
        other => panic!("not failed: {:?}", other),
    }
}

#[test]
fn a_failure_of_the_backend_keeps_what_was_created() {
    let c = collection(None);
    let docs = vec![document(&[1.0], "x"), document(&[2.0], "y"), document(&[3.0], "z")];
    let batch = match c.add_documents(&docs, &options()) {
        AddProgress::Pending(batch) => batch,
        other => panic!("not pending: {:?}", other),
    };
    let batch = match batch.advance(Ok("one".to_string())) {
        AddProgress::Pending(batch) => batch,
        other => panic!("not pending: {:?}", other),
    };
    let reply = reply_of(Err(BackendFailure::Api {
        code: 503,
        message: "unavailable".to_string(),
        context: "docs".to_string(),
    }));
    match batch.advance(reply) {
        AddProgress::Failed(failure) => {
            assert_eq!(failure.error, StoreError::Backend("unavailable".to_string()));
            assert_eq!(failure.committed, vec!["one".to_string()]);
        }
        other => panic!("not failed: {:?}", other),
    }
}

#[test]
fn a_query_of_another_dimension_is_refused_and_nothing_is_sent() {
    let c = collection(Some(3));
    let mut backend = Memory::new();
    let r = search(&c, &mut backend, &bits(&[0.1, 0.2]), 5);
    assert_eq!(
        r,
        Err(StoreError::Validation(ValidationIssue::QueryDimension { expected: 3, found: 2 }))
    );
    assert_eq!(backend.requests, 0);
}

#[test]
fn an_empty_query_is_refused() {
    let r = collection(None).similarity_search(&[], 1, &options());
    assert_eq!(r.err(), Some(StoreError::Validation(ValidationIssue::EmptyQuery)));
    let r = collection(Some(0)).similarity_search(&[], 1, &options());
    assert_eq!(r.err(), Some(StoreError::Validation(ValidationIssue::EmptyQuery)));
}

#[test]
fn a_query_that_is_not_finite_is_refused() {
    let r = collection(None).similarity_search(&bits(&[0.5, f32::NEG_INFINITY]), 1, &options());
    assert_eq!(
        r.err(),
        Some(StoreError::Serialization(SerializationIssue::NonFiniteCoordinate { index: 1 }))
    );
}

#[test]
fn the_query_is_sent_in_its_stored_form() {
    let plan = collection(Some(2)).similarity_search(&bits(&[0.5, 2.0]), 7, &options()).unwrap();
    let request = plan.request();
    assert_eq!(request.collection, "docs");
    assert_eq!(request.field, "embedding");
    assert_eq!(request.top_k, 7);
    assert_eq!(
        request.vector,
        &JsonValue::Array(vec![
            JsonValue::Number(JsonNumber::Double(0.5f64.to_bits())),
            JsonValue::Number(JsonNumber::Double(2.0f64.to_bits())),
        ])
    );
}

#[test]
fn a_search_never_returns_more_than_it_was_asked_for() {
    let c = collection(None);
    let mut backend = Memory::new();
    let docs: Vec<VectorDocument> =
        (0..5).map(|i| document(&[i as f32], &format!("doc {}", i))).collect();
    add(&c, &mut backend, &docs).unwrap();
    let everything: Vec<NativeDocument> = backend.stored.clone();
    for top_k in 1..8usize {
        let plan = c.similarity_search(&bits(&[0.0]), top_k, &options()).unwrap();
        let found = plan.finish(Ok(everything.clone())).unwrap();
        assert_eq!(found.len(), top_k.min(5));
        for (i, doc) in found.iter().enumerate() {
            assert_eq!(doc.content, format!("doc {}", i));
        }
    }
}

#[test]
fn one_unreadable_document_fails_the_search() {
    let c = collection(None);
    let mut backend = Memory::new();
    add(&c, &mut backend, &[document(&[1.0], "x"), document(&[2.0], "y")]).unwrap();
    let mut answer = backend.stored.clone();
    answer[1].fields.remove(1);
    answer.push(NativeDocument { name: None, fields: vec![] });
    let plan = c.similarity_search(&bits(&[1.0]), 1, &options()).unwrap();
    assert_eq!(
        plan.finish(Ok(answer)),
        Err(StoreError::Serialization(SerializationIssue::MissingField(Field::Content)))
    );
}

#[test]
fn a_failure_of_the_query_is_handed_on() {
    let plan = collection(None).similarity_search(&bits(&[1.0]), 3, &options()).unwrap();
    let reply = reply_of(Err(BackendFailure::Request("timed out".to_string())));
    assert_eq!(plan.finish(reply), Err(StoreError::Connection("timed out".to_string())));
}

#[test]
fn an_empty_answer_gives_no_documents() {
    let plan = collection(None).similarity_search(&bits(&[1.0]), 3, &options()).unwrap();
    assert_eq!(plan.finish(Ok(vec![])), Ok(vec![]));
}

#[test]
fn a_search_gives_the_same_result_twice() {
    let c = collection(Some(1));
    let mut backend = Memory::new();
    add(&c, &mut backend, &[document(&[1.0], "x"), document(&[2.0], "y")]).unwrap();
    let first = search(&c, &mut backend, &bits(&[1.0]), 2);
    let second = search(&c, &mut backend, &bits(&[1.0]), 2);
    assert_eq!(first, second);
    assert_eq!(first.unwrap().len(), 2);
}

#[test]
fn what_was_added_comes_back_but_for_the_identifier() {
    let c = collection(None);
    let mut backend = Memory::new();
    let mut doc = document(&[0.25, -8.0], "payload");
    doc.metadata = vec![
        ("n".to_string(), JsonValue::Number(JsonNumber::Unsigned(7))),
        ("nested".to_string(), JsonValue::Object(vec![("k".to_string(), JsonValue::Null)])),
    ];
    let ids = add(&c, &mut backend, &[doc.clone()]).unwrap();
    let found = search(&c, &mut backend, &doc.embedding, 1).unwrap();
    assert_eq!(found[0], VectorDocument { id: Some(ids[0].clone()), ..doc });
}

#[test]
fn an_abandoned_batch_names_what_was_created() {
    let c = collection(None);
    let docs = vec![document(&[1.0], "x"), document(&[2.0], "y"), document(&[3.0], "z")];
    let batch = match c.add_documents(&docs, &options()) {
        AddProgress::Pending(batch) => batch,
        other => panic!("not pending: {:?}", other),
    };
    let batch = match batch.advance(Ok("one".to_string())) {
        AddProgress::Pending(batch) => batch,
        other => panic!("not pending: {:?}", other),
    };
    assert_eq!(batch.abandon(), vec!["one".to_string()]);
}

#[test]
fn the_identifier_is_the_last_segment_of_the_name() {
    assert_eq!(document_id("projects/p/databases/(default)/documents/docs/abc"), "abc");
    assert_eq!(document_id("abc"), "abc");
    assert_eq!(document_id("docs/"), "");
    assert_eq!(document_id(""), "");
    assert_eq!(document_id("/"), "");
    assert_eq!(document_id("a/b\u{e9}c"), "b\u{e9}c");
}
