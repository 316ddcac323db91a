//! The stored form of a document, and the conversion in both directions.
//!
//! A stored document is a name and a list of keyed JSON values. A [`VectorDocument`] is
//! stored under three keys: `embedding`, an array of double-precision numbers; `content`,
//! a string; and `metadata`, an object. The name of the stored document is the identifier.
//! On the way back a coordinate may also be a whole number, where a double holds it
//! exactly.

use crate::error::{Field, IssueModel, SerializationIssue};
use crate::first::{first_where, is_first, lemma_first_absent, lemma_first_found, lemma_first_where};
use crate::json::{
    clone_entries, double_is_finite, entries_model, field_position, find_field, has_key,
    is_finite_bits, items_model, lemma_view_of_collections, JsonModel, JsonNumber, JsonValue,
};
use crate::model::{text_of, DocumentModel, VectorDocument};
use crate::number::{double_of_number, number_to_double};
use vstd::prelude::*;

verus! {

/// A document as the backend holds it.
#[derive(Clone, Debug, PartialEq, Eq)]
pub struct NativeDocument {
    /// The backend's name for the document; `None` where the backend is to choose one.
    pub name: Option<String>,
    pub fields: Vec<(String, JsonValue)>,
}

/// The mathematical content of a [`NativeDocument`].
pub ghost struct NativeModel {
    pub name: Option<Seq<char>>,
    pub fields: Seq<(Seq<char>, JsonModel)>,
}

impl View for NativeDocument {
    type V = NativeModel;

    open spec fn view(&self) -> NativeModel {
        NativeModel { name: text_of(self.name), fields: entries_model(self.fields@) }
    }
}

/// The contents of a list of stored documents.
pub open spec fn natives_model(docs: Seq<NativeDocument>) -> Seq<NativeModel> {
    Seq::new(docs.len(), |i: int| docs[i]@)
}

/// The key under which the embedding is stored.
pub open spec fn embedding_key() -> Seq<char> {
    "embedding"@
}

/// The key under which the content is stored.
pub open spec fn content_key() -> Seq<char> {
    "content"@
}

/// The key under which the metadata is stored.
pub open spec fn metadata_key() -> Seq<char> {
    "metadata"@
}

/// The JSON number that stands for one coordinate.
pub open spec fn coordinate_model(bits: u64) -> JsonModel {
    JsonModel::Number(JsonNumber::Double(bits))
}

/// The JSON array that stands for a vector whose coordinates are all finite.
pub open spec fn vector_items(vector: Seq<u64>) -> Seq<JsonModel> {
    Seq::new(vector.len(), |i: int| coordinate_model(vector[i]))
}

/// The test that a coordinate is an infinity or a NaN.
pub open spec fn non_finite() -> spec_fn(u64) -> bool {
    |bits: u64| !is_finite_bits(bits)
}

/// The position of the first coordinate that JSON cannot express.
pub open spec fn first_non_finite(vector: Seq<u64>) -> Option<int> {
    first_where(vector, non_finite())
}

/// The stored form of a vector: an array of numbers, unless a coordinate is not finite.
pub open spec fn encode_vector_model(vector: Seq<u64>) -> Result<JsonModel, IssueModel> {
    match first_non_finite(vector) {
        Some(i) => Err(IssueModel::NonFiniteCoordinate { index: i as usize }),
        None => Ok(JsonModel::Array(vector_items(vector))),
    }
}

/// The stored form of a document.
pub open spec fn encode_model(doc: DocumentModel) -> Result<NativeModel, IssueModel> {
    match encode_vector_model(doc.embedding) {
        Err(issue) => Err(issue),
        Ok(vector) => Ok(
            NativeModel {
                name: doc.id,
                fields: seq![
                    (embedding_key(), vector),
                    (content_key(), JsonModel::Text(doc.content)),
                    (metadata_key(), JsonModel::Object(doc.metadata)),
                ],
            },
        ),
    }
}

/// The coordinate that a JSON value stands for: the finite double that a number is or,
/// for a whole number, the double that holds it exactly.
pub open spec fn coordinate_of(value: JsonModel) -> Option<u64> {
    match value {
        JsonModel::Number(number) => double_of_number(number),
        _ => None,
    }
}

/// Whether a JSON value is a coordinate.
pub open spec fn is_coordinate(value: JsonModel) -> bool {
    coordinate_of(value) is Some
}

/// The bits of a coordinate.
pub open spec fn coordinate_bits(value: JsonModel) -> u64 {
    coordinate_of(value)->Some_0
}

/// The vector that a JSON value stands for, if it is an array of coordinates.
pub open spec fn decode_vector_model(value: JsonModel) -> Option<Seq<u64>> {
    match value {
        JsonModel::Array(items) => if forall|i: int|
            0 <= i < items.len() ==> is_coordinate(#[trigger] items[i]) {
            Some(Seq::new(items.len(), |i: int| coordinate_bits(items[i])))
        } else {
            None
        },
        _ => None,
    }
}

/// The document that a stored document stands for. The three fields are looked up by
/// key, the embedding first, then the content, then the metadata; the first one that is
/// missing or has another shape decides the error. Other fields are ignored.
pub open spec fn decode_model(native: NativeModel) -> Result<DocumentModel, IssueModel> {
    match field_position(native.fields, embedding_key()) {
        None => Err(IssueModel::MissingField(Field::Embedding)),
        Some(e) => match decode_vector_model(native.fields[e].1) {
            None => Err(IssueModel::MalformedField(Field::Embedding)),
            Some(embedding) => match field_position(native.fields, content_key()) {
                None => Err(IssueModel::MissingField(Field::Content)),
                Some(c) => match native.fields[c].1 {
                    JsonModel::Text(content) => match field_position(
                        native.fields,
                        metadata_key(),
                    ) {
                        None => Err(IssueModel::MissingField(Field::Metadata)),
                        Some(m) => match native.fields[m].1 {
                            JsonModel::Object(metadata) => Ok(
                                DocumentModel { id: native.name, embedding, content, metadata },
                            ),
                            _ => Err(IssueModel::MalformedField(Field::Metadata)),
                        },
                    },
                    _ => Err(IssueModel::MalformedField(Field::Content)),
                },
            },
        },
    }
}

/// Converts a vector to its stored form.
pub fn encode_vector(vector: &[u64]) -> (r: Result<JsonValue, SerializationIssue>)
    ensures
        match r {
            Ok(value) => encode_vector_model(vector@) == Ok::<JsonModel, IssueModel>(value@),
            Err(issue) => encode_vector_model(vector@) == Err::<JsonModel, IssueModel>(issue@),
        },
{
    let ghost p = non_finite();
    let mut items: Vec<JsonValue> = Vec::new();
    let mut i: usize = 0;
    while i < vector.len()
        invariant
            i <= vector.len(),
            items@.len() == i,
            p == non_finite(),
            forall|j: int| 0 <= j < i ==> !p(#[trigger] vector@[j]),
            forall|j: int| 0 <= j < i ==> (#[trigger] items@[j])@ == coordinate_model(vector@[j]),
        decreases vector.len() - i,
    {
        let bits: u64 = vector[i];
        if !double_is_finite(bits) {
            proof {
                assert(p(vector@[i as int]));
                assert(is_first(vector@, p, i as int));
                lemma_first_found(vector@, p, i as int);
            }
            return Err(SerializationIssue::NonFiniteCoordinate { index: i });
        }
        assert(!p(vector@[i as int]));
        items.push(JsonValue::Number(JsonNumber::Double(bits)));
        i += 1;
    }
    let value = JsonValue::Array(items);
    proof {
        lemma_first_absent(vector@, p);
        lemma_view_of_collections(value);
        assert(items_model(items@) =~= vector_items(vector@));
    }
    Ok(value)
}

/// Converts a document to its stored form. This fails only where a coordinate of the
/// embedding is not finite.
pub fn encode(doc: &VectorDocument) -> (r: Result<NativeDocument, SerializationIssue>)
    ensures
        match r {
            Ok(native) => encode_model(doc@) == Ok::<NativeModel, IssueModel>(native@),
            Err(issue) => encode_model(doc@) == Err::<NativeModel, IssueModel>(issue@),
        },
{
    let vector = match encode_vector(doc.embedding.as_slice()) {
        Ok(vector) => vector,
        Err(issue) => {
            return Err(issue);
        },
    };
    let name = match &doc.id {
        Some(id) => Some(id.clone()),
        None => None,
    };
    let content = JsonValue::Text(doc.content.clone());
    let metadata = JsonValue::Object(clone_entries(&doc.metadata));
    proof {
        lemma_view_of_collections(metadata);
    }
    let mut fields: Vec<(String, JsonValue)> = Vec::new();
    fields.push(("embedding".to_owned(), vector));
    fields.push(("content".to_owned(), content));
    fields.push(("metadata".to_owned(), metadata));
    let native = NativeDocument { name, fields };
    assert(native@.fields =~= encode_model(doc@)->Ok_0.fields);
    Ok(native)
}

/// Reads a vector back from its stored form.
pub fn decode_vector(value: &JsonValue) -> (r: Option<Vec<u64>>)
    ensures
        match r {
            Some(vector) => decode_vector_model(value@) == Some(vector@),
            None => decode_vector_model(value@) is None,
        },
{
    match value {
        JsonValue::Array(items) => {
            proof {
                lemma_view_of_collections(*value);
            }
            let ghost models = items_model(items@);
            let mut vector: Vec<u64> = Vec::new();
            let mut i: usize = 0;
            while i < items.len()
                invariant
                    i <= items.len(),
                    vector@.len() == i,
                    models == items_model(items@),
                    value@ == JsonModel::Array(models),
                    forall|j: int| 0 <= j < i ==> is_coordinate(#[trigger] models[j]),
                    forall|j: int| 0 <= j < i ==> #[trigger] vector@[j] == coordinate_bits(models[j]),
                decreases items.len() - i,
            {
                match &items[i] {
                    JsonValue::Number(number) => match number_to_double(*number) {
                        Some(bits) => {
                            assert(coordinate_of(models[i as int]) == Some(bits));
                            vector.push(bits);
                        },
                        None => {
                            assert(!is_coordinate(models[i as int]));
                            return None;
                        },
                    },
                    _ => {
                        assert(!is_coordinate(models[i as int]));
                        return None;
                    },
                }
                i += 1;
            }
            assert(vector@ =~= Seq::new(models.len(), |i: int| coordinate_bits(models[i])));
            Some(vector)
        },
        _ => None,
    }
}

/// Reads a document back from its stored form.
pub fn decode(native: &NativeDocument) -> (r: Result<VectorDocument, SerializationIssue>)
    ensures
        match r {
            Ok(doc) => decode_model(native@) == Ok::<DocumentModel, IssueModel>(doc@),
            Err(issue) => decode_model(native@) == Err::<DocumentModel, IssueModel>(issue@),
        },
{
    let e = match find_field(&native.fields, "embedding") {
        Some(e) => e,
        None => {
            return Err(SerializationIssue::MissingField(Field::Embedding));
        },
    };
    let embedding = match decode_vector(&native.fields[e].1) {
        Some(embedding) => embedding,
        None => {
            return Err(SerializationIssue::MalformedField(Field::Embedding));
        },
    };
    let c = match find_field(&native.fields, "content") {
        Some(c) => c,
        None => {
            return Err(SerializationIssue::MissingField(Field::Content));
        },
    };
    let content = match &native.fields[c].1 {
        JsonValue::Text(content) => content.clone(),
        _ => {
            return Err(SerializationIssue::MalformedField(Field::Content));
        },
    };
    let m = match find_field(&native.fields, "metadata") {
        Some(m) => m,
        None => {
            return Err(SerializationIssue::MissingField(Field::Metadata));
        },
    };
    let metadata = match &native.fields[m].1 {
        JsonValue::Object(entries) => {
            proof {
                lemma_view_of_collections(native.fields[m as int].1);
            }
            clone_entries(entries)
        },
        _ => {
            proof {
                lemma_view_of_collections(native.fields[m as int].1);
            }
            return Err(SerializationIssue::MalformedField(Field::Metadata));
        },
    };
    let id = match &native.name {
        Some(name) => Some(name.clone()),
        None => None,
    };
    Ok(VectorDocument { id, embedding, content, metadata })
}

/// The three keys are pairwise different.
pub proof fn lemma_keys_differ()
    ensures
        embedding_key() != content_key(),
        embedding_key() != metadata_key(),
        content_key() != metadata_key(),
{
    reveal_strlit("embedding");
    reveal_strlit("content");
    reveal_strlit("metadata");
    assert(embedding_key().len() == 9);
    assert(content_key().len() == 7);
    assert(metadata_key().len() == 8);
}

/// A vector with finite coordinates comes back from its stored form as it was.
pub proof fn lemma_decode_vector_inverts_encode(vector: Seq<u64>)
    requires
        encode_vector_model(vector) is Ok,
    ensures
        decode_vector_model(encode_vector_model(vector)->Ok_0) == Some(vector),
{
    let p = non_finite();
    lemma_first_where(vector, p);
    let items = vector_items(vector);
    assert forall|i: int| 0 <= i < items.len() implies is_coordinate(#[trigger] items[i]) by {
        assert(!p(vector[i]));
    }
    assert(Seq::new(items.len(), |i: int| coordinate_bits(items[i])) =~= vector);
}

/// Decoding inverts encoding: the stored form of a document, read back under whatever
/// name the backend has given it, is the document itself with that name as its
/// identifier. No other field changes.
pub proof fn lemma_decode_inverts_encode(doc: DocumentModel, name: Option<Seq<char>>)
    requires
        encode_model(doc) is Ok,
    ensures
        decode_model(NativeModel { name, fields: encode_model(doc)->Ok_0.fields }) == Ok::<
            DocumentModel,
            IssueModel,
        >(DocumentModel { id: name, ..doc }),
{
    let fields = encode_model(doc)->Ok_0.fields;
    lemma_keys_differ();
    lemma_decode_vector_inverts_encode(doc.embedding);
    assert(is_first(fields, has_key(embedding_key()), 0));
    assert(is_first(fields, has_key(content_key()), 1));
    assert(is_first(fields, has_key(metadata_key()), 2));
    lemma_first_found(fields, has_key(embedding_key()), 0);
    lemma_first_found(fields, has_key(content_key()), 1);
    lemma_first_found(fields, has_key(metadata_key()), 2);
}

} // verus!
