//! JSON-compatible values: the form in which the fields of a stored document reach the
//! backend and come back from it.

use crate::first::{first_where, is_first, lemma_first_absent, lemma_first_found};
use vstd::prelude::*;

verus! {

/// A JSON number. A double-precision number is held by its IEEE 754 bit pattern, so that
/// the value passes through the library bit for bit.
#[derive(Clone, Copy, Debug, PartialEq, Eq)]
pub enum JsonNumber {
    Unsigned(u64),
    Signed(i64),
    Double(u64),
}

/// A JSON-compatible value. An object keeps its members in the order in which they were
/// given; where a key occurs twice, the first occurrence is the one that is read.
#[derive(Debug, PartialEq, Eq)]
pub enum JsonValue {
    Null,
    Bool(bool),
    Number(JsonNumber),
    Text(String),
    Array(Vec<JsonValue>),
    Object(Vec<(String, JsonValue)>),
}

/// The mathematical content of a [`JsonValue`].
pub ghost enum JsonModel {
    Null,
    Bool(bool),
    Number(JsonNumber),
    Text(Seq<char>),
    Array(Seq<JsonModel>),
    Object(Seq<(Seq<char>, JsonModel)>),
}

impl View for JsonValue {
    type V = JsonModel;

    open spec fn view(&self) -> JsonModel
        decreases self,
    {
        match self {
            JsonValue::Null => JsonModel::Null,
            JsonValue::Bool(b) => JsonModel::Bool(*b),
            JsonValue::Number(n) => JsonModel::Number(*n),
            JsonValue::Text(s) => JsonModel::Text(s@),
            JsonValue::Array(items) => JsonModel::Array(
                Seq::new(
                    items@.len(),
                    |i: int|
                        if 0 <= i < items@.len() {
                            items@[i].view()
                        } else {
                            JsonModel::Null
                        },
                ),
            ),
            JsonValue::Object(entries) => JsonModel::Object(
                Seq::new(
                    entries@.len(),
                    |i: int|
                        if 0 <= i < entries@.len() {
                            (entries@[i].0@, entries@[i].1.view())
                        } else {
                            (Seq::empty(), JsonModel::Null)
                        },
                ),
            ),
        }
    }
}

/// The contents of a list of values.
pub open spec fn items_model(items: Seq<JsonValue>) -> Seq<JsonModel> {
    Seq::new(items.len(), |i: int| items[i]@)
}

/// The contents of a list of keyed values.
pub open spec fn entries_model(entries: Seq<(String, JsonValue)>) -> Seq<(Seq<char>, JsonModel)> {
    Seq::new(entries.len(), |i: int| (entries[i].0@, entries[i].1@))
}

/// The view of an array is the list of its items' views, and likewise for an object.
pub proof fn lemma_view_of_collections(v: JsonValue)
    ensures
        v matches JsonValue::Array(items) ==> v@ == JsonModel::Array(items_model(items@)),
        v matches JsonValue::Object(entries) ==> v@ == JsonModel::Object(entries_model(entries@)),
{
    reveal_with_fuel(<JsonValue as View>::view, 2);
    match v {
        JsonValue::Array(items) => {
            assert(v@->Array_0 =~= items_model(items@));
        },
        JsonValue::Object(entries) => {
            assert(v@->Object_0 =~= entries_model(entries@));
        },
        _ => {},
    }
}

impl Clone for JsonValue {
    /// A deep copy: the copy has the contents of the value that was copied.
    fn clone(&self) -> (r: JsonValue)
        ensures
            r@ == self@,
        decreases self,
    {
        match self {
            JsonValue::Null => JsonValue::Null,
            JsonValue::Bool(b) => JsonValue::Bool(*b),
            JsonValue::Number(n) => JsonValue::Number(*n),
            JsonValue::Text(s) => JsonValue::Text(s.clone()),
            JsonValue::Array(items) => {
                let mut out: Vec<JsonValue> = Vec::new();
                let mut i: usize = 0;
                while i < items.len()
                    invariant
                        *self matches JsonValue::Array(own) && own == items,
                        i <= items.len(),
                        out@.len() == i,
                        forall|j: int| 0 <= j < i ==> out@[j]@ == items@[j]@,
                    decreases items.len() - i,
                {
                    let item = items[i].clone();
                    out.push(item);
                    i += 1;
                }
                let r = JsonValue::Array(out);
                proof {
                    lemma_view_of_collections(r);
                    lemma_view_of_collections(*self);
                    assert(items_model(out@) =~= items_model(items@));
                }
                r
            },
            JsonValue::Object(entries) => {
                let mut out: Vec<(String, JsonValue)> = Vec::new();
                let mut i: usize = 0;
                while i < entries.len()
                    invariant
                        *self matches JsonValue::Object(own) && own == entries,
                        i <= entries.len(),
                        out@.len() == i,
                        forall|j: int|
                            0 <= j < i ==> out@[j].0@ == entries@[j].0@ && out@[j].1@
                                == entries@[j].1@,
                    decreases entries.len() - i,
                {
                    let key = entries[i].0.clone();
                    let value = entries[i].1.clone();
                    out.push((key, value));
                    i += 1;
                }
                let r = JsonValue::Object(out);
                proof {
                    lemma_view_of_collections(r);
                    lemma_view_of_collections(*self);
                    assert(entries_model(out@) =~= entries_model(entries@));
                }
                r
            },
        }
    }
}

/// A deep copy of a list of keyed values.
pub fn clone_entries(entries: &Vec<(String, JsonValue)>) -> (r: Vec<(String, JsonValue)>)
    ensures
        entries_model(r@) == entries_model(entries@),
{
    let mut out: Vec<(String, JsonValue)> = Vec::new();
    let mut i: usize = 0;
    while i < entries.len()
        invariant
            i <= entries.len(),
            out@.len() == i,
            forall|j: int|
                0 <= j < i ==> out@[j].0@ == entries@[j].0@ && out@[j].1@ == entries@[j].1@,
        decreases entries.len() - i,
    {
        let key = entries[i].0.clone();
        let value = entries[i].1.clone();
        out.push((key, value));
        i += 1;
    }
    assert(entries_model(out@) =~= entries_model(entries@));
    out
}

/// Whether a bit pattern is that of a finite double-precision number: neither an infinity
/// nor a NaN, which are the patterns whose eleven exponent bits are all set.
pub open spec fn is_finite_bits(bits: u64) -> bool {
    bits & 0x7ff0_0000_0000_0000u64 != 0x7ff0_0000_0000_0000u64
}

/// Tests whether `bits` is the pattern of a finite double-precision number. JSON has no
/// notation for the others.
pub fn double_is_finite(bits: u64) -> (r: bool)
    ensures
        r == is_finite_bits(bits),
{
    bits & 0x7ff0_0000_0000_0000u64 != 0x7ff0_0000_0000_0000u64
}

/// The test that a member of an object has the key `key`.
pub open spec fn has_key(key: Seq<char>) -> spec_fn((Seq<char>, JsonModel)) -> bool {
    |e: (Seq<char>, JsonModel)| e.0 == key
}

/// The position of the first member of `fields` whose key is `key`.
pub open spec fn field_position(fields: Seq<(Seq<char>, JsonModel)>, key: Seq<char>) -> Option<
    int,
> {
    first_where(fields, has_key(key))
}

/// Looks a key up among the members of an object and returns the position of its first
/// occurrence.
pub fn find_field(fields: &Vec<(String, JsonValue)>, key: &str) -> (r: Option<usize>)
    ensures
        match r {
            Some(i) => field_position(entries_model(fields@), key@) == Some(i as int),
            None => field_position(entries_model(fields@), key@) is None,
        },
{
    let wanted = key.to_owned();
    let ghost model = entries_model(fields@);
    let ghost p = has_key(key@);
    let mut i: usize = 0;
    while i < fields.len()
        invariant
            i <= fields.len(),
            wanted@ == key@,
            model == entries_model(fields@),
            p == has_key(key@),
            forall|j: int| 0 <= j < i ==> !p(#[trigger] model[j]),
        decreases fields.len() - i,
    {
        if fields[i].0 == wanted {
            proof {
                assert(p(model[i as int]));
                assert(is_first(model, p, i as int));
                lemma_first_found(model, p, i as int);
            }
            return Some(i);
        }
        assert(!p(model[i as int]));
        i += 1;
    }
    proof {
        lemma_first_absent(model, p);
    }
    None
}

/// The members among the first `n` of `fields` that are the first with their key, in
/// their order.
pub open spec fn first_occurrences_to(fields: Seq<(Seq<char>, JsonModel)>, n: int) -> Seq<
    (Seq<char>, JsonModel),
>
    decreases n,
{
    if n <= 0 {
        Seq::empty()
    } else {
        let before = first_occurrences_to(fields, n - 1);
        if field_position(fields, fields[n - 1].0) == Some(n - 1) {
            before.push(fields[n - 1])
        } else {
            before
        }
    }
}

/// The members of an object as they are read: each key once, with the value of its
/// first occurrence, in the order of the first occurrences.
pub open spec fn first_occurrences(fields: Seq<(Seq<char>, JsonModel)>) -> Seq<
    (Seq<char>, JsonModel),
> {
    first_occurrences_to(fields, fields.len() as int)
}

/// Copies the members of an object and leaves out every member whose key has occurred
/// before it, so that what is left can be put into a map without loss.
pub fn distinct_fields(fields: &Vec<(String, JsonValue)>) -> (r: Vec<(String, JsonValue)>)
    ensures
        entries_model(r@) == first_occurrences(entries_model(fields@)),
{
    let ghost model = entries_model(fields@);
    let mut out: Vec<(String, JsonValue)> = Vec::new();
    assert(entries_model(out@) =~= first_occurrences_to(model, 0));
    let mut i: usize = 0;
    while i < fields.len()
        invariant
            i <= fields.len(),
            model == entries_model(fields@),
            entries_model(out@) == first_occurrences_to(model, i as int),
        decreases fields.len() - i,
    {
        let position = find_field(fields, fields[i].0.as_str());
        let first = match position {
            Some(j) => j == i,
            None => false,
        };
        assert(first == (field_position(model, model[i as int].0) == Some(i as int)));
        if first {
            let ghost before = entries_model(out@);
            let key = fields[i].0.clone();
            let value = fields[i].1.clone();
            out.push((key, value));
            assert(entries_model(out@) =~= before.push(model[i as int]));
        }
        i += 1;
    }
    out
}

} // verus!
