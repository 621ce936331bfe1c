//! JSON documents. They are parsed, held and written by `serde_json`; this
//! module states what the library relies on.
use vstd::prelude::*;

verus! {

/// A JSON value as a mathematical tree. A number is held by its text, an
/// object by its entries in the order the document has them.
pub enum JsonView {
    Null,
    Bool(bool),
    Number(Seq<char>),
    String(Seq<char>),
    Array(Seq<JsonView>),
    Object(Seq<(Seq<char>, JsonView)>),
}

/// A parsed JSON document, or a part of one.
///
/// Trusted: the value inside is `serde_json`'s and is opaque here. What it
/// holds is named by [`json_model`].
#[verifier::external_body]
#[derive(Debug, PartialEq)]
pub struct Json {
    inner: serde_json::Value,
}

/// The tree that a JSON value holds.
pub uninterp spec fn json_model(v: Json) -> JsonView;

/// What parsing a document gives: its tree, or the parser's message.
pub uninterp spec fn json_parse(bytes: Seq<u8>) -> Result<JsonView, Seq<char>>;

/// A JSON value written out in compact form.
pub uninterp spec fn json_text(v: JsonView) -> Seq<char>;

/// The outermost layer of a JSON value.
#[derive(Debug, PartialEq)]
pub enum Shape {
    Null,
    Bool(bool),
    Number(String),
    Text(String),
    Array,
    Object,
}

impl Shape {
    /// Whether this is the outermost layer of `v`.
    pub open spec fn describes(self, v: JsonView) -> bool {
        match self {
            Shape::Null => v is Null,
            Shape::Bool(b) => v == JsonView::Bool(b),
            Shape::Number(text) => v == JsonView::Number(text@),
            Shape::Text(text) => v == JsonView::String(text@),
            Shape::Array => v is Array,
            Shape::Object => v is Object,
        }
    }
}

/// The values that iterating over `v` visits, in order: the elements of an
/// array, the values of an object's entries. Nothing else can be iterated.
pub open spec fn elements(v: JsonView) -> Option<Seq<JsonView>> {
    match v {
        JsonView::Array(items) => Some(items),
        JsonView::Object(entries) => Some(
            Seq::new(entries.len(), |i: int| entries[i].1),
        ),
        _ => None,
    }
}

/// The element at `index` of an array: nothing past its end, and nothing
/// in what is no array.
pub open spec fn element_at(v: JsonView, index: nat) -> Option<JsonView> {
    match v {
        JsonView::Array(items) => if index < items.len() {
            Some(items[index as int])
        } else {
            None
        },
        _ => None,
    }
}

/// The value of the first of `entries` from `from` on whose key is `key`.
pub open spec fn entry_of(entries: Seq<(Seq<char>, JsonView)>, key: Seq<char>, from: nat) -> Option<
    JsonView,
>
    decreases entries.len() - from,
{
    if from >= entries.len() {
        None
    } else if entries[from as int].0 == key {
        Some(entries[from as int].1)
    } else {
        entry_of(entries, key, from + 1)
    }
}

/// The value that an object holds under `key`: nothing where it has no
/// such key, and nothing in what is no object.
pub open spec fn member_of(v: JsonView, key: Seq<char>) -> Option<JsonView> {
    match v {
        JsonView::Object(entries) => entry_of(entries, key, 0),
        _ => None,
    }
}

/// Whether the values of `items` hold the trees `trees`, one for one.
pub open spec fn models(items: Seq<Json>, trees: Seq<JsonView>) -> bool {
    &&& items.len() == trees.len()
    &&& forall|i: int| 0 <= i < items.len() ==> json_model(#[trigger] items[i]) == trees[i]
}

/// Parses a document.
///
/// Trusted: calls `serde_json::from_slice` for a `serde_json::Value`, and
/// on failure takes the error's `Display` text. The contract only names
/// the outcome: it is a function of the bytes alone.
#[verifier::external_body]
fn parse(bytes: &[u8]) -> (r: Result<Json, String>)
    ensures
        match r {
            Ok(v) => json_parse(bytes@) == Ok::<JsonView, Seq<char>>(json_model(v)),
            Err(e) => json_parse(bytes@) == Err::<JsonView, Seq<char>>(e@),
        },
{
    match serde_json::from_slice(bytes) {
        Ok(inner) => Ok(Json { inner }),
        Err(e) => Err(e.to_string()),
    }
}

/// Reads a JSON document from its bytes: the document, or the message of
/// the parser that refuses them.
pub fn read(bytes: &[u8]) -> (r: Result<Json, String>)
    ensures
        match r {
            Ok(v) => json_parse(bytes@) == Ok::<JsonView, Seq<char>>(json_model(v)),
            Err(e) => json_parse(bytes@) == Err::<JsonView, Seq<char>>(e@),
        },
{
    parse(bytes)
}

/// Tells which kind of value a JSON value is, and hands out the text of a
/// string or a number.
///
/// Trusted: matches on the variants of `serde_json::Value`. A number's text
/// is what `Display` of `serde_json::Number` writes.
#[verifier::external_body]
pub(crate) fn classify(v: &Json) -> (r: Shape)
    ensures
        r.describes(json_model(*v)),
{
    match &v.inner {
        serde_json::Value::Null => Shape::Null,
        serde_json::Value::Bool(b) => Shape::Bool(*b),
        serde_json::Value::Number(n) => Shape::Number(n.to_string()),
        serde_json::Value::String(s) => Shape::Text(s.clone()),
        serde_json::Value::Array(_) => Shape::Array,
        serde_json::Value::Object(_) => Shape::Object,
    }
}

/// A copy of a JSON value.
///
/// Trusted: calls `Clone::clone` of `serde_json::Value`, which copies the
/// whole tree.
#[verifier::external_body]
pub(crate) fn copy(v: &Json) -> (r: Json)
    ensures
        json_model(r) == json_model(*v),
{
    Json { inner: v.inner.clone() }
}

/// The element of an array at `index`.
///
/// Trusted: calls `serde_json::Value::get` with a `usize`, which gives the
/// element at that index of an array, and nothing past the array's end or
/// on a value that is no array. The element is copied.
#[verifier::external_body]
pub(crate) fn element(v: &Json, index: usize) -> (r: Option<Json>)
    ensures
        match r {
            Some(e) => element_at(json_model(*v), index as nat) == Some(json_model(e)),
            None => element_at(json_model(*v), index as nat) is None,
        },
{
    v.inner.get(index).map(|e| Json { inner: e.clone() })
}

/// The value that an object holds under `key`.
///
/// Trusted: calls `serde_json::Value::get` with a string, which gives the
/// value stored under that key of an object, and nothing where the key is
/// missing or the value is no object. The value is copied.
#[verifier::external_body]
pub(crate) fn member(v: &Json, key: &str) -> (r: Option<Json>)
    ensures
        match r {
            Some(e) => member_of(json_model(*v), key@) == Some(json_model(e)),
            None => member_of(json_model(*v), key@) is None,
        },
{
    v.inner.get(key).map(|e| Json { inner: e.clone() })
}

/// The values that iterating over `v` visits, in order.
///
/// Trusted: for an array, the elements of the `Vec` inside; for an object,
/// what `serde_json::Map::values` yields, which is the entries' values in
/// the map's order. Each is copied. Any other value gives nothing.
#[verifier::external_body]
pub(crate) fn values(v: &Json) -> (r: Option<Vec<Json>>)
    ensures
        match r {
            Some(items) => elements(json_model(*v)) is Some && models(
                items@,
                elements(json_model(*v))->0,
            ),
            None => elements(json_model(*v)) is None,
        },
{
    match &v.inner {
        serde_json::Value::Array(a) => Some(a.iter().map(|e| Json { inner: e.clone() }).collect()),
        serde_json::Value::Object(o) => Some(
            o.values().map(|e| Json { inner: e.clone() }).collect(),
        ),
        _ => None,
    }
}

/// Writes a JSON value in compact form.
///
/// Trusted: calls `to_string` of `serde_json::Value`, whose `Display`
/// writes the compact form. The contract only names the text.
#[verifier::external_body]
pub(crate) fn render(v: &Json) -> (r: String)
    ensures
        r@ == json_text(json_model(*v)),
{
    v.inner.to_string()
}

} // verus!
