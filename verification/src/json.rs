//! JSON documents read with `serde_json`, seen through JSON pointers.

use vstd::prelude::*;

verus! {

#[verifier::external_type_specification]
#[verifier::external_body]
pub struct ExJsonValue(serde_json::Value);

/// What a JSON value is, as far as the adapters look at it: a number keeps the
/// text that `serde_json` writes for it and its value as an `i64` where it is an
/// integer that fits; a string keeps its characters.
pub enum JsonModel {
    Null,
    Bool(bool),
    Number(Seq<char>, Option<int>),
    Text(Seq<char>),
    Array,
    Object,
}

/// Whether `serde_json` reads the bytes as one JSON value (`serde_json::from_slice`).
pub uninterp spec fn json_parses(bytes: Seq<u8>) -> bool;

/// The value that the JSON pointer addresses in the document that
/// `serde_json` reads from the bytes (`Value::pointer`, RFC 6901), or `None`
/// where the bytes do not parse or nothing is there.
pub uninterp spec fn json_at(bytes: Seq<u8>, pointer: Seq<char>) -> Option<JsonModel>;

/// A JSON value, as plain values.
#[derive(Clone, Debug)]
pub enum JsonItem {
    Null,
    Bool(bool),
    Number(String, Option<i64>),
    Text(String),
    Array,
    Object,
}

impl View for JsonItem {
    type V = JsonModel;

    open spec fn view(&self) -> JsonModel {
        match self {
            JsonItem::Null => JsonModel::Null,
            JsonItem::Bool(b) => JsonModel::Bool(*b),
            JsonItem::Number(t, i) => JsonModel::Number(
                t@,
                match i {
                    Some(v) => Some(*v as int),
                    None => None,
                },
            ),
            JsonItem::Text(s) => JsonModel::Text(s@),
            JsonItem::Array => JsonModel::Array,
            JsonItem::Object => JsonModel::Object,
        }
    }
}

/// A parsed JSON document, with the bytes it was read from.
pub struct JsonDoc {
    value: serde_json::Value,
    bytes: Ghost<Seq<u8>>,
}

impl JsonDoc {
    /// The bytes the document was read from.
    pub closed spec fn source(&self) -> Seq<u8> {
        self.bytes@
    }
}

/// The document that `serde_json` reads from the bytes, or `None` where it
/// does not read them as one JSON value.
pub fn parse_json(bytes: &[u8]) -> (r: Option<JsonDoc>)
    ensures
        r is Some <==> json_parses(bytes@),
        r matches Some(d) ==> d.source() == bytes@,
{
    match parse_json_reporting(bytes) {
        Ok(d) => Some(d),
        Err(_) => None,
    }
}

/// `Value::pointer` on the document, with the value found read as plain values
/// (a number as its `Display` text and `as_i64`).
#[verifier::external_body]
pub(crate) fn json_value_at(doc: &JsonDoc, pointer: &str) -> (r: Option<JsonItem>)
    ensures
        match json_at(doc.source(), pointer@) {
            Some(m) => r matches Some(item) && item@ == m,
            None => r is None,
        },
{
    doc.value.pointer(pointer).map(|v| match v {
        serde_json::Value::Null => JsonItem::Null,
        serde_json::Value::Bool(b) => JsonItem::Bool(*b),
        serde_json::Value::Number(n) => JsonItem::Number(n.to_string(), n.as_i64()),
        serde_json::Value::String(s) => JsonItem::Text(s.clone()),
        serde_json::Value::Array(_) => JsonItem::Array,
        serde_json::Value::Object(_) => JsonItem::Object,
    })
}

/// The string that the pointer addresses, if it addresses a string.
pub open spec fn json_text(bytes: Seq<u8>, pointer: Seq<char>) -> Option<Seq<char>> {
    match json_at(bytes, pointer) {
        Some(JsonModel::Text(s)) => Some(s),
        _ => None,
    }
}

/// The string that the pointer addresses in the document, if it is a string.
pub fn text_at(doc: &JsonDoc, pointer: &str) -> (r: Option<String>)
    ensures
        match json_text(doc.source(), pointer@) {
            Some(s) => r matches Some(x) && x@ == s,
            None => r is None,
        },
{
    match json_value_at(doc, pointer) {
        Some(JsonItem::Text(s)) => Some(s),
        _ => None,
    }
}


/// The text of the error that `serde_json::from_slice` reports on bytes that
/// it does not read as one JSON value (its `Display`).
pub uninterp spec fn json_error_text(bytes: Seq<u8>) -> Seq<char>;

/// `serde_json::from_slice` into a `Value`, kept with the bytes it read, or
/// the text of the error it reports.
#[verifier::external_body]
pub(crate) fn parse_json_reporting(bytes: &[u8]) -> (r: Result<JsonDoc, String>)
    ensures
        r is Ok <==> json_parses(bytes@),
        r matches Ok(d) ==> d.source() == bytes@,
        r matches Err(m) ==> m@ == json_error_text(bytes@),
{
    match serde_json::from_slice::<serde_json::Value>(bytes) {
        Ok(value) => Ok(JsonDoc { value, bytes: Ghost(bytes@) }),
        Err(e) => Err(e.to_string()),
    }
}

/// The value that successive `Value::get` calls with the keys reach from the
/// document that `serde_json` reads from the bytes (a key is looked up in an
/// object only), or `None` where one of them finds nothing.
pub uninterp spec fn json_member_at(bytes: Seq<u8>, keys: Seq<Seq<char>>) -> Option<JsonModel>;

/// A value inside a parsed JSON document, with the bytes of the document and
/// the keys that lead to it.
pub struct JsonNode {
    value: serde_json::Value,
    bytes: Ghost<Seq<u8>>,
    keys: Ghost<Seq<Seq<char>>>,
}

impl JsonNode {
    /// The bytes of the document.
    pub closed spec fn source(&self) -> Seq<u8> {
        self.bytes@
    }

    /// The keys that lead from the document to this value.
    pub closed spec fn keys(&self) -> Seq<Seq<char>> {
        self.keys@
    }
}

/// The whole document as a value reached by no key (a copy of its `Value`).
#[verifier::external_body]
pub(crate) fn json_root(doc: &JsonDoc) -> (r: JsonNode)
    ensures
        r.source() == doc.source(),
        r.keys() == Seq::<Seq<char>>::empty(),
        json_member_at(r.source(), r.keys()) is Some,
{
    JsonNode { value: doc.value.clone(), bytes: Ghost(doc.bytes@), keys: Ghost(Seq::empty()) }
}

/// `Value::get` with a key: the member of that name where the value is an
/// object that has one. Where there is none, no longer list of keys through
/// this one reaches anything either.
#[verifier::external_body]
pub(crate) fn json_member(node: &JsonNode, key: &str) -> (r: Option<JsonNode>)
    ensures
        r is Some <==> json_member_at(node.source(), node.keys().push(key@)) is Some,
        r matches Some(n) ==> n.source() == node.source() && n.keys() == node.keys().push(key@),
        r is None ==> forall|more: Seq<Seq<char>>|
            json_member_at(node.source(), #[trigger] (node.keys().push(key@) + more)) is None,
{
    match node.value.get(key) {
        Some(v) => Some(
            JsonNode { value: v.clone(), bytes: Ghost(node.bytes@), keys: Ghost(node.keys@.push(key@)) },
        ),
        None => None,
    }
}

/// The value, read as plain values (a number as its `Display` text and `as_i64`).
#[verifier::external_body]
pub(crate) fn json_node_item(node: &JsonNode) -> (r: JsonItem)
    requires
        json_member_at(node.source(), node.keys()) is Some,
    ensures
        json_member_at(node.source(), node.keys()) == Some(r@),
{
    match &node.value {
        serde_json::Value::Null => JsonItem::Null,
        serde_json::Value::Bool(b) => JsonItem::Bool(*b),
        serde_json::Value::Number(n) => JsonItem::Number(n.to_string(), n.as_i64()),
        serde_json::Value::String(s) => JsonItem::Text(s.clone()),
        serde_json::Value::Array(_) => JsonItem::Array,
        serde_json::Value::Object(_) => JsonItem::Object,
    }
}

} // verus!
