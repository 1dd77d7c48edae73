//! JSON values, built by `serde_json`.

use vstd::prelude::*;

use crate::text::{decimal, opt_text, views};

verus! {

/// The content of a JSON value.
#[verifier::ext_equal]
pub enum JsonTree {
    Null,
    Bool(bool),
    /// A number, as its numeral.
    Number(Seq<char>),
    Text(Seq<char>),
    List(Seq<JsonTree>),
    Object(Map<Seq<char>, JsonTree>),
}

/// The content of a value; that of a number is what its `Display` writes.
pub uninterp spec fn json_tree(v: serde_json::Value) -> JsonTree;

/// A JSON value.
#[derive(Debug, PartialEq)]
pub struct Json {
    pub value: serde_json::Value,
}

impl View for Json {
    type V = JsonTree;

    open spec fn view(&self) -> JsonTree {
        json_tree(self.value)
    }
}

/// The members that the first `n` entries make; of two with the same key the
/// later counts.
pub open spec fn members_upto(entries: Seq<(Seq<char>, JsonTree)>, n: int) -> Map<Seq<char>, JsonTree>
    decreases n,
{
    if n <= 0 {
        Map::empty()
    } else {
        members_upto(entries, n - 1).insert(entries[n - 1].0, entries[n - 1].1)
    }
}

/// The object of some entries.
pub open spec fn object_of(entries: Seq<(Seq<char>, JsonTree)>) -> JsonTree {
    JsonTree::Object(members_upto(entries, entries.len() as int))
}

/// `serde_json::Value::Bool` is a value that holds the truth value.
#[verifier::external_body]
pub(crate) fn json_bool(b: bool) -> (r: Json)
    ensures
        json_tree(r.value) == JsonTree::Bool(b),
{
    Json { value: serde_json::Value::Bool(b) }
}

/// `serde_json::Number::from` of an unsigned integer is that integer, which is
/// written as a plain decimal numeral.
#[verifier::external_body]
pub(crate) fn json_number(n: u64) -> (r: Json)
    ensures
        json_tree(r.value) == JsonTree::Number(decimal(n as nat)),
{
    Json { value: serde_json::Value::Number(serde_json::Number::from(n)) }
}

/// `serde_json::Value::String` is a value that holds the text.
#[verifier::external_body]
pub(crate) fn json_text(s: &str) -> (r: Json)
    ensures
        json_tree(r.value) == JsonTree::Text(s@),
{
    Json { value: serde_json::Value::String(s.to_string()) }
}

/// `serde_json::Value::Array` is a value that holds the items in their order.
#[verifier::external_body]
pub(crate) fn json_list(items: Vec<Json>) -> (r: Json)
    ensures
        json_tree(r.value) == JsonTree::List(views(items@)),
{
    Json { value: serde_json::Value::Array(items.into_iter().map(|j| j.value).collect()) }
}

/// `serde_json::Map::from_iter` inserts the entries one after the other, and
/// `serde_json::Value::Object` is a value that holds the map.
#[verifier::external_body]
pub(crate) fn json_object(entries: Vec<(String, Json)>) -> (r: Json)
    ensures
        json_tree(r.value) == object_of(views(entries@)),
{
    let map = serde_json::Map::from_iter(entries.into_iter().map(|(k, j)| (k, j.value)));
    Json { value: serde_json::Value::Object(map) }
}

/// `serde_json::Value::clone` makes a value with the same content.
#[verifier::external_body]
fn json_copy(j: &Json) -> (r: Json)
    ensures
        json_tree(r.value) == json_tree(j.value),
{
    Json { value: j.value.clone() }
}

impl Clone for Json {
    fn clone(&self) -> (r: Self)
        ensures
            r@ == self@,
    {
        json_copy(self)
    }
}

/// What `serde_json::to_string_pretty` writes for a content, or the text of
/// its error. An object is written by its keys in their order, so the content
/// alone decides.
pub uninterp spec fn pretty_text(t: JsonTree) -> Result<Seq<char>, Seq<char>>;

/// `serde_json::to_string_pretty` writes a value over several lines; its
/// result is named [`pretty_text`], and nothing more is claimed of it.
#[verifier::external_body]
pub(crate) fn json_pretty(j: &Json) -> (r: Result<String, String>)
    ensures
        match r {
            Ok(s) => pretty_text(j@) == Ok::<Seq<char>, Seq<char>>(s@),
            Err(e) => pretty_text(j@) == Err::<Seq<char>, Seq<char>>(e@),
        },
{
    serde_json::to_string_pretty(&j.value).map_err(|e| e.to_string())
}

/// An entry of an object.
pub(crate) fn entry(key: &str, value: Json) -> (r: (String, Json))
    ensures
        r@ == (key@, value@),
{
    (key.to_owned(), value)
}

/// An entry of an object that holds a text.
pub(crate) fn text_entry(key: &str, value: &str) -> (r: (String, Json))
    ensures
        r@ == (key@, JsonTree::Text(value@)),
{
    (key.to_owned(), json_text(value))
}

/// The text of a member, when the value is an object that has it.
pub open spec fn member_text(t: JsonTree, key: Seq<char>) -> Option<Seq<char>> {
    match t {
        JsonTree::Object(m) => if m.contains_key(key) {
            match m[key] {
                JsonTree::Text(s) => Some(s),
                _ => None,
            }
        } else {
            None
        },
        _ => None,
    }
}

/// `serde_json::Value::get` finds a member of an object, and
/// `serde_json::Value::as_str` its text.
#[verifier::external_body]
pub(crate) fn json_member_text(j: &Json, key: &str) -> (r: Option<String>)
    ensures
        opt_text(r) == member_text(json_tree(j.value), key@),
{
    j.value.get(key).and_then(|v| v.as_str()).map(|s| s.to_string())
}

} // verus!
