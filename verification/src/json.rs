//! JSON documents, read and written through `serde_json`.
use serde_json::Value;
use vstd::prelude::*;
use vstd::string::*;

verus! {

/// `serde_json::Value`, a JSON document.
#[verifier::external_type_specification]
#[verifier::external_body]
pub struct ExValue(serde_json::Value);

/// What a JSON document says. A number that is not an integer in the range of
/// `i64` and `u64` is held as the text that `serde_json` writes for it.
pub enum Json {
    Null,
    Bool(bool),
    Integer(int),
    Real(Seq<char>),
    Text(Seq<char>),
    List(Seq<Json>),
    Record(Map<Seq<char>, Json>),
}

/// What a `serde_json::Value` holds.
pub uninterp spec fn json_model(value: Value) -> Json;

/// What `serde_json::from_str` makes of a text: the document, or the message of
/// its error.
pub uninterp spec fn json_parsed(text: Seq<char>) -> Result<Json, Seq<char>>;

/// The compact text that `serde_json` writes for a document.
pub uninterp spec fn json_text(document: Json) -> Seq<char>;

/// What a list of `serde_json::Value` holds.
pub open spec fn models(values: Seq<Value>) -> Seq<Json> {
    values.map_values(|value: Value| json_model(value))
}

/// The member of a record under a key; none in any other document.
pub open spec fn member(document: Json, key: Seq<char>) -> Option<Json> {
    match document {
        Json::Record(members) => if members.contains_key(key) {
            Some(members[key])
        } else {
            None
        },
        _ => None,
    }
}

/// The text that a document is; none in any other document.
pub open spec fn as_text(document: Json) -> Option<Seq<char>> {
    match document {
        Json::Text(text) => Some(text),
        _ => None,
    }
}

/// The items of the list that a document is; none in any other document.
pub open spec fn as_list(document: Json) -> Option<Seq<Json>> {
    match document {
        Json::List(items) => Some(items),
        _ => None,
    }
}

// ---------------------------------------------------------------------------
// Outside calls
// ---------------------------------------------------------------------------

/// `serde_json::from_str` on `Value`: the document that the text spells, or the
/// error's message. Either depends on the text alone.
#[verifier::external_body]
pub(crate) fn parse_value(text: &str) -> (parsed: Result<Value, String>)
    ensures
        match parsed {
            Ok(value) => json_parsed(text@) == Ok::<Json, Seq<char>>(json_model(value)),
            Err(message) => json_parsed(text@) == Err::<Json, Seq<char>>(message@),
        },
{
    match serde_json::from_str::<Value>(text) {
        Ok(value) => Ok(value),
        Err(error) => Err(error.to_string()),
    }
}

/// `Value::get` with a string: the member of an object under that key, `None`
/// where there is no such member or the value is not an object.
#[verifier::external_body]
pub(crate) fn get_member<'a>(value: &'a Value, key: &str) -> (found: Option<&'a Value>)
    ensures
        match found {
            Some(inner) => member(json_model(*value), key@) == Some(json_model(*inner)),
            None => member(json_model(*value), key@) is None,
        },
{
    value.get(key)
}

/// `Value::as_str`: the text of a JSON string, `None` for any other value.
#[verifier::external_body]
pub(crate) fn text_of(value: &Value) -> (text: Option<&str>)
    ensures
        match text {
            Some(inner) => as_text(json_model(*value)) == Some(inner@),
            None => as_text(json_model(*value)) is None,
        },
{
    value.as_str()
}

/// `Value::as_array`: the items of a JSON array, `None` for any other value.
#[verifier::external_body]
pub(crate) fn items_of(value: &Value) -> (items: Option<&Vec<Value>>)
    ensures
        match items {
            Some(inner) => as_list(json_model(*value)) == Some(models(inner@)),
            None => as_list(json_model(*value)) is None,
        },
{
    value.as_array()
}

/// `Value::clone`: a value that holds the same.
#[verifier::external_body]
pub(crate) fn copy_value(value: &Value) -> (copy: Value)
    ensures
        json_model(copy) == json_model(*value),
{
    value.clone()
}

/// `Value::Null`.
#[verifier::external_body]
pub(crate) fn null_value() -> (value: Value)
    ensures
        json_model(value) == Json::Null,
{
    Value::Null
}

/// `Value::from` on `bool`.
#[verifier::external_body]
pub(crate) fn bool_value(flag: bool) -> (value: Value)
    ensures
        json_model(value) == Json::Bool(flag),
{
    Value::from(flag)
}

/// `Value::from` on `i64`.
#[verifier::external_body]
pub(crate) fn integer_value(number: i64) -> (value: Value)
    ensures
        json_model(value) == Json::Integer(number as int),
{
    Value::from(number)
}

/// `Value::from` on `&str`.
#[verifier::external_body]
pub(crate) fn text_value(text: &str) -> (value: Value)
    ensures
        json_model(value) == Json::Text(text@),
{
    Value::from(text)
}

/// `Value::from` on `Vec<Value>`: an array of the values, in order.
#[verifier::external_body]
pub(crate) fn list_value(items: Vec<Value>) -> (value: Value)
    ensures
        json_model(value) == Json::List(models(items@)),
{
    Value::from(items)
}

/// Assignment through `IndexMut` with a string, `value[key] = inner`: sets the
/// member of an object under that key, new or not; `null` is first made an
/// empty object. On any other value it panics.
#[verifier::external_body]
pub(crate) fn set_member(value: &mut Value, key: &str, inner: Value)
    requires
        json_model(*old(value)) is Null || json_model(*old(value)) is Record,
    ensures
        json_model(*final(value)) == Json::Record(
            members_of(json_model(*old(value))).insert(key@, json_model(inner)),
        ),
{
    value[key] = inner;
}

/// `Value::to_string`: the compact text of the document.
#[verifier::external_body]
pub(crate) fn render_value(value: &Value) -> (text: String)
    ensures
        text@ == json_text(json_model(*value)),
{
    value.to_string()
}

/// The members of a record; none for any other document.
pub open spec fn members_of(document: Json) -> Map<Seq<char>, Json> {
    match document {
        Json::Record(members) => members,
        _ => Map::empty(),
    }
}

// ---------------------------------------------------------------------------
// Reading
// ---------------------------------------------------------------------------

/// The text under a key of a record; none where the member is missing or is no
/// text.
pub open spec fn text_member(document: Json, key: Seq<char>) -> Option<Seq<char>> {
    match member(document, key) {
        Some(inner) => as_text(inner),
        None => None,
    }
}

/// The items of the list under a key of a record; none where the member is
/// missing or is no list.
pub open spec fn list_member(document: Json, key: Seq<char>) -> Option<Seq<Json>> {
    match member(document, key) {
        Some(inner) => as_list(inner),
        None => None,
    }
}

/// What an optional string holds.
pub open spec fn optional_text(text: Option<String>) -> Option<Seq<char>> {
    match text {
        Some(inner) => Some(inner@),
        None => None,
    }
}

/// Reads the text under a key of a JSON object.
pub fn read_text(value: &Value, key: &str) -> (text: Option<String>)
    ensures
        optional_text(text) == text_member(json_model(*value), key@),
{
    match get_member(value, key) {
        Some(inner) => match text_of(inner) {
            Some(found) => Some(found.to_owned()),
            None => None,
        },
        None => None,
    }
}

/// Finds the items of the array under a key of a JSON object.
pub fn read_list<'a>(value: &'a Value, key: &str) -> (items: Option<&'a Vec<Value>>)
    ensures
        match items {
            Some(inner) => list_member(json_model(*value), key@) == Some(models(inner@)),
            None => list_member(json_model(*value), key@) is None,
        },
{
    match get_member(value, key) {
        Some(inner) => items_of(inner),
        None => None,
    }
}

// ---------------------------------------------------------------------------
// Writing
// ---------------------------------------------------------------------------

/// The members that a list of entries makes, a later entry taking the place of
/// an earlier one with its key.
pub open spec fn members(entries: Seq<(Seq<char>, Json)>) -> Map<Seq<char>, Json>
    decreases entries.len(),
{
    if entries.len() == 0 {
        Map::empty()
    } else {
        members(entries.drop_last()).insert(entries.last().0, entries.last().1)
    }
}

/// The record with the given entries.
pub open spec fn record(entries: Seq<(Seq<char>, Json)>) -> Json {
    Json::Record(members(entries))
}

/// What a list of entries holds.
pub open spec fn entry_models(entries: Seq<(&'static str, Value)>) -> Seq<(Seq<char>, Json)> {
    entries.map_values(|entry: (&'static str, Value)| (entry.0@, json_model(entry.1)))
}

/// A JSON object with the given entries.
pub fn object_value(entries: Vec<(&'static str, Value)>) -> (value: Value)
    requires
        entries@.len() > 0,
    ensures
        json_model(value) == record(entry_models(entries@)),
{
    let ghost all = entry_models(entries@);
    let mut value = null_value();
    let mut i: usize = 0;
    while i < entries.len()
        invariant
            all == entry_models(entries@),
            i <= entries@.len(),
            i == 0 ==> json_model(value) == Json::Null,
            i > 0 ==> json_model(value) == record(all.take(i as int)),
        decreases entries.len() - i,
    {
        let ghost before = json_model(value);
        set_member(&mut value, entries[i].0, copy_value(&entries[i].1));
        proof {
            assert(all.take(0) =~= Seq::empty());
            assert(all.take(i + 1).drop_last() =~= all.take(i as int));
            assert(members_of(before) == members(all.take(i as int)));
        }
        i = i + 1;
    }
    assert(all.take(i as int) =~= all);
    value
}

} // verus!
