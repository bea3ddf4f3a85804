//! JSON values, in which the host hands the driver its arguments and carries a setup from step to
//! step: what is read of them, and what is written.
use vstd::prelude::*;

verus! {

/// What a JSON value holds.
pub enum Json {
    Null,
    Bool(bool),
    /// A whole number from 0 to the largest `u64`.
    Number(u64),
    /// Any other number, as it is.
    Other(serde_json::Number),
    Text(Seq<char>),
    List(Seq<Json>),
    Object(Map<Seq<char>, Json>),
}

/// `serde_json::Value`, a tree of JSON.
#[verifier::external_type_specification]
#[verifier::external_body]
pub struct ExValue(serde_json::Value);

/// `serde_json::Number`, carried as it is.
#[verifier::external_type_specification]
#[verifier::external_body]
pub struct ExNumber(serde_json::Number);

/// What a value holds.
pub uninterp spec fn held(value: serde_json::Value) -> Json;

/// What a value that may be missing holds.
pub open spec fn held_in(value: Option<serde_json::Value>) -> Option<Json> {
    match value {
        Some(value) => Some(held(value)),
        None => None,
    }
}

/// What an object holds under a key.
pub open spec fn at(json: Json, key: Seq<char>) -> Option<Json> {
    match json {
        Json::Object(fields) => if fields.dom().contains(key) {
            Some(fields[key])
        } else {
            None
        },
        _ => None,
    }
}

/// The text under a key, where there is one.
pub open spec fn text_in(json: Json, key: Seq<char>) -> Option<Seq<char>> {
    match at(json, key) {
        Some(Json::Text(s)) => Some(s),
        _ => None,
    }
}

/// The flag under a key, where there is one.
pub open spec fn flag_in(json: Json, key: Seq<char>) -> Option<bool> {
    match at(json, key) {
        Some(Json::Bool(b)) => Some(b),
        _ => None,
    }
}

/// The number under a key, where there is one that is whole and fits.
pub open spec fn number_in(json: Json, key: Seq<char>) -> Option<u64> {
    match at(json, key) {
        Some(Json::Number(n)) => Some(n),
        _ => None,
    }
}

/// The list under a key, where there is one.
pub open spec fn list_in(json: Json, key: Seq<char>) -> Option<Seq<Json>> {
    match at(json, key) {
        Some(Json::List(items)) => Some(items),
        _ => None,
    }
}

/// An object with a value under a key: the one given, or a new one where what is given is none.
pub open spec fn with(json: Json, key: Seq<char>, value: Json) -> Json {
    match json {
        Json::Object(fields) => Json::Object(fields.insert(key, value)),
        _ => Json::Object(Map::empty().insert(key, value)),
    }
}

/// With a value under a key where there is a value; as it was where there is none.
pub open spec fn put(json: Json, key: Seq<char>, value: Option<Json>) -> Json {
    match value {
        Some(value) => with(json, key, value),
        None => json,
    }
}

/// A text as JSON.
pub open spec fn text(s: Option<Seq<char>>) -> Option<Json> {
    match s {
        Some(s) => Some(Json::Text(s)),
        None => None,
    }
}

/// A flag as JSON.
pub open spec fn flag(b: Option<bool>) -> Option<Json> {
    match b {
        Some(b) => Some(Json::Bool(b)),
        None => None,
    }
}

/// A number as JSON.
pub open spec fn number(n: Option<u64>) -> Option<Json> {
    match n {
        Some(n) => Some(Json::Number(n)),
        None => None,
    }
}

/// To put under a key what stands there changes nothing.
pub proof fn lemma_put_again(json: Json, key: Seq<char>, value: Option<Json>)
    requires
        value is Some ==> at(json, key) == value,
    ensures
        put(json, key, value) == json,
{
    if let (Json::Object(fields), Some(v)) = (json, value) {
        assert(fields.insert(key, v) =~= fields);
    }
}

/// `Value::get` of a text: what the value holds under the key, where it is an object.
#[verifier::external_body]
fn get<'a>(value: &'a serde_json::Value, key: &str) -> (r: Option<&'a serde_json::Value>)
    ensures
        match r {
            Some(found) => at(held(*value), key@) == Some(held(*found)),
            None => at(held(*value), key@) is None,
        },
{
    value.get(key)
}

/// `Value::as_str`: the text that the value is, where it is one.
#[verifier::external_body]
fn as_str(value: &serde_json::Value) -> (r: Option<&str>)
    ensures
        match r {
            Some(s) => held(*value) == Json::Text(s@),
            None => !(held(*value) is Text),
        },
{
    value.as_str()
}

/// `Value::as_bool`: the flag that the value is, where it is one.
#[verifier::external_body]
fn as_bool(value: &serde_json::Value) -> (r: Option<bool>)
    ensures
        match r {
            Some(b) => held(*value) == Json::Bool(b),
            None => !(held(*value) is Bool),
        },
{
    value.as_bool()
}

/// `Value::as_u64`: the number that the value is, where it is a whole one from 0 to the largest
/// `u64`.
#[verifier::external_body]
fn as_u64(value: &serde_json::Value) -> (r: Option<u64>)
    ensures
        match r {
            Some(n) => held(*value) == Json::Number(n),
            None => !(held(*value) is Number),
        },
{
    value.as_u64()
}

/// `Value::as_array`: the items of the list that the value is, where it is one.
#[verifier::external_body]
fn as_array(value: &serde_json::Value) -> (r: Option<&Vec<serde_json::Value>>)
    ensures
        match r {
            Some(items) => held(*value) == Json::List(
                items@.map_values(|item: serde_json::Value| held(item)),
            ),
            None => !(held(*value) is List),
        },
{
    value.as_array()
}

/// `Value::is_object`: whether the value is an object.
#[verifier::external_body]
fn is_object(value: &serde_json::Value) -> (r: bool)
    ensures
        r == (held(*value) is Object),
{
    value.is_object()
}

/// `Value::clone`: a value that holds the same.
#[verifier::external_body]
pub(crate) fn copy(value: &serde_json::Value) -> (r: serde_json::Value)
    ensures
        held(r) == held(*value),
{
    value.clone()
}

/// `Value::default`, which is `Value::Null`.
#[verifier::external_body]
pub(crate) fn null() -> (r: serde_json::Value)
    ensures
        held(r) == Json::Null,
{
    serde_json::Value::default()
}

/// `Value::from` of a `String`.
#[verifier::external_body]
fn from_text(s: String) -> (r: serde_json::Value)
    ensures
        held(r) == Json::Text(s@),
{
    serde_json::Value::from(s)
}

/// `Value::from` of a `bool`.
#[verifier::external_body]
fn from_flag(b: bool) -> (r: serde_json::Value)
    ensures
        held(r) == Json::Bool(b),
{
    serde_json::Value::from(b)
}

/// `Value::from` of a `u64`.
#[verifier::external_body]
fn from_number(n: u64) -> (r: serde_json::Value)
    ensures
        held(r) == Json::Number(n),
{
    serde_json::Value::from(n)
}

/// `Value::from` of a `Vec` of values.
#[verifier::external_body]
fn from_list(items: Vec<serde_json::Value>) -> (r: serde_json::Value)
    ensures
        held(r) == Json::List(items@.map_values(|item: serde_json::Value| held(item))),
{
    serde_json::Value::from(items)
}

/// An assignment to `Value[key]`, through `Value::index_mut`: an object then holds the new value
/// under the key and everything else as before, and null becomes an object of that one. On any
/// other value it panics.
#[verifier::external_body]
fn assign(value: &mut serde_json::Value, key: &str, new: serde_json::Value)
    requires
        held(*old(value)) is Object || held(*old(value)) is Null,
    ensures
        held(*final(value)) == with(held(*old(value)), key@, held(new)),
{
    value[key] = new;
}

/// The text under a key, where there is one.
pub fn text_at(value: &serde_json::Value, key: &str) -> (r: Option<String>)
    ensures
        r.deep_view() == text_in(held(*value), key@),
{
    match get(value, key) {
        Some(found) => match as_str(found) {
            Some(s) => Some(s.to_owned()),
            None => None,
        },
        None => None,
    }
}

/// The flag under a key, where there is one.
pub fn flag_at(value: &serde_json::Value, key: &str) -> (r: Option<bool>)
    ensures
        r == flag_in(held(*value), key@),
{
    match get(value, key) {
        Some(found) => as_bool(found),
        None => None,
    }
}

/// The number under a key, where there is one that is whole and fits.
pub fn number_at(value: &serde_json::Value, key: &str) -> (r: Option<u64>)
    ensures
        r == number_in(held(*value), key@),
{
    match get(value, key) {
        Some(found) => as_u64(found),
        None => None,
    }
}

/// The items of the list under a key, where there is one.
pub fn list_at<'a>(value: &'a serde_json::Value, key: &str) -> (r: Option<&'a Vec<serde_json::Value>>)
    ensures
        match r {
            Some(items) => list_in(held(*value), key@) == Some(
                items@.map_values(|item: serde_json::Value| held(item)),
            ),
            None => list_in(held(*value), key@) is None,
        },
{
    match get(value, key) {
        Some(found) => as_array(found),
        None => None,
    }
}

/// The value with another under a key. What is no object becomes one.
fn set(value: &mut serde_json::Value, key: &str, new: serde_json::Value)
    ensures
        held(*final(value)) == with(held(*old(value)), key@, held(new)),
{
    if !is_object(value) {
        *value = null();
    }
    assign(value, key, new);
}

/// The value with a text under a key, where there is a text.
pub fn put_text(value: &mut serde_json::Value, key: &str, s: Option<String>)
    ensures
        held(*final(value)) == put(held(*old(value)), key@, text(s.deep_view())),
{
    if let Some(s) = s {
        set(value, key, from_text(s));
    }
}

/// The value with a flag under a key, where there is a flag.
pub fn put_flag(value: &mut serde_json::Value, key: &str, b: Option<bool>)
    ensures
        held(*final(value)) == put(held(*old(value)), key@, flag(b)),
{
    if let Some(b) = b {
        set(value, key, from_flag(b));
    }
}

/// The value with a number under a key, where there is a number.
pub fn put_number(value: &mut serde_json::Value, key: &str, n: Option<u64>)
    ensures
        held(*final(value)) == put(held(*old(value)), key@, number(n)),
{
    if let Some(n) = n {
        set(value, key, from_number(n));
    }
}

/// The value with a list under a key, where there is a list.
pub fn put_list(value: &mut serde_json::Value, key: &str, items: Option<Vec<serde_json::Value>>)
    ensures
        held(*final(value)) == put(
            held(*old(value)),
            key@,
            match items {
                Some(items) => Some(
                    Json::List(items@.map_values(|item: serde_json::Value| held(item))),
                ),
                None => None,
            },
        ),
{
    if let Some(items) = items {
        set(value, key, from_list(items));
    }
}

/// What is read under a key of an object is what stands there, as it stands, where it is of the type;
/// and nothing where it is of another type or missing.
pub proof fn law_what_is_read_is_what_stands_there(
    fields: Map<Seq<char>, Json>,
    key: Seq<char>,
    s: Seq<char>,
    b: bool,
    n: u64,
    items: Seq<Json>,
)
    ensures
        ({
            let object = Json::Object(fields);
            let there = fields.dom().contains(key);
            &&& text_in(object, key) == Some(s) <==> there && fields[key] == Json::Text(s)
            &&& flag_in(object, key) == Some(b) <==> there && fields[key] == Json::Bool(b)
            &&& number_in(object, key) == Some(n) <==> there && fields[key] == Json::Number(n)
            &&& list_in(object, key) == Some(items) <==> there && fields[key] == Json::List(items)
        }),
{
}

/// Nothing is read of what is no object.
pub proof fn law_nothing_is_read_of_what_is_no_object(json: Json, key: Seq<char>)
    requires
        !(json is Object),
    ensures
        text_in(json, key) is None,
        flag_in(json, key) is None,
        number_in(json, key) is None,
        list_in(json, key) is None,
{
}

} // verus!
