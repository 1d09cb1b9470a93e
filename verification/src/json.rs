//! JSON documents, as `serde_json` holds them.
//!
//! A document is a `serde_json::Value`. What it holds is the tree `json(v)`:
//! every contract in the crate speaks of that tree, never of the value itself.

use vstd::prelude::*;
use vstd::utf8::*;

verus! {

/// The tree that a JSON document stands for. Integers are one kind of number,
/// floating-point numbers the other, told apart by the bits of the double.
#[verifier::ext_equal]
pub enum Json {
    Null,
    Bool(bool),
    Int(int),
    Float(u64),
    Str(Seq<char>),
    Array(Seq<Json>),
    Object(Map<Seq<char>, Json>),
}

impl Json {
    /// The value of a key: nothing where the key is missing, and nothing in a
    /// document that is no object.
    pub open spec fn at(self, key: Seq<char>) -> Option<Json> {
        match self {
            Json::Object(m) => if m.contains_key(key) {
                Some(m[key])
            } else {
                None
            },
            _ => None,
        }
    }

    /// The text of a string.
    pub open spec fn text(self) -> Option<Seq<char>> {
        match self {
            Json::Str(s) => Some(s),
            _ => None,
        }
    }

    /// The text of the string at a key.
    pub open spec fn text_at(self, key: Seq<char>) -> Option<Seq<char>> {
        match self.at(key) {
            Some(v) => v.text(),
            None => None,
        }
    }

    /// An object with one more key, or with the key's value replaced. An empty
    /// document becomes an object.
    pub open spec fn with(self, key: Seq<char>, value: Json) -> Json {
        match self {
            Json::Object(m) => Json::Object(m.insert(key, value)),
            _ => Json::Object(Map::empty().insert(key, value)),
        }
    }
}

/// A key that gets the value which it has leaves the object as it is.
pub proof fn lemma_with_same(j: Json, key: Seq<char>)
    ensures
        j.at(key) matches Some(v) ==> j.with(key, v) == j,
{
    if j.at(key) is Some {
        let m = j->Object_0;
        assert(m.insert(key, m[key]) =~= m);
    }
}

/// The object without any key.
pub open spec fn no_keys() -> Json {
    Json::Object(Map::empty())
}

#[verifier::external_type_specification]
#[verifier::external_body]
pub struct ExValue(serde_json::Value);

#[verifier::external_type_specification]
#[verifier::external_body]
pub struct ExJsonError(serde_json::Error);

/// What a `serde_json::Value` holds.
pub uninterp spec fn json(v: serde_json::Value) -> Json;

/// The trees that a list of values holds, in order.
pub open spec fn json_seq(s: Seq<serde_json::Value>) -> Seq<Json> {
    s.map_values(|v: serde_json::Value| json(v))
}

/// The text that `serde_json` writes for a tree, without any white space
/// between its parts.
pub uninterp spec fn json_text(j: Json) -> Seq<char>;

/// What `serde_json` reads from bytes: nothing where they are not JSON.
pub uninterp spec fn json_parse(bytes: Seq<u8>) -> Option<Json>;

/// `serde_json::Value::as_str`: the text of a string, and nothing for any
/// other kind of value.
pub assume_specification[ serde_json::Value::as_str ](v: &serde_json::Value) -> (r: Option<&str>)
    ensures
        match r {
            Some(s) => json(*v) == Json::Str(s@),
            None => !(json(*v) is Str),
        },
;

/// `serde_json::Value::as_bool`: the value of a boolean, and nothing for any
/// other kind of value.
pub assume_specification[ serde_json::Value::as_bool ](v: &serde_json::Value) -> (r: Option<bool>)
    ensures
        match r {
            Some(b) => json(*v) == Json::Bool(b),
            None => !(json(*v) is Bool),
        },
;

/// `serde_json::Value::as_u64`: an integer that fits, and nothing for any other
/// value; a floating-point number is none, whatever it is.
pub assume_specification[ serde_json::Value::as_u64 ](v: &serde_json::Value) -> (r: Option<u64>)
    ensures
        match r {
            Some(n) => json(*v) == Json::Int(n as int),
            None => json(*v) matches Json::Int(n) ==> !(0 <= n <= u64::MAX),
        },
;

/// `serde_json::Value::as_i64`: an integer that fits, and nothing for any other
/// value; a floating-point number is none, whatever it is.
pub assume_specification[ serde_json::Value::as_i64 ](v: &serde_json::Value) -> (r: Option<i64>)
    ensures
        match r {
            Some(n) => json(*v) == Json::Int(n as int),
            None => json(*v) matches Json::Int(n) ==> !(i64::MIN <= n <= i64::MAX),
        },
;

/// `serde_json::Value::as_array`: the elements of an array, and nothing for any
/// other kind of value.
pub assume_specification[ serde_json::Value::as_array ](v: &serde_json::Value) -> (r: Option<
    &Vec<serde_json::Value>,
>)
    ensures
        match r {
            Some(a) => json(*v) == Json::Array(json_seq(a@)),
            None => !(json(*v) is Array),
        },
;

/// `serde_json::Value::as_array_mut`: the elements of an array, to be changed in
/// place, and nothing for any other kind of value.
pub assume_specification[ serde_json::Value::as_array_mut ](v: &mut serde_json::Value) -> (r: Option<
    &mut Vec<serde_json::Value>,
>)
    ensures
        match r {
            Some(a) => {
                &&& json(*old(v)) == Json::Array(json_seq(a@))
                &&& json(*final(v)) == Json::Array(json_seq(final(a)@))
            },
            None => !(json(*old(v)) is Array) && *final(v) == *old(v),
        },
;

/// `serde_json::Value::get` on a key: the value of the key in an object, and
/// nothing where the key is missing or the value is no object.
#[verifier::external_body]
pub(crate) fn get<'a>(v: &'a serde_json::Value, key: &str) -> (r: Option<&'a serde_json::Value>)
    ensures
        match r {
            Some(x) => json(*v).at(key@) == Some(json(*x)),
            None => json(*v).at(key@) is None,
        },
{
    v.get(key)
}

/// `serde_json::Value::get_mut` on a key: as `get`, to be changed in place; the
/// other keys stay as they are.
#[verifier::external_body]
pub(crate) fn get_mut<'a>(v: &'a mut serde_json::Value, key: &str) -> (r: Option<
    &'a mut serde_json::Value,
>)
    ensures
        match r {
            Some(x) => {
                &&& json(*old(v)).at(key@) == Some(json(*x))
                &&& json(*final(v)) == json(*old(v)).with(key@, json(*final(x)))
            },
            None => json(*old(v)).at(key@) is None && *final(v) == *old(v),
        },
{
    v.get_mut(key)
}

/// Assignment to an index of a `serde_json::Value`: the key gets the value in an
/// object, and null becomes an object of that one key. On any other kind of
/// value the assignment would panic.
#[verifier::external_body]
pub(crate) fn set(v: &mut serde_json::Value, key: &str, x: serde_json::Value)
    requires
        json(*old(v)) is Object || json(*old(v)) is Null,
    ensures
        json(*final(v)) == json(*old(v)).with(key@, json(x)),
{
    v[key] = x;
}

/// `serde_json::Value::is_object`.
pub assume_specification[ serde_json::Value::is_object ](v: &serde_json::Value) -> (r: bool)
    ensures
        r == (json(*v) is Object),
;

/// `serde_json::Value::is_number`: integers and floating-point numbers are.
pub assume_specification[ serde_json::Value::is_number ](v: &serde_json::Value) -> (r: bool)
    ensures
        r == (json(*v) is Int || json(*v) is Float),
;

/// `serde_json::Value::is_null`.
pub assume_specification[ serde_json::Value::is_null ](v: &serde_json::Value) -> (r: bool)
    ensures
        r == (json(*v) is Null),
;

/// `serde_json::Value::Null`.
#[verifier::external_body]
pub(crate) fn null() -> (r: serde_json::Value)
    ensures
        json(r) == Json::Null,
{
    serde_json::Value::Null
}

/// `serde_json::Value::Bool`.
#[verifier::external_body]
pub(crate) fn boolean(b: bool) -> (r: serde_json::Value)
    ensures
        json(r) == Json::Bool(b),
{
    serde_json::Value::Bool(b)
}

/// `serde_json::Value::from` on a signed integer: the number itself.
#[verifier::external_body]
pub(crate) fn integer(n: i64) -> (r: serde_json::Value)
    ensures
        json(r) == Json::Int(n as int),
{
    serde_json::Value::from(n)
}

/// `serde_json::Value::from` on an unsigned integer: the number itself.
#[verifier::external_body]
pub(crate) fn unsigned(n: u64) -> (r: serde_json::Value)
    ensures
        json(r) == Json::Int(n as int),
{
    serde_json::Value::from(n)
}

/// `serde_json::Value::String`.
#[verifier::external_body]
pub(crate) fn string(s: String) -> (r: serde_json::Value)
    ensures
        json(r) == Json::Str(s@),
{
    serde_json::Value::String(s)
}

/// `serde_json::Value::Array`.
#[verifier::external_body]
pub(crate) fn array(a: Vec<serde_json::Value>) -> (r: serde_json::Value)
    ensures
        json(r) == Json::Array(json_seq(a@)),
{
    serde_json::Value::Array(a)
}

/// `serde_json::Map::new`, as a value: an object without any key.
#[verifier::external_body]
pub(crate) fn object() -> (r: serde_json::Value)
    ensures
        json(r) == no_keys(),
{
    serde_json::Value::Object(serde_json::Map::new())
}

/// `serde_json::Value`'s `Display`: the text of the tree, named `json_text`.
#[verifier::external_body]
pub(crate) fn to_text(v: &serde_json::Value) -> (r: String)
    ensures
        r@ == json_text(json(*v)),
{
    v.to_string()
}

/// `serde_json::to_vec` on a value: the UTF-8 bytes of the text that `Display`
/// gives. The writer is a vector and every key of a value is a string, so the
/// call does not fail.
#[verifier::external_body]
pub(crate) fn to_bytes(v: &serde_json::Value) -> (r: Result<Vec<u8>, serde_json::Error>)
    ensures
        r is Ok,
        r->Ok_0@ == encode_utf8(json_text(json(*v))),
{
    serde_json::to_vec(v)
}

/// `serde_json::from_slice` into a value: what it reads is named `json_parse`,
/// and it fails where that is nothing.
#[verifier::external_body]
pub(crate) fn parse(bytes: &[u8]) -> (r: Result<serde_json::Value, serde_json::Error>)
    ensures
        match r {
            Ok(v) => json_parse(bytes@) == Some(json(v)),
            Err(_) => json_parse(bytes@) is None,
        },
{
    serde_json::from_slice(bytes)
}

/// A string value of a literal.
pub(crate) fn lit(s: &str) -> (r: serde_json::Value)
    ensures
        json(r) == Json::Str(s@),
{
    string(s.to_owned())
}

} // verus!
