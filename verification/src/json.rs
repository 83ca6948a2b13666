//! JSON values, held by the JSON crate and stated as a tree. What is said of the
//! functions marked `external_body` is believed, not proved.

use serde_json::{Map as JsonMap, Value};
use vstd::prelude::*;

verus! {

/// What a JSON value says. A number that is neither an unsigned nor a negative
/// integer stands for itself by the text that prints it.
pub enum Json {
    Null,
    Bool(bool),
    Unsigned(u64),
    Negative(i64),
    Float(Seq<char>),
    Text(Seq<char>),
    List(Seq<Json>),
    Object(Map<Seq<char>, Json>),
}

impl Json {
    /// Nested no deeper than `depth`, and free of numbers with a fraction.
    pub open spec fn plain_to(self, depth: nat) -> bool
        decreases depth,
    {
        match self {
            Json::Float(_) => false,
            Json::List(items) => depth > 0 && forall|i: int|
                0 <= i < items.len() ==> (#[trigger] items[i]).plain_to((depth - 1) as nat),
            Json::Object(members) => depth > 0 && forall|k: Seq<char>|
                #[trigger] members.contains_key(k) ==> members[k].plain_to((depth - 1) as nat),
            _ => true,
        }
    }

    /// The member of an object under a key.
    pub open spec fn member(self, key: Seq<char>) -> Option<Json> {
        match self {
            Json::Object(members) => if members.contains_key(key) {
                Some(members[key])
            } else {
                None
            },
            _ => None,
        }
    }

    /// A field of a record of `count` fields, which is written either as an object, by
    /// the field's key, or as the list of all its fields, by the field's place.
    pub open spec fn field(self, key: Seq<char>, at: nat, count: nat) -> Option<Json> {
        match self {
            Json::Object(members) => self.member(key),
            Json::List(items) => if items.len() == count && at < count {
                Some(items[at as int])
            } else {
                None
            },
            _ => None,
        }
    }

    /// The text of a JSON string.
    pub open spec fn text(self) -> Option<Seq<char>> {
        match self {
            Json::Text(s) => Some(s),
            _ => None,
        }
    }

    /// The value of an unsigned JSON number.
    pub open spec fn unsigned(self) -> Option<u64> {
        match self {
            Json::Unsigned(n) => Some(n),
            _ => None,
        }
    }
}

/// `serde_json::Value`.
#[verifier::external_type_specification]
#[verifier::external_body]
pub struct ExValue(serde_json::Value);

/// `serde_json::Map`.
#[verifier::external_type_specification]
#[verifier::external_body]
#[verifier::reject_recursive_types(K)]
#[verifier::reject_recursive_types(V)]
pub struct ExMap<K, V>(serde_json::Map<K, V>);

/// What a `serde_json::Value` says.
pub uninterp spec fn json_of(v: Value) -> Json;

/// The members of a `serde_json::Map`.
pub uninterp spec fn members_of(m: JsonMap<String, Value>) -> Map<Seq<char>, Json>;

/// An object without members.
pub open spec fn no_members() -> Map<Seq<char>, Json> {
    Map::empty()
}

/// `Map::new` makes an object without members.
#[verifier::external_body]
pub(crate) fn new_object() -> (m: JsonMap<String, Value>)
    ensures
        members_of(m) == no_members(),
{
    JsonMap::new()
}

/// `Map::insert` puts a value under a key and displaces what stood there.
#[verifier::external_body]
pub(crate) fn put(m: &mut JsonMap<String, Value>, key: &str, v: Value)
    ensures
        members_of(*final(m)) == members_of(*old(m)).insert(key@, json_of(v)),
{
    m.insert(key.to_owned(), v);
}

/// `Value::Object` is the object with the members of the map.
#[verifier::external_body]
pub(crate) fn object_value(m: JsonMap<String, Value>) -> (v: Value)
    ensures
        json_of(v) == Json::Object(members_of(m)),
{
    Value::Object(m)
}

/// `Value::Array` is the list of the values.
#[verifier::external_body]
pub(crate) fn list_value(items: Vec<Value>) -> (v: Value)
    ensures
        json_of(v) == Json::List(items@.map_values(|x: Value| json_of(x))),
{
    Value::Array(items)
}

/// `Value::from` on a `&str` is the JSON string of the text.
#[verifier::external_body]
pub(crate) fn text_value(s: &str) -> (v: Value)
    ensures
        json_of(v) == Json::Text(s@),
{
    Value::from(s)
}

/// `Value::from` on a `u64` is the number.
#[verifier::external_body]
pub(crate) fn unsigned_value(n: u64) -> (v: Value)
    ensures
        json_of(v) == Json::Unsigned(n),
{
    Value::from(n)
}

/// `Value::Bool` is the truth value.
#[verifier::external_body]
pub(crate) fn bool_value(b: bool) -> (v: Value)
    ensures
        json_of(v) == Json::Bool(b),
{
    Value::Bool(b)
}

/// `Value::Null` is the JSON null.
#[verifier::external_body]
pub(crate) fn null_value() -> (v: Value)
    ensures
        json_of(v) == Json::Null,
{
    Value::Null
}

/// `Value::get` with a string gives the member of an object under that key, and
/// nothing for a value that is no object.
#[verifier::external_body]
pub(crate) fn member<'a>(v: &'a Value, key: &str) -> (r: Option<&'a Value>)
    ensures
        match r {
            Some(m) => json_of(*v).member(key@) == Some(json_of(*m)),
            None => json_of(*v).member(key@) is None,
        },
{
    v.get(key)
}

/// `Value::as_str` gives the text of a JSON string, and nothing for another
/// value.
#[verifier::external_body]
pub(crate) fn text_in(v: &Value) -> (r: Option<String>)
    ensures
        match r {
            Some(s) => json_of(*v).text() == Some(s@),
            None => json_of(*v).text() is None,
        },
{
    v.as_str().map(|s| s.to_owned())
}

/// `Value::as_u64` gives an unsigned number, and nothing for another value.
#[verifier::external_body]
pub(crate) fn unsigned_in(v: &Value) -> (r: Option<u64>)
    ensures
        r == json_of(*v).unsigned(),
{
    v.as_u64()
}

/// `Value::is_null` tells the JSON null from the other values.
#[verifier::external_body]
pub(crate) fn is_null(v: &Value) -> (r: bool)
    ensures
        r == (json_of(*v) is Null),
{
    v.is_null()
}

/// `Value::as_array` gives the items of a list, and nothing for another value.
#[verifier::external_body]
pub(crate) fn items_in(v: &Value) -> (r: Option<&Vec<Value>>)
    ensures
        match r {
            Some(items) => json_of(*v) == Json::List(items@.map_values(|x: Value| json_of(x))),
            None => !(json_of(*v) is List),
        },
{
    v.as_array()
}

/// `Map::keys` of the members of an object, each once, and nothing for another
/// value.
#[verifier::external_body]
pub(crate) fn keys_in(v: &Value) -> (r: Option<Vec<String>>)
    ensures
        match r {
            Some(keys) => {
                &&& json_of(*v) matches Json::Object(members)
                &&& forall|k: Seq<char>|
                    #[trigger] members.contains_key(k) <==> exists|i: int|
                        0 <= i < keys@.len() && (#[trigger] keys@[i])@ == k
                &&& forall|i: int, j: int|
                    0 <= i < j < keys@.len() ==> (#[trigger] keys@[i])@ != (#[trigger] keys@[j])@
            },
            None => !(json_of(*v) is Object),
        },
{
    v.as_object().map(|m| m.keys().cloned().collect())
}

/// A field of a record of `count` fields, which is written either as an object, by
/// the field's key, or as the list of all its fields, by the field's place.
pub(crate) fn field<'a>(v: &'a Value, key: &str, at: usize, count: usize) -> (r: Option<&'a Value>)
    ensures
        match r {
            Some(m) => json_of(*v).field(key@, at as nat, count as nat) == Some(json_of(*m)),
            None => json_of(*v).field(key@, at as nat, count as nat) is None,
        },
{
    match items_in(v) {
        Some(items) => if items.len() == count && at < count {
            Some(&items[at])
        } else {
            None
        },
        None => member(v, key),
    }
}

/// The bytes of a JSON text without white space.
pub uninterp spec fn json_bytes(v: Json) -> Seq<u8>;

/// The value that a JSON text writes, if it writes one.
pub uninterp spec fn json_parsed(bytes: Seq<u8>) -> Option<Json>;

/// `serde_json::to_vec` on a `Value` writes it without white space, the members
/// of an object in the order of their keys. `serde_json::from_slice` reads the
/// same value back: it has no trouble with a value that is nested no deeper than
/// a hundred levels and holds no number with a fraction. Writing a `Value` cannot
/// fail: its keys are strings.
#[verifier::external_body]
pub(crate) fn write_json(v: &Value) -> (r: Vec<u8>)
    ensures
        r@ == json_bytes(json_of(*v)),
        json_of(*v).plain_to(100) ==> json_parsed(r@) == Some(json_of(*v)),
{
    serde_json::to_vec(v).expect("a JSON value can be written")
}

/// `serde_json::from_slice` into a `Value`; `None` where it reports an error.
#[verifier::external_body]
pub(crate) fn read_json(bytes: &[u8]) -> (r: Option<Value>)
    ensures
        match r {
            Some(v) => json_parsed(bytes@) == Some(json_of(v)),
            None => json_parsed(bytes@) is None,
        },
{
    serde_json::from_slice(bytes).ok()
}

} // verus!
