//! JSON values: what a `serde_json::Value` holds, and the calls on it.
use serde_json::Value;
use vstd::prelude::*;

verus! {

/// A JSON number. One that is no integer of 64 bits is held as a float, here
/// by its bits.
pub enum JsonNumber {
    Unsigned(u64),
    Negative(i64),
    Float(u64),
}

/// A JSON value as mathematics. An object is a map: its members have no order.
pub enum Json {
    Null,
    Bool(bool),
    Number(JsonNumber),
    Text(Seq<char>),
    Array(Seq<Json>),
    Object(Map<Seq<char>, Json>),
}

impl Json {
    /// The member of an object; nothing else has members.
    pub open spec fn member(self, key: Seq<char>) -> Option<Json> {
        match self {
            Json::Object(fields) => if fields.contains_key(key) {
                Some(fields[key])
            } else {
                None
            },
            _ => None,
        }
    }

    /// The member of a member.
    pub open spec fn path(self, first: Seq<char>, second: Seq<char>) -> Option<Json> {
        match self.member(first) {
            Some(inner) => inner.member(second),
            None => None,
        }
    }

    /// The characters of a string.
    pub open spec fn text(self) -> Option<Seq<char>> {
        match self {
            Json::Text(word) => Some(word),
            _ => None,
        }
    }

    /// The value of a number that is an unsigned integer.
    pub open spec fn unsigned(self) -> Option<u64> {
        match self {
            Json::Number(JsonNumber::Unsigned(n)) => Some(n),
            _ => None,
        }
    }

    /// The members of an object; everything else has none.
    pub open spec fn fields(self) -> Map<Seq<char>, Json> {
        match self {
            Json::Object(fields) => fields,
            _ => no_fields(),
        }
    }
}

/// No members at all.
pub open spec fn no_fields() -> Map<Seq<char>, Json> {
    Map::empty()
}

/// The characters of a string, if there is a value and it is one.
pub open spec fn text_of(found: Option<Json>) -> Option<Seq<char>> {
    match found {
        Some(value) => value.text(),
        None => None,
    }
}

/// The value of an unsigned number, if there is a value and it is one.
pub open spec fn unsigned_of(found: Option<Json>) -> Option<u64> {
    match found {
        Some(value) => value.unsigned(),
        None => None,
    }
}

/// The object with one member, a string.
pub open spec fn text_object(key: Seq<char>, word: Seq<char>) -> Json {
    Json::Object(map![key => Json::Text(word)])
}

/// A key that a JSON Pointer writes as it is and that is no array index.
pub open spec fn is_plain_key(key: Seq<char>) -> bool {
    &&& key.len() > 0
    &&& forall|i: int| 0 <= i < key.len() ==> 'a' <= #[trigger] key[i] <= 'z' || key[i] == '_'
}

/// The JSON Pointer to the member of a member.
pub open spec fn pointer_to(first: Seq<char>, second: Seq<char>) -> Seq<char> {
    seq!['/'] + first + seq!['/'] + second
}

/// Declares `serde_json::Value`; nothing inside it is seen here.
#[verifier::external_type_specification]
#[verifier::external_body]
pub struct ExValue(serde_json::Value);

/// Declares `serde_json::Map`; nothing inside it is seen here.
#[verifier::external_type_specification]
#[verifier::external_body]
#[verifier::reject_recursive_types(K)]
#[verifier::reject_recursive_types(V)]
pub struct ExMap<K, V>(serde_json::Map<K, V>);

/// What a `serde_json::Value` holds.
pub uninterp spec fn json(value: serde_json::Value) -> Json;

/// What a `serde_json::Map` holds.
pub uninterp spec fn entries(map: serde_json::Map<String, serde_json::Value>) -> Map<
    Seq<char>,
    Json,
>;

/// What a looked-up value holds.
pub open spec fn found_json(found: Option<&Value>) -> Option<Json> {
    match found {
        Some(value) => Some(json(*value)),
        None => None,
    }
}

/// `Value::get` with a string: the member of an object under that key, and
/// `None` for any other value.
#[verifier::external_body]
pub(crate) fn value_get<'a>(value: &'a Value, key: &str) -> (found: Option<&'a Value>)
    ensures
        found_json(found) == json(*value).member(key@),
{
    value.get(key)
}

/// `Value::get_mut` with a string: the place of the member of an object under
/// that key, and `None` for any other value. What is written to the place is
/// the member afterwards; no other member changes.
#[verifier::external_body]
pub(crate) fn value_get_mut<'a>(value: &'a mut Value, key: &str) -> (found: Option<&'a mut Value>)
    ensures
        match found {
            Some(slot) => {
                &&& json(*old(value)).member(key@) == Some(json(*slot))
                &&& json(*final(value)) == Json::Object(
                    json(*old(value)).fields().insert(key@, json(*final(slot))),
                )
            },
            None => json(*old(value)).member(key@) is None && *final(value) == *old(value),
        },
{
    value.get_mut(key)
}

/// `value[key] = item` with a string: sets the member of an object, whether it
/// was there or not; null counts as the empty object. On any other value the
/// call panics.
#[verifier::external_body]
pub(crate) fn value_set(value: &mut Value, key: &str, item: Value)
    requires
        json(*old(value)) is Object || json(*old(value)) is Null,
    ensures
        json(*final(value)) == Json::Object(
            json(*old(value)).fields().insert(key@, json(item)),
        ),
{
    value[key] = item;
}

/// `Value::pointer`, on the pointer to a member of a member whose keys need no
/// escape and are no array indices.
pub assume_specification<'a, 'b>[ serde_json::Value::pointer ](
    value: &'a Value,
    pointer: &'b str,
) -> (found: Option<&'a Value>)
    requires
        exists|first: Seq<char>, second: Seq<char>|
            is_plain_key(first) && is_plain_key(second) && pointer@ == #[trigger] pointer_to(
                first,
                second,
            ),
    ensures
        forall|first: Seq<char>, second: Seq<char>|
            is_plain_key(first) && is_plain_key(second) && pointer@ == #[trigger] pointer_to(
                first,
                second,
            ) ==> found_json(found) == json(*value).path(first, second),
;

/// `Value::as_str`: the characters of a string, and `None` for any other value.
pub assume_specification[ serde_json::Value::as_str ](value: &Value) -> (word: Option<&str>)
    ensures
        match word {
            Some(w) => json(*value).text() == Some(w@),
            None => json(*value).text() is None,
        },
;

/// `Value::as_u64`: the value of a number that is an unsigned integer of 64
/// bits, and `None` for a negative number, a float or any other value.
pub assume_specification[ serde_json::Value::as_u64 ](value: &Value) -> (number: Option<u64>)
    ensures
        number == json(*value).unsigned(),
;

/// `Value::is_null`.
pub assume_specification[ serde_json::Value::is_null ](value: &Value) -> (null: bool)
    ensures
        null == (json(*value) is Null),
;

/// `Value::as_object_mut`: the members of an object, to read and to change,
/// and `None` for any other value.
pub assume_specification[ serde_json::Value::as_object_mut ](value: &mut Value) -> (found: Option<
    &mut serde_json::Map<String, Value>,
>)
    ensures
        match found {
            Some(map) => {
                &&& json(*old(value)) == Json::Object(entries(*map))
                &&& json(*final(value)) == Json::Object(entries(*final(map)))
            },
            None => !(json(*old(value)) is Object) && *final(value) == *old(value),
        },
;

/// `Value::from` a string slice: the JSON string.
#[verifier::external_body]
pub(crate) fn text_value(word: &str) -> (value: Value)
    ensures
        json(value) == Json::Text(word@),
{
    Value::from(word)
}

/// `Value::from` a map: the JSON object.
#[verifier::external_body]
pub(crate) fn object_value(map: serde_json::Map<String, Value>) -> (value: Value)
    ensures
        json(value) == Json::Object(entries(map)),
{
    Value::from(map)
}

/// `Map::new`: no members.
pub assume_specification[ serde_json::Map::<String, serde_json::Value>::new ]() -> (made:
    serde_json::Map<String, Value>)
    ensures
        entries(made) == no_fields(),
;

/// `Map::is_empty`: whether there are no members.
pub assume_specification[ serde_json::Map::<String, serde_json::Value>::is_empty ](
    map: &serde_json::Map<String, Value>,
) -> (empty: bool)
    ensures
        empty == (entries(*map) == no_fields()),
;

/// `Map::insert`: sets a member and gives the one that stood there.
pub assume_specification[ serde_json::Map::<String, serde_json::Value>::insert ](
    map: &mut serde_json::Map<String, Value>,
    k: String,
    v: Value,
) -> (before: Option<Value>)
    ensures
        entries(*final(map)) == entries(*old(map)).insert(k@, json(v)),
        match before {
            Some(b) => Json::Object(entries(*old(map))).member(k@) == Some(json(b)),
            None => Json::Object(entries(*old(map))).member(k@) is None,
        },
;

/// `Map::get` with a string slice: the member under that key.
#[verifier::external_body]
pub(crate) fn map_get<'a>(map: &'a serde_json::Map<String, Value>, key: &str) -> (found: Option<
    &'a Value,
>)
    ensures
        found_json(found) == Json::Object(entries(*map)).member(key@),
{
    map.get(key)
}

/// `Map::remove` with a string slice: takes the member under that key out and
/// gives it; without such a member nothing changes.
#[verifier::external_body]
pub(crate) fn map_remove(map: &mut serde_json::Map<String, Value>, key: &str) -> (before: Option<
    Value,
>)
    ensures
        entries(*final(map)) == entries(*old(map)).remove(key@),
        match before {
            Some(b) => Json::Object(entries(*old(map))).member(key@) == Some(json(b)),
            None => Json::Object(entries(*old(map))).member(key@) is None,
        },
{
    map.remove(key)
}

/// Builds the object with one member, a string.
pub(crate) fn new_text_object(key: &str, word: &str) -> (value: Value)
    ensures
        json(value) == text_object(key@, word@),
{
    let mut map = serde_json::Map::new();
    map.insert(key.to_owned(), text_value(word));
    object_value(map)
}

/// Finds the members of an object under a key, to read and to change.
pub(crate) fn get_object_mut<'a>(value: &'a mut Value, key: &str) -> (found: Option<
    &'a mut serde_json::Map<String, Value>,
>)
    ensures
        match found {
            Some(map) => {
                &&& json(*old(value)).member(key@) == Some(Json::Object(entries(*map)))
                &&& json(*final(value)) == Json::Object(
                    json(*old(value)).fields().insert(key@, Json::Object(entries(*final(map)))),
                )
            },
            None => {
                &&& !(json(*old(value)).member(key@) matches Some(Json::Object(_)))
                &&& json(*final(value)) == json(*old(value))
            },
        },
{
    let ghost fields = json(*value).fields();
    proof {
        if fields.contains_key(key@) {
            assert(fields.insert(key@, fields[key@]) =~= fields);
        }
    }
    match value_get_mut(value, key) {
        Some(slot) => slot.as_object_mut(),
        None => None,
    }
}

/// Reads the string under a key.
pub(crate) fn get_text<'a>(value: &'a Value, key: &str) -> (word: Option<&'a str>)
    ensures
        match word {
            Some(w) => text_of(json(*value).member(key@)) == Some(w@),
            None => text_of(json(*value).member(key@)) is None,
        },
{
    match value_get(value, key) {
        Some(found) => found.as_str(),
        None => None,
    }
}

} // verus!
