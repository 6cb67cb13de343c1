//! JSON documents as plain values, and their text.
use vstd::prelude::*;

verus! {

/// A JSON document.
#[derive(Debug, PartialEq, Eq)]
pub enum Json {
    Null,
    Bool(bool),
    /// A number that is a whole number within 64 signed bits.
    Integer(i64),
    /// Any other number, by its text.
    Number(String),
    Text(String),
    Array(Vec<Json>),
    /// The members of an object, each name once.
    Object(Vec<(String, Json)>),
}

/// What a JSON document holds.
pub enum JsonValue {
    Null,
    Bool(bool),
    Integer(int),
    Number(Seq<char>),
    Text(Seq<char>),
    Array(Seq<JsonValue>),
    Object(Seq<(Seq<char>, JsonValue)>),
}

impl Json {
    /// What the document holds.
    pub open spec fn value(&self) -> JsonValue
        decreases self,
    {
        match self {
            Json::Null => JsonValue::Null,
            Json::Bool(b) => JsonValue::Bool(*b),
            Json::Integer(i) => JsonValue::Integer(*i as int),
            Json::Number(text) => JsonValue::Number(text@),
            Json::Text(text) => JsonValue::Text(text@),
            Json::Array(items) => JsonValue::Array(
                Seq::new(
                    items.len() as nat,
                    |i: int|
                        if 0 <= i < items.len() {
                            items[i].value()
                        } else {
                            JsonValue::Null
                        },
                ),
            ),
            Json::Object(entries) => JsonValue::Object(
                Seq::new(
                    entries.len() as nat,
                    |i: int|
                        if 0 <= i < entries.len() {
                            (entries[i].0@, entries[i].1.value())
                        } else {
                            (Seq::empty(), JsonValue::Null)
                        },
                ),
            ),
        }
    }
}

impl View for Json {
    type V = JsonValue;

    open spec fn view(&self) -> JsonValue {
        self.value()
    }
}

/// The value of the first of the given members that is named `key`, and
/// `Null` if none is.
pub open spec fn member_named(entries: Seq<(Seq<char>, JsonValue)>, key: Seq<char>) -> JsonValue
    decreases entries.len(),
{
    if entries.len() == 0 {
        JsonValue::Null
    } else if entries[0].0 == key {
        entries[0].1
    } else {
        member_named(entries.drop_first(), key)
    }
}

/// What an array holds: what its elements hold, in their order.
pub proof fn lemma_array_view(items: Vec<Json>)
    ensures
        Json::Array(items)@ is Array,
        Json::Array(items)@.items().len() == items@.len(),
        forall|i: int|
            0 <= i < items@.len() ==> Json::Array(items)@.items()[i] == (#[trigger] items@[i])@,
{
    let doc = Json::Array(items);
    assert(doc@ is Array);
    assert(doc@->Array_0.len() == items.len());
    assert forall|i: int| 0 <= i < items@.len() implies doc@.items()[i] == (#[trigger] items@[i])@ by {
        assert(doc@->Array_0[i] == items[i]@);
    }
}

/// What an object holds: the names and what the values hold, in their
/// order.
pub proof fn lemma_object_view(entries: Vec<(String, Json)>)
    ensures
        Json::Object(entries)@ is Object,
        Json::Object(entries)@->Object_0.len() == entries@.len(),
        forall|i: int|
            0 <= i < entries@.len() ==> Json::Object(entries)@->Object_0[i] == (
                (#[trigger] entries@[i]).0@,
                entries@[i].1@,
            ),
{
    let doc = Json::Object(entries);
    assert(doc@ is Object);
    reveal_with_fuel(Json::value, 2);
    assert(doc@->Object_0.len() == entries.len());
    assert forall|i: int| 0 <= i < entries@.len() implies doc@->Object_0[i] == (
        (#[trigger] entries@[i]).0@,
        entries@[i].1@,
    ) by {
        assert(doc@->Object_0[i] == (entries[i].0@, entries[i].1@));
    }
}

/// One of the given members is named `key`.
pub open spec fn has_member(entries: Seq<(Seq<char>, JsonValue)>, key: Seq<char>) -> bool {
    exists|i: int| 0 <= i < entries.len() && (#[trigger] entries[i]).0 == key
}

impl JsonValue {
    /// This is an object with a member named `key`.
    pub open spec fn has_field(self, key: Seq<char>) -> bool {
        match self {
            JsonValue::Object(entries) => has_member(entries, key),
            _ => false,
        }
    }

    /// The member named `key` of an object. Of anything else, and of an
    /// object without such a member, `Null`.
    pub open spec fn field(self, key: Seq<char>) -> JsonValue {
        match self {
            JsonValue::Object(entries) => member_named(entries, key),
            _ => JsonValue::Null,
        }
    }

    /// The elements of an array. Anything else has none.
    pub open spec fn items(self) -> Seq<JsonValue> {
        match self {
            JsonValue::Array(items) => items,
            _ => Seq::empty(),
        }
    }

    /// The number, if this is a whole number within 64 signed bits.
    pub open spec fn integer(self) -> Option<int> {
        match self {
            JsonValue::Integer(i) => Some(i),
            _ => None,
        }
    }

    /// The text, if this is a string.
    pub open spec fn text(self) -> Option<Seq<char>> {
        match self {
            JsonValue::Text(text) => Some(text),
            _ => None,
        }
    }
}

impl Json {
    /// The member named `key`, if this is an object that has one.
    pub fn field(&self, key: &str) -> (r: Option<&Json>)
        ensures
            r is Some <==> self@.has_field(key@),
            match r {
                Some(found) => found@ == self@.field(key@),
                None => self@.field(key@) == JsonValue::Null,
            },
    {
        match self {
            Json::Object(entries) => {
                let wanted = String::from_str(key);
                let ghost all = self@->Object_0;
                let mut i: usize = 0;
                proof {
                    lemma_object_view(*entries);
                }
                assert(all.skip(0) =~= all);
                while i < entries.len()
                    invariant
                        i <= entries@.len(),
                        wanted@ == key@,
                        self@ == JsonValue::Object(all),
                        all.len() == entries@.len(),
                        forall|k: int|
                            0 <= k < entries@.len() ==> all[k] == (
                                (#[trigger] entries@[k]).0@,
                                entries@[k].1@,
                            ),
                        member_named(all, key@) == member_named(all.skip(i as int), key@),
                        forall|k: int| 0 <= k < i ==> all[k].0 != key@,
                    decreases entries@.len() - i,
                {
                    let ghost rest = all.skip(i as int);
                    assert(rest[0] == all[i as int]);
                    assert(rest.drop_first() =~= all.skip(i + 1));
                    if entries[i].0 == wanted {
                        assert(all[i as int].0 == key@);
                        return Some(&entries[i].1);
                    }
                    i = i + 1;
                }
                None
            },
            _ => None,
        }
    }

    /// The elements, if this is an array.
    pub fn as_array(&self) -> (r: Option<&Vec<Json>>)
        ensures
            match r {
                Some(items) => {
                    &&& self@ is Array
                    &&& items@.len() == self@.items().len()
                    &&& forall|i: int|
                        0 <= i < items@.len() ==> (#[trigger] items@[i])@ == self@.items()[i]
                },
                None => !(self@ is Array),
            },
    {
        match self {
            Json::Array(items) => {
                proof {
                    lemma_array_view(*items);
                }
                Some(items)
            },
            _ => None,
        }
    }

    /// The number, if this is a whole number within 64 signed bits.
    pub fn as_i64(&self) -> (r: Option<i64>)
        ensures
            match r {
                Some(i) => self@.integer() == Some(i as int),
                None => self@.integer() is None,
            },
    {
        match self {
            Json::Integer(i) => Some(*i),
            _ => None,
        }
    }

    /// The text, if this is a string.
    pub fn as_str(&self) -> (r: Option<&str>)
        ensures
            match r {
                Some(text) => self@.text() == Some(text@),
                None => self@.text() is None,
            },
    {
        match self {
            Json::Text(text) => Some(text.as_str()),
            _ => None,
        }
    }
}

/// The outside crate's own JSON value.
#[verifier::external_type_specification]
#[verifier::external_body]
pub struct ExValue(serde_json::Value);

/// The outside crate's error.
#[verifier::external_type_specification]
#[verifier::external_body]
pub struct ExError(serde_json::Error);

/// The document that a text holds, if the text is one JSON document and
/// nothing else.
pub uninterp spec fn json_document(text: Seq<u8>) -> Option<JsonValue>;

/// The text that a document is written as, if it can be written.
pub uninterp spec fn json_text(document: JsonValue) -> Option<Seq<u8>>;

/// Turns a value of `serde_json` into a document, variant by variant: a
/// number that `Number::as_i64` gives becomes `Integer`, any other number
/// `Number` with the text that it displays as, and an object's members come
/// in the order in which its map hands them out. Nothing is claimed of the
/// result.
#[verifier::external_body]
fn json_from_value(value: serde_json::Value) -> (json: Json) {
    match value {
        serde_json::Value::Null => Json::Null,
        serde_json::Value::Bool(b) => Json::Bool(b),
        serde_json::Value::Number(n) => match n.as_i64() {
            Some(i) => Json::Integer(i),
            None => Json::Number(n.to_string()),
        },
        serde_json::Value::String(text) => Json::Text(text),
        serde_json::Value::Array(items) => Json::Array(items.into_iter().map(json_from_value).collect()),
        serde_json::Value::Object(map) => Json::Object(
            map.into_iter().map(|(name, value)| (name, json_from_value(value))).collect(),
        ),
    }
}

/// Turns a document into a value of `serde_json`, variant by variant; the
/// text of a `Number` is read by `serde_json::from_str`, and there is no
/// value where that fails. Nothing is claimed of the result.
#[verifier::external_body]
fn json_to_value(json: &Json) -> (value: Option<serde_json::Value>) {
    Some(match json {
        Json::Null => serde_json::Value::Null,
        Json::Bool(b) => serde_json::Value::Bool(*b),
        Json::Integer(i) => serde_json::Value::Number((*i).into()),
        Json::Number(text) => serde_json::Value::Number(serde_json::from_str(text).ok()?),
        Json::Text(text) => serde_json::Value::String(text.clone()),
        Json::Array(items) => serde_json::Value::Array(
            items.iter().map(json_to_value).collect::<Option<_>>()?,
        ),
        Json::Object(entries) => serde_json::Value::Object(
            entries.iter().map(|e| Some((e.0.clone(), json_to_value(&e.1)?))).collect::<Option<_>>()?,
        ),
    })
}

/// Reads a text with `serde_json::from_slice`. The contract claims only
/// that what comes back depends on the text alone: it is the document that
/// `json_document` names, and an error exactly where that names none.
#[verifier::external_body]
pub(crate) fn parse_json(text: &[u8]) -> (r: Result<Json, serde_json::Error>)
    ensures
        match r {
            Ok(json) => json_document(text@) == Some(json@),
            Err(_) => json_document(text@) is None,
        },
{
    match serde_json::from_slice::<serde_json::Value>(text) {
        Ok(value) => Ok(json_from_value(value)),
        Err(error) => Err(error),
    }
}

/// Writes a document with `serde_json::to_vec`. The contract claims only
/// that what comes back depends on the document alone: it is the text that
/// `json_text` names, and nothing exactly where that names none.
#[verifier::external_body]
pub(crate) fn write_json(json: &Json) -> (r: Option<Vec<u8>>)
    ensures
        match r {
            Some(text) => json_text(json@) == Some(text@),
            None => json_text(json@) is None,
        },
{
    match json_to_value(json) {
        Some(value) => serde_json::to_vec(&value).ok(),
        None => None,
    }
}

} // verus!
