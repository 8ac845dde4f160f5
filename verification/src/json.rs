//! A JSON document as plain values, and the questions the updater asks of
//! one. Parsing is `serde_json`'s; everything read out of the document is
//! the library's own.
use crate::text;
use vstd::prelude::*;

verus! {

/// `serde_json::Value`, carried opaquely until it is moved into `Json`.
#[verifier::external_type_specification]
#[verifier::external_body]
pub struct ExJsonValue(serde_json::Value);

/// A parsed JSON value. Numbers keep the text `serde_json` prints for them;
/// an object keeps its members in the order `serde_json` iterates them,
/// each key once.
#[derive(Debug)]
pub enum Json {
    Null,
    Bool(bool),
    Number(String),
    Str(String),
    Array(Vec<Json>),
    Object(Vec<(String, Json)>),
}

/// What `serde_json::from_slice::<Value>` makes of `bytes`: the document,
/// or the text of the error it reports.
pub uninterp spec fn json_parse(bytes: Seq<u8>) -> Result<Json, Seq<char>>;

/// A `serde_json::Value` moved into the library's `Json`, variant by variant.
#[verifier::external_body]
fn json_from_value(v: serde_json::Value) -> Json {
    match v {
        serde_json::Value::Null => Json::Null,
        serde_json::Value::Bool(b) => Json::Bool(b),
        serde_json::Value::Number(n) => Json::Number(n.to_string()),
        serde_json::Value::String(s) => Json::Str(s),
        serde_json::Value::Array(a) => Json::Array(a.into_iter().map(json_from_value).collect()),
        serde_json::Value::Object(m) => Json::Object(
            m.into_iter().map(|(k, v)| (k, json_from_value(v))).collect(),
        ),
    }
}

/// `serde_json::from_slice::<serde_json::Value>`.
#[verifier::external_body]
pub(crate) fn parse_json(bytes: &[u8]) -> (r: Result<Json, String>)
    ensures
        match r {
            Ok(j) => json_parse(bytes@) == Ok::<Json, Seq<char>>(j),
            Err(e) => json_parse(bytes@) == Err::<Json, Seq<char>>(e@),
        },
{
    match serde_json::from_slice::<serde_json::Value>(bytes) {
        Ok(v) => Ok(json_from_value(v)),
        Err(e) => Err(e.to_string()),
    }
}

/// The position of the member named `key` among `members`.
pub open spec fn member_index(members: Seq<(String, Json)>, key: Seq<char>) -> Option<nat>
    decreases members.len(),
{
    if members.len() == 0 {
        None
    } else if members[0].0@ == key {
        Some(0)
    } else {
        match member_index(members.drop_first(), key) {
            Some(k) => Some(k + 1),
            None => None,
        }
    }
}

/// `value[key]`: the member's value, or `Null` when `value` is not an
/// object or has no such member.
pub open spec fn field(value: Json, key: Seq<char>) -> Json {
    match value {
        Json::Object(m) => match member_index(m@, key) {
            Some(i) => m@[i as int].1,
            None => Json::Null,
        },
        _ => Json::Null,
    }
}

/// `as_str` of a value.
pub open spec fn str_of(value: Json) -> Option<Seq<char>> {
    match value {
        Json::Str(s) => Some(s@),
        _ => None,
    }
}

/// `as_bool() == Some(true)`.
pub open spec fn is_true(value: Json) -> bool {
    value matches Json::Bool(b) && b
}

/// `member_index` is the first position whose key is `key`.
proof fn lemma_member_index_is(members: Seq<(String, Json)>, key: Seq<char>, i: int)
    requires
        0 <= i <= members.len(),
        forall|j: int| 0 <= j < i ==> (#[trigger] members[j]).0@ != key,
        i < members.len() ==> members[i].0@ == key,
    ensures
        i < members.len() ==> member_index(members, key) == Some(i as nat),
        i == members.len() ==> member_index(members, key) is None,
    decreases i,
{
    if i > 0 {
        assert forall|j: int| 0 <= j < i - 1 implies (#[trigger] members.drop_first()[j]).0@ != key by {
            assert(members.drop_first()[j] == members[j + 1]);
        }
        if i < members.len() {
            assert(members.drop_first()[i - 1] == members[i]);
        }
        lemma_member_index_is(members.drop_first(), key, i - 1);
    }
}

/// `value[key]`.
pub fn get_field<'a>(value: &'a Json, key: &str) -> (r: &'a Json)
    ensures
        *r == field(*value, key@),
{
    match value {
        Json::Object(m) => {
            let k = text::chars_of(key);
            let mut i: usize = 0;
            while i < m.len()
                invariant
                    *value == Json::Object(*m),
                    k@ == key@,
                    i <= m.len(),
                    forall|j: int| 0 <= j < i ==> (#[trigger] m@[j]).0@ != key@,
                decreases m.len() - i,
            {
                let name = text::chars_of(m[i].0.as_str());
                if text::chars_eq(&name, &k) {
                    proof { lemma_member_index_is(m@, key@, i as int); }
                    return &m[i].1;
                }
                i = i + 1;
            }
            proof { lemma_member_index_is(m@, key@, i as int); }
            &JSON_NULL
        },
        _ => &JSON_NULL,
    }
}

/// The `Null` a missing member reads as.
const JSON_NULL: Json = Json::Null;

/// `value.as_str()`.
pub fn as_str(value: &Json) -> (r: Option<&String>)
    ensures
        match r {
            Some(s) => str_of(*value) == Some(s@),
            None => str_of(*value) is None,
        },
{
    match value {
        Json::Str(s) => Some(s),
        _ => None,
    }
}

/// `value.as_bool() == Some(true)`.
pub fn is_true_value(value: &Json) -> (b: bool)
    ensures
        b == is_true(*value),
{
    match value {
        Json::Bool(b) => *b,
        _ => false,
    }
}

} // verus!
