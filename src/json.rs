//! A JSON value as the library reads it, and lookups on it.
use vstd::prelude::*;

verus! {

/// A JSON value.
#[derive(Debug, PartialEq)]
pub enum Json {
    Null,
    Bool(bool),
    /// A number, with its value where it is a non-negative integer that fits in
    /// 64 bits.
    Number(Option<u64>),
    Str(String),
    Array(Vec<Json>),
    /// An object's members, each key once.
    Object(Vec<(String, Json)>),
}

/// The value of the first member of `m` named `key`.
pub open spec fn first_with_key(m: Seq<(String, Json)>, key: Seq<char>) -> Option<Json>
    decreases m.len(),
{
    if m.len() == 0 {
        None
    } else if m[0].0@ == key {
        Some(m[0].1)
    } else {
        first_with_key(m.drop_first(), key)
    }
}

/// The member `key` of `j`, where `j` is an object that has one.
pub open spec fn member_of(j: Option<Json>, key: Seq<char>) -> Option<Json> {
    match j {
        Some(Json::Object(m)) => first_with_key(m@, key),
        _ => None,
    }
}

/// The element `i` of `j`, where `j` is an array that long.
pub open spec fn element_of(j: Option<Json>, i: int) -> Option<Json> {
    match j {
        Some(Json::Array(a)) => if 0 <= i < a@.len() {
            Some(a@[i])
        } else {
            None
        },
        _ => None,
    }
}

/// The value of `j` where it is a non-negative integer that fits in 64 bits.
pub open spec fn u64_of(j: Option<Json>) -> Option<u64> {
    match j {
        Some(Json::Number(n)) => n,
        _ => None,
    }
}

/// The characters of `j` where it is a string.
pub open spec fn str_of(j: Option<Json>) -> Option<Seq<char>> {
    match j {
        Some(Json::Str(s)) => Some(s@),
        _ => None,
    }
}

/// Whether `j` is absent or `null`.
pub open spec fn null_or_absent(j: Option<Json>) -> bool {
    j is None || j == Some(Json::Null)
}

/// The value that `r` refers to, if any.
pub open spec fn deref_json(r: Option<&Json>) -> Option<Json> {
    match r {
        Some(x) => Some(*x),
        None => None,
    }
}

/// The member `key` of `j`, where `j` is an object that has one.
pub fn member<'a>(j: Option<&'a Json>, key: &String) -> (r: Option<&'a Json>)
    ensures
        deref_json(r) == member_of(deref_json(j), key@),
{
    match j {
        Some(Json::Object(m)) => {
            let mut i: usize = 0;
            assert(m@.subrange(0, m@.len() as int) =~= m@);
            assert(deref_json(j) == Some(Json::Object(*m)));
            while i < m.len()
                invariant
                    i <= m@.len(),
                    deref_json(j) == Some(Json::Object(*m)),
                    first_with_key(m@, key@) == first_with_key(
                        m@.subrange(i as int, m@.len() as int),
                        key@,
                    ),
                decreases m@.len() - i,
            {
                let ghost rest = m@.subrange(i as int, m@.len() as int);
                assert(rest[0] == m@[i as int]);
                let entry = &m[i];
                if entry.0 == *key {
                    return Some(&entry.1);
                }
                assert(rest.drop_first() =~= m@.subrange(i + 1, m@.len() as int));
                i += 1;
            }
            None
        },
        _ => None,
    }
}

/// The element `i` of `j`, where `j` is an array that long.
pub fn element<'a>(j: Option<&'a Json>, i: usize) -> (r: Option<&'a Json>)
    ensures
        deref_json(r) == element_of(deref_json(j), i as int),
{
    match j {
        Some(Json::Array(a)) => if i < a.len() {
            Some(&a[i])
        } else {
            None
        },
        _ => None,
    }
}

/// The value of `j` where it is a non-negative integer that fits in 64 bits.
pub fn as_u64(j: Option<&Json>) -> (r: Option<u64>)
    ensures
        r == u64_of(deref_json(j)),
{
    match j {
        Some(Json::Number(n)) => *n,
        _ => None,
    }
}

/// A copy of `j` where it is a string.
pub fn as_string(j: Option<&Json>) -> (r: Option<String>)
    ensures
        r matches Some(s) ==> str_of(deref_json(j)) == Some(s@),
        r is None ==> str_of(deref_json(j)) is None,
{
    match j {
        Some(Json::Str(s)) => Some(s.clone()),
        _ => None,
    }
}

/// Whether `j` is absent or `null`.
pub fn is_null_or_absent(j: Option<&Json>) -> (r: bool)
    ensures
        r == null_or_absent(deref_json(j)),
{
    match j {
        None => true,
        Some(Json::Null) => true,
        _ => false,
    }
}

/// What `serde_json` parses `b` to, or `None` where `b` is no JSON text.
pub uninterp spec fn json_parsed(b: Seq<u8>) -> Option<Json>;

/// `serde_json::Value`, carried opaquely from the parser to `json_from_value`.
#[verifier::external_type_specification]
#[verifier::external_body]
pub struct ExJsonValue(serde_json::Value);

/// Relies on the variants of `serde_json::Value`: copies each into the
/// matching variant of `Json`, one for one; a number keeps what
/// `serde_json::Number::as_u64` gives for it. Nothing is claimed of the result
/// here: `parse_json` names it.
#[verifier::external_body]
fn json_from_value(v: &serde_json::Value) -> Json {
    match v {
        serde_json::Value::Null => Json::Null,
        serde_json::Value::Bool(b) => Json::Bool(*b),
        serde_json::Value::Number(n) => Json::Number(n.as_u64()),
        serde_json::Value::String(s) => Json::Str(s.clone()),
        serde_json::Value::Array(a) => Json::Array(a.iter().map(json_from_value).collect()),
        serde_json::Value::Object(m) => Json::Object(
            m.iter().map(|(k, x)| (k.clone(), json_from_value(x))).collect(),
        ),
    }
}

/// Relies on `serde_json::from_slice` into a `serde_json::Value`: the value
/// depends on the bytes alone, and is `None` where they are no JSON text.
#[verifier::external_body]
pub(crate) fn parse_json(b: &[u8]) -> (r: Option<Json>)
    ensures
        r == json_parsed(b@),
{
    serde_json::from_slice::<serde_json::Value>(b).ok().map(|v| json_from_value(&v))
}

} // verus!
