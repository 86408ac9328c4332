//! A model of JSON documents, and the parser of the wire body.
//!
//! The response body is handed to serde_json, and what its parser returns
//! is carried over, value for value, into the `Json` datatype below, which
//! the rest of the crate reads with verified code. Numbers are kept only
//! when they are exact 64-bit signed integers — all the lyrics wire format
//! carries — and any other number is remembered as `OtherNumber`.

use vstd::prelude::*;
use vstd::string::StringExecFns;

verus! {

/// A JSON document, as this crate reads it.
#[derive(Debug)]
pub enum Json {
    Null,
    Bool(bool),
    Int(i64),
    /// A number that is not an exact 64-bit signed integer.
    OtherNumber,
    Str(String),
    Arr(Vec<Json>),
    Obj(Vec<(String, Json)>),
}

/// serde_json's own document type, declared so that the conversion below
/// can take it; opaque here.
#[verifier::external_type_specification]
#[verifier::external_body]
pub struct ExSerdeValue(serde_json::Value);

/// The document a string denotes, or `None` where it is not valid JSON:
/// the result of serde_json's parser, carried over into `Json`. The parse
/// depends on the characters of the string alone.
pub uninterp spec fn json_of(s: Seq<char>) -> Option<Json>;

/// Relies on serde_json::Value: one arm per variant, moving the fields;
/// a number becomes `Int` exactly when `Number::as_i64` reads it back.
#[verifier::external_body]
fn json_from_value(v: serde_json::Value) -> Json {
    match v {
        serde_json::Value::Null => Json::Null,
        serde_json::Value::Bool(b) => Json::Bool(b),
        serde_json::Value::Number(n) => match n.as_i64() {
            Some(i) => Json::Int(i),
            None => Json::OtherNumber,
        },
        serde_json::Value::String(s) => Json::Str(s),
        serde_json::Value::Array(a) => Json::Arr(a.into_iter().map(json_from_value).collect()),
        serde_json::Value::Object(m) => Json::Obj(
            m.into_iter().map(|p| (p.0, json_from_value(p.1))).collect(),
        ),
    }
}

/// Relies on serde_json::from_str: parses a complete JSON document, and
/// fails exactly on text that is not one; deterministic in its input.
#[verifier::external_body]
pub fn parse_json(s: &str) -> (r: Option<Json>)
    ensures
        r == json_of(s@),
{
    match serde_json::from_str::<serde_json::Value>(s) {
        Ok(v) => Some(json_from_value(v)),
        Err(_) => None,
    }
}

/// The value under `key` in an object's field list: the first match.
pub open spec fn obj_get(fields: Seq<(String, Json)>, key: Seq<char>) -> Option<Json>
    decreases fields.len(),
{
    if fields.len() == 0 {
        None
    } else if fields[0].0@ == key {
        Some(fields[0].1)
    } else {
        obj_get(fields.drop_first(), key)
    }
}

proof fn lemma_obj_get_at(fields: Seq<(String, Json)>, key: Seq<char>, i: int)
    requires
        0 <= i < fields.len(),
        forall|j: int| 0 <= j < i ==> (#[trigger] fields[j]).0@ != key,
        fields[i].0@ == key,
    ensures
        obj_get(fields, key) == Some(fields[i].1),
    decreases i,
{
    if i > 0 {
        lemma_obj_get_at(fields.drop_first(), key, i - 1);
    }
}

proof fn lemma_obj_get_none(fields: Seq<(String, Json)>, key: Seq<char>)
    requires
        forall|j: int| 0 <= j < fields.len() ==> (#[trigger] fields[j]).0@ != key,
    ensures
        obj_get(fields, key) is None,
    decreases fields.len(),
{
    if fields.len() > 0 {
        lemma_obj_get_none(fields.drop_first(), key);
    }
}

proof fn lemma_obj_get_remove(fields: Seq<(String, Json)>, key: Seq<char>, k: Seq<char>, i: int)
    requires
        0 <= i < fields.len(),
        forall|j: int| 0 <= j < i ==> (#[trigger] fields[j]).0@ != key,
        fields[i].0@ == key,
        k != key,
    ensures
        obj_get(fields.remove(i), k) == obj_get(fields, k),
    decreases i,
{
    if i == 0 {
        assert(fields.remove(0) =~= fields.drop_first());
    } else {
        assert(fields.remove(i).drop_first() =~= fields.drop_first().remove(i - 1));
        lemma_obj_get_remove(fields.drop_first(), key, k, i - 1);
        assert(fields.remove(i)[0] == fields[0]);
    }
}

/// Remove and return the value under `key`, leaving what every other key
/// names unchanged.
pub fn take_field(fields: &mut Vec<(String, Json)>, key: &str) -> (r: Option<Json>)
    ensures
        r == obj_get(old(fields)@, key@),
        forall|k: Seq<char>|
            k != key@ ==> obj_get(final(fields)@, k) == obj_get(old(fields)@, k),
        obj_get(old(fields)@, key@) is None ==> final(fields)@ == old(fields)@,
{
    let k = String::from_str(key);
    let ghost f0 = fields@;
    let mut i: usize = 0;
    while i < fields.len()
        invariant
            i <= fields.len(),
            fields@ == f0,
            f0 == old(fields)@,
            k@ == key@,
            forall|j: int| 0 <= j < i ==> (#[trigger] f0[j]).0@ != key@,
        decreases fields.len() - i,
    {
        if fields[i].0 == k {
            proof {
                lemma_obj_get_at(f0, key@, i as int);
                assert forall|kk: Seq<char>|
                    kk != key@ implies obj_get(f0.remove(i as int), kk) == obj_get(f0, kk) by {
                    lemma_obj_get_remove(f0, key@, kk, i as int);
                }
            }
            let pair = fields.remove(i);
            return Some(pair.1);
        }
        i += 1;
    }
    proof {
        lemma_obj_get_none(f0, key@);
    }
    None
}

} // verus!
