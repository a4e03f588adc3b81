//! The library's own model of a JSON document, and the trusted bridge to
//! the `serde_json` decoder.
//!
//! The provider's replies are JSON objects; the logic of this crate only
//! ever reads plain facts of them (is a field present, is it a string, what
//! does it hold), so a value is modelled as a plain enum over plain values.
//! Numbers are kept in their textual form: no field this client reads is
//! numeric, and the text loses nothing.

use crate::errors::ResponseError;
use crate::strutil::str_eq;
use vstd::prelude::*;

verus! {

/// One JSON value, as this library holds it.
#[derive(Debug)]
pub enum JsonVal {
    Null,
    Bool(bool),
    /// A number, kept as the decoder rendered it.
    Num(String),
    Str(String),
    Arr(Vec<JsonVal>),
    Obj(Vec<(String, JsonVal)>),
}

/// First binding of `key` among `fields`, if any. The decoder never hands
/// out duplicate keys, so the first binding is the binding.
pub open spec fn spec_lookup_fields(fields: Seq<(String, JsonVal)>, key: Seq<char>) -> Option<
    JsonVal,
>
    decreases fields.len(),
{
    if fields.len() == 0 {
        None
    } else if fields[0].0@ == key {
        Some(fields[0].1)
    } else {
        spec_lookup_fields(fields.drop_first(), key)
    }
}

/// Field lookup on a value: a binding of `key` when the value is an object
/// that has one, `None` otherwise.
pub open spec fn spec_lookup(v: JsonVal, key: Seq<char>) -> Option<JsonVal> {
    match v {
        JsonVal::Obj(fields) => spec_lookup_fields(fields@, key),
        _ => None,
    }
}

/// Direct field lookup; `None` on absence or on a non-object value.
#[verifier::loop_isolation(false)]
pub fn json_get<'a>(v: &'a JsonVal, key: &str) -> (r: Option<&'a JsonVal>)
    ensures
        match r {
            Some(x) => spec_lookup(*v, key@) == Some(*x),
            None => spec_lookup(*v, key@) is None,
        },
{
    match v {
        JsonVal::Obj(fields) => {
            let n = fields.len();
            let mut i: usize = 0;
            proof {
                assert(fields@.skip(0) =~= fields@);
            }
            while i < n
                invariant
                    n == fields@.len(),
                    i <= n,
                    spec_lookup_fields(fields@, key@) == spec_lookup_fields(
                        fields@.skip(i as int),
                        key@,
                    ),
                decreases n - i,
            {
                if str_eq(fields[i].0.as_str(), key) {
                    proof {
                        assert(fields@.skip(i as int)[0] == fields@[i as int]);
                    }
                    return Some(&fields[i].1);
                }
                proof {
                    assert(fields@.skip(i as int).drop_first() =~= fields@.skip(i + 1));
                }
                i += 1;
            }
            None
        },
        _ => None,
    }
}

/// What `serde_json` decodes a given text to, carried over into the
/// library's model: `None` where the text is not one valid JSON document.
/// The decode depends on the characters of the text alone.
pub uninterp spec fn json_of(s: Seq<char>) -> Option<JsonVal>;

#[verifier::external_type_specification]
#[verifier::external_body]
pub struct ExValue(serde_json::Value);

/// Relies on the shape of `serde_json::Value`: each variant is carried over
/// to the matching variant of the library's model, fields moved as they
/// are, numbers rendered to their text.
#[verifier::external_body]
fn convert_value(v: serde_json::Value) -> JsonVal {
    match v {
        serde_json::Value::Null => JsonVal::Null,
        serde_json::Value::Bool(b) => JsonVal::Bool(b),
        serde_json::Value::Number(n) => JsonVal::Num(n.to_string()),
        serde_json::Value::String(s) => JsonVal::Str(s),
        serde_json::Value::Array(a) => JsonVal::Arr(a.into_iter().map(convert_value).collect()),
        serde_json::Value::Object(m) => JsonVal::Obj(
            m.into_iter().map(|(k, w)| (k, convert_value(w))).collect(),
        ),
    }
}

/// Relies on `serde_json::from_str`: decodes one JSON document from the
/// text, erring on anything else; the result is a function of the text
/// alone.
#[verifier::external_body]
fn decode_json(s: &str) -> (r: Option<JsonVal>)
    ensures
        r == json_of(s@),
{
    match serde_json::from_str::<serde_json::Value>(s) {
        Ok(v) => Some(convert_value(v)),
        Err(_) => None,
    }
}

/// Decode one JSON document, erring with `InvalidJson` on anything the
/// decoder refuses.
pub fn parse_json(s: &str) -> (r: Result<JsonVal, ResponseError>)
    ensures
        match json_of(s@) {
            Some(v) => r == Ok::<JsonVal, ResponseError>(v),
            None => r == Err::<JsonVal, ResponseError>(ResponseError::InvalidJson),
        },
{
    match decode_json(s) {
        Some(v) => Ok(v),
        None => Err(ResponseError::InvalidJson),
    }
}

} // verus!
