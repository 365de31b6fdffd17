//! Decoding the structured entries of an API error body.
//!
//! The wire shape is a JSON object holding `errors` or `error` (both
//! optional, `errors` preferred), each an array of `{code, message}`
//! entries.  The JSON parsing itself is done by an outside parser; its
//! opaque values are given a model, and the shape checks around them are
//! verified against that model.

use vstd::prelude::*;

use crate::models::Error;

verus! {

/// rustc-serialize's parsed JSON value, opaque here.
#[verifier::external_type_specification]
#[verifier::external_body]
pub struct ExJson(rustc_serialize::json::Json);

/// The model of a JSON value: what the opaque parsed value holds.  A
/// floating-point number is modelled by its kind alone.
pub enum JsonVal {
    Null,
    Bool(bool),
    I64(i64),
    U64(u64),
    Float,
    Str(Seq<char>),
    Arr(Seq<JsonVal>),
    Obj(Map<Seq<char>, JsonVal>),
}

/// Whether a string is well-formed JSON, as rustc-serialize's parser
/// accepts it; a function of the text alone.
pub uninterp spec fn json_parses(s: Seq<char>) -> bool;

/// The parsed value of a well-formed JSON text; a function of the text
/// alone.
pub uninterp spec fn json_of(s: Seq<char>) -> JsonVal;

/// What an opaque parsed JSON value holds, as the accessors below read it.
pub uninterp spec fn json_model(j: rustc_serialize::json::Json) -> JsonVal;

/// The models of a slice of parsed JSON values.
pub open spec fn models_of(arr: Seq<rustc_serialize::json::Json>) -> Seq<JsonVal> {
    arr.map_values(|e: rustc_serialize::json::Json| json_model(e))
}

/// Relies on rustc_serialize::json::Json::from_str: parses the string
/// into a JSON value; success and the parsed value depend on the text
/// alone.
#[verifier::external_body]
fn json_from_str(s: &str) -> (r: Option<rustc_serialize::json::Json>)
    ensures
        r is Some <==> json_parses(s@),
        r matches Some(j) ==> json_model(j) == json_of(s@),
{
    rustc_serialize::json::Json::from_str(s).ok()
}

/// Relies on rustc_serialize::json::Json::find: the value under the key
/// when `j` is an object holding it, `None` otherwise.
#[verifier::external_body]
fn json_find<'a>(j: &'a rustc_serialize::json::Json, key: &str) -> (r: Option<
    &'a rustc_serialize::json::Json,
>)
    ensures
        r matches Some(v) ==> (json_model(*j) matches JsonVal::Obj(m) && m.contains_key(key@)
            && json_model(*v) == m[key@]),
        r is None ==> (json_model(*j) matches JsonVal::Obj(m) ==> !m.contains_key(key@)),
{
    j.find(key)
}

/// Relies on rustc_serialize::json::Json::as_array: the elements when `j`
/// is an array, `None` otherwise.
#[verifier::external_body]
fn json_as_array<'a>(j: &'a rustc_serialize::json::Json) -> (r: Option<
    &'a Vec<rustc_serialize::json::Json>,
>)
    ensures
        r matches Some(a) ==> json_model(*j) == JsonVal::Arr(models_of(a@)),
        r is None ==> !(json_model(*j) is Arr),
{
    j.as_array()
}

/// The number a JSON value yields when read as a `u64`: defined for
/// non-negative integer numbers only.
pub open spec fn spec_as_u64(v: JsonVal) -> Option<u64> {
    match v {
        JsonVal::I64(n) => if n >= 0 {
            Some(n as u64)
        } else {
            None
        },
        JsonVal::U64(n) => Some(n),
        _ => None,
    }
}

/// Relies on rustc_serialize::json::Json::as_u64: the value when `j` is a
/// non-negative integer number, `None` otherwise.
#[verifier::external_body]
fn json_as_u64(j: &rustc_serialize::json::Json) -> (r: Option<u64>)
    ensures
        r == spec_as_u64(json_model(*j)),
{
    j.as_u64()
}

/// Relies on rustc_serialize::json::Json::as_string: the text when `j` is
/// a string, `None` otherwise.
#[verifier::external_body]
fn json_as_string<'a>(j: &'a rustc_serialize::json::Json) -> (r: Option<&'a str>)
    ensures
        r matches Some(t) ==> json_model(*j) == JsonVal::Str(t@),
        r is None ==> !(json_model(*j) is Str),
{
    j.as_string()
}

/// Relies on rustc_serialize::json::Json::is_null: whether `j` is `null`.
#[verifier::external_body]
fn json_is_null(j: &rustc_serialize::json::Json) -> (r: bool)
    ensures
        r == (json_model(*j) is Null),
{
    j.is_null()
}

/// What one array element yields as an error entry: its `code` read as an
/// integer in `u32` range and its `message` read as a string, or nothing
/// when the element does not have that shape.
pub open spec fn spec_entry(v: JsonVal) -> Option<(u32, Seq<char>)> {
    match v {
        JsonVal::Obj(m) => {
            if m.contains_key("code"@) && m.contains_key("message"@) {
                match (spec_as_u64(m["code"@]), m["message"@]) {
                    (Some(u), JsonVal::Str(t)) => if u <= u32::MAX {
                        Some((u as u32, t))
                    } else {
                        None
                    },
                    _ => None,
                }
            } else {
                None
            }
        },
        _ => None,
    }
}

/// Every element of the array is a well-shaped error entry.
pub open spec fn all_entries_ok(ms: Seq<JsonVal>) -> bool {
    forall|i: int| 0 <= i < ms.len() ==> (#[trigger] spec_entry(ms[i])) is Some
}

/// The entries of an array whose elements are all well-shaped.
pub open spec fn entries_of(ms: Seq<JsonVal>) -> Seq<(u32, Seq<char>)> {
    ms.map_values(|m: JsonVal| spec_entry(m).unwrap())
}

/// The (code, message) view of decoded error entries.
pub open spec fn errors_view(es: Seq<Error>) -> Seq<(u32, Seq<char>)> {
    es.map_values(|e: Error| (e.code, e.message@))
}

/// Decodes one array of `{code, message}` entries; `None` when any
/// element does not have that shape.
fn decode_entries(arr: &Vec<rustc_serialize::json::Json>) -> (r: Option<Vec<Error>>)
    ensures
        (r is Some) == all_entries_ok(models_of(arr@)),
        r matches Some(es) ==> errors_view(es@) == entries_of(models_of(arr@)),
{
    let ghost ms = models_of(arr@);
    let mut out: Vec<Error> = Vec::new();
    let mut i: usize = 0;
    while i < arr.len()
        invariant
            i <= arr@.len(),
            ms == models_of(arr@),
            ms.len() == arr@.len(),
            out@.len() == i,
            forall|j: int|
                0 <= j < i ==> #[trigger] spec_entry(ms[j]) == Some(
                    (out@[j].code, out@[j].message@),
                ),
        decreases arr@.len() - i,
    {
        let e = &arr[i];
        proof {
            assert(ms[i as int] == json_model(arr@[i as int]));
        }
        let code = match json_find(e, "code") {
            Some(c) => match json_as_u64(c) {
                Some(u) => u,
                None => {
                    proof {
                        assert(spec_entry(ms[i as int]) is None);
                    }
                    return None;
                },
            },
            None => {
                proof {
                    assert(spec_entry(ms[i as int]) is None);
                }
                return None;
            },
        };
        if code > 0xffff_ffff {
            proof {
                assert(spec_entry(ms[i as int]) is None);
            }
            return None;
        }
        let message = match json_find(e, "message") {
            Some(m) => match json_as_string(m) {
                Some(s) => s.to_owned(),
                None => {
                    proof {
                        assert(spec_entry(ms[i as int]) is None);
                    }
                    return None;
                },
            },
            None => {
                proof {
                    assert(spec_entry(ms[i as int]) is None);
                }
                return None;
            },
        };
        out.push(Error { code: code as u32, message });
        proof {
            assert(spec_entry(ms[i as int]) == Some((out@[i as int].code, out@[i as int].message@)));
        }
        i = i + 1;
    }
    proof {
        assert(errors_view(out@) =~= entries_of(ms));
    }
    Some(out)
}

/// The value an object holds under a key, if it is an object holding one.
pub open spec fn spec_field(j: JsonVal, key: Seq<char>) -> Option<JsonVal> {
    match j {
        JsonVal::Obj(m) => if m.contains_key(key) {
            Some(m[key])
        } else {
            None
        },
        _ => None,
    }
}

/// What one of the two error-list fields yields: absent or `null` is fine
/// and empty (`Ok(None)`); a well-shaped array gives its entries; a field
/// of any other shape poisons the whole decode (`Err`).
pub open spec fn spec_error_field(j: JsonVal, key: Seq<char>) -> Result<
    Option<Seq<(u32, Seq<char>)>>,
    (),
> {
    match spec_field(j, key) {
        None => Ok(None),
        Some(v) => if v is Null {
            Ok(None)
        } else {
            match v {
                JsonVal::Arr(elems) => if all_entries_ok(elems) {
                    Ok(Some(entries_of(elems)))
                } else {
                    Err(())
                },
                _ => Err(()),
            }
        },
    }
}

/// Reads one of the two error-list fields, as `spec_error_field` says.
fn error_field(j: &rustc_serialize::json::Json, name: &str) -> (r: Result<Option<Vec<Error>>, ()>)
    ensures
        r matches Ok(es_opt) ==> match es_opt {
            None => spec_error_field(json_model(*j), name@) == Ok::<
                Option<Seq<(u32, Seq<char>)>>,
                (),
            >(None),
            Some(es) => spec_error_field(json_model(*j), name@) == Ok::<
                Option<Seq<(u32, Seq<char>)>>,
                (),
            >(Some(errors_view(es@))),
        },
        r is Err ==> spec_error_field(json_model(*j), name@) is Err,
{
    match json_find(j, name) {
        None => Ok(None),
        Some(v) => {
            if json_is_null(v) {
                Ok(None)
            } else {
                match json_as_array(v) {
                    Some(arr) => match decode_entries(arr) {
                        Some(es) => Ok(Some(es)),
                        None => Err(()),
                    },
                    None => Err(()),
                }
            }
        },
    }
}

/// The entries an API error body decodes to: those under `errors` when
/// that field holds a well-shaped array, else those under `error`; `None`
/// when the body is not valid JSON, when both fields are absent or null,
/// or when a present field has the wrong shape.
pub open spec fn spec_decoded_errors(s: Seq<char>) -> Option<Seq<(u32, Seq<char>)>> {
    if !json_parses(s) {
        None
    } else {
        let m = json_of(s);
        match (spec_error_field(m, "errors"@), spec_error_field(m, "error"@)) {
            (Ok(Some(es)), Ok(_)) => Some(es),
            (Ok(None), Ok(Some(es))) => Some(es),
            _ => None,
        }
    }
}

/// Decodes an API error body, yielding exactly `spec_decoded_errors` of
/// its text.  A body that decodes to nothing still leaves the call's HTTP
/// status reported by the caller.
pub fn decode_error_body(body: &str) -> (r: Option<Vec<Error>>)
    ensures
        (r is Some) == (spec_decoded_errors(body@) is Some),
        r matches Some(es) ==> spec_decoded_errors(body@) == Some(errors_view(es@)),
{
    let j = match json_from_str(body) {
        Some(j) => j,
        None => {
            return None;
        },
    };
    let errors = match error_field(&j, "errors") {
        Ok(x) => x,
        Err(_) => {
            return None;
        },
    };
    let fallback = match error_field(&j, "error") {
        Ok(x) => x,
        Err(_) => {
            return None;
        },
    };
    match errors {
        Some(e) => Some(e),
        None => fallback,
    }
}

} // verus!
