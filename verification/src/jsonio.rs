//! Trusted boundary around `serde_json`. Each function here parses a JSON
//! document afresh and projects one value out of it by a JSON pointer, so
//! that every contract speaks only of the document text and the pointer —
//! both plain values — through an uninterpreted name for the projection.
//! The verified extraction logic above this boundary decides all schema
//! questions (which fields exist, how missing ones default) itself.

use vstd::prelude::*;

verus! {

/// Whether `s` parses as a JSON document — the result of
/// `serde_json::from_str::<Value>`, a function of the text alone.
pub uninterp spec fn doc_parses(s: Seq<char>) -> bool;

/// The string value a JSON pointer reaches in the document `s`, if the
/// document parses, the pointer reaches a value, and that value is a string.
pub uninterp spec fn str_field(s: Seq<char>, ptr: Seq<char>) -> Option<Seq<char>>;

/// The boolean value a JSON pointer reaches, under the same conditions.
pub uninterp spec fn bool_field(s: Seq<char>, ptr: Seq<char>) -> Option<bool>;

/// The JSON text of the number a JSON pointer reaches, under the same
/// conditions.
pub uninterp spec fn num_field(s: Seq<char>, ptr: Seq<char>) -> Option<Seq<char>>;

/// The length of the array a JSON pointer reaches, under the same
/// conditions.
pub uninterp spec fn arr_len(s: Seq<char>, ptr: Seq<char>) -> Option<int>;

/// Whether the document parses and the pointer reaches no value at all or
/// reaches JSON `null`.
pub uninterp spec fn absent_or_null(s: Seq<char>, ptr: Seq<char>) -> bool;

/// Relies on `serde_json::from_str::<Value>`: whether the text is a valid
/// JSON document.
#[verifier::external_body]
pub(crate) fn json_doc_parses(s: &str) -> (r: bool)
    ensures
        r == doc_parses(s@),
{
    serde_json::from_str::<serde_json::Value>(s).is_ok()
}

/// Relies on `serde_json::from_str`, `Value::pointer` and `Value::as_str`:
/// the string value at `ptr`, or `None` when the document does not parse,
/// the pointer reaches nothing, or the value is not a string.
#[verifier::external_body]
pub(crate) fn json_str_field(s: &str, ptr: &str) -> (r: Option<String>)
    ensures
        r.deep_view() == str_field(s@, ptr@),
        r is Some ==> doc_parses(s@),
{
    let v: serde_json::Value = serde_json::from_str(s).ok()?;
    v.pointer(ptr)?.as_str().map(|x| x.to_string())
}

/// Relies on `serde_json::from_str`, `Value::pointer` and `Value::as_bool`:
/// the boolean at `ptr`, or `None` when absent or not a boolean.
#[verifier::external_body]
pub(crate) fn json_bool_field(s: &str, ptr: &str) -> (r: Option<bool>)
    ensures
        r == bool_field(s@, ptr@),
        r is Some ==> doc_parses(s@),
{
    let v: serde_json::Value = serde_json::from_str(s).ok()?;
    v.pointer(ptr)?.as_bool()
}

/// Relies on `serde_json::from_str`, `Value::pointer`, `Value::is_number`
/// and the `Display` of `Value`: the JSON text of the number at `ptr`, or
/// `None` when absent or not a number.
#[verifier::external_body]
pub(crate) fn json_num_field(s: &str, ptr: &str) -> (r: Option<String>)
    ensures
        r.deep_view() == num_field(s@, ptr@),
        r is Some ==> doc_parses(s@),
{
    let v: serde_json::Value = serde_json::from_str(s).ok()?;
    let x = v.pointer(ptr)?;
    if x.is_number() {
        Some(x.to_string())
    } else {
        None
    }
}

/// Relies on `serde_json::from_str`, `Value::pointer` and `Value::as_array`:
/// the length of the array at `ptr`, or `None` when absent or not an array.
#[verifier::external_body]
pub(crate) fn json_arr_len(s: &str, ptr: &str) -> (r: Option<usize>)
    ensures
        match r {
            Some(n) => arr_len(s@, ptr@) == Some(n as int),
            None => arr_len(s@, ptr@) is None,
        },
        r is Some ==> doc_parses(s@),
{
    let v: serde_json::Value = serde_json::from_str(s).ok()?;
    v.pointer(ptr)?.as_array().map(|a| a.len())
}

/// Relies on `serde_json::from_str`, `Value::pointer` and `Value::is_null`:
/// whether the document parses and the pointer reaches nothing or reaches
/// JSON `null`.
#[verifier::external_body]
pub(crate) fn json_absent_or_null(s: &str, ptr: &str) -> (r: bool)
    ensures
        r == absent_or_null(s@, ptr@),
        r ==> doc_parses(s@),
{
    match serde_json::from_str::<serde_json::Value>(s) {
        Err(_) => false,
        Ok(v) => match v.pointer(ptr) {
            None => true,
            Some(x) => x.is_null(),
        },
    }
}

} // verus!
