//! Sidecar JSON reading: extracting the capture timestamp string from a
//! sidecar document.
//!
//! The only field consumed is `photoTakenTime.timestamp`, which must be a
//! JSON string; every other field is ignored. A document that does not parse,
//! lacks the member, or holds a non-string there is a parse failure for that
//! sidecar file.

use vstd::prelude::*;

use crate::errors::ProcessError;

verus! {

/// The string standing at the member `outer`.`inner` of a JSON document, if
/// the document parses and holds a string there.
pub uninterp spec fn json_nested_string_of(
    doc: Seq<char>,
    outer: Seq<char>,
    inner: Seq<char>,
) -> Option<Seq<char>>;

/// Relies on `serde_json::from_str` and `serde_json::Value::{get, as_str}`:
/// whether a JSON document parses and holds a string member two keys deep,
/// and which string, is a function of the document text and the two keys
/// alone.
#[verifier::external_body]
fn json_nested_string(doc: &str, outer: &str, inner: &str) -> (r: Option<String>)
    ensures
        r is Some <==> json_nested_string_of(doc@, outer@, inner@) is Some,
        r matches Some(s) ==> json_nested_string_of(doc@, outer@, inner@) matches Some(t) && s@
            == t,
{
    let value: serde_json::Value = serde_json::from_str(doc).ok()?;
    let s = value.get(outer)?.get(inner)?.as_str()?;
    Some(s.to_owned())
}

/// The timestamp string standing at `photoTakenTime.timestamp` of a JSON
/// document, if the document parses and holds a string there.
pub open spec fn sidecar_timestamp_of(doc: Seq<char>) -> Option<Seq<char>> {
    json_nested_string_of(doc, "photoTakenTime"@, "timestamp"@)
}

/// Reads the capture timestamp string out of a sidecar JSON document: the
/// one consumed member is the string at `photoTakenTime.timestamp`.
pub fn read_sidecar_timestamp(doc: &str) -> (r: Result<String, ProcessError>)
    ensures
        r is Ok <==> sidecar_timestamp_of(doc@) is Some,
        r matches Ok(s) ==> sidecar_timestamp_of(doc@) matches Some(t) && s@ == t,
        r matches Err(e) ==> e == ProcessError::SidecarReadOrParseError,
{
    match json_nested_string(doc, "photoTakenTime", "timestamp") {
        Some(s) => Ok(s),
        None => Err(ProcessError::SidecarReadOrParseError),
    }
}

} // verus!
