use vstd::prelude::*;
use crate::error::OsintError;
use serde_json::Value;

verus! {

/// The most bytes of an answer's body that are read.
pub const MAX_BODY: u64 = 16 * 1024 * 1024;

/// The error of a JSON decoding.
#[verifier::external_type_specification]
#[verifier::external_body]
pub struct ExJsonError(serde_json::Error);

/// Whether `serde_json` decodes `bytes` as a JSON value.
pub uninterp spec fn json_parses(bytes: Seq<u8>) -> bool;

/// Calls `serde_json::from_slice` for a `Value`: it succeeds exactly when `json_parses`
/// holds of the bytes, which is a matter of the bytes alone. Nothing is stated of the value
/// that it builds, an outside type that no spec here can speak of, nor of the error's message.
#[verifier::external_body]
fn parse_json(bytes: &[u8]) -> (r: Result<Value, serde_json::Error>)
    ensures
        r is Ok == json_parses(bytes@),
{
    serde_json::from_slice::<Value>(bytes)
}

/// The error that an HTTP status other than success stands for: 404 is not found,
/// anything else is reported with its code.
pub fn status_error(code: u16) -> (e: OsintError)
    ensures
        code == 404 ==> e == OsintError::NotFound,
        code != 404 ==> e == OsintError::Status(code),
{
    if code == 404 {
        OsintError::NotFound
    } else {
        OsintError::Status(code)
    }
}

/// The JSON value of an answer's body; a body that is not JSON is a decode error.
pub fn decode_json(bytes: &[u8]) -> (r: Result<Value, OsintError>)
    ensures
        r is Ok <==> json_parses(bytes@),
        r matches Err(e) ==> e is Decode,
{
    match parse_json(bytes) {
        Ok(v) => Ok(v),
        Err(e) => Err(OsintError::Decode(e.to_string())),
    }
}

} // verus!
