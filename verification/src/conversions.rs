//! How the proxy turns serialized MCP payloads and failures into the packets
//! it reports. Payloads arrive as their compact JSON serialization, or as the
//! message of the serialization error.
use vstd::prelude::*;
use crate::common_structs::MCPError;

verus! {

/// JSON-RPC error code: invalid JSON was received.
pub const PARSE_ERROR: i32 = -32700;

/// JSON-RPC error code: internal error.
pub const INTERNAL_ERROR: i32 = -32603;

/// An error object with `code` and message `text`, without data.
pub fn convert_text_to_error_data(code: i32, text: String) -> (r: MCPError)
    ensures
        r.code == code,
        r.message == text,
        r.data is None,
{
    MCPError { code, message: text, data: None }
}

/// The compact serialization of `null`.
pub open spec fn json_null_text() -> Seq<char> {
    "null"@
}

/// The compact serialization of an empty object.
pub open spec fn json_empty_object_text() -> Seq<char> {
    "{}"@
}

/// A payload ready to be reported: `null` (the serialization of `()`) is
/// reported as an empty object, as the protocol wants of an empty result; a
/// serialization failure becomes a parse error carrying its message.
pub fn convert_to_json_value(serialized: Result<String, String>) -> (r: Result<String, MCPError>)
    ensures
        serialized matches Ok(t) ==> (t@ == json_null_text() ==> (r matches Ok(u) && u@
            == json_empty_object_text())),
        serialized matches Ok(t) ==> (t@ != json_null_text() ==> r == Ok::<String, MCPError>(t)),
        serialized matches Err(m) ==> (r matches Err(e) && e.code == PARSE_ERROR && e.message == m
            && e.data is None),
{
    match serialized {
        Ok(t) => {
            let null_text = String::from_str("null");
            if t == null_text {
                Ok(String::from_str("{}"))
            } else {
                Ok(t)
            }
        },
        Err(m) => Err(convert_text_to_error_data(PARSE_ERROR, m)),
    }
}

/// Optional request parameters ready to be reported: absent parameters, and
/// parameters that serialize to an empty object (or to `null`), are reported
/// as absent.
pub fn convert_optional_params(params: Option<Result<String, String>>) -> (r: Result<
    Option<String>,
    MCPError,
>)
    ensures
        params is None ==> r == Ok::<Option<String>, MCPError>(None),
        params matches Some(Ok(t)) ==> ((t@ == json_null_text() || t@ == json_empty_object_text())
            ==> r == Ok::<Option<String>, MCPError>(None)),
        params matches Some(Ok(t)) ==> (!(t@ == json_null_text() || t@ == json_empty_object_text())
            ==> r == Ok::<Option<String>, MCPError>(Some(t))),
        params matches Some(Err(m)) ==> (r matches Err(e) && e.code == PARSE_ERROR && e.message
            == m && e.data is None),
{
    match params {
        Some(p) => {
            let value = convert_to_json_value(p)?;
            let empty = String::from_str("{}");
            if value == empty {
                Ok(None)
            } else {
                Ok(Some(value))
            }
        },
        None => Ok(None),
    }
}

} // verus!
