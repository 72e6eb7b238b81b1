//! JSON pretty-printing and minification of the working buffer, through
//! serde_json.

use vstd::prelude::*;

verus! {

/// Why a buffer failed to re-format: it is not JSON (with the parser's
/// message), or the formatter itself failed.
#[derive(Debug)]
pub enum JsonError {
    ParseError(String),
    FormatError(()),
}

impl JsonError {
    pub fn message(&self) -> (r: String)
        ensures
            match self {
                JsonError::ParseError(m) => r@ == ("Invalid JSON - "@ + m@),
                JsonError::FormatError(..) => r@ == "Failed to format JSON"@,
            },
    {
        match self {
            JsonError::ParseError(m) => String::from_str("Invalid JSON - ").concat(m.as_str()),
            JsonError::FormatError(..) => String::from_str("Failed to format JSON"),
        }
    }
}

/// What pretty-printing yields on this text: `None` exactly when the text
/// is not valid JSON, otherwise the two-space-indented rendering of its
/// value.
pub uninterp spec fn json_pretty_of(s: Seq<char>) -> Option<Seq<char>>;

/// What minification yields on this text: `None` exactly when the text is
/// not valid JSON, otherwise the rendering of its value without whitespace.
pub uninterp spec fn json_min_of(s: Seq<char>) -> Option<Seq<char>>;

/// Relies on `serde_json::from_str::<Value>`, which accepts exactly the
/// valid JSON texts and parses deterministically, and on
/// `serde_json::to_string_pretty`, which never fails on a `Value` (its
/// `Serialize` is total and its maps are keyed by strings), so any error is
/// a parse error.
#[verifier::external_body]
fn json_format_raw(s: &str) -> (r: Result<String, JsonError>)
    ensures
        (r is Ok) == (json_pretty_of(s@) is Some),
        r matches Ok(t) ==> json_pretty_of(s@) == Some(t@),
        r matches Err(e) ==> e is ParseError,
{
    match serde_json::from_str::<serde_json::Value>(s) {
        Ok(v) => match serde_json::to_string_pretty(&v) {
            Ok(t) => Ok(t),
            Err(_) => Err(JsonError::FormatError(())),
        },
        Err(e) => Err(JsonError::ParseError(e.to_string())),
    }
}

/// Relies on `serde_json::from_str::<Value>` and `serde_json::to_string`,
/// exactly as `json_format_raw` does for the pretty printer.
#[verifier::external_body]
fn json_minify_raw(s: &str) -> (r: Result<String, JsonError>)
    ensures
        (r is Ok) == (json_min_of(s@) is Some),
        r matches Ok(t) ==> json_min_of(s@) == Some(t@),
        r matches Err(e) ==> e is ParseError,
{
    match serde_json::from_str::<serde_json::Value>(s) {
        Ok(v) => match serde_json::to_string(&v) {
            Ok(t) => Ok(t),
            Err(_) => Err(JsonError::FormatError(())),
        },
        Err(e) => Err(JsonError::ParseError(e.to_string())),
    }
}

/// Pretty-prints the buffer as two-space-indented JSON; errors exactly on
/// texts that are not valid JSON.
pub fn json_format(buffer: &str) -> (r: Result<String, JsonError>)
    ensures
        (r is Ok) == (json_pretty_of(buffer@) is Some),
        r matches Ok(t) ==> json_pretty_of(buffer@) == Some(t@),
        r matches Err(e) ==> e is ParseError,
{
    json_format_raw(buffer)
}

/// Re-renders the buffer as JSON without insignificant whitespace; errors
/// exactly on texts that are not valid JSON.
pub fn json_minify(buffer: &str) -> (r: Result<String, JsonError>)
    ensures
        (r is Ok) == (json_min_of(buffer@) is Some),
        r matches Ok(t) ==> json_min_of(buffer@) == Some(t@),
        r matches Err(e) ==> e is ParseError,
{
    json_minify_raw(buffer)
}

} // verus!
