//! JSON text.

use vstd::prelude::*;
use crate::error::{SdkError, SdkResult};

verus! {

/// An outside type: a JSON value.
#[verifier::external_type_specification]
#[verifier::external_body]
pub struct ExJsonValue(serde_json::Value);

/// What `serde_json::from_str` makes of this text.
pub uninterp spec fn json_value(text: Seq<char>) -> Result<serde_json::Value, serde_json::Error>;

/// Calls `serde_json::from_str` for a value of any shape. Trusted: the result is a
/// function of the text.
#[verifier::external_body]
pub(crate) fn json_from_str(text: &str) -> (value: Result<serde_json::Value, serde_json::Error>)
    ensures
        value == json_value(text@),
{
    serde_json::from_str(text)
}

/// Whether a JSON value is `null`, by `serde_json::Value::is_null`.
pub uninterp spec fn is_json_null(value: serde_json::Value) -> bool;

/// Calls `serde_json::Value::is_null`. Trusted: the result is a function of the value.
#[verifier::external_body]
pub(crate) fn json_is_null(value: &serde_json::Value) -> (null: bool)
    ensures
        null == is_json_null(*value),
{
    value.is_null()
}

/// Reads JSON text.
pub fn parse_json(text: &str) -> (result: SdkResult<serde_json::Value>)
    ensures
        match result {
            Ok(value) => json_value(text@) == Ok::<serde_json::Value, serde_json::Error>(value),
            Err(error) => json_value(text@) matches Err(e) && error == SdkError::SerdeJson(e),
        },
{
    match json_from_str(text) {
        Ok(value) => Ok(value),
        Err(error) => Err(SdkError::SerdeJson(error)),
    }
}

} // verus!
