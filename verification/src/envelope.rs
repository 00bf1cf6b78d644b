//! Prices that arrive in a JSON envelope: an object whose member `result` is
//! a string that spells the price, as in `{"result": "156.1052385"}`.

use vstd::prelude::*;
use crate::error::{OracleError, ValidationError};
use crate::switchboard_utils::SwitchboardResult;
use crate::text::{parse_decimal, parse_decimal_text};

verus! {

/// The bytes of the string that is the member `key` of the JSON object
/// `text`, as `serde_json` reads it; nothing when `text` is no JSON
/// document, no object, an object without such a member, or one whose
/// member is no string.
pub uninterp spec fn envelope_member(text: Seq<u8>, key: Seq<char>) -> Option<Seq<u8>>;

/// Reads the member `key` of a JSON envelope.
///
/// Calls `serde_json::from_slice` for a `serde_json::Value`, indexes the
/// value by `key` and takes the outcome of `Value::as_str`. Nothing is
/// claimed of the outcome but that it depends on `text` and `key` alone: it
/// is [`envelope_member`] of the bytes of `text` and the characters of
/// `key`.
#[verifier::external_body]
fn envelope_field(text: &[u8], key: &str) -> (r: Option<Vec<u8>>)
    ensures
        match r {
            Some(field) => envelope_member(text@, key@) == Some(field@),
            None => envelope_member(text@, key@) is None,
        },
{
    let parsed: Result<serde_json::Value, serde_json::Error> = serde_json::from_slice(text);
    match parsed {
        Ok(value) => match value[key].as_str() {
            Some(field) => Some(field.as_bytes().to_vec()),
            None => None,
        },
        Err(_) => None,
    }
}

/// The price that an envelope with the member `field` holds:
/// `InvalidFeedAccount` when the member is missing or spells no number
/// that fits.
pub open spec fn envelope_price(field: Option<Seq<u8>>) -> Result<SwitchboardResult, OracleError> {
    match field {
        Some(number) => match parse_decimal(number) {
            Some(value) => Ok(SwitchboardResult { value }),
            None => Err(OracleError::Validation(ValidationError::InvalidFeedAccount)),
        },
        None => Err(OracleError::Validation(ValidationError::InvalidFeedAccount)),
    }
}

/// The bytes of `field`, if there is one.
pub open spec fn field_bytes(field: Option<Vec<u8>>) -> Option<Seq<u8>> {
    match field {
        Some(bytes) => Some(bytes@),
        None => None,
    }
}

/// Reads the price that the member `result` of an envelope spells.
pub fn price_from_field(field: Option<Vec<u8>>) -> (r: Result<SwitchboardResult, OracleError>)
    ensures
        r == envelope_price(field_bytes(field)),
{
    match field {
        Some(number) => match parse_decimal_text(number.as_slice()) {
            Some(value) => Ok(SwitchboardResult { value }),
            None => Err(OracleError::Validation(ValidationError::InvalidFeedAccount)),
        },
        None => Err(OracleError::Validation(ValidationError::InvalidFeedAccount)),
    }
}

/// Reads the price that a JSON envelope holds: the number that its member
/// `result` spells.
pub fn parse_price_envelope(text: &[u8]) -> (r: Result<SwitchboardResult, OracleError>)
    ensures
        r == envelope_price(envelope_member(text@, "result"@)),
{
    price_from_field(envelope_field(text, "result"))
}

} // verus!
