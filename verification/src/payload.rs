use vstd::prelude::*;

use crate::parse::spec_parse_u128;

verus! {

/// The character text that a byte sequence encodes as a single JSON
/// string, absent when it does not encode one. What an external contract's
/// return payload holds depends on its bytes alone.
pub uninterp spec fn json_string(data: Seq<u8>) -> Option<Seq<char>>;

/// Relies on serde_json::from_slice::<String>: reads the bytes as one
/// JSON string, deterministically in the bytes; a failure is reported as
/// an absent result.
#[verifier::external_body]
fn json_parse_string(data: &Vec<u8>) -> (r: Option<String>)
    ensures
        match r {
            Some(s) => json_string(data@) == Some(s@),
            None => json_string(data@) is None,
        },
{
    match serde_json::from_slice::<String>(data.as_slice()) {
        Ok(s) => Some(s),
        Err(_) => None,
    }
}

/// The amount an external contract reported consuming: its return payload
/// read as a JSON string holding a decimal numeral.
pub open spec fn parsed_amount(data: Seq<u8>) -> Option<u128> {
    match json_string(data) {
        None => None,
        Some(s) => spec_parse_u128(s),
    }
}

/// Reads the reported consumed amount out of a return payload, exactly as
/// `parsed_amount` describes.
pub fn parse_reported_amount(data: &Vec<u8>) -> (r: Option<u128>)
    ensures
        r == parsed_amount(data@),
{
    match json_parse_string(data) {
        Some(s) => crate::parse::parse_u128(s.as_str()),
        None => None,
    }
}

} // verus!
