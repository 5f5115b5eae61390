//! Trusted bindings to the outside crates the broker logic draws on:
//! random pairing codes, UUID generation, and base64 decoding.

use base64::Engine;
use vstd::prelude::*;

verus! {

/// Relies on rand::random_range: a draw from the inclusive range handed to
/// it, uniformly distributed over that range. Nothing beyond membership in
/// the range can be promised of a random value.
#[verifier::external_body]
pub(crate) fn draw_pairing_code() -> (r: u32)
    ensures
        100000 <= r <= 999999,
{
    rand::random_range(100_000..=999_999u32)
}

/// Relies on uuid::Uuid::new_v4 and its display form: a random version-4
/// UUID always renders as 36 characters (32 hexadecimal digits and 4
/// hyphens). Nothing beyond the length can be promised of a random value.
#[verifier::external_body]
pub(crate) fn new_uuid_string() -> (r: String)
    ensures
        r@.len() == 36,
{
    uuid::Uuid::new_v4().to_string()
}

/// What base64's standard-alphabet decoding yields on a given input, if the
/// input is well-formed base64; the result depends on the characters alone.
pub uninterp spec fn base64_decoding(s: Seq<char>) -> Option<Seq<u8>>;

/// Relies on the base64 crate's standard-alphabet engine to decode, or to
/// reject input that is not well-formed base64.
#[verifier::external_body]
pub(crate) fn decode_base64(s: &str) -> (r: Option<Vec<u8>>)
    ensures
        match r {
            Some(v) => base64_decoding(s@) == Some(v@),
            None => base64_decoding(s@) is None,
        },
{
    match base64::engine::general_purpose::STANDARD.decode(s) {
        Ok(v) => Some(v),
        Err(_) => None,
    }
}

} // verus!
