//! What crosses the foreign boundary: lookup keys coming in, failure codes
//! going out.
use crate::cache::FetchFailure;
use vstd::prelude::*;

verus! {

/// The text that a byte string encodes as UTF-8, or none where it is not
/// valid UTF-8.
pub uninterp spec fn utf8_text(b: Seq<u8>) -> Option<Seq<char>>;

/// Relies on `std::str::from_utf8`: the bytes read as UTF-8 text, or an
/// error where they are not valid UTF-8.
#[verifier::external_body]
fn text_of(b: &[u8]) -> (r: Option<String>)
    ensures
        match r {
            Some(s) => utf8_text(b@) == Some(s@),
            None => utf8_text(b@) is None,
        },
{
    match std::str::from_utf8(b) {
        Ok(s) => Some(s.to_owned()),
        Err(_) => None,
    }
}

/// The lookup key that `raw` carries: none where there is no key, or where
/// its bytes are not UTF-8 text.
pub fn decode_key(raw: Option<&[u8]>) -> (r: Option<String>)
    ensures
        raw is None ==> r is None,
        raw matches Some(b) ==> match r {
            Some(s) => utf8_text(b@) == Some(s@),
            None => utf8_text(b@) is None,
        },
{
    match raw {
        Some(b) => text_of(b),
        None => None,
    }
}

/// No failure.
pub const ERROR_NONE: i32 = 0;

/// The catalog could not be fetched.
pub const ERROR_TRANSPORT: i32 = 1;

/// The catalog document could not be decoded.
pub const ERROR_DECODE: i32 = 2;

/// The code that stands for `failure` where only an integer can cross.
pub fn failure_code(failure: Option<&FetchFailure>) -> (r: i32)
    ensures
        r == match failure {
            None => ERROR_NONE,
            Some(FetchFailure::TransportFailure { .. }) => ERROR_TRANSPORT,
            Some(FetchFailure::DecodeFailure { .. }) => ERROR_DECODE,
        },
{
    match failure {
        None => ERROR_NONE,
        Some(FetchFailure::TransportFailure { .. }) => ERROR_TRANSPORT,
        Some(FetchFailure::DecodeFailure { .. }) => ERROR_DECODE,
    }
}

} // verus!
