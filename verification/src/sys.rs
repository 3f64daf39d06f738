//! Trusted boundary to the platform: randomness, wall-clock time, session
//! token minting, and UTF-8 decoding.
//!
//! Everything else in the crate is verified against the contracts stated
//! here.

use vstd::prelude::*;

verus! {

/// Relies on rand::random::<u64>: 64 bits from the thread-local CSPRNG.
/// Nothing can be promised of the value drawn.
#[verifier::external_body]
pub(crate) fn fresh_random_u64() -> u64 {
    rand::random::<u64>()
}

/// Relies on uuid::Uuid::new_v4 and its Display impl, which formats the
/// hyphenated form: a fresh random token of exactly 36 characters.
#[verifier::external_body]
pub(crate) fn new_session_token() -> (r: String)
    ensures
        r@.len() == 36,
{
    uuid::Uuid::new_v4().to_string()
}

/// Relies on std::time::SystemTime: the clock reading as whole seconds
/// since the Unix epoch, or 0 if the clock reads earlier than the epoch.
/// Nothing else can be promised of the value.
#[verifier::external_body]
fn clock_seconds() -> u64 {
    std::time::SystemTime::now()
        .duration_since(std::time::UNIX_EPOCH)
        .map(|d| d.as_secs())
        .unwrap_or(0)
}

/// The current time as whole seconds since the Unix epoch. Commands take
/// their instant as an argument; callers obtain it here.
pub fn get_current_timestamp() -> u64 {
    clock_seconds()
}

/// Relies on String::from_utf8: it succeeds exactly on valid UTF-8 input and
/// the returned string holds those very bytes.
#[verifier::external_body]
pub(crate) fn bytes_to_string(v: Vec<u8>) -> (r: Option<String>)
    ensures
        r is Some <==> vstd::utf8::valid_utf8(v@),
        r matches Some(s) ==> vstd::utf8::encode_utf8(s@) == v@,
{
    String::from_utf8(v).ok()
}

} // verus!
