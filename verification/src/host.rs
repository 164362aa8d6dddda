//! The trusted boundary: every call into an outside crate or into a part of
//! std that carries no vstd specification goes through one of the wrappers
//! here, and nothing else in the library is taken on trust.

use vstd::prelude::*;

verus! {

/// The base64 rendering (standard alphabet, with padding) of a byte
/// sequence, named so that contracts can speak of it exactly.
pub uninterp spec fn b64_of(bytes: Seq<u8>) -> Seq<char>;

/// Relies on base64::encode (standard alphabet, padded): the result is a
/// function of the input bytes alone, four characters for every three
/// bytes started.
#[verifier::external_body]
pub(crate) fn base64_encode(bytes: &Vec<u8>) -> (r: String)
    requires
        bytes@.len() < 0x1000_0000_0000_0000,
    ensures
        r@ == b64_of(bytes@),
        r@.len() == 4 * ((bytes@.len() + 2) / 3),
        bytes@.len() == 0 ==> r@.len() == 0,
{
    base64::encode(bytes)
}

/// Relies on std::time::SystemTime: the wall clock read as milliseconds
/// since the Unix epoch. Nothing can be promised of the clock's value.
#[verifier::external_body]
pub(crate) fn now_unix_millis() -> (r: u64)
{
    std::time::SystemTime::now()
        .duration_since(std::time::UNIX_EPOCH)
        .map(|d| d.as_millis() as u64)
        .unwrap_or(0)
}

/// Relies on rand::Rng::gen: eight bytes drawn from the thread-local
/// generator. Nothing holds of their values; only the length is fixed.
#[verifier::external_body]
pub(crate) fn random_bytes8() -> (r: Vec<u8>)
    ensures
        r@.len() == 8,
{
    let bytes: [u8; 8] = rand::Rng::gen(&mut rand::thread_rng());
    bytes.to_vec()
}

/// Relies on rand::Rng::gen_range over `0..n`: a uniformly random index
/// below `n`. The range must be non-empty, else gen_range panics.
#[verifier::external_body]
pub(crate) fn random_index(n: usize) -> (r: usize)
    requires
        n > 0,
    ensures
        r < n,
{
    rand::Rng::gen_range(&mut rand::thread_rng(), 0..n)
}

/// Relies on rand::Rng::gen_range over `lo..=hi`: a uniformly random value
/// in the closed range. The range must be non-empty, else gen_range panics.
#[verifier::external_body]
pub(crate) fn random_in_range(lo: u64, hi: u64) -> (r: u64)
    requires
        lo <= hi,
    ensures
        lo <= r <= hi,
{
    rand::Rng::gen_range(&mut rand::thread_rng(), lo..=hi)
}

/// A lower-case hexadecimal digit.
pub open spec fn is_lower_hex_digit(c: char) -> bool {
    (48 <= c as int <= 57) || (97 <= c as int <= 102)
}

/// The 36-character hyphenated lower-hex UUID layout: hyphens at the
/// four fixed positions, hex digits everywhere else.
pub open spec fn is_hyphenated_uuid(u: Seq<char>) -> bool {
    &&& u.len() == 36
    &&& forall|i: int|
        0 <= i < 36 ==> if i == 8 || i == 13 || i == 18 || i == 23 {
            u[i] == '-'
        } else {
            is_lower_hex_digit(#[trigger] u[i])
        }
}

/// Relies on uuid::Uuid::new_v4 and its Display form: a random version-4
/// UUID rendered in the 36-character hyphenated lower-hex form, hyphens
/// after the 8th, 12th, 16th and 20th digit.
#[verifier::external_body]
pub(crate) fn uuid_v4_string() -> (r: String)
    ensures
        is_hyphenated_uuid(r@),
{
    uuid::Uuid::new_v4().to_string()
}

#[verifier::external_type_specification]
#[verifier::external_body]
pub struct ExUri(http::Uri);

#[verifier::external_type_specification]
#[verifier::external_body]
pub struct ExInvalidUri(http::uri::InvalidUri);

/// Whether the http crate accepts a string as a URI: parsing is a
/// function of the characters alone.
pub uninterp spec fn uri_parses(s: Seq<char>) -> bool;

/// Relies on http::Uri's FromStr impl: parses and validates a URI.
/// Which strings it accepts is the http crate's own affair, named by
/// `uri_parses`; nothing is assumed of the parsed value.
#[verifier::external_body]
pub(crate) fn parse_uri(s: &str) -> (r: Result<http::Uri, http::uri::InvalidUri>)
    ensures
        r is Ok <==> uri_parses(s@),
{
    s.parse::<http::Uri>()
}

} // verus!
