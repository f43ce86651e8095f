//! Calls into the cryptography, encoding and system crates, each behind a
//! contract that states what the called function documents.
use vstd::prelude::*;
use vstd::utf8::*;
use base64::Engine;
use hmac::Mac;
use rand::RngCore;

verus! {

/// The standard, padded base64 text of a byte string.
pub uninterp spec fn b64_of(bytes: Seq<u8>) -> Seq<char>;

/// The bytes whose base64 text is `text`, if there are any.
pub open spec fn b64_decoded(text: Seq<char>) -> Option<Seq<u8>> {
    if exists|b: Seq<u8>| #[trigger] b64_of(b) == text {
        Some(choose|b: Seq<u8>| #[trigger] b64_of(b) == text)
    } else {
        None
    }
}

/// HMAC-SHA512 of `message` under `key`.
pub uninterp spec fn hmac_sha512_of(key: Seq<u8>, message: Seq<u8>) -> Seq<u8>;

/// Relies on `base64::Engine::encode` with `general_purpose::STANDARD`: the
/// padded standard-alphabet text of the input, four characters for every
/// started group of three bytes (`encoded_len`). Decoding with the same
/// engine gives the input back, so no other byte string has the same text.
/// The length bound keeps the crate's output-size computation from
/// overflowing.
#[verifier::external_body]
pub(crate) fn base64_encode(bytes: &[u8]) -> (r: String)
    requires
        bytes@.len() <= usize::MAX / 2,
    ensures
        r@ == b64_of(bytes@),
        r@.len() == 4 * ((bytes@.len() + 2) / 3),
        forall|other: Seq<u8>| #[trigger] b64_of(other) == r@ ==> other == bytes@,
{
    base64::engine::general_purpose::STANDARD.encode(bytes)
}

/// Relies on `base64::Engine::decode` with `general_purpose::STANDARD`, whose
/// configuration requires canonical padding and rejects non-zero trailing
/// bits: it accepts exactly the texts that `encode` produces, and gives back
/// the bytes they were produced from.
#[verifier::external_body]
pub(crate) fn base64_decode(text: &str) -> (r: Option<Vec<u8>>)
    ensures
        r is Some <==> exists|bytes: Seq<u8>| #[trigger] b64_of(bytes) == text@,
        r matches Some(v) ==> b64_of(v@) == text@,
        r matches Some(v) ==> forall|bytes: Seq<u8>| #[trigger] b64_of(bytes) == text@ ==> bytes == v@,
{
    base64::engine::general_purpose::STANDARD.decode(text).ok()
}

/// Decodes base64 text: the bytes that encode to `text`, if any do.
pub fn decode_base64(text: &str) -> (r: Option<Vec<u8>>)
    ensures
        match r {
            Some(v) => b64_decoded(text@) == Some(v@),
            None => b64_decoded(text@) is None,
        },
{
    let r = base64_decode(text);
    match r {
        Some(v) => {
            assert(b64_of(v@) == text@);
            let ghost c = choose|b: Seq<u8>| #[trigger] b64_of(b) == text@;
            assert(c == v@);
            Some(v)
        },
        None => None,
    }
}

/// Relies on `hmac::Hmac<sha2::Sha512>`: `new_from_slice` takes a key of any
/// length, and the finalized code is the 64-byte HMAC-SHA512 of the message.
#[verifier::external_body]
pub(crate) fn hmac_sha512(key: &[u8], message: &[u8]) -> (r: Vec<u8>)
    ensures
        r@ == hmac_sha512_of(key@, message@),
        r@.len() == 64,
{
    let mut mac = hmac::Hmac::<sha2::Sha512>::new_from_slice(key).unwrap();
    mac.update(message);
    mac.finalize().into_bytes().to_vec()
}

/// Relies on `rand::RngCore::fill_bytes` of `rand::thread_rng()`: overwrites
/// the buffer with random bytes, keeping its length.
#[verifier::external_body]
pub(crate) fn fill_random(buf: &mut Vec<u8>)
    ensures
        final(buf)@.len() == old(buf)@.len(),
{
    rand::thread_rng().fill_bytes(buf.as_mut_slice())
}

/// Relies on `time::OffsetDateTime::now_utc` and `unix_timestamp_nanos`: the
/// current instant in nanoseconds since the Unix epoch. A date of the time
/// crate lies in the years `MIN_YEAR..=MAX_YEAR` (`date.rs`), at most
/// 999,999 from year 0 even with the `large-dates` feature, which is less
/// than 10^23 nanoseconds from the epoch either way.
#[verifier::external_body]
pub(crate) fn now_unix_nanos() -> (r: i128)
    ensures
        -100_000_000_000_000_000_000_000 < r < 100_000_000_000_000_000_000_000,
{
    time::OffsetDateTime::now_utc().unix_timestamp_nanos()
}

/// Relies on `String::from_utf8`: succeeds exactly on valid UTF-8, and the
/// string then holds the characters that the bytes encode.
#[verifier::external_body]
pub(crate) fn string_from_utf8(bytes: Vec<u8>) -> (r: Option<String>)
    ensures
        r is Some <==> valid_utf8(bytes@),
        r matches Some(s) ==> s@ == decode_utf8(bytes@),
{
    String::from_utf8(bytes).ok()
}

} // verus!
