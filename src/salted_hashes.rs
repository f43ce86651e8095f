//! The keyed digest shared by password storage and token authentication:
//! HMAC-SHA512 keyed by a salt over the salt followed by the message, carried
//! as base64 text.
use vstd::prelude::*;
use vstd::utf8::*;
use crate::crypto::{b64_of, b64_decoded, hmac_sha512_of, base64_encode, decode_base64, hmac_sha512, fill_random};

verus! {

/// Length in bytes of a freshly generated password salt.
pub const SALT_LENGTH: usize = 64;

/// Length in bytes of a digest.
pub const DIGEST_LENGTH: usize = 64;

/// Length in characters of the base64 text of a digest or of a fresh salt.
pub const HASH_TEXT_LENGTH: usize = 88;

/// Whether a text has the shape of a hash: `HASH_TEXT_LENGTH` characters of
/// base64 that decode to `DIGEST_LENGTH` bytes.
pub open spec fn is_hash_text(h: Seq<char>) -> bool {
    &&& h.len() == HASH_TEXT_LENGTH
    &&& b64_decoded(h) matches Some(d) && d.len() == DIGEST_LENGTH
}

/// The salted digest of a message: HMAC-SHA512 keyed by the salt, over the
/// salt followed by the message.
pub open spec fn salted_digest(salt: Seq<u8>, message: Seq<u8>) -> Seq<u8> {
    hmac_sha512_of(salt, salt + message)
}

/// The base64 text of the salted digest of a text's UTF-8 bytes.
pub open spec fn salted_text_hash(text: Seq<char>, salt: Seq<u8>) -> Seq<char> {
    b64_of(salted_digest(salt, encode_utf8(text)))
}

/// Computes the salted digest of `message`.
pub fn salted_digest_of(salt: &[u8], message: &[u8]) -> (r: Vec<u8>)
    ensures
        r@ == salted_digest(salt@, message@),
        r@.len() == DIGEST_LENGTH,
{
    let mut salted: Vec<u8> = Vec::new();
    crate::wire::write_bytes(&mut salted, salt);
    crate::wire::write_bytes(&mut salted, message);
    assert(salted@ =~= salt@ + message@);
    hmac_sha512(salt, salted.as_slice())
}

/// Compares two byte strings in time that depends on their lengths only.
pub fn constant_time_eq(a: &[u8], b: &[u8]) -> (r: bool)
    ensures
        r == (a@ == b@),
{
    if a.len() != b.len() {
        return false;
    }
    let mut diff: u8 = 0;
    let mut i: usize = 0;
    while i < a.len()
        invariant
            i <= a@.len(),
            a@.len() == b@.len(),
            (diff == 0) <==> (forall|j: int| 0 <= j < i ==> a@[j] == b@[j]),
        decreases a@.len() - i,
    {
        let x = a[i];
        let y = b[i];
        let next = diff | (x ^ y);
        assert(next == 0 <==> (diff == 0 && x == y)) by (bit_vector)
            requires
                next == diff | (x ^ y),
        ;
        diff = next;
        i = i + 1;
    }
    if diff == 0 {
        assert(a@ =~= b@);
    }
    diff == 0
}

/// The base64 text of the salted digest of `text`.
fn hash_password(text: &str, salt: &[u8]) -> (r: String)
    ensures
        r@ == salted_text_hash(text@, salt@),
        is_hash_text(r@),
{
    let digest = salted_digest_of(salt, text.as_bytes());
    let r = base64_encode(digest.as_slice());
    assert(b64_of(digest@) == r@);
    r
}

/// Hashes `password` under a fresh random salt of `SALT_LENGTH` bytes, and
/// returns the hash and the salt, both as base64 text.
pub fn generate_hash_and_salt_for_text(password: &str) -> (r: (String, String))
    ensures
        exists|salt: Seq<u8>|
            {
                &&& salt.len() == SALT_LENGTH
                &&& r.0@ == salted_text_hash(password@, salt)
                &&& r.1@ == b64_of(salt)
                &&& b64_decoded(r.1@) == Some(salt)
            },
        is_hash_text(r.0@),
        r.1@.len() == HASH_TEXT_LENGTH,
{
    let mut salt: Vec<u8> = Vec::new();
    let mut i: usize = 0;
    while i < SALT_LENGTH
        invariant
            i <= SALT_LENGTH,
            salt@.len() == i,
        decreases SALT_LENGTH - i,
    {
        salt.push(0u8);
        i = i + 1;
    }
    fill_random(&mut salt);
    let hash = hash_password(password, salt.as_slice());
    let salt_text = base64_encode(salt.as_slice());
    assert(b64_of(salt@) == salt_text@);
    (hash, salt_text)
}

/// Hashes `text` under the salt given as base64 text; `None` when that text
/// is not valid base64.
pub fn generate_b64_hash_for_text_and_salt(text: &str, salt_b64: &str) -> (r: Option<String>)
    ensures
        match b64_decoded(salt_b64@) {
            Some(salt) => r matches Some(h) && h@ == salted_text_hash(text@, salt) && is_hash_text(h@),
            None => r is None,
        },
{
    match decode_base64(salt_b64) {
        Some(salt) => Some(hash_password(text, salt.as_slice())),
        None => None,
    }
}

/// Whether `password` hashes, under the salt given as base64 text, to
/// `expected_hash`; `None` when the salt is not valid base64. The hashes are
/// compared in constant time.
pub fn verify_text_hash(password: &str, salt_b64: &str, expected_hash: &str) -> (r: Option<bool>)
    ensures
        match b64_decoded(salt_b64@) {
            Some(salt) => r == Some(salted_text_hash(password@, salt) == expected_hash@),
            None => r is None,
        },
{
    match generate_b64_hash_for_text_and_salt(password, salt_b64) {
        Some(h) => {
            let same = constant_time_eq(h.as_str().as_bytes(), expected_hash.as_bytes());
            proof {
                if same != (h@ == expected_hash@) {
                    if h@ == expected_hash@ {
                    } else {
                        encode_utf8_decode_utf8(h@);
                        encode_utf8_decode_utf8(expected_hash@);
                    }
                }
            }
            Some(same)
        },
        None => None,
    }
}

} // verus!
