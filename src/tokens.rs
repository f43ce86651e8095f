//! Access tokens: the payload (identity and expiry instants), the envelope
//! that carries it beside its digest, and the base64 text handed to clients.
use vstd::prelude::*;
use vstd::bytes::*;
use vstd::utf8::*;
use crate::crypto::{b64_of, b64_decoded, base64_encode, decode_base64, now_unix_nanos};
use crate::salted_hashes::{salted_digest, salted_digest_of, constant_time_eq, DIGEST_LENGTH};
use crate::wire::{
    rest_of, write_length_prefixed, write_timestamp, write_optional_text, write_bytes, read_u128,
    read_timestamp, read_length_prefixed, read_optional_text,
    length_prefixed, timestamp_bytes, optional_text_bytes, optional_text_fits, optional_text_view,
    fits_length_prefix, split_u128, split_timestamp, split_length_prefixed, split_optional_text,
    lemma_split_u128, lemma_split_u128_canonical, lemma_split_timestamp,
    lemma_split_timestamp_canonical, lemma_split_length_prefixed,
    lemma_split_length_prefixed_canonical, lemma_split_optional_text,
    lemma_split_optional_text_canonical,
};

verus! {

broadcast use {encode_utf8_valid_utf8, encode_utf8_decode_utf8};

/// Nanoseconds in a second; timestamps and durations count nanoseconds.
pub const NANOS_PER_SECOND: i128 = 1_000_000_000;

/// The largest envelope, in bytes, that is encoded into a token.
pub const MAX_ENVELOPE_BYTES: usize = 0x7fff_ffff;

/// The largest payload, in bytes, that is issued as a token; its envelope
/// then stays within `MAX_ENVELOPE_BYTES`.
pub const MAX_PAYLOAD_BYTES: usize = 0x7fff_0000;

/// Who a token was issued to.
#[derive(Clone, Debug, PartialEq, Eq)]
pub struct UserInfo {
    pub first_name: Option<String>,
    pub last_name: Option<String>,
    pub user_id: u128,
}

pub struct UserInfoModel {
    pub first_name: Option<Seq<char>>,
    pub last_name: Option<Seq<char>>,
    pub user_id: u128,
}

impl View for UserInfo {
    type V = UserInfoModel;

    open spec fn view(&self) -> UserInfoModel {
        UserInfoModel {
            first_name: optional_text_view(self.first_name),
            last_name: optional_text_view(self.last_name),
            user_id: self.user_id,
        }
    }
}

impl UserInfo {
    /// A copy of this identity.
    pub fn duplicate(&self) -> (r: UserInfo)
        ensures
            r@ == self@,
    {
        UserInfo {
            first_name: crate::wire::copy_optional_text(&self.first_name),
            last_name: crate::wire::copy_optional_text(&self.last_name),
            user_id: self.user_id,
        }
    }
}

/// The payload of a token: an identity, the instant until which the token is
/// accepted as it is, and the later instant until which it can be refreshed.
pub struct AccessToken {
    user: UserInfo,
    expires_at: i128,
    refresh_at: i128,
}

pub struct AccessTokenModel {
    pub user: UserInfoModel,
    pub expires_at: i128,
    pub refresh_at: i128,
}

impl View for AccessToken {
    type V = AccessTokenModel;

    closed spec fn view(&self) -> AccessTokenModel {
        AccessTokenModel { user: self.user@, expires_at: self.expires_at, refresh_at: self.refresh_at }
    }
}

/// A token's payload beside its digest; the expiry instants are repeated in
/// the clear, but only the digested payload is trusted.
pub struct DigestAccessToken {
    digest: Vec<u8>,
    token: Vec<u8>,
    expires_at: i128,
    refresh_at: i128,
}

pub struct DigestAccessTokenModel {
    pub digest: Seq<u8>,
    pub token: Seq<u8>,
    pub expires_at: i128,
    pub refresh_at: i128,
}

impl View for DigestAccessToken {
    type V = DigestAccessTokenModel;

    closed spec fn view(&self) -> DigestAccessTokenModel {
        DigestAccessTokenModel {
            digest: self.digest@,
            token: self.token@,
            expires_at: self.expires_at,
            refresh_at: self.refresh_at,
        }
    }
}

/// What a client receives: the token text and its two expiry instants.
#[derive(Clone, Debug)]
pub struct AccessTokenResponse {
    pub token: String,
    pub expires_at: i128,
    pub refresh_at: i128,
}

pub struct AccessTokenResponseModel {
    pub token: Seq<char>,
    pub expires_at: i128,
    pub refresh_at: i128,
}

impl View for AccessTokenResponse {
    type V = AccessTokenResponseModel;

    open spec fn view(&self) -> AccessTokenResponseModel {
        AccessTokenResponseModel { token: self.token@, expires_at: self.expires_at, refresh_at: self.refresh_at }
    }
}

impl AccessTokenResponse {
    /// A copy of this response.
    pub fn duplicate(&self) -> (r: AccessTokenResponse)
        ensures
            r@ == self@,
    {
        AccessTokenResponse { token: self.token.clone(), expires_at: self.expires_at, refresh_at: self.refresh_at }
    }
}

/// Why a token could not be made.
#[derive(Clone, Copy, Debug, PartialEq, Eq, Structural)]
pub enum CreateAccessTokenError {
    /// An expiry instant falls outside the range of timestamps.
    TimestampOutOfRange,
    /// The envelope is longer than `MAX_ENVELOPE_BYTES`, or the payload
    /// longer than `MAX_PAYLOAD_BYTES`.
    TokenTooLarge,
}

/// Why a token text was refused.
#[derive(Clone, Copy, Debug, PartialEq, Eq, Structural)]
pub enum ParseAccessTokenError {
    /// The text is not base64.
    Base64DecodeError,
    /// The decoded bytes are not an envelope.
    MalformedEnvelope,
    /// The digest does not match the payload.
    InvalidDigest,
    /// The payload is not a token.
    MalformedToken,
}

/// Why a configuration was refused.
#[derive(Clone, Copy, Debug, PartialEq, Eq, Structural)]
pub enum ConfigError {
    /// The secret salt is not base64.
    InvalidSecretSalt,
    /// The token duration is not positive.
    NonPositiveDuration,
    /// The grace period is negative.
    NegativeGracePeriod,
}

/// The secret salt that keys token digests, how long an issued token is
/// accepted as it is, and how long a superseded token is still honoured.
pub struct TokenConfig {
    secret_salt: Vec<u8>,
    token_duration: i128,
    grace_period: i128,
}

pub struct TokenConfigModel {
    pub secret_salt: Seq<u8>,
    pub token_duration: int,
    pub grace_period: int,
}

impl View for TokenConfig {
    type V = TokenConfigModel;

    closed spec fn view(&self) -> TokenConfigModel {
        TokenConfigModel {
            secret_salt: self.secret_salt@,
            token_duration: self.token_duration as int,
            grace_period: self.grace_period as int,
        }
    }
}

impl TokenConfigModel {
    pub open spec fn wf(self) -> bool {
        &&& 0 < self.token_duration <= i64::MAX * NANOS_PER_SECOND
        &&& 0 <= self.grace_period <= i64::MAX * NANOS_PER_SECOND
    }
}

impl TokenConfig {
    #[verifier::type_invariant]
    spec fn config_wf(self) -> bool {
        self@.wf()
    }

    /// A configuration from the secret salt as base64 text and the two
    /// durations in seconds.
    pub fn new(secret_salt_b64: &str, token_duration_secs: i64, grace_period_secs: i64) -> (r: Result<
        TokenConfig,
        ConfigError,
    >)
        ensures
            match r {
                Ok(c) => {
                    &&& b64_decoded(secret_salt_b64@) == Some(c@.secret_salt)
                    &&& c@.token_duration == token_duration_secs * NANOS_PER_SECOND
                    &&& c@.grace_period == grace_period_secs * NANOS_PER_SECOND
                    &&& c@.wf()
                },
                Err(e) => e == if b64_decoded(secret_salt_b64@) is None {
                    ConfigError::InvalidSecretSalt
                } else if token_duration_secs <= 0 {
                    ConfigError::NonPositiveDuration
                } else {
                    ConfigError::NegativeGracePeriod
                },
            },
            r is Err <==> (b64_decoded(secret_salt_b64@) is None || token_duration_secs <= 0
                || grace_period_secs < 0),
    {
        let secret_salt = match decode_base64(secret_salt_b64) {
            Some(s) => s,
            None => {
                return Err(ConfigError::InvalidSecretSalt);
            },
        };
        if token_duration_secs <= 0 {
            return Err(ConfigError::NonPositiveDuration);
        }
        if grace_period_secs < 0 {
            return Err(ConfigError::NegativeGracePeriod);
        }
        assert(token_duration_secs * NANOS_PER_SECOND <= i64::MAX * NANOS_PER_SECOND) by (nonlinear_arith)
            requires
                token_duration_secs <= i64::MAX,
        ;
        assert(grace_period_secs * NANOS_PER_SECOND <= i64::MAX * NANOS_PER_SECOND) by (nonlinear_arith)
            requires
                grace_period_secs <= i64::MAX,
        ;
        assert(grace_period_secs * NANOS_PER_SECOND >= 0) by (nonlinear_arith)
            requires
                grace_period_secs >= 0,
        ;
        assert(token_duration_secs * NANOS_PER_SECOND > 0) by (nonlinear_arith)
            requires
                token_duration_secs > 0,
        ;
        let token_duration = (token_duration_secs as i128) * NANOS_PER_SECOND;
        let grace_period = (grace_period_secs as i128) * NANOS_PER_SECOND;
        Ok(TokenConfig { secret_salt, token_duration, grace_period })
    }

    /// How long, in nanoseconds, an issued token is accepted as it is.
    pub fn token_duration(&self) -> (r: i128)
        ensures
            r == self@.token_duration,
            self@.wf(),
    {
        proof {
            use_type_invariant(self);
        }
        self.token_duration
    }

    /// How long, in nanoseconds past its soft expiry, a superseded token is
    /// still honoured.
    pub fn grace_period(&self) -> (r: i128)
        ensures
            r == self@.grace_period,
            self@.wf(),
    {
        proof {
            use_type_invariant(self);
        }
        self.grace_period
    }

    pub(crate) fn secret_salt(&self) -> (r: &[u8])
        ensures
            r@ == self@.secret_salt,
    {
        self.secret_salt.as_slice()
    }
}

/* The byte layout of identities, payloads and envelopes. */

/// The bytes of an identity: the id in sixteen little-endian bytes, then
/// the two optional names.
pub open spec fn user_info_bytes(u: UserInfoModel) -> Seq<u8> {
    spec_u128_to_le_bytes(u.user_id) + optional_text_bytes(u.first_name) + optional_text_bytes(
        u.last_name,
    )
}

/// The bytes of a payload: its identity, then the soft and hard expiry.
pub open spec fn access_token_bytes(t: AccessTokenModel) -> Seq<u8> {
    user_info_bytes(t.user) + timestamp_bytes(t.expires_at) + timestamp_bytes(t.refresh_at)
}

/// The bytes of an envelope: the digest and the payload, each behind its
/// length, then the soft and hard expiry.
pub open spec fn envelope_bytes(e: DigestAccessTokenModel) -> Seq<u8> {
    length_prefixed(e.digest) + length_prefixed(e.token) + timestamp_bytes(e.expires_at)
        + timestamp_bytes(e.refresh_at)
}

/// Whether the names of an identity are short enough to be stored.
pub open spec fn user_info_fits(u: UserInfoModel) -> bool {
    optional_text_fits(u.first_name) && optional_text_fits(u.last_name)
}

/// Whether the digest and payload of an envelope are short enough to be stored.
pub open spec fn envelope_fits(e: DigestAccessTokenModel) -> bool {
    fits_length_prefix(e.digest) && fits_length_prefix(e.token)
}

/// The payload whose bytes are `b`, if there is one.
pub open spec fn access_token_from_bytes(b: Seq<u8>) -> Option<AccessTokenModel> {
    if exists|t: AccessTokenModel| user_info_fits(t.user) && #[trigger] access_token_bytes(t) == b {
        Some(choose|t: AccessTokenModel| user_info_fits(t.user) && #[trigger] access_token_bytes(t) == b)
    } else {
        None
    }
}

/// The envelope whose bytes are `b`, if there is one.
pub open spec fn envelope_from_bytes(b: Seq<u8>) -> Option<DigestAccessTokenModel> {
    if exists|e: DigestAccessTokenModel| envelope_fits(e) && #[trigger] envelope_bytes(e) == b {
        Some(choose|e: DigestAccessTokenModel| envelope_fits(e) && #[trigger] envelope_bytes(e) == b)
    } else {
        None
    }
}

/// Reads an identity off the front of `d`.
pub open spec fn split_user_info(d: Seq<u8>) -> Option<(UserInfoModel, Seq<u8>)> {
    match split_u128(d) {
        Some((id, r1)) => match split_optional_text(r1) {
            Some((first, r2)) => match split_optional_text(r2) {
                Some((last, r3)) => Some(
                    (UserInfoModel { first_name: first, last_name: last, user_id: id }, r3),
                ),
                None => None,
            },
            None => None,
        },
        None => None,
    }
}

/// Reads a payload that takes all of `d`.
pub open spec fn parse_access_token(d: Seq<u8>) -> Option<AccessTokenModel> {
    match split_user_info(d) {
        Some((u, r1)) => match split_timestamp(r1) {
            Some((e, r2)) => match split_timestamp(r2) {
                Some((f, r3)) => if r3.len() == 0 {
                    Some(AccessTokenModel { user: u, expires_at: e, refresh_at: f })
                } else {
                    None
                },
                None => None,
            },
            None => None,
        },
        None => None,
    }
}

/// Reads an envelope that takes all of `d`.
pub open spec fn parse_envelope(d: Seq<u8>) -> Option<DigestAccessTokenModel> {
    match split_length_prefixed(d) {
        Some((digest, r1)) => match split_length_prefixed(r1) {
            Some((token, r2)) => match split_timestamp(r2) {
                Some((e, r3)) => match split_timestamp(r3) {
                    Some((f, r4)) => if r4.len() == 0 {
                        Some(DigestAccessTokenModel { digest, token, expires_at: e, refresh_at: f })
                    } else {
                        None
                    },
                    None => None,
                },
                None => None,
            },
            None => None,
        },
        None => None,
    }
}

proof fn lemma_split_user_info(u: UserInfoModel, rest: Seq<u8>)
    requires
        user_info_fits(u),
    ensures
        split_user_info(user_info_bytes(u) + rest) == Some((u, rest)),
{
    let a = spec_u128_to_le_bytes(u.user_id);
    let b = optional_text_bytes(u.first_name);
    let c = optional_text_bytes(u.last_name);
    assert(user_info_bytes(u) + rest =~= a + (b + (c + rest)));
    assert(b + (c + rest) =~= b + (c + rest));
    lemma_split_u128(u.user_id, b + (c + rest));
    lemma_split_optional_text(u.first_name, c + rest);
    lemma_split_optional_text(u.last_name, rest);
}

proof fn lemma_split_user_info_canonical(d: Seq<u8>, u: UserInfoModel, rest: Seq<u8>)
    requires
        split_user_info(d) == Some((u, rest)),
    ensures
        user_info_fits(u),
        d == user_info_bytes(u) + rest,
{
    let (id, r1) = split_u128(d).unwrap();
    lemma_split_u128_canonical(d, id, r1);
    let (first, r2) = split_optional_text(r1).unwrap();
    lemma_split_optional_text_canonical(r1, first, r2);
    lemma_split_optional_text_canonical(r2, u.last_name, rest);
    assert(d =~= user_info_bytes(u) + rest);
}

proof fn lemma_parse_access_token(t: AccessTokenModel)
    requires
        user_info_fits(t.user),
    ensures
        parse_access_token(access_token_bytes(t)) == Some(t),
{
    let a = user_info_bytes(t.user);
    let e = timestamp_bytes(t.expires_at);
    let f = timestamp_bytes(t.refresh_at);
    let empty = Seq::<u8>::empty();
    assert(access_token_bytes(t) =~= a + (e + (f + empty)));
    lemma_split_user_info(t.user, e + (f + empty));
    lemma_split_timestamp(t.expires_at, f + empty);
    lemma_split_timestamp(t.refresh_at, empty);
}

proof fn lemma_parse_access_token_canonical(d: Seq<u8>, t: AccessTokenModel)
    requires
        parse_access_token(d) == Some(t),
    ensures
        user_info_fits(t.user),
        d == access_token_bytes(t),
{
    let (u, r1) = split_user_info(d).unwrap();
    lemma_split_user_info_canonical(d, u, r1);
    let (e, r2) = split_timestamp(r1).unwrap();
    lemma_split_timestamp_canonical(r1, e, r2);
    let (f, r3) = split_timestamp(r2).unwrap();
    lemma_split_timestamp_canonical(r2, f, r3);
    assert(d =~= access_token_bytes(t));
}

/// Reading a payload back from bytes finds the payload that they store, and
/// fails exactly on bytes that store none.
pub proof fn lemma_access_token_from_bytes(d: Seq<u8>)
    ensures
        access_token_from_bytes(d) == parse_access_token(d),
{
    match parse_access_token(d) {
        Some(t) => {
            lemma_parse_access_token_canonical(d, t);
            let c = choose|c: AccessTokenModel| user_info_fits(c.user) && #[trigger] access_token_bytes(c) == d;
            lemma_parse_access_token(c);
        },
        None => {
            if exists|c: AccessTokenModel| user_info_fits(c.user) && #[trigger] access_token_bytes(c) == d {
                let c = choose|c: AccessTokenModel| user_info_fits(c.user) && #[trigger] access_token_bytes(c) == d;
                lemma_parse_access_token(c);
            }
        },
    }
}

proof fn lemma_parse_envelope(e: DigestAccessTokenModel)
    requires
        envelope_fits(e),
    ensures
        parse_envelope(envelope_bytes(e)) == Some(e),
{
    let a = length_prefixed(e.digest);
    let b = length_prefixed(e.token);
    let c = timestamp_bytes(e.expires_at);
    let f = timestamp_bytes(e.refresh_at);
    let empty = Seq::<u8>::empty();
    assert(envelope_bytes(e) =~= a + (b + (c + (f + empty))));
    lemma_split_length_prefixed(e.digest, b + (c + (f + empty)));
    lemma_split_length_prefixed(e.token, c + (f + empty));
    lemma_split_timestamp(e.expires_at, f + empty);
    lemma_split_timestamp(e.refresh_at, empty);
}

proof fn lemma_parse_envelope_canonical(d: Seq<u8>, e: DigestAccessTokenModel)
    requires
        parse_envelope(d) == Some(e),
    ensures
        envelope_fits(e),
        d == envelope_bytes(e),
{
    let (digest, r1) = split_length_prefixed(d).unwrap();
    lemma_split_length_prefixed_canonical(d, digest, r1);
    let (token, r2) = split_length_prefixed(r1).unwrap();
    lemma_split_length_prefixed_canonical(r1, token, r2);
    let (x, r3) = split_timestamp(r2).unwrap();
    lemma_split_timestamp_canonical(r2, x, r3);
    let (y, r4) = split_timestamp(r3).unwrap();
    lemma_split_timestamp_canonical(r3, y, r4);
    assert(d =~= envelope_bytes(e));
}

/// Reading an envelope back from bytes finds the envelope that they store,
/// and fails exactly on bytes that store none.
pub proof fn lemma_envelope_from_bytes(d: Seq<u8>)
    ensures
        envelope_from_bytes(d) == parse_envelope(d),
{
    match parse_envelope(d) {
        Some(e) => {
            lemma_parse_envelope_canonical(d, e);
            let c = choose|c: DigestAccessTokenModel| envelope_fits(c) && #[trigger] envelope_bytes(c) == d;
            lemma_parse_envelope(c);
        },
        None => {
            if exists|c: DigestAccessTokenModel| envelope_fits(c) && #[trigger] envelope_bytes(c) == d {
                let c = choose|c: DigestAccessTokenModel| envelope_fits(c) && #[trigger] envelope_bytes(c) == d;
                lemma_parse_envelope(c);
            }
        },
    }
}

/* Encoding and decoding. */

/// The envelope of a payload under a secret salt.
pub open spec fn envelope_for(t: AccessTokenModel, secret_salt: Seq<u8>) -> DigestAccessTokenModel {
    DigestAccessTokenModel {
        digest: salted_digest(secret_salt, access_token_bytes(t)),
        token: access_token_bytes(t),
        expires_at: t.expires_at,
        refresh_at: t.refresh_at,
    }
}

/// The token text of a payload under a secret salt.
pub open spec fn encoded_token(t: AccessTokenModel, secret_salt: Seq<u8>) -> Seq<char> {
    b64_of(envelope_bytes(envelope_for(t, secret_salt)))
}

/// Whether a payload is short enough to be issued as a token.
pub open spec fn token_encodable(t: AccessTokenModel) -> bool {
    access_token_bytes(t).len() <= MAX_PAYLOAD_BYTES
}

/// The response that carries a payload under a secret salt.
pub open spec fn response_for(t: AccessTokenModel, secret_salt: Seq<u8>) -> AccessTokenResponseModel {
    AccessTokenResponseModel {
        token: encoded_token(t, secret_salt),
        expires_at: t.expires_at,
        refresh_at: t.refresh_at,
    }
}

/// What the bytes of an envelope decode to under a secret salt: the payload,
/// if the bytes store an envelope whose digest is that of its payload under
/// the salt, and whose payload is well formed.
pub open spec fn decoded_envelope(b: Seq<u8>, secret_salt: Seq<u8>) -> Result<
    AccessTokenModel,
    ParseAccessTokenError,
> {
    match envelope_from_bytes(b) {
        None => Err(ParseAccessTokenError::MalformedEnvelope),
        Some(e) => if e.digest != salted_digest(secret_salt, e.token) {
            Err(ParseAccessTokenError::InvalidDigest)
        } else {
            match access_token_from_bytes(e.token) {
                None => Err(ParseAccessTokenError::MalformedToken),
                Some(t) => Ok(t),
            }
        },
    }
}

/// What a token text decodes to under a secret salt: what the bytes decode
/// to whose base64 text it is.
pub open spec fn decoded_token(text: Seq<char>, secret_salt: Seq<u8>) -> Result<
    AccessTokenModel,
    ParseAccessTokenError,
> {
    match b64_decoded(text) {
        None => Err(ParseAccessTokenError::Base64DecodeError),
        Some(b) => decoded_envelope(b, secret_salt),
    }
}

proof fn lemma_optional_text_len(o: Option<Seq<char>>)
    ensures
        match o {
            Some(s) => optional_text_bytes(o).len() == 9 + encode_utf8(s).len(),
            None => optional_text_bytes(o).len() == 1,
        },
{
    lemma_auto_spec_u64_to_from_le_bytes();
}

/// The lengths of the stored forms of an identity, a payload and an envelope.
pub proof fn lemma_byte_lengths(t: AccessTokenModel, e: DigestAccessTokenModel)
    ensures
        access_token_bytes(t).len() == 16 + optional_text_bytes(t.user.first_name).len()
            + optional_text_bytes(t.user.last_name).len() + 32,
        access_token_bytes(t).len() == user_info_bytes(t.user).len() + 32,
        envelope_bytes(e).len() == 8 + e.digest.len() + 8 + e.token.len() + 32,
{
    lemma_auto_spec_u64_to_from_le_bytes();
    lemma_auto_spec_u128_to_from_le_bytes();
}

/// An encodable payload fits the layout: its names, and its envelope's
/// fields when the digest is short, are short enough for their length
/// prefixes.
proof fn lemma_encodable_fits(t: AccessTokenModel, secret_salt: Seq<u8>)
    requires
        token_encodable(t),
        salted_digest(secret_salt, access_token_bytes(t)).len() == DIGEST_LENGTH,
    ensures
        user_info_fits(t.user),
        envelope_fits(envelope_for(t, secret_salt)),
        envelope_bytes(envelope_for(t, secret_salt)).len() <= MAX_ENVELOPE_BYTES,
{
    lemma_optional_text_len(t.user.first_name);
    lemma_optional_text_len(t.user.last_name);
    lemma_byte_lengths(t, envelope_for(t, secret_salt));
}

/// Decoding the text of an encodable payload, when base64 gives its envelope
/// back, yields the payload.
proof fn lemma_decode_encoded(t: AccessTokenModel, secret_salt: Seq<u8>)
    requires
        token_encodable(t),
        salted_digest(secret_salt, access_token_bytes(t)).len() == DIGEST_LENGTH,
        b64_decoded(encoded_token(t, secret_salt)) == Some(envelope_bytes(envelope_for(t, secret_salt))),
    ensures
        decoded_token(encoded_token(t, secret_salt), secret_salt) == Ok::<AccessTokenModel, ParseAccessTokenError>(t),
{
    lemma_encodable_fits(t, secret_salt);
    let e = envelope_for(t, secret_salt);
    lemma_envelope_from_bytes(envelope_bytes(e));
    lemma_parse_envelope(e);
    lemma_access_token_from_bytes(access_token_bytes(t));
    lemma_parse_access_token(t);
}

impl UserInfo {
    fn write_to(&self, out: &mut Vec<u8>)
        ensures
            final(out)@ == old(out)@ + user_info_bytes(self@),
    {
        let id = u128_to_le_bytes(self.user_id);
        write_bytes(out, id.as_slice());
        write_optional_text(out, &self.first_name);
        write_optional_text(out, &self.last_name);
        assert(out@ =~= old(out)@ + user_info_bytes(self@));
    }
}

impl AccessToken {
    /// The bytes of this payload.
    pub fn to_bytes(&self) -> (r: Vec<u8>)
        ensures
            r@ == access_token_bytes(self@),
    {
        let mut out: Vec<u8> = Vec::new();
        self.user.write_to(&mut out);
        write_timestamp(&mut out, self.expires_at);
        write_timestamp(&mut out, self.refresh_at);
        assert(out@ =~= access_token_bytes(self@));
        out
    }

    /// Reads a payload that takes all of `data`.
    fn parse_bytes(data: &[u8]) -> (r: Option<AccessToken>)
        ensures
            match r {
                Some(t) => parse_access_token(data@) == Some(t@),
                None => parse_access_token(data@) is None,
            },
    {
        assert(rest_of(data@, 0) =~= data@);
        let (user_id, p1) = match read_u128(data, 0) {
            Some(x) => x,
            None => {
                return None;
            },
        };
        let (first_name, p2) = match read_optional_text(data, p1) {
            Some(x) => x,
            None => {
                return None;
            },
        };
        let (last_name, p3) = match read_optional_text(data, p2) {
            Some(x) => x,
            None => {
                return None;
            },
        };
        let (expires_at, p4) = match read_timestamp(data, p3) {
            Some(x) => x,
            None => {
                return None;
            },
        };
        let (refresh_at, p5) = match read_timestamp(data, p4) {
            Some(x) => x,
            None => {
                return None;
            },
        };
        if p5 != data.len() {
            return None;
        }
        let user = UserInfo { first_name, last_name, user_id };
        Some(AccessToken { user, expires_at, refresh_at })
    }

    /// Decodes a token text under the configured secret salt, refusing one
    /// that is malformed or whose digest does not match its payload.
    pub fn from_token(token: &str, config: &TokenConfig) -> (r: Result<AccessToken, ParseAccessTokenError>)
        ensures
            match r {
                Ok(t) => decoded_token(token@, config@.secret_salt) == Ok::<
                    AccessTokenModel,
                    ParseAccessTokenError,
                >(t@),
                Err(e) => decoded_token(token@, config@.secret_salt) == Err::<
                    AccessTokenModel,
                    ParseAccessTokenError,
                >(e),
            },
    {
        let bytes = match decode_base64(token) {
            Some(b) => b,
            None => {
                return Err(ParseAccessTokenError::Base64DecodeError);
            },
        };
        proof {
            lemma_envelope_from_bytes(bytes@);
        }
        let envelope = match DigestAccessToken::parse_bytes(bytes.as_slice()) {
            Some(e) => e,
            None => {
                return Err(ParseAccessTokenError::MalformedEnvelope);
            },
        };
        let expected = salted_digest_of(config.secret_salt(), envelope.token.as_slice());
        if !constant_time_eq(envelope.digest.as_slice(), expected.as_slice()) {
            return Err(ParseAccessTokenError::InvalidDigest);
        }
        proof {
            lemma_access_token_from_bytes(envelope.token@);
        }
        match AccessToken::parse_bytes(envelope.token.as_slice()) {
            Some(t) => Ok(t),
            None => Err(ParseAccessTokenError::MalformedToken),
        }
    }

    /// Who this token was issued to.
    pub fn get_user(&self) -> (r: &UserInfo)
        ensures
            r@ == self@.user,
    {
        &self.user
    }

    /// The instant until which this token is accepted as it is.
    pub fn get_expires_at(&self) -> (r: i128)
        ensures
            r == self@.expires_at,
    {
        self.expires_at
    }

    /// The instant until which this token can be refreshed.
    pub fn get_refresh_at(&self) -> (r: i128)
        ensures
            r == self@.refresh_at,
    {
        self.refresh_at
    }
}

impl DigestAccessToken {
    /// An envelope from its parts.
    pub fn from_parts(digest: Vec<u8>, token: Vec<u8>, expires_at: i128, refresh_at: i128) -> (r: DigestAccessToken)
        ensures
            r@ == (DigestAccessTokenModel { digest: digest@, token: token@, expires_at, refresh_at }),
    {
        DigestAccessToken { digest, token, expires_at, refresh_at }
    }

    /// The envelope of a payload, digested under the configured secret salt.
    pub fn from_access_token(t: &AccessToken, config: &TokenConfig) -> (r: DigestAccessToken)
        ensures
            r@ == envelope_for(t@, config@.secret_salt),
            r@.digest.len() == DIGEST_LENGTH,
    {
        let token = t.to_bytes();
        let digest = salted_digest_of(config.secret_salt(), token.as_slice());
        DigestAccessToken { digest, token, expires_at: t.expires_at, refresh_at: t.refresh_at }
    }

    /// The bytes of this envelope.
    pub fn to_bytes(&self) -> (r: Vec<u8>)
        ensures
            r@ == envelope_bytes(self@),
    {
        let mut out: Vec<u8> = Vec::new();
        write_length_prefixed(&mut out, self.digest.as_slice());
        write_length_prefixed(&mut out, self.token.as_slice());
        write_timestamp(&mut out, self.expires_at);
        write_timestamp(&mut out, self.refresh_at);
        assert(out@ =~= envelope_bytes(self@));
        out
    }

    /// Reads an envelope that takes all of `data`.
    fn parse_bytes(data: &[u8]) -> (r: Option<DigestAccessToken>)
        ensures
            match r {
                Some(e) => parse_envelope(data@) == Some(e@),
                None => parse_envelope(data@) is None,
            },
    {
        assert(rest_of(data@, 0) =~= data@);
        let (digest, p1) = match read_length_prefixed(data, 0) {
            Some(x) => x,
            None => {
                return None;
            },
        };
        let (token, p2) = match read_length_prefixed(data, p1) {
            Some(x) => x,
            None => {
                return None;
            },
        };
        let (expires_at, p3) = match read_timestamp(data, p2) {
            Some(x) => x,
            None => {
                return None;
            },
        };
        let (refresh_at, p4) = match read_timestamp(data, p3) {
            Some(x) => x,
            None => {
                return None;
            },
        };
        if p4 != data.len() {
            return None;
        }
        Some(DigestAccessToken { digest, token, expires_at, refresh_at })
    }
}

impl AccessTokenResponse {
    /// The response that carries an envelope as base64 text; refused when the
    /// envelope is longer than `MAX_ENVELOPE_BYTES`.
    pub fn from_digest_token(d: &DigestAccessToken) -> (r: Result<AccessTokenResponse, CreateAccessTokenError>)
        ensures
            r is Ok <==> envelope_bytes(d@).len() <= MAX_ENVELOPE_BYTES,
            match r {
                Ok(resp) => {
                    &&& resp.token@ == b64_of(envelope_bytes(d@))
                    &&& resp.expires_at == d@.expires_at
                    &&& resp.refresh_at == d@.refresh_at
                    &&& b64_decoded(resp.token@) == Some(envelope_bytes(d@))
                },
                Err(e) => e == CreateAccessTokenError::TokenTooLarge,
            },
    {
        let bytes = d.to_bytes();
        if bytes.len() > MAX_ENVELOPE_BYTES {
            return Err(CreateAccessTokenError::TokenTooLarge);
        }
        let token = base64_encode(bytes.as_slice());
        assert(b64_of(bytes@) == token@);
        Ok(AccessTokenResponse { token, expires_at: d.expires_at, refresh_at: d.refresh_at })
    }

    /// Encodes a payload under the configured secret salt; refused when the
    /// payload is longer than `MAX_PAYLOAD_BYTES`. The text that comes back
    /// decodes to the same payload.
    pub fn from_access_token(t: &AccessToken, config: &TokenConfig) -> (r: Result<AccessTokenResponse, CreateAccessTokenError>)
        ensures
            r is Ok <==> token_encodable(t@),
            match r {
                Ok(resp) => {
                    &&& resp@ == response_for(t@, config@.secret_salt)
                    &&& decoded_token(resp.token@, config@.secret_salt) == Ok::<
                        AccessTokenModel,
                        ParseAccessTokenError,
                    >(t@)
                },
                Err(e) => e == CreateAccessTokenError::TokenTooLarge,
            },
    {
        let d = DigestAccessToken::from_access_token(t, config);
        if d.token.len() > MAX_PAYLOAD_BYTES {
            return Err(CreateAccessTokenError::TokenTooLarge);
        }
        proof {
            lemma_encodable_fits(t@, config@.secret_salt);
        }
        let r = AccessTokenResponse::from_digest_token(&d);
        proof {
            lemma_decode_encoded(t@, config@.secret_salt);
        }
        r
    }
}

/* Issuing. */

/// The payload issued to `user` at `now` for `duration`: accepted as it is
/// until `now + duration`, refreshable until `now + 2 * duration`.
pub open spec fn issued_token(user: UserInfoModel, duration: int, now: int) -> AccessTokenModel {
    AccessTokenModel {
        user,
        expires_at: (now + duration) as i128,
        refresh_at: (now + 2 * duration) as i128,
    }
}

/// Whether both expiry instants of a token issued at `now` for a positive
/// `duration` are timestamps.
pub open spec fn issuable(duration: int, now: int) -> bool {
    now + 2 * duration <= i128::MAX
}

/// What issuing a token to `user` at `now` under a configuration gives.
pub open spec fn issue_outcome(user: UserInfoModel, now: int, config: TokenConfigModel) -> Result<
    AccessTokenModel,
    CreateAccessTokenError,
> {
    if !issuable(config.token_duration, now) {
        Err(CreateAccessTokenError::TimestampOutOfRange)
    } else if !token_encodable(issued_token(user, config.token_duration, now)) {
        Err(CreateAccessTokenError::TokenTooLarge)
    } else {
        Ok(issued_token(user, config.token_duration, now))
    }
}

/// Whether `r` is what issuing a token to `user` at `now` gives, the token
/// text then decoding to the issued payload.
pub open spec fn is_issue_result(
    r: Result<AccessTokenResponse, CreateAccessTokenError>,
    user: UserInfoModel,
    now: int,
    config: TokenConfigModel,
) -> bool {
    match r {
        Ok(resp) => match issue_outcome(user, now, config) {
            Ok(t) => {
                &&& resp@ == response_for(t, config.secret_salt)
                &&& decoded_token(resp.token@, config.secret_salt) == Ok::<
                    AccessTokenModel,
                    ParseAccessTokenError,
                >(t)
            },
            Err(_) => false,
        },
        Err(e) => issue_outcome(user, now, config) == Err::<AccessTokenModel, CreateAccessTokenError>(e),
    }
}

/// Whether an instant lies in the range of the clock: within 10^23
/// nanoseconds of the Unix epoch.
pub open spec fn clock_range(t: int) -> bool {
    -100_000_000_000_000_000_000_000 < t < 100_000_000_000_000_000_000_000
}

/// The current instant, in nanoseconds since the Unix epoch.
pub fn current_time() -> (r: i128)
    ensures
        clock_range(r as int),
{
    now_unix_nanos()
}

impl AccessToken {
    /// The payload issued to `user` at `now` for a positive `duration`.
    pub fn new_with_user_and_duration(user: UserInfo, duration: i128, now: i128) -> (r: Result<
        AccessToken,
        CreateAccessTokenError,
    >)
        requires
            duration > 0,
        ensures
            r is Ok <==> issuable(duration as int, now as int),
            match r {
                Ok(t) => t@ == issued_token(user@, duration as int, now as int),
                Err(e) => e == CreateAccessTokenError::TimestampOutOfRange,
            },
    {
        if now > i128::MAX - duration || now + duration > i128::MAX - duration {
            return Err(CreateAccessTokenError::TimestampOutOfRange);
        }
        let expires_at = now + duration;
        let refresh_at = expires_at + duration;
        Ok(AccessToken { user, expires_at, refresh_at })
    }

    /// The payload issued to `user` now, for the configured duration. Every
    /// instant of the clock leaves room for both expiries.
    pub fn new_with_user(user: UserInfo, config: &TokenConfig) -> (r: Result<AccessToken, CreateAccessTokenError>)
        ensures
            r matches Ok(t) && exists|now: i128|
                clock_range(now as int) && t@ == issued_token(user@, config@.token_duration, now as int),
    {
        let now = current_time();
        proof {
            use_type_invariant(config);
        }
        AccessToken::new_with_user_and_duration(user, config.token_duration(), now)
    }
}

impl AccessTokenResponse {
    /// Issues a token to `user` at `now` and encodes it.
    pub fn new_at(user: UserInfo, now: i128, config: &TokenConfig) -> (r: Result<AccessTokenResponse, CreateAccessTokenError>)
        ensures
            is_issue_result(r, user@, now as int, config@),
    {
        let t = AccessToken::new_with_user_and_duration(user, config.token_duration(), now)?;
        AccessTokenResponse::from_access_token(&t, config)
    }

    /// Issues a token to `user` now and encodes it.
    pub fn new(user: UserInfo, config: &TokenConfig) -> (r: Result<AccessTokenResponse, CreateAccessTokenError>)
        ensures
            exists|now: i128| clock_range(now as int) && is_issue_result(r, user@, now as int, config@),
            r is Ok <==> user_info_bytes(user@).len() + 32 <= MAX_PAYLOAD_BYTES,
    {
        let now = current_time();
        proof {
            use_type_invariant(config);
            lemma_byte_lengths(issued_token(user@, config@.token_duration, now as int), envelope_for(issued_token(user@, config@.token_duration, now as int), config@.secret_salt));
        }
        AccessTokenResponse::new_at(user, now, config)
    }
}

/* Tamper detection. */

/// Tamper detection on the digest. In the bytes of an envelope whose digest
/// is that of its payload under the secret salt, replacing any byte of the
/// digest by another value gives bytes that are refused for their digest,
/// and so is every token text that is their base64.
pub proof fn lemma_digest_tampering_detected(
    e: DigestAccessTokenModel,
    secret_salt: Seq<u8>,
    k: int,
    v: u8,
    text: Seq<char>,
)
    requires
        envelope_fits(e),
        e.digest == salted_digest(secret_salt, e.token),
        0 <= k < e.digest.len(),
        v != e.digest[k],
    ensures
        decoded_envelope(envelope_bytes(e).update(8 + k, v), secret_salt) == Err::<
            AccessTokenModel,
            ParseAccessTokenError,
        >(ParseAccessTokenError::InvalidDigest),
        b64_decoded(text) == Some(envelope_bytes(e).update(8 + k, v)) ==> decoded_token(text, secret_salt)
            == Err::<AccessTokenModel, ParseAccessTokenError>(ParseAccessTokenError::InvalidDigest),
{
    lemma_auto_spec_u64_to_from_le_bytes();
    let f = DigestAccessTokenModel { digest: e.digest.update(k, v), ..e };
    assert(envelope_bytes(e).update(8 + k, v) =~= envelope_bytes(f));
    lemma_envelope_from_bytes(envelope_bytes(f));
    lemma_parse_envelope(f);
    assert(f.digest[k] != e.digest[k]);
}

/// Tamper detection on the payload. In the bytes of an envelope whose digest
/// is that of its payload under the secret salt, replacing any byte of the
/// payload by another value gives bytes that are refused for their digest,
/// unless the changed payload has the same digest as the original one under
/// the salt; and so is every token text that is their base64.
pub proof fn lemma_payload_tampering_detected(
    e: DigestAccessTokenModel,
    secret_salt: Seq<u8>,
    k: int,
    v: u8,
    text: Seq<char>,
)
    requires
        envelope_fits(e),
        e.digest == salted_digest(secret_salt, e.token),
        0 <= k < e.token.len(),
        v != e.token[k],
        salted_digest(secret_salt, e.token.update(k, v)) != e.digest,
    ensures
        decoded_envelope(envelope_bytes(e).update(16 + e.digest.len() + k, v), secret_salt) == Err::<
            AccessTokenModel,
            ParseAccessTokenError,
        >(ParseAccessTokenError::InvalidDigest),
        b64_decoded(text) == Some(envelope_bytes(e).update(16 + e.digest.len() + k, v)) ==> decoded_token(
            text,
            secret_salt,
        ) == Err::<AccessTokenModel, ParseAccessTokenError>(ParseAccessTokenError::InvalidDigest),
{
    lemma_auto_spec_u64_to_from_le_bytes();
    let f = DigestAccessTokenModel { token: e.token.update(k, v), ..e };
    assert(envelope_bytes(e).update(16 + e.digest.len() + k, v) =~= envelope_bytes(f));
    lemma_envelope_from_bytes(envelope_bytes(f));
    lemma_parse_envelope(f);
}

} // verus!
