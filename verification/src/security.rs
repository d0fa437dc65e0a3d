//! Message authentication codes and the claims that node tokens carry.
//!
//! A message is sealed by its HMAC-SHA256 under a shared key, written in
//! base64. Signing and parsing of tokens is left to the caller; what a
//! token says is decided here.

use crate::clock::unix_seconds_now;
use vstd::prelude::*;
use vstd::string::StringSliceAdditionalSpecFns;
use vstd::utf8::{decode_utf8, valid_utf8};

verus! {

/// Why a message could not be sealed or opened.
#[derive(Debug, Clone, Copy, PartialEq, Eq, Structural)]
pub enum SecurityError {
    /// The key was refused.
    InvalidKey,
    /// The text is no base64.
    InvalidEncoding,
    /// The bytes are no UTF-8 text.
    InvalidText,
}

/// The error of `Mac::new_from_slice`. It is carried through; nothing
/// inside it is read.
#[verifier::external_type_specification]
#[verifier::external_body]
pub struct ExInvalidLength(hmac::digest::crypto_common::InvalidLength);

/// The error of `base64::Engine::decode`. It is carried through; nothing
/// inside it is read.
#[verifier::external_type_specification]
#[verifier::external_body]
pub struct ExDecodeError(base64::DecodeError);

/// The error of `String::from_utf8`. It is carried through; nothing
/// inside it is read.
#[verifier::external_type_specification]
#[verifier::external_body]
pub struct ExFromUtf8Error(std::string::FromUtf8Error);

/// The HMAC-SHA256 of `message` under `key`: what the `hmac` crate
/// computes with `sha2::Sha256`.
pub uninterp spec fn hmac_sha256(key: Seq<u8>, message: Seq<u8>) -> Seq<u8>;

/// The base64 text of `bytes`, in the standard alphabet with padding:
/// what `base64::engine::general_purpose::STANDARD` encodes them to.
pub uninterp spec fn base64_text(bytes: Seq<u8>) -> Seq<char>;

/// The bytes that the base64 text `text` stands for, if it is base64 in
/// the standard alphabet with padding: what
/// `base64::engine::general_purpose::STANDARD` decodes it to.
pub uninterp spec fn base64_bytes(text: Seq<char>) -> Option<Seq<u8>>;

/// The largest number of bytes that are handed to the base64 encoder.
pub const MAX_ENCODED_BYTES: usize = 0x3fff_ffff;

/// Computes the HMAC-SHA256 of `message` under `key`.
///
/// Calls `Mac::new_from_slice`, `Mac::update` and `Mac::finalize` of
/// `hmac::Hmac<sha2::Sha256>`. The contract claims that the key is never
/// refused, as the source of `new_from_slice` shows for every length;
/// that the tag has the 32 bytes of a SHA-256 output; and that it depends
/// on key and message alone, by the name given to it.
#[verifier::external_body]
fn compute_hmac(key: &[u8], message: &[u8]) -> (r: Result<
    Vec<u8>,
    hmac::digest::crypto_common::InvalidLength,
>)
    ensures
        r is Ok,
        r matches Ok(tag) ==> tag@ == hmac_sha256(key@, message@) && tag@.len() == 32,
{
    match <hmac::Hmac<sha2::Sha256> as hmac::Mac>::new_from_slice(key) {
        Ok(mut mac) => {
            hmac::Mac::update(&mut mac, message);
            Ok(hmac::Mac::finalize(mac).into_bytes().to_vec())
        },
        Err(e) => Err(e),
    }
}

/// Writes `bytes` in base64.
///
/// Calls `base64::Engine::encode` on the `STANDARD` engine. The encoder
/// panics where the length of its output does not fit; the bound on the
/// input keeps far from that. The result depends on the bytes alone; the
/// contract names it.
#[verifier::external_body]
fn encode_base64(bytes: &[u8]) -> (text: String)
    requires
        bytes@.len() <= MAX_ENCODED_BYTES,
    ensures
        text@ == base64_text(bytes@),
{
    base64::Engine::encode(&base64::engine::general_purpose::STANDARD, bytes)
}

/// Reads `text` as base64.
///
/// Calls `base64::Engine::decode` on the `STANDARD` engine. The result
/// depends on the text alone; the contract names it.
#[verifier::external_body]
fn decode_base64(text: &str) -> (r: Result<Vec<u8>, base64::DecodeError>)
    ensures
        r is Ok <==> base64_bytes(text@) is Some,
        r matches Ok(bytes) ==> base64_bytes(text@) == Some(bytes@),
{
    base64::Engine::decode(&base64::engine::general_purpose::STANDARD, text)
}

/// Reads `bytes` as UTF-8 text.
///
/// Calls `String::from_utf8`, which succeeds exactly on valid UTF-8 and
/// then holds the text that the bytes encode.
#[verifier::external_body]
fn text_from_utf8(bytes: Vec<u8>) -> (r: Result<String, std::string::FromUtf8Error>)
    ensures
        r is Ok <==> valid_utf8(bytes@),
        r matches Ok(text) ==> text@ == decode_utf8(bytes@),
{
    String::from_utf8(bytes)
}

/// The seal of `message` under `key`: the base64 text of its HMAC-SHA256.
pub open spec fn seal_of(message: Seq<u8>, key: Seq<u8>) -> Seq<char> {
    base64_text(hmac_sha256(key, message))
}

/// What opening `encoded` under `key` gives: the HMAC-SHA256 of the bytes
/// that `encoded` stands for, read as text.
pub open spec fn opened(encoded: Seq<char>, key: Seq<u8>) -> Result<Seq<char>, SecurityError> {
    match base64_bytes(encoded) {
        None => Err(SecurityError::InvalidEncoding),
        Some(bytes) => if valid_utf8(hmac_sha256(key, bytes)) {
            Ok(decode_utf8(hmac_sha256(key, bytes)))
        } else {
            Err(SecurityError::InvalidText)
        },
    }
}

/// The verdict on a tag that was computed: the tag, or the refusal of the key.
pub fn tag_verdict(computed: Result<Vec<u8>, hmac::digest::crypto_common::InvalidLength>) -> (r:
    Result<Vec<u8>, SecurityError>)
    ensures
        r == match computed {
            Ok(tag) => Ok::<Vec<u8>, SecurityError>(tag),
            Err(_) => Err::<Vec<u8>, SecurityError>(SecurityError::InvalidKey),
        },
{
    match computed {
        Ok(tag) => Ok(tag),
        Err(_) => Err(SecurityError::InvalidKey),
    }
}

/// The verdict on a text that was read as base64.
pub fn decoding_verdict(decoded: Result<Vec<u8>, base64::DecodeError>) -> (r: Result<
    Vec<u8>,
    SecurityError,
>)
    ensures
        r == match decoded {
            Ok(bytes) => Ok::<Vec<u8>, SecurityError>(bytes),
            Err(_) => Err::<Vec<u8>, SecurityError>(SecurityError::InvalidEncoding),
        },
{
    match decoded {
        Ok(bytes) => Ok(bytes),
        Err(_) => Err(SecurityError::InvalidEncoding),
    }
}

/// The verdict on bytes that were read as text.
pub fn text_verdict(read: Result<String, std::string::FromUtf8Error>) -> (r: Result<
    String,
    SecurityError,
>)
    ensures
        r == match read {
            Ok(text) => Ok::<String, SecurityError>(text),
            Err(_) => Err::<String, SecurityError>(SecurityError::InvalidText),
        },
{
    match read {
        Ok(text) => Ok(text),
        Err(_) => Err(SecurityError::InvalidText),
    }
}

/// Seals `message` under `key`: returns the base64 text of the message's
/// HMAC-SHA256. Every key and every message is sealed.
pub fn encrypt_message(message: &str, key: &str) -> (r: Result<String, SecurityError>)
    ensures
        r is Ok,
        r matches Ok(sealed) ==> sealed@ == seal_of(message.spec_bytes(), key.spec_bytes()),
{
    match tag_verdict(compute_hmac(key.as_bytes(), message.as_bytes())) {
        Ok(tag) => Ok(encode_base64(tag.as_slice())),
        Err(e) => Err(e),
    }
}

/// Opens `encoded_message` under `key`: reads it as base64, takes the
/// HMAC-SHA256 of the bytes, and returns that as text. A seal is one way:
/// what comes out is not the message that was sealed.
pub fn decrypt_message(encoded_message: &str, key: &str) -> (r: Result<String, SecurityError>)
    ensures
        match opened(encoded_message@, key.spec_bytes()) {
            Ok(text) => r matches Ok(s) && s@ == text,
            Err(e) => r == Err::<String, SecurityError>(e),
        },
{
    match decoding_verdict(decode_base64(encoded_message)) {
        Ok(bytes) => match tag_verdict(compute_hmac(key.as_bytes(), bytes.as_slice())) {
            Ok(tag) => text_verdict(text_from_utf8(tag)),
            Err(e) => Err(e),
        },
        Err(e) => Err(e),
    }
}

/// What a node token claims.
#[derive(Debug, PartialEq, Eq)]
pub struct Claims {
    /// The subject: the id of the node.
    pub sub: String,
    /// The role of the node.
    pub role: String,
    /// When the token expires, in seconds since the Unix epoch.
    pub exp: usize,
}

impl Clone for Claims {
    fn clone(&self) -> (r: Self)
        ensures
            r == *self,
    {
        Claims { sub: self.sub.clone(), role: self.role.clone(), exp: self.exp }
    }
}

/// The second at which a token issued at `now` for `expiration_minutes`
/// minutes expires, if that is a time at or after the epoch that fits.
pub open spec fn expiry_of(now: i64, expiration_minutes: i64) -> Option<usize> {
    if 0 <= now + expiration_minutes * 60 <= usize::MAX {
        Some((now + expiration_minutes * 60) as usize)
    } else {
        None
    }
}

/// The second at which a token issued at second `now` for
/// `expiration_minutes` minutes expires. There is none where the time
/// lies before the epoch or does not fit.
pub fn token_expiry(now: i64, expiration_minutes: i64) -> (r: Option<usize>)
    ensures
        r == expiry_of(now, expiration_minutes),
{
    let expiry: i128 = now as i128 + (expiration_minutes as i128) * 60;
    if 0 <= expiry && expiry <= usize::MAX as i128 {
        Some(expiry as usize)
    } else {
        None
    }
}

/// The claims of a token for node `node_id` with `role`, issued at second
/// `now` for `expiration_minutes` minutes. There are none where the
/// expiry lies before the epoch or does not fit.
pub fn generate_token_at(node_id: &str, role: &str, now: i64, expiration_minutes: i64) -> (r:
    Option<Claims>)
    ensures
        r is Some <==> expiry_of(now, expiration_minutes) is Some,
        r matches Some(c) ==> c.sub@ == node_id@ && c.role@ == role@ && Some(c.exp) == expiry_of(
            now,
            expiration_minutes,
        ),
{
    match token_expiry(now, expiration_minutes) {
        Some(exp) => Some(Claims { sub: node_id.to_owned(), role: role.to_owned(), exp }),
        None => None,
    }
}

/// The claims of a token for node `node_id` with `role`, issued now for
/// `expiration_minutes` minutes. The time is read from the clock, so the
/// contract leaves the expiry open but for how it is computed.
pub fn generate_token(node_id: &str, role: &str, expiration_minutes: i64) -> (r: Option<Claims>)
    ensures
        exists|now: i64|
            {
                &&& r is Some <==> (#[trigger] expiry_of(now, expiration_minutes)) is Some
                &&& r matches Some(c) ==> c.sub@ == node_id@ && c.role@ == role@ && Some(c.exp)
                    == expiry_of(now, expiration_minutes)
            },
{
    let now = unix_seconds_now();
    generate_token_at(node_id, role, now, expiration_minutes)
}

/// The claims of a renewed token: the same subject and role, expiring at
/// `new_expiration`.
pub fn renewed(claims: Claims, new_expiration: usize) -> (r: Claims)
    ensures
        r == (Claims { exp: new_expiration, ..claims }),
{
    Claims { sub: claims.sub, role: claims.role, exp: new_expiration }
}

} // verus!
