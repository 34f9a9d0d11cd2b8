//! The calls that leave this library: password hashing, token signing,
//! fresh identifiers, the email pattern and the clock. Each function here
//! states what the library relies on; none of it is proved.

use vstd::prelude::*;

verus! {

/// The error type of the `bcrypt` crate.
#[verifier::external_type_specification]
#[verifier::external_body]
pub struct ExBcryptError(bcrypt::BcryptError);

/// The error type of the `jsonwebtoken` crate.
#[verifier::external_type_specification]
#[verifier::external_body]
pub struct ExTokenError(jsonwebtoken::errors::Error);

/// What `bcrypt::verify` returns for a password and a stored hash: `None`
/// where it rejects the hash as malformed, else whether the password matches.
pub uninterp spec fn bcrypt_verdict(password: Seq<char>, hash: Seq<char>) -> Option<bool>;

/// What `jsonwebtoken::encode` returns for an HS256 header, the claims `sub`
/// and `exp` in this order, and an HMAC key made of the secret's bytes:
/// `None` where it fails.
pub uninterp spec fn hs256_token(subject: Seq<char>, expiry: usize, secret: Seq<char>) -> Option<
    Seq<char>,
>;

/// The place among the 32 hex digits of a UUID that stands at place `i` of
/// its hyphenated text, for a place that holds no hyphen.
pub open spec fn digit_place(i: int) -> int {
    if i < 8 {
        i
    } else if i < 13 {
        i - 1
    } else if i < 18 {
        i - 2
    } else if i < 23 {
        i - 3
    } else {
        i - 4
    }
}

/// The code point at place `i` of the hyphenated text of a UUID: a hyphen
/// at the places 8, 13, 18 and 23, and elsewhere the lower-case hex digit
/// of the four bits that the place stands for, the top bits first.
pub open spec fn hyphenated_code(id: u128, i: int) -> u32 {
    if i == 8 || i == 13 || i == 18 || i == 23 {
        0x2D
    } else {
        let shift = (4 * (31 - digit_place(i))) as u128;
        let digit = ((id >> shift) & 0xF) as u32;
        if digit < 10 {
            (0x30 + digit) as u32
        } else {
            (0x61 + digit - 10) as u32
        }
    }
}

/// What `Uuid::from_u128(id).to_string()` returns: the hyphenated form of the
/// UUID with this 128-bit value, 36 characters in the groups 8-4-4-4-12.
pub open spec fn uuid_hyphenated(id: u128) -> Seq<char> {
    Seq::new(36, |i: int| hyphenated_code(id, i) as char)
}

/// What compiling `pattern` with `regex::Regex::new` and asking `is_match`
/// for `text` returns: `None` where the pattern does not compile.
pub uninterp spec fn regex_verdict(pattern: Seq<char>, text: Seq<char>) -> Option<bool>;

/// `bcrypt::hash` at `bcrypt::DEFAULT_COST`. The salt is random, so of the
/// hash itself only this is claimed: `bcrypt::verify` accepts the password
/// against it. It fails where the system has no random bytes to give.
#[verifier::external_body]
pub(crate) fn bcrypt_hash(password: &str) -> (r: Result<String, bcrypt::BcryptError>)
    ensures
        r matches Ok(h) ==> bcrypt_verdict(password@, h@) == Some(true),
{
    bcrypt::hash(password, bcrypt::DEFAULT_COST)
}

/// `bcrypt::verify`: its result is a function of the password and the hash.
#[verifier::external_body]
pub(crate) fn bcrypt_verify(password: &str, hash: &str) -> (r: Result<bool, bcrypt::BcryptError>)
    ensures
        match r {
            Ok(matches) => bcrypt_verdict(password@, hash@) == Some(matches),
            Err(_) => bcrypt_verdict(password@, hash@) is None,
        },
{
    bcrypt::verify(password, hash)
}

/// The `Display` text of a `bcrypt` error. Nothing is claimed of it.
#[verifier::external_body]
pub(crate) fn bcrypt_error_text(e: &bcrypt::BcryptError) -> (r: String) {
    e.to_string()
}

/// `jsonwebtoken::encode` with an HS256 header, a claims object that holds
/// `sub` and then `exp`, and `EncodingKey::from_secret` on the secret's
/// bytes. Its result is a function of the three arguments.
#[verifier::external_body]
pub(crate) fn sign_hs256(subject: &str, expiry: usize, secret: &str) -> (r: Result<
    String,
    jsonwebtoken::errors::Error,
>)
    ensures
        match r {
            Ok(token) => hs256_token(subject@, expiry, secret@) == Some(token@),
            Err(_) => hs256_token(subject@, expiry, secret@) is None,
        },
{
    let mut claims = serde_json::Map::new();
    claims.insert("sub".to_string(), serde_json::Value::from(subject));
    claims.insert("exp".to_string(), serde_json::Value::from(expiry));
    jsonwebtoken::encode(
        &jsonwebtoken::Header::new(jsonwebtoken::Algorithm::HS256),
        &claims,
        &jsonwebtoken::EncodingKey::from_secret(secret.as_bytes()),
    )
}

/// `jsonwebtoken::decode` with `DecodingKey::from_secret` on the secret's
/// bytes and `Validation::new` for HS256, which checks the signature and
/// holds the expiry against the system clock. From the claims of a token
/// that passed it hands out `sub` where it is a string and `exp` where it
/// is an unsigned number. Nothing is claimed of the result.
#[verifier::external_body]
pub(crate) fn decode_hs256(token: &str, secret: &str) -> (r: Result<
    (Option<String>, Option<u64>),
    jsonwebtoken::errors::Error,
>) {
    let decoded = jsonwebtoken::decode::<serde_json::Map<String, serde_json::Value>>(
        token,
        &jsonwebtoken::DecodingKey::from_secret(secret.as_bytes()),
        &jsonwebtoken::Validation::new(jsonwebtoken::Algorithm::HS256),
    )?;
    let sub = decoded.claims.get("sub").and_then(|v| v.as_str()).map(|s| s.to_string());
    let exp = decoded.claims.get("exp").and_then(|v| v.as_u64());
    Ok((sub, exp))
}

/// The `Display` text of a `jsonwebtoken` error. Nothing is claimed of it.
#[verifier::external_body]
pub(crate) fn token_error_text(e: &jsonwebtoken::errors::Error) -> (r: String) {
    e.to_string()
}

/// The 128-bit value carries the marks of a random UUID: version 4 and the
/// RFC variant.
pub open spec fn is_v4_uuid(id: u128) -> bool {
    id & 0xF000_C000_0000_0000_0000u128 == 0x4000_8000_0000_0000_0000u128
}

/// `uuid::Uuid::new_v4` as its 128-bit value. The value is random; what is
/// claimed is that it carries version 4 and the RFC variant. Where the
/// system has no random bytes to give, the call does not return: it panics.
#[verifier::external_body]
pub(crate) fn fresh_uuid() -> (r: u128)
    ensures
        is_v4_uuid(r),
{
    uuid::Uuid::new_v4().as_u128()
}

/// The hyphenated text of the UUID with the 128-bit value `id`, as
/// `Uuid::to_string` gives it.
#[verifier::external_body]
pub(crate) fn uuid_text(id: u128) -> (r: String)
    ensures
        r@ == uuid_hyphenated(id),
{
    uuid::Uuid::from_u128(id).to_string()
}

/// `regex::Regex::new` on the pattern, then `Regex::is_match` on the text.
#[verifier::external_body]
pub(crate) fn regex_is_match(pattern: &str, text: &str) -> (r: Option<bool>)
    ensures
        r == regex_verdict(pattern@, text@),
{
    match regex::Regex::new(pattern) {
        Ok(compiled) => Some(compiled.is_match(text)),
        Err(_) => None,
    }
}

/// `std::time::SystemTime`, a reading of the system clock.
#[verifier::external_type_specification]
#[verifier::external_body]
pub struct ExSystemTime(std::time::SystemTime);

/// `SystemTime::now` of std. Nothing is claimed of the reading.
#[verifier::external_body]
pub(crate) fn system_now() -> (r: std::time::SystemTime) {
    std::time::SystemTime::now()
}

/// `SystemTime::duration_since` of std against `UNIX_EPOCH`: the time since
/// the epoch, and `None` where the reading lies before it.
#[verifier::external_body]
pub(crate) fn since_unix_epoch(reading: &std::time::SystemTime) -> (r: Option<
    core::time::Duration,
>) {
    match reading.duration_since(std::time::UNIX_EPOCH) {
        Ok(elapsed) => Some(elapsed),
        Err(_) => None,
    }
}

/// `Duration::as_secs` of std: the whole seconds of a duration.
#[verifier::external_body]
pub(crate) fn whole_seconds(elapsed: &core::time::Duration) -> (r: u64) {
    elapsed.as_secs()
}

} // verus!
