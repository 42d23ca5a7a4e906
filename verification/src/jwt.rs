//! Access tokens: signing claims into an HS256 token, and reading them back.

use vstd::prelude::*;
use std::time::SystemTime;
use crate::error::AppError;
use crate::json::{JsonModel, JsonValue, entries_model, sole_value, sole_entry, json_object_entries, parse_json_object_entries};
use crate::object_id::{ObjectId, hex_of};
use crate::text::{parse_unsigned, parse_unsigned_str, trim, trim_str};

verus! {

broadcast use vstd::string::group_string_axioms;

/// Claims carried by an access token.
#[derive(Debug)]
pub struct AccessClaims {
    /// The user's id, as 24 lowercase hexadecimal digits.
    pub sub: String,
    /// Expiry, in seconds since the Unix epoch.
    pub exp: usize,
    /// Issue time, in seconds since the Unix epoch.
    pub iat: usize,
}

#[verifier::external_type_specification]
#[verifier::external_body]
pub struct ExSystemTime(SystemTime);

#[verifier::external_type_specification]
#[verifier::external_body]
pub struct ExJwtError(jsonwebtoken::errors::Error);

/// Calls `SystemTime::now`. Nothing is claimed of the clock's reading.
#[verifier::external_body]
fn system_time_now() -> SystemTime {
    SystemTime::now()
}

/// Calls `SystemTime::duration_since(UNIX_EPOCH)` and hands back whole seconds, or the
/// error's message when the clock reads before the epoch. Nothing is claimed of the value.
#[verifier::external_body]
fn seconds_since_epoch(t: SystemTime) -> Result<u64, String> {
    t.duration_since(std::time::UNIX_EPOCH).map(|d| d.as_secs()).map_err(|e| e.to_string())
}

/// The token that `jsonwebtoken::encode` produces with the default header (HS256) for
/// the claims object `{"sub": sub, "exp": exp, "iat": iat}` and the HMAC secret.
pub uninterp spec fn jwt_hs256_token(sub: Seq<char>, exp: usize, iat: usize, secret: Seq<u8>) -> Seq<
    char,
>;

/// The signature check of `jsonwebtoken::decode` under `Validation::default()` passes for
/// `token` and the HMAC secret: the token has a header that names HS256, and its signature
/// is the HMAC-SHA256 of its first two parts under the secret.
pub uninterp spec fn hs256_verifies(token: Seq<char>, secret: Seq<u8>) -> bool;

/// The JSON text that `jsonwebtoken::decode` reads from the payload part of `token`: the
/// part between its last two dots, base64url-decoded.
pub uninterp spec fn jwt_payload_text(token: Seq<char>) -> Seq<char>;

/// A character that a token is written with: base64url digits and the dots between parts.
pub open spec fn is_token_char(c: char) -> bool {
    ('A' <= c && c <= 'Z') || ('a' <= c && c <= 'z') || ('0' <= c && c <= '9') || c == '-'
        || c == '_' || c == '.'
}

/// The claims that the members of a payload carry: `sub`, `exp` and `iat` each occur
/// exactly once, `sub` is a string and `exp` and `iat` are unsigned integers that fit a
/// `usize`; `None` otherwise. Other members are ignored.
pub open spec fn claims_of(es: Seq<(Seq<char>, JsonModel)>) -> Option<(Seq<char>, nat, nat)> {
    match (sole_value(es, "sub"@), sole_value(es, "exp"@), sole_value(es, "iat"@)) {
        (Some(JsonModel::Str(sub)), Some(JsonModel::Number(exp)), Some(JsonModel::Number(iat))) => {
            match (parse_unsigned(exp, usize::MAX as nat), parse_unsigned(iat, usize::MAX as nat)) {
                (Some(e), Some(i)) => Some((sub, e, i)),
                _ => None,
            }
        },
        _ => None,
    }
}

/// The claims that the payload of `token` carries, when it is a JSON object.
pub open spec fn token_claims(token: Seq<char>) -> Option<(Seq<char>, nat, nat)> {
    match json_object_entries(jwt_payload_text(token)) {
        Some(es) => claims_of(es),
        None => None,
    }
}

/// `token` is signed under `secret`, is written without white space, and its payload
/// carries exactly the claims `(sub, exp, iat)`.
pub open spec fn carries_claims(token: Seq<char>, secret: Seq<u8>, sub: Seq<char>, exp: nat, iat: nat) -> bool {
    &&& hs256_verifies(token, secret)
    &&& forall|i: int| 0 <= i < token.len() ==> is_token_char(#[trigger] token[i])
    &&& token_claims(token) == Some((sub, exp, iat))
}

/// Calls `jsonwebtoken::encode` with the default header (HS256), the claims as a
/// `serde_json` map `{sub, exp, iat}` and `EncodingKey::from_secret`. Claimed, as the source
/// shows: HS256 signing cannot fail; the token is the named function of the arguments; it is
/// base64url parts joined by dots; decoding re-signs with the same secret and gets the same
/// signature; and its payload parses back to the same claims.
#[verifier::external_body]
fn jwt_sign(sub: &str, exp: usize, iat: usize, secret: &[u8]) -> (r: Result<String, jsonwebtoken::errors::Error>)
    ensures
        r is Ok,
        r matches Ok(t) ==> t@ == jwt_hs256_token(sub@, exp, iat, secret@),
        r matches Ok(t) ==> carries_claims(t@, secret@, sub@, exp as nat, iat as nat),
{
    let mut claims = serde_json::Map::new();
    claims.insert("sub".to_string(), serde_json::Value::from(sub));
    claims.insert("exp".to_string(), serde_json::Value::from(exp));
    claims.insert("iat".to_string(), serde_json::Value::from(iat));
    let key = jsonwebtoken::EncodingKey::from_secret(secret);
    jsonwebtoken::encode(&jsonwebtoken::Header::default(), &claims, &key)
}

/// Calls `jsonwebtoken::decode::<Box<serde_json::value::RawValue>>` with
/// `DecodingKey::from_secret` and `Validation::default()` (HS256, expiry checked against
/// the clock) and hands back the payload's JSON text. Claimed: a result comes only from a
/// token whose signature checks, and it is the token's payload text. Whether a valid token
/// has expired depends on the clock and is not claimed.
#[verifier::external_body]
fn jwt_decode_hs256(token: &str, secret: &[u8]) -> (r: Option<String>)
    ensures
        r matches Some(p) ==> hs256_verifies(token@, secret@) && p@ == jwt_payload_text(token@),
{
    let key = jsonwebtoken::DecodingKey::from_secret(secret);
    let data = jsonwebtoken::decode::<Box<serde_json::value::RawValue>>(token, &key, &jsonwebtoken::Validation::default()).ok()?;
    Some(data.claims.get().to_string())
}

/// The claims of a token issued at `now` for `expiration_secs` (seconds, as `usize`).
pub open spec fn issued_exp(expiration_secs: u64, now: u64) -> usize {
    ((now as usize) + (expiration_secs as usize)) as usize
}

/// The expiry of a token issued at `now` fits in a `usize`.
pub open spec fn expiry_fits(expiration_secs: u64, now: u64) -> bool {
    (now as usize) + (expiration_secs as usize) <= usize::MAX
}

/// The token signed with `secret` for user `id`, issued at `now`.
pub open spec fn access_token_at(id: Seq<u8>, secret: Seq<u8>, expiration_secs: u64, now: u64) -> Seq<
    char,
> {
    jwt_hs256_token(hex_of(id), issued_exp(expiration_secs, now), now as usize, secret)
}

/// `t` is the token issued at `now` for user `id`, signed with `secret`, and it carries
/// the claims `sub = hex(id)`, `exp = now + expiration_secs`, `iat = now`.
pub open spec fn issued_token(t: Seq<char>, id: Seq<u8>, secret: Seq<u8>, expiration_secs: u64, now: u64) -> bool {
    &&& t == access_token_at(id, secret, expiration_secs, now)
    &&& carries_claims(
        t,
        secret,
        hex_of(id),
        issued_exp(expiration_secs, now) as nat,
        (now as usize) as nat,
    )
}

/// The error a request gets when its token does not verify (bad signature, expired, malformed).
pub fn invalid_token_error() -> (r: AppError)
    ensures
        r matches AppError::Unauthorized(m) && m@ == "invalid or expired token"@,
{
    AppError::Unauthorized(String::from_str("invalid or expired token"))
}

/// Signs a token for `user_id` issued at `now` (seconds since the epoch) that expires
/// `expiration_secs` later; refused when the expiry does not fit a `usize`.
pub fn encode_access_token_at(user_id: ObjectId, secret: &[u8], expiration_secs: u64, now: u64) -> (r:
    Result<String, AppError>)
    ensures
        match r {
            Ok(t) => expiry_fits(expiration_secs, now) && issued_token(
                t@,
                user_id.bytes@,
                secret@,
                expiration_secs,
                now,
            ),
            Err(e) => {
                &&& !expiry_fits(expiration_secs, now)
                &&& e matches AppError::Internal(m) && m@ == "token expiry overflows"@
            },
        },
{
    #[verifier::truncate]
    let iat = now as usize;
    #[verifier::truncate]
    let lifetime = expiration_secs as usize;
    let exp = match iat.checked_add(lifetime) {
        Some(e) => e,
        None => return Err(AppError::Internal(String::from_str("token expiry overflows"))),
    };
    let sub = user_id.to_hex();
    match jwt_sign(sub.as_str(), exp, iat, secret) {
        Ok(t) => Ok(t),
        Err(_) => Err(AppError::Internal(String::from_str("token signing failed"))),
    }
}

/// Signs a token for `user_id`, issued now, that expires `expiration_secs` later.
pub fn encode_access_token(user_id: ObjectId, secret: &[u8], expiration_secs: u64) -> (r: Result<
    String,
    AppError,
>)
    ensures
        match r {
            Ok(t) => exists|now: u64|
                expiry_fits(expiration_secs, now) && #[trigger] issued_token(
                    t@,
                    user_id.bytes@,
                    secret@,
                    expiration_secs,
                    now,
                ),
            Err(e) => e is Internal,
        },
{
    let now = match seconds_since_epoch(system_time_now()) {
        Ok(s) => s,
        Err(m) => return Err(AppError::Internal(m)),
    };
    encode_access_token_at(user_id, secret, expiration_secs, now)
}

fn unsigned_member(v: Option<&JsonValue>) -> (r: Option<usize>)
    ensures
        match v {
            Some(x) => match x.model() {
                JsonModel::Number(t) => match parse_unsigned(t, usize::MAX as nat) {
                    Some(n) => r == Some(n as usize),
                    None => r is None,
                },
                _ => r is None,
            },
            None => r is None,
        },
{
    match v {
        Some(JsonValue::Number(n)) => match parse_unsigned_str(n.as_str(), usize::MAX as u64) {
            Some(x) => Some(x as usize),
            None => None,
        },
        _ => None,
    }
}

/// The claims that the members of a token payload carry, or the error of a payload that
/// lacks them or repeats one of them.
pub fn claims_from_payload(members: &Vec<(String, JsonValue)>) -> (r: Result<AccessClaims, AppError>)
    ensures
        match claims_of(entries_model(members@)) {
            Some((sub, exp, iat)) => r matches Ok(c) && c.sub@ == sub && c.exp == exp && c.iat
                == iat,
            None => r matches Err(AppError::Unauthorized(m)) && m@ == "invalid or expired token"@,
        },
{
    let sub = match sole_entry(members, "sub") {
        Some(JsonValue::Str(s)) => s.clone(),
        _ => return Err(invalid_token_error()),
    };
    let exp = match unsigned_member(sole_entry(members, "exp")) {
        Some(v) => v,
        None => return Err(invalid_token_error()),
    };
    let iat = match unsigned_member(sole_entry(members, "iat")) {
        Some(v) => v,
        None => return Err(invalid_token_error()),
    };
    Ok(AccessClaims { sub, exp, iat })
}

/// The claims of a bearer token (trimmed first) whose signature checks under `secret` and
/// that has not expired; every other token gets `Unauthorized("invalid or expired token")`.
pub fn decode_access_token(token: &str, secret: &str) -> (r: Result<AccessClaims, AppError>)
    ensures
        match r {
            Ok(c) => {
                &&& hs256_verifies(trim(token@), vstd::utf8::encode_utf8(secret@))
                &&& token_claims(trim(token@)) == Some((c.sub@, c.exp as nat, c.iat as nat))
            },
            Err(e) => e matches AppError::Unauthorized(m) && m@ == "invalid or expired token"@,
        },
{
    let t = trim_str(token);
    let text = match jwt_decode_hs256(t.as_str(), secret.as_bytes()) {
        Some(p) => p,
        None => return Err(invalid_token_error()),
    };
    match parse_json_object_entries(text.as_str()) {
        Some(members) => claims_from_payload(&members),
        None => Err(invalid_token_error()),
    }
}

proof fn lemma_trim_keeps_token(t: Seq<char>)
    requires
        forall|i: int| 0 <= i < t.len() ==> is_token_char(#[trigger] t[i]),
    ensures
        trim(t) == t,
{
    if t.len() > 0 {
        assert(is_token_char(t[0]));
        assert(is_token_char(t.last()));
    }
}

/// A token issued for a user reads back, whatever white space the bearer header
/// leaves around it: when decoding accepts it under the same secret, it yields the
/// issued claims, so its subject names the user.
pub proof fn lemma_issued_token_reads_back(
    t: Seq<char>,
    id: Seq<u8>,
    secret: Seq<u8>,
    expiration_secs: u64,
    now: u64,
    read: (Seq<char>, nat, nat),
)
    requires
        issued_token(t, id, secret, expiration_secs, now),
        token_claims(trim(t)) == Some(read),
    ensures
        read == (hex_of(id), issued_exp(expiration_secs, now) as nat, (now as usize) as nat),
{
    lemma_trim_keeps_token(t);
}

} // verus!
