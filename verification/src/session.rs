//! Session-token issuance: a verified credential is turned into a signed,
//! time-bounded claims token. Claims are `{sub, user_id, exp}`; invalidation
//! is by expiry alone.

use vstd::prelude::*;

verus! {

/// How long an issued session token stays valid, in seconds.
pub const TOKEN_LIFETIME_SECONDS: i64 = 86400;

/// The signed claims token for subject `sub`, identity `user_id`, expiry
/// `exp` and the given signing secret. The signing scheme is deterministic
/// (HMAC over a canonical claims serialization), so the token is a function
/// of the four inputs alone.
pub uninterp spec fn signed_token(
    sub: Seq<char>,
    user_id: Seq<char>,
    exp: i64,
    secret: Seq<char>,
) -> Seq<char>;

/// Relies on jsonwebtoken's `encode` with its default header (HS256) over a
/// claims object `{sub, user_id, exp}` built with a deterministic key order,
/// and on serde_json's canonical map serialization: the token is a function
/// of the claims and the secret alone. Signing never fails on this path:
/// the claims object always serializes, and an HMAC secret fits the HS256
/// header, so a token is owed.
#[verifier::external_body]
pub(crate) fn sign_claims(sub: &str, user_id: &str, exp: i64, secret: &str) -> (r: Option<String>)
    ensures
        r is Some,
        r matches Some(t) ==> t@ == signed_token(sub@, user_id@, exp, secret@),
{
    let mut claims = serde_json::Map::new();
    claims.insert("sub".to_string(), serde_json::Value::String(sub.to_string()));
    claims.insert("user_id".to_string(), serde_json::Value::String(user_id.to_string()));
    claims.insert("exp".to_string(), serde_json::Value::from(exp));
    jsonwebtoken::encode(
        &jsonwebtoken::Header::default(),
        &serde_json::Value::Object(claims),
        &jsonwebtoken::EncodingKey::from_secret(secret.as_bytes()),
    ).ok()
}

/// Relies on the system clock: seconds since the Unix epoch, negative for a
/// clock set before it, saturated into the stated range so that no clock
/// reading — however mis-set — can fault or overflow downstream arithmetic.
#[verifier::external_body]
pub(crate) fn now_unix() -> (r: i64)
    ensures
        -9_000_000_000_000 <= r <= 9_000_000_000_000,
{
    match std::time::SystemTime::now().duration_since(std::time::UNIX_EPOCH) {
        Ok(d) => i64::try_from(d.as_secs()).unwrap_or(i64::MAX).min(9_000_000_000_000),
        Err(e) => -(i64::try_from(e.duration().as_secs()).unwrap_or(i64::MAX).min(
            9_000_000_000_000,
        )),
    }
}

/// Relies on uuid's `new_v4`, a random identifier: nothing is promised of
/// the value; callers treat it as an arbitrary string.
#[verifier::external_body]
pub(crate) fn fresh_uuid() -> (r: String) {
    uuid::Uuid::new_v4().to_string()
}

} // verus!
