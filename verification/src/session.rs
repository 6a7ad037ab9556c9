//! Signed, time-bounded session credentials.
//!
//! A credential binds a local user id (the subject) and an expiry instant,
//! signed with a process-wide secret.  Verification checks the signature and
//! the expiry; a bad signature, a malformed token and an elapsed expiry all
//! collapse to one `Invalid` outcome on purpose.

use vstd::prelude::*;

use crate::errors::SessionError;
use crate::models::User;

verus! {

/// How long a fresh session stays valid: 60 days, in seconds.
pub const SESSION_VALIDITY_SECONDS: i64 = 60 * 24 * 60 * 60;

/// The serialized, signed credential minted for a subject and expiry under
/// a signing secret.  With a fixed HS256 header and a canonical claim
/// encoding, the token is a function of these three values alone.
pub uninterp spec fn signed_token(sub: i32, exp: i64, secret: Seq<u8>) -> Seq<char>;

/// The claims that signature verification under `secret` accepts for a
/// token: the embedded subject and expiry, or nothing when the token is
/// malformed or the signature does not check out.
pub uninterp spec fn token_claims(token: Seq<char>, secret: Seq<u8>) -> Option<(i64, i64)>;

/// Relies on jsonwebtoken::encode with the default HS256 header and a
/// canonical (sorted-key) claim object: the token it returns is determined
/// by subject, expiry and secret alone, and decoding that token with the
/// same secret yields the same subject and expiry back.  On these inputs
/// encode has no failure path — the key family matches the header, an HMAC
/// key accepts every secret length, and serializing a string-keyed claim
/// object cannot fail — so success is promised outright.
#[verifier::external_body]
fn encode_claims(sub: i32, exp: i64, secret: &Vec<u8>) -> (r: Result<String, ()>)
    ensures
        r is Ok,
        r matches Ok(t) ==> t@ == signed_token(sub, exp, secret@) && token_claims(t@, secret@)
            == Some((sub as i64, exp)),
{
    let mut claims = serde_json::Map::new();
    claims.insert("user".to_string(), serde_json::Value::from(sub));
    claims.insert("exp".to_string(), serde_json::Value::from(exp));
    let key = jsonwebtoken::EncodingKey::from_secret(secret.as_slice());
    let header = jsonwebtoken::Header::default();
    match jsonwebtoken::encode(&header, &serde_json::Value::Object(claims), &key) {
        Ok(t) => Ok(t),
        Err(_) => Err(()),
    }
}

/// Relies on jsonwebtoken::decode restricted to HS256, with the built-in
/// expiry check turned off: acceptance and the embedded claims are then a
/// function of token and secret alone.  The expiry policy is enforced by
/// the verified caller instead.
#[verifier::external_body]
fn decode_claims(token: &str, secret: &Vec<u8>) -> (r: Option<(i64, i64)>)
    ensures
        r == token_claims(token@, secret@),
{
    let key = jsonwebtoken::DecodingKey::from_secret(secret.as_slice());
    let mut validation = jsonwebtoken::Validation::default();
    validation.validate_exp = false;
    validation.required_spec_claims = std::collections::HashSet::new();
    let data = jsonwebtoken::decode::<serde_json::Value>(token, &key, &validation).ok()?;
    let sub = data.claims.get("user")?.as_i64()?;
    let exp = data.claims.get("exp")?.as_i64()?;
    Some((sub, exp))
}

/// Relies on chrono::Utc::now for the wall clock; nothing is promised of
/// its reading.
#[verifier::external_body]
fn current_timestamp() -> i64 {
    chrono::Utc::now().timestamp()
}

/// What verifying a token under `secret` at instant `now` yields: the
/// subject embedded in a token the signature check accepts, provided its
/// expiry has not elapsed and the subject fits a local user id.
pub open spec fn spec_verify(token: Seq<char>, secret: Seq<u8>, now: int) -> Option<i32> {
    match token_claims(token, secret) {
        Option::Some((sub, exp)) => if now < exp && i32::MIN <= sub <= i32::MAX {
            Option::Some(sub as i32)
        } else {
            Option::None
        },
        Option::None => Option::None,
    }
}

/// Mint the signed session credential for `user`: the subject is the
/// user's id, the expiry lies 60 days past `now`.  Signing with a
/// process-wide HMAC secret cannot fail, so the credential is owed.
pub fn generate_jwt(user: &User, secret: &Vec<u8>, now: i64) -> (r: Result<String, SessionError>)
    requires
        0 <= now,
        now + SESSION_VALIDITY_SECONDS <= i64::MAX,
    ensures
        r matches Ok(t) && t@ == signed_token(
            user.id,
            (now + SESSION_VALIDITY_SECONDS) as i64,
            secret@,
        ) && token_claims(t@, secret@) == Some(
            (user.id as i64, (now + SESSION_VALIDITY_SECONDS) as i64),
        ),
{
    let exp = now + SESSION_VALIDITY_SECONDS;
    match encode_claims(user.id, exp, secret) {
        Ok(t) => Ok(t),
        Err(_) => Err(SessionError::SigningFailed),
    }
}

/// Verify a presented credential: the signature must check out, the expiry
/// must not have elapsed, and the subject must name a representable local
/// user id.
pub fn verify_jwt(token: &str, secret: &Vec<u8>, now: i64) -> (r: Result<i32, SessionError>)
    ensures
        match r {
            Ok(sub) => spec_verify(token@, secret@, now as int) == Some(sub),
            Err(e) => spec_verify(token@, secret@, now as int) is None && e is Invalid,
        },
{
    match decode_claims(token, secret) {
        Some((sub, exp)) => {
            if now < exp && i32::MIN as i64 <= sub && sub <= i32::MAX as i64 {
                Ok(sub as i32)
            } else {
                Err(SessionError::Invalid)
            }
        },
        None => Err(SessionError::Invalid),
    }
}

/// Issue a credential for `user` against the wall clock, as the login path
/// does.
pub fn issue_session(user: &User, secret: &Vec<u8>) -> (r: Result<String, SessionError>)
    ensures
        r matches Ok(t) ==> exists|e: i64|
            t@ == signed_token(user.id, e, secret@) && token_claims(t@, secret@) == Some(
                (user.id as i64, e),
            ),
        r matches Err(e) ==> e is SigningFailed,
{
    let now = current_timestamp();
    if now < 0 || now > i64::MAX - SESSION_VALIDITY_SECONDS {
        return Err(SessionError::SigningFailed);
    }
    match generate_jwt(user, secret, now) {
        Ok(t) => {
            proof {
                let w: i64 = (now + SESSION_VALIDITY_SECONDS) as i64;
                assert(t@ == signed_token(user.id, w, secret@) && token_claims(t@, secret@)
                    == Some((user.id as i64, w)));
            }
            Ok(t)
        },
        Err(e) => Err(e),
    }
}

/// A session issued for a user verifies back to that very user: at any
/// instant before the expiry, verification of the fresh credential
/// succeeds and returns the subject it was minted for.
pub fn issue_then_verify(user: &User, secret: &Vec<u8>, now: i64) -> (r: Result<i32, SessionError>)
    requires
        0 <= now,
        now + SESSION_VALIDITY_SECONDS <= i64::MAX,
    ensures
        r matches Ok(sub) && sub == user.id,
{
    match generate_jwt(user, secret, now) {
        Ok(t) => verify_jwt(t.as_str(), secret, now),
        Err(e) => Err(e),
    }
}

/// A credential past its expiry never verifies, however intact its
/// signature: at any instant at or past the embedded expiry the check
/// rejects.
pub proof fn lemma_expired_session_rejected(token: Seq<char>, secret: Seq<u8>, now: int)
    requires
        token_claims(token, secret) matches Some(c) && now >= c.1,
    ensures
        spec_verify(token, secret, now) is None,
{
}

/// Only a credential that the signature check accepts ever verifies: a
/// token the check rejects — tampered, forged under another secret, or
/// malformed — is `Invalid` at every instant.
pub proof fn lemma_verify_needs_acceptance(token: Seq<char>, secret: Seq<u8>, now: int)
    requires
        token_claims(token, secret) is None,
    ensures
        spec_verify(token, secret, now) is None,
{
}

} // verus!
