//! Claims and the signed assertions that carry them.
use jsonwebtoken::{decode, encode, Algorithm, DecodingKey, EncodingKey, Header, Validation};
use serde_json::{Map as JsonMap, Value};
use vstd::prelude::*;
use vstd::utf8::encode_utf8;

use crate::user::User;

verus! {

/// Lifetime of an access assertion: three hours.
pub const ACCESS_TTL_SECS: i64 = 10800;

/// Lifetime of a refresh assertion: thirty days.
pub const REFRESH_TTL_SECS: i64 = 2592000;

/// What an assertion says about its bearer.
#[derive(Debug)]
pub struct Claims {
    /// Issued at, in milliseconds since the Unix epoch.
    pub iat: u64,
    /// Expiry, in seconds since the Unix epoch.
    pub exp: i64,
    /// The identity id.
    pub sub: String,
}

/// The mathematical value of a [`Claims`].
pub struct ClaimsView {
    pub iat: u64,
    pub exp: i64,
    pub sub: Seq<char>,
}

impl View for Claims {
    type V = ClaimsView;

    open spec fn view(&self) -> ClaimsView {
        ClaimsView { iat: self.iat, exp: self.exp, sub: self.sub@ }
    }
}

/// Expiry, in seconds, of claims issued at `now_ms` for `ttl` seconds.
pub open spec fn expiry(now_ms: u64, ttl: i64) -> int {
    now_ms as int / 1000 + ttl
}

/// Whether claims issued at `now_ms` for `ttl` seconds have an expiry that fits an `i64`.
pub open spec fn expiry_fits(now_ms: u64, ttl: i64) -> bool {
    i64::MIN <= expiry(now_ms, ttl) <= i64::MAX
}

/// The claims issued at `now_ms` for `ttl` seconds to the identity `sub`.
pub open spec fn issued(sub: Seq<char>, ttl: i64, now_ms: u64) -> ClaimsView {
    ClaimsView { iat: now_ms, exp: expiry(now_ms, ttl) as i64, sub }
}

impl Claims {
    /// Claims for `user`, issued at `now_ms` and valid for `duration_secs` seconds;
    /// the expiry is truncated to whole seconds.
    pub fn new(user: &User, duration_secs: i64, now_ms: u64) -> (c: Claims)
        requires
            expiry_fits(now_ms, duration_secs),
        ensures
            c@ == issued(user.id@, duration_secs, now_ms),
    {
        let secs: i64 = (now_ms / 1000) as i64;
        Claims { iat: now_ms, exp: secs + duration_secs, sub: user.id.clone() }
    }
}

/// The compact signed assertion (JWT, HS256) of the given claims under `secret`.
pub uninterp spec fn signed_assertion(secret: Seq<u8>, iat: u64, exp: i64, sub: Seq<char>) -> Seq<char>;

/// The claims that an assertion, given as bytes, carries when its signature
/// verifies under `secret`.
pub uninterp spec fn asserted_claims(secret: Seq<u8>, token: Seq<u8>) -> Option<(u64, i64, Seq<char>)>;

/// Relies on `jsonwebtoken::encode` with the default header (HS256) and an HMAC
/// key made from `secret`: with such a key it does not fail, and
/// `jsonwebtoken::decode` under the same secret reads the same claims back.
#[verifier::external_body]
pub(crate) fn sign_claims(secret: &[u8], iat: u64, exp: i64, sub: &str) -> (r: Option<String>)
    ensures
        r is Some,
        r is Some ==> r->0@ == signed_assertion(secret@, iat, exp, sub@),
        r is Some ==> asserted_claims(secret@, encode_utf8(r->0@)) == Some((iat, exp, sub@)),
{
    let mut claims = JsonMap::new();
    claims.insert("iat".to_string(), Value::from(iat));
    claims.insert("exp".to_string(), Value::from(exp));
    claims.insert("sub".to_string(), Value::from(sub));
    encode(&Header::default(), &claims, &EncodingKey::from_secret(secret)).ok()
}

/// Relies on `jsonwebtoken::decode` under HS256 with an HMAC key made from
/// `secret`, its own clock check switched off: the `iat`, `exp` and `sub` claims
/// of a UTF-8 token whose signature verifies; nothing when the token is not
/// UTF-8, its signature fails or one of the three claims is missing.
#[verifier::external_body]
pub(crate) fn read_claims(secret: &[u8], token: &[u8]) -> (r: Option<(u64, i64, String)>)
    ensures
        match r {
            Some(c) => asserted_claims(secret@, token@) == Some((c.0, c.1, c.2@)),
            None => asserted_claims(secret@, token@) is None,
        },
{
    let text = std::str::from_utf8(token).ok()?;
    let mut rules = Validation::new(Algorithm::HS256);
    rules.validate_exp = false;
    rules.required_spec_claims.clear();
    let c = decode::<Value>(text, &DecodingKey::from_secret(secret), &rules).ok()?.claims;
    Some((c.get("iat")?.as_u64()?, c.get("exp")?.as_i64()?, c.get("sub")?.as_str()?.to_string()))
}

/// Relies on `SystemTime::now` and `SystemTime::duration_since` of std: the
/// milliseconds since the Unix epoch, or nothing for a clock set before it.
#[verifier::external_body]
pub(crate) fn clock_millis() -> (r: Option<u128>) {
    std::time::SystemTime::now().duration_since(std::time::UNIX_EPOCH).ok().map(|d| d.as_millis())
}

} // verus!
