//! Credential codec and token service. Passwords are hashed with a slow,
//! salted one-way function; tokens are signed, time-bound envelopes carrying
//! a subject and an absolute expiry instant. The service holds no session
//! state: validity is re-derived from the signature and the given instant on
//! every check, and there is no server-side revocation before expiry short
//! of rotating the signing secret.

use vstd::prelude::*;
use vstd::slice::slice_to_vec;
use crate::error::AppError;

verus! {

/// Token lifetime in seconds: seven days.
pub const ONE_WEEK: u64 = 60 * 60 * 24 * 7;

/// The verified subject identity a request is annotated with.
pub struct AuthenticatedUser(pub String);

/// The claims a token binds: a subject and an absolute expiry instant in
/// seconds since the Unix epoch.
#[derive(Debug)]
pub struct Claims {
    pub sub: String,
    pub exp: u64,
}

/// What bcrypt::verify returns for a password and a stored hash: whether
/// they match, or None where the stored hash is malformed. A fixed function
/// of the two strings.
pub uninterp spec fn bcrypt_verify_of(password: Seq<char>, hash: Seq<char>) -> Option<bool>;

/// Relies on bcrypt::hash with the crate's default cost: the salted hash it
/// returns verifies against the same password. The salt is drawn from OS
/// randomness, so nothing else is promised of the hash itself.
#[verifier::external_body]
fn bcrypt_hash(password: &str) -> (r: Result<String, String>)
    ensures
        r matches Ok(h) ==> bcrypt_verify_of(password@, h@) == Some(true),
{
    bcrypt::hash(password, bcrypt::DEFAULT_COST).map_err(|e| e.to_string())
}

/// Relies on bcrypt::verify: recomputes the hash from the password and the
/// salt embedded in the stored hash and compares, a fixed function of its
/// two arguments; it fails exactly on a malformed stored hash.
#[verifier::external_body]
fn bcrypt_check(password: &str, hash: &str) -> (r: Result<bool, String>)
    ensures
        match bcrypt_verify_of(password@, hash@) {
            Some(b) => r matches Ok(rb) && rb == b,
            None => r is Err,
        },
{
    bcrypt::verify(password, hash).map_err(|e| e.to_string())
}

/// The claims a signed token carries under a secret, or None where the token
/// is not a well-formed envelope signed with that secret. A fixed function
/// of the secret and the token text.
pub uninterp spec fn jwt_payload_of(secret: Seq<u8>, token: Seq<char>) -> Option<
    (Seq<char>, u64),
>;

/// Relies on jsonwebtoken::encode with the default HS256 header and a secret
/// key: the token it returns is the signed envelope of exactly the claims
/// given, as jsonwebtoken::decode under the same secret recovers them. This
/// invocation cannot fail: the secret key's family matches the default
/// header's HS256, HMAC accepts a secret of any length, its signing is
/// infallible, and serializing a claims object of one string and one number
/// cannot error.
#[verifier::external_body]
fn jwt_encode(secret: &Vec<u8>, sub: &str, exp: u64) -> (r: Result<String, String>)
    ensures
        r is Ok,
        r matches Ok(t) ==> jwt_payload_of(secret@, t@) == Some((sub@, exp)),
{
    let mut claims = serde_json::Map::new();
    claims.insert("sub".to_string(), serde_json::Value::String(sub.to_string()));
    claims.insert("exp".to_string(), serde_json::Value::from(exp));
    jsonwebtoken::encode(
        &jsonwebtoken::Header::default(),
        &serde_json::Value::Object(claims),
        &jsonwebtoken::EncodingKey::from_secret(secret),
    ).map_err(|e| e.to_string())
}

/// Relies on jsonwebtoken::decode restricted to the HS256 signature check
/// (expiry is checked separately, against an explicit instant): a fixed
/// function of the secret and the token.
#[verifier::external_body]
fn jwt_decode(secret: &Vec<u8>, token: &str) -> (r: Result<(String, u64), String>)
    ensures
        match jwt_payload_of(secret@, token@) {
            Some(p) => r matches Ok(c) && c.0@ == p.0 && c.1 == p.1,
            None => r is Err,
        },
{
    let mut validation = jsonwebtoken::Validation::new(jsonwebtoken::Algorithm::HS256);
    validation.validate_exp = false;
    validation.required_spec_claims.clear();
    let data = jsonwebtoken::decode::<serde_json::Value>(
        token,
        &jsonwebtoken::DecodingKey::from_secret(secret),
        &validation,
    ).map_err(|e| e.to_string())?;
    let sub = data.claims.get("sub").and_then(|v| v.as_str()).ok_or("no subject claim")?;
    let exp = data.claims.get("exp").and_then(|v| v.as_u64()).ok_or("no expiry claim")?;
    Ok((sub.to_string(), exp))
}

/// A token is valid at the instant `now` when it is a genuine envelope under
/// the secret and `now` lies strictly before its expiry.
pub open spec fn token_valid_at(secret: Seq<u8>, token: Seq<char>, now: u64) -> bool {
    match jwt_payload_of(secret, token) {
        Some(p) => now < p.1,
        None => false,
    }
}

/// A token issued with the week-long TTL validates strictly before
/// `issue instant + ONE_WEEK` and fails at or exactly at that boundary and
/// ever after.
pub proof fn lemma_token_validity_window(
    secret: Seq<u8>,
    token: Seq<char>,
    sub: Seq<char>,
    issued: u64,
    now: u64,
)
    requires
        issued + ONE_WEEK <= u64::MAX,
        jwt_payload_of(secret, token) == Some((sub, (issued + ONE_WEEK) as u64)),
    ensures
        token_valid_at(secret, token, now) <==> now < issued + ONE_WEEK,
{
}

/// Why a token was rejected. The two cases stay distinct inside the library;
/// at the boundary both become the same uninformative authorization failure.
#[derive(Debug)]
pub enum TokenError {
    /// The envelope cannot be parsed or its signature does not verify.
    Malformed(String),
    /// The envelope is genuine but its expiry instant has passed.
    Expired,
}

/// The credential codec and token service; it holds only the signing secret,
/// from which both the encoding and the decoding key are derived.
pub struct Auth {
    secret: Vec<u8>,
}

impl Clone for Auth {
    fn clone(&self) -> (r: Self)
        ensures
            r.spec_secret() == self.spec_secret(),
    {
        let secret = self.secret.clone();
        proof {
            assert(secret@ =~= self.secret@);
        }
        Auth { secret }
    }
}

impl Auth {
    /// The signing secret, immutable for the process lifetime.
    pub closed spec fn spec_secret(&self) -> Seq<u8> {
        self.secret@
    }

    /// Creates the service from the shared signing secret.
    pub fn new(jwt_secret: &[u8]) -> (r: Auth)
        ensures
            r.spec_secret() == jwt_secret@,
    {
        Auth { secret: slice_to_vec(jwt_secret) }
    }

    /// Hashes a plain text password; safe on concurrent requests, no shared
    /// state. Fails only if the OS randomness for the salt is unavailable.
    pub fn hash_password(&self, password: &str) -> (r: Result<String, AppError>)
        ensures
            r matches Ok(h) ==> bcrypt_verify_of(password@, h@) == Some(true),
            r matches Err(e) ==> e is BcryptError,
    {
        match bcrypt_hash(password) {
            Ok(h) => Ok(h),
            Err(m) => Err(AppError::BcryptError(m)),
        }
    }

    /// Verifies a plain text password against a stored hash; a malformed
    /// stored hash is an error, never a panic.
    pub fn verify_password(&self, password: &str, hash: &str) -> (r: Result<bool, AppError>)
        ensures
            match bcrypt_verify_of(password@, hash@) {
                Some(b) => r matches Ok(rb) && rb == b,
                None => r matches Err(e) && e is BcryptError,
            },
    {
        match bcrypt_check(password, hash) {
            Ok(b) => Ok(b),
            Err(m) => Err(AppError::BcryptError(m)),
        }
    }

    /// Issues a token for the subject with expiry `now + ONE_WEEK`, returning
    /// the serialized token and the expiry instant. Issuing always succeeds.
    pub fn create_token_at(&self, user_email: &str, now: u64) -> (r: Result<
        (String, u64),
        AppError,
    >)
        requires
            now + ONE_WEEK <= u64::MAX,
        ensures
            r matches Ok(t) && t.1 == now + ONE_WEEK && jwt_payload_of(self.spec_secret(), t.0@)
                == Some((user_email@, t.1)),
    {
        let expiration_time = now + ONE_WEEK;
        match jwt_encode(&self.secret, user_email, expiration_time) {
            Ok(t) => Ok((t, expiration_time)),
            Err(m) => Err(AppError::Jwt(m)),
        }
    }

    /// Issues a token expiring one week from the current instant. Issuing
    /// always succeeds; only the expiry depends on the clock.
    pub fn create_token(&self, user_email: &str) -> (r: Result<(String, u64), AppError>)
        ensures
            r matches Ok(t) && jwt_payload_of(self.spec_secret(), t.0@) == Some(
                (user_email@, t.1),
            ),
    {
        let now = crate::clock::now_unix_seconds();
        if now <= u64::MAX - ONE_WEEK {
            self.create_token_at(user_email, now)
        } else {
            // The clock has run past any representable expiry.
            match jwt_encode(&self.secret, user_email, u64::MAX) {
                Ok(t) => Ok((t, u64::MAX)),
                Err(m) => Err(AppError::Jwt(m)),
            }
        }
    }

    /// Validates a token against the instant `now`: the signature must
    /// verify and the expiry must lie strictly in the future. Succeeds
    /// exactly on genuine tokens strictly before their expiry; rejects a
    /// genuine token as expired at or after that instant, and anything else
    /// as malformed. Consults no storage; liveness is the middleware's step.
    pub fn decode_token_at(&self, token: &str, now: u64) -> (r: Result<Claims, TokenError>)
        ensures
            r is Ok <==> token_valid_at(self.spec_secret(), token@, now),
            match jwt_payload_of(self.spec_secret(), token@) {
                Some(p) => {
                    if now < p.1 {
                        r matches Ok(c) && c.sub@ == p.0 && c.exp == p.1
                    } else {
                        r matches Err(e) && e is Expired
                    }
                },
                None => r matches Err(e) && e is Malformed,
            },
    {
        match jwt_decode(&self.secret, token) {
            Ok((sub, exp)) => {
                if now < exp {
                    Ok(Claims { sub, exp })
                } else {
                    Err(TokenError::Expired)
                }
            },
            Err(m) => Err(TokenError::Malformed(m)),
        }
    }

    /// Validates a token against the current instant; both rejection causes
    /// are folded into the token kind of the taxonomy.
    pub fn decode_token(&self, token: &str) -> (r: Result<Claims, AppError>)
        ensures
            r matches Ok(c) ==> jwt_payload_of(self.spec_secret(), token@) == Some(
                (c.sub@, c.exp),
            ),
            jwt_payload_of(self.spec_secret(), token@) is None ==> (r matches Err(e) && e is Jwt),
            r matches Err(e) ==> e is Jwt,
    {
        let now = crate::clock::now_unix_seconds();
        match self.decode_token_at(token, now) {
            Ok(c) => Ok(c),
            Err(TokenError::Expired) => Err(AppError::Jwt(String::from_str("token expired"))),
            Err(TokenError::Malformed(m)) => Err(AppError::Jwt(m)),
        }
    }
}

} // verus!
