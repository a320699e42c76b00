//! The authentication gate: a bearer credential is decoded and its signature
//! verified under the shared secret, its claims are demanded, and its expiry
//! is held against the time that the caller names.

use vstd::prelude::*;
use jsonwebtoken::errors::ErrorKind;
use jsonwebtoken::{decode, Algorithm, DecodingKey, Validation};
use serde_json::Value;

verus! {

/// Why a request was not authenticated.
#[derive(Clone, Copy, Debug, PartialEq, Eq, Structural)]
pub enum AuthError {
    /// No bearer credential was presented.
    Missing,
    /// The credential is no token, or its claims cannot be read.
    Malformed,
    /// The signature does not match the shared secret.
    BadSignature,
    /// The expiry is not after the present time.
    Expired,
}

/// Why a token could not be decoded.
#[derive(Clone, Copy, Debug, PartialEq, Eq, Structural)]
pub enum DecodeFault {
    /// The token is well formed but was not signed with the secret.
    InvalidSignature,
    /// Anything else: the shape, the encoding, the algorithm, the claims.
    Other,
}

/// The three claims as a decoded token holds them: each is absent where the
/// payload lacks it or holds it in another type.
#[derive(Clone, Debug, PartialEq, Eq)]
pub struct RawClaims {
    pub sub: Option<String>,
    pub exp: Option<u64>,
    pub iat: Option<u64>,
}

/// `RawClaims` as plain values.
pub struct RawClaimsView {
    pub sub: Option<Seq<char>>,
    pub exp: Option<u64>,
    pub iat: Option<u64>,
}

impl View for RawClaims {
    type V = RawClaimsView;

    open spec fn view(&self) -> RawClaimsView {
        RawClaimsView {
            sub: match self.sub {
                Some(s) => Some(s@),
                None => None,
            },
            exp: self.exp,
            iat: self.iat,
        }
    }
}

/// The claims of a token whose signature was verified.
#[derive(Clone, Debug, PartialEq, Eq)]
pub struct JwtClaims {
    pub sub: String,
    pub exp: usize,
    pub iat: usize,
}

/// The identity of an authenticated request: the claims of a token that was
/// verified and has not expired.
#[derive(Clone, Debug, PartialEq, Eq)]
pub struct Claims {
    pub sub: String,
    pub exp: usize,
    pub iat: usize,
}

/// Subject, expiry and time of issue, the times in seconds since the epoch.
pub struct ClaimsView {
    pub sub: Seq<char>,
    pub exp: nat,
    pub iat: nat,
}

impl View for JwtClaims {
    type V = ClaimsView;

    open spec fn view(&self) -> ClaimsView {
        ClaimsView { sub: self.sub@, exp: self.exp as nat, iat: self.iat as nat }
    }
}

impl View for Claims {
    type V = ClaimsView;

    open spec fn view(&self) -> ClaimsView {
        ClaimsView { sub: self.sub@, exp: self.exp as nat, iat: self.iat as nat }
    }
}

/// What `jsonwebtoken::decode` makes of `token` under the HMAC-SHA256 secret
/// `secret`, with the library's own expiry check switched off.
pub uninterp spec fn hs256_decoding(token: Seq<char>, secret: Seq<char>) -> Result<RawClaimsView, DecodeFault>;

/// A decoding as plain values.
pub open spec fn decoding_view(decoding: Result<RawClaims, DecodeFault>) -> Result<RawClaimsView, DecodeFault> {
    match decoding {
        Ok(raw) => Ok(raw@),
        Err(fault) => Err(fault),
    }
}

/// The claims that a decoding yields: all three must be there and the two
/// times must fit the machine's word; a wrong signature and any other failure
/// to decode are told apart.
pub open spec fn claims_of(decoding: Result<RawClaimsView, DecodeFault>) -> Result<ClaimsView, AuthError> {
    match decoding {
        Err(DecodeFault::InvalidSignature) => Err(AuthError::BadSignature),
        Err(DecodeFault::Other) => Err(AuthError::Malformed),
        Ok(raw) => if raw.sub is Some && raw.exp is Some && raw.iat is Some && raw.exp->0 <= usize::MAX
            && raw.iat->0 <= usize::MAX {
            Ok(ClaimsView { sub: raw.sub->0, exp: raw.exp->0 as nat, iat: raw.iat->0 as nat })
        } else {
            Err(AuthError::Malformed)
        },
    }
}

/// Claims are good at `now` while their expiry is strictly later.
pub open spec fn unexpired(claims: ClaimsView, now: nat) -> Result<ClaimsView, AuthError> {
    if claims.exp > now {
        Ok(claims)
    } else {
        Err(AuthError::Expired)
    }
}

/// The outcome of authentication at `now` for a credential that decodes to `decoding`.
pub open spec fn verified(decoding: Result<RawClaimsView, DecodeFault>, now: nat) -> Result<ClaimsView, AuthError> {
    match claims_of(decoding) {
        Ok(claims) => unexpired(claims, now),
        Err(error) => Err(error),
    }
}

/// Calls `jsonwebtoken::decode` for the algorithm HS256 with the secret's
/// bytes as key and with the library's clock-based expiry check off, so that
/// the outcome depends on the token and the secret alone. The claims come
/// back as a JSON value, of which `sub` is handed on if it is a string and
/// `exp` and `iat` if they are unsigned integers. Of the library's errors only
/// `InvalidSignature` is told apart from the rest. Nothing is claimed of the
/// result but that it is what the library makes of these two arguments.
#[verifier::external_body]
fn decode_hs256(token: &str, secret: &str) -> (decoding: Result<RawClaims, DecodeFault>)
    ensures
        decoding_view(decoding) == hs256_decoding(token@, secret@),
{
    let mut rules = Validation::new(Algorithm::HS256);
    rules.validate_exp = false;
    match decode::<Value>(token, &DecodingKey::from_secret(secret.as_bytes()), &rules) {
        Ok(data) => Ok(RawClaims {
            sub: data.claims.get("sub").and_then(Value::as_str).map(String::from),
            exp: data.claims.get("exp").and_then(Value::as_u64),
            iat: data.claims.get("iat").and_then(Value::as_u64),
        }),
        Err(error) => Err(match error.kind() {
            ErrorKind::InvalidSignature => DecodeFault::InvalidSignature,
            _ => DecodeFault::Other,
        }),
    }
}

/// Demands the three claims of a decoding.
pub fn claims_from_decoding(decoding: Result<RawClaims, DecodeFault>) -> (outcome: Result<JwtClaims, AuthError>)
    ensures
        match outcome {
            Ok(claims) => claims_of(decoding_view(decoding)) == Ok::<ClaimsView, AuthError>(claims@),
            Err(error) => claims_of(decoding_view(decoding)) == Err::<ClaimsView, AuthError>(error),
        },
{
    match decoding {
        Err(DecodeFault::InvalidSignature) => Err(AuthError::BadSignature),
        Err(DecodeFault::Other) => Err(AuthError::Malformed),
        Ok(raw) => match (raw.sub, raw.exp, raw.iat) {
            (Some(sub), Some(exp), Some(iat)) => {
                if exp <= usize::MAX as u64 && iat <= usize::MAX as u64 {
                    Ok(JwtClaims { sub, exp: exp as usize, iat: iat as usize })
                } else {
                    Err(AuthError::Malformed)
                }
            },
            _ => Err(AuthError::Malformed),
        },
    }
}

/// Holds the expiry of verified claims against `now`, in seconds since the epoch.
pub fn check_expiry(claims: JwtClaims, now: u64) -> (outcome: Result<Claims, AuthError>)
    ensures
        match outcome {
            Ok(identity) => unexpired(claims@, now as nat) == Ok::<ClaimsView, AuthError>(identity@),
            Err(error) => unexpired(claims@, now as nat) == Err::<ClaimsView, AuthError>(error),
        },
{
    if claims.exp as u64 > now {
        Ok(Claims { sub: claims.sub, exp: claims.exp, iat: claims.iat })
    } else {
        Err(AuthError::Expired)
    }
}

/// Verifies tokens signed with one shared secret.
#[derive(Clone)]
pub struct JwtValidator {
    secret: String,
}

impl JwtValidator {
    /// The shared secret.
    pub closed spec fn secret(&self) -> Seq<char> {
        self.secret@
    }

    /// A validator for tokens signed with `secret`.
    pub fn new(secret: &str) -> (validator: JwtValidator)
        ensures
            validator.secret() == secret@,
    {
        JwtValidator { secret: secret.to_owned() }
    }

    /// Decodes `token`, verifies its signature and demands its claims. The
    /// expiry is not looked at.
    pub fn validate_token(&self, token: &str) -> (outcome: Result<JwtClaims, AuthError>)
        ensures
            match outcome {
                Ok(claims) => claims_of(hs256_decoding(token@, self.secret())) == Ok::<ClaimsView, AuthError>(
                    claims@,
                ),
                Err(error) => claims_of(hs256_decoding(token@, self.secret())) == Err::<ClaimsView, AuthError>(
                    error,
                ),
            },
    {
        claims_from_decoding(decode_hs256(token, self.secret.as_str()))
    }
}

/// The authentication gate of the pipeline.
#[derive(Clone)]
pub struct AuthGate {
    validator: JwtValidator,
}

impl AuthGate {
    /// The shared secret.
    pub closed spec fn secret(&self) -> Seq<char> {
        self.validator.secret()
    }

    /// A gate for credentials signed with `secret`.
    pub fn new(secret: &str) -> (gate: AuthGate)
        ensures
            gate.secret() == secret@,
    {
        AuthGate { validator: JwtValidator::new(secret) }
    }

    /// Verifies a bearer credential at `now`, in seconds since the epoch.
    /// That a request carries no credential is for the caller to find.
    pub fn verify(&self, credential: &str, now: u64) -> (outcome: Result<Claims, AuthError>)
        ensures
            outcome != Err::<Claims, AuthError>(AuthError::Missing),
            match outcome {
                Ok(identity) => verified(hs256_decoding(credential@, self.secret()), now as nat) == Ok::<
                    ClaimsView,
                    AuthError,
                >(identity@),
                Err(error) => verified(hs256_decoding(credential@, self.secret()), now as nat) == Err::<
                    ClaimsView,
                    AuthError,
                >(error),
            },
    {
        match self.validator.validate_token(credential) {
            Ok(claims) => check_expiry(claims, now),
            Err(error) => Err(error),
        }
    }
}

/// Verified claims are accepted exactly while the present time is before
/// their expiry: a credential that expires sixty seconds from now is good
/// now and for fifty-nine seconds more, and expired from the sixtieth on.
pub proof fn lemma_expiry_is_strict(decoding: Result<RawClaimsView, DecodeFault>, now: nat)
    requires
        claims_of(decoding) is Ok,
    ensures
        verified(decoding, now) is Ok <==> claims_of(decoding)->Ok_0.exp > now,
        verified(decoding, now) is Ok ==> verified(decoding, now) == claims_of(decoding),
        verified(decoding, now) is Err ==> verified(decoding, now) == Err::<ClaimsView, AuthError>(
            AuthError::Expired,
        ),
        claims_of(decoding)->Ok_0.exp == now + 60 ==> verified(decoding, now) is Ok && verified(
            decoding,
            now + 61,
        ) == Err::<ClaimsView, AuthError>(AuthError::Expired),
{
}

/// Where decoding fails for the signature, the outcome is `BadSignature`
/// whatever the time: the expiry of such a credential is never looked at.
pub proof fn lemma_wrong_signature_is_refused(now: nat)
    ensures
        verified(Err(DecodeFault::InvalidSignature), now) == Err::<ClaimsView, AuthError>(AuthError::BadSignature),
{
}

} // verus!
