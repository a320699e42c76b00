use gateway_core::auth::{
    check_expiry, claims_from_decoding, AuthError, AuthGate, Claims, DecodeFault, JwtClaims, JwtValidator,
    RawClaims,
};
use gateway_core::pipeline::{authenticate, bearer_token};
use jsonwebtoken::{encode, Algorithm, EncodingKey, Header};
use serde_json::Value;

fn sign_with(algorithm: Algorithm, secret: &str, claims: serde_json::Map<String, Value>) -> String {
    encode(&Header::new(algorithm), &Value::Object(claims), &EncodingKey::from_secret(secret.as_bytes())).unwrap()
}

fn three_claims(sub: &str, exp: u64, iat: u64) -> serde_json::Map<String, Value> {
    let mut claims = serde_json::Map::new();
    claims.insert("sub".to_string(), Value::from(sub));
    claims.insert("exp".to_string(), Value::from(exp));
    claims.insert("iat".to_string(), Value::from(iat));
    claims
}

fn credential(secret: &str, sub: &str, exp: u64, iat: u64) -> String {
    sign_with(Algorithm::HS256, secret, three_claims(sub, exp, iat))
}

#[test]
fn credential_round_trip() {
    let now = 1_700_000_000u64;
    let token = credential("S", "alice", now + 60, now);
    let gate = AuthGate::new("S");
    assert_eq!(
        gate.verify(&token, now),
        Ok(Claims { sub: "alice".to_string(), exp: (now + 60) as usize, iat: now as usize })
    );
    assert_eq!(gate.verify(&token, now + 61), Err(AuthError::Expired));
    let other = AuthGate::new("T");
    assert_eq!(other.verify(&token, now), Err(AuthError::BadSignature));
}

#[test]
fn expiry_must_be_strictly_later() {
    let token = credential("S", "bob", 1000, 0);
    let gate = AuthGate::new("S");
    assert!(gate.verify(&token, 0).is_ok());
    assert!(gate.verify(&token, 999).is_ok());
    assert_eq!(gate.verify(&token, 1000), Err(AuthError::Expired));
    assert_eq!(gate.verify(&token, u64::MAX), Err(AuthError::Expired));
}

#[test]
fn gate_goes_by_the_time_it_is_given() {
    let gate = AuthGate::new("S");
    let long_gone = credential("S", "carol", 10, 1);
    assert!(gate.verify(&long_gone, 9).is_ok());
    let far_ahead = credential("S", "carol", 40_000_000_000, 1);
    assert_eq!(gate.verify(&far_ahead, 40_000_000_000), Err(AuthError::Expired));
    assert!(gate.verify(&far_ahead, 39_999_999_999).is_ok());
}

#[test]
fn wrong_secret_is_a_bad_signature_even_when_expired() {
    let token = credential("S", "alice", 10, 1);
    assert_eq!(AuthGate::new("other").verify(&token, 1_000), Err(AuthError::BadSignature));
    assert_eq!(AuthGate::new("").verify(&token, 0), Err(AuthError::BadSignature));
}

#[test]
fn tampered_payload_is_a_bad_signature() {
    let token = credential("S", "alice", 5000, 1);
    let forged = credential("S", "mallory", 5000, 1);
    let signature = token.rsplit('.').next().unwrap();
    let mut parts: Vec<&str> = forged.split('.').collect();
    parts[2] = signature;
    let spliced = parts.join(".");
    assert_eq!(AuthGate::new("S").verify(&spliced, 0), Err(AuthError::BadSignature));
}

#[test]
fn what_is_no_token_is_malformed() {
    let gate = AuthGate::new("S");
    for text in ["", "abc", "a.b", "a.b.c", "a.b.c.d", "...", "\u{e9}.\u{e9}.\u{e9}"] {
        assert_eq!(gate.verify(text, 0), Err(AuthError::Malformed));
    }
}

#[test]
fn missing_or_mistyped_claims_are_malformed() {
    let gate = AuthGate::new("S");

    let mut no_sub = three_claims("x", 5000, 1);
    no_sub.remove("sub");
    assert_eq!(gate.verify(&sign_with(Algorithm::HS256, "S", no_sub), 0), Err(AuthError::Malformed));

    let mut no_iat = three_claims("x", 5000, 1);
    no_iat.remove("iat");
    assert_eq!(gate.verify(&sign_with(Algorithm::HS256, "S", no_iat), 0), Err(AuthError::Malformed));

    let mut no_exp = three_claims("x", 5000, 1);
    no_exp.remove("exp");
    assert_eq!(gate.verify(&sign_with(Algorithm::HS256, "S", no_exp), 0), Err(AuthError::Malformed));

    let mut sub_is_number = three_claims("x", 5000, 1);
    sub_is_number.insert("sub".to_string(), Value::from(7u64));
    assert_eq!(gate.verify(&sign_with(Algorithm::HS256, "S", sub_is_number), 0), Err(AuthError::Malformed));

    let mut exp_is_text = three_claims("x", 5000, 1);
    exp_is_text.insert("exp".to_string(), Value::from("5000"));
    assert_eq!(gate.verify(&sign_with(Algorithm::HS256, "S", exp_is_text), 0), Err(AuthError::Malformed));

    let mut iat_is_negative = three_claims("x", 5000, 1);
    iat_is_negative.insert("iat".to_string(), Value::from(-1i64));
    assert_eq!(gate.verify(&sign_with(Algorithm::HS256, "S", iat_is_negative), 0), Err(AuthError::Malformed));
}

#[test]
fn other_algorithm_is_malformed() {
    let token = sign_with(Algorithm::HS384, "S", three_claims("x", 5000, 1));
    assert_eq!(AuthGate::new("S").verify(&token, 0), Err(AuthError::Malformed));
}

#[test]
fn further_claims_are_ignored() {
    let mut claims = three_claims("dave", 5000, 1);
    claims.insert("role".to_string(), Value::from("admin"));
    let token = sign_with(Algorithm::HS256, "S", claims);
    assert_eq!(
        AuthGate::new("S").verify(&token, 0),
        Ok(Claims { sub: "dave".to_string(), exp: 5000, iat: 1 })
    );
}

#[test]
fn validator_reads_claims_without_looking_at_expiry() {
    let validator = JwtValidator::new("S");
    let token = credential("S", "erin", 10, 3);
    assert_eq!(validator.validate_token(&token), Ok(JwtClaims { sub: "erin".to_string(), exp: 10, iat: 3 }));
    assert_eq!(JwtValidator::new("T").validate_token(&token), Err(AuthError::BadSignature));
    assert_eq!(validator.validate_token("erin"), Err(AuthError::Malformed));
}

#[test]
fn claims_are_demanded_of_a_decoding() {
    let whole = RawClaims { sub: Some("u".to_string()), exp: Some(9), iat: Some(4) };
    assert_eq!(claims_from_decoding(Ok(whole)), Ok(JwtClaims { sub: "u".to_string(), exp: 9, iat: 4 }));
    let no_sub = RawClaims { sub: None, exp: Some(9), iat: Some(4) };
    assert_eq!(claims_from_decoding(Ok(no_sub)), Err(AuthError::Malformed));
    let no_exp = RawClaims { sub: Some("u".to_string()), exp: None, iat: Some(4) };
    assert_eq!(claims_from_decoding(Ok(no_exp)), Err(AuthError::Malformed));
    let no_iat = RawClaims { sub: Some("u".to_string()), exp: Some(9), iat: None };
    assert_eq!(claims_from_decoding(Ok(no_iat)), Err(AuthError::Malformed));
    assert_eq!(claims_from_decoding(Err(DecodeFault::InvalidSignature)), Err(AuthError::BadSignature));
    assert_eq!(claims_from_decoding(Err(DecodeFault::Other)), Err(AuthError::Malformed));
}

#[test]
fn expiry_is_checked_against_the_given_second() {
    let claims = JwtClaims { sub: "u".to_string(), exp: 100, iat: 1 };
    assert_eq!(check_expiry(claims.clone(), 99), Ok(Claims { sub: "u".to_string(), exp: 100, iat: 1 }));
    assert_eq!(check_expiry(claims.clone(), 100), Err(AuthError::Expired));
    assert_eq!(check_expiry(claims, 101), Err(AuthError::Expired));
    let never = JwtClaims { sub: "u".to_string(), exp: 0, iat: 0 };
    assert_eq!(check_expiry(never, 0), Err(AuthError::Expired));
}

#[test]
fn bearer_credential_is_what_follows_the_scheme() {
    assert_eq!(bearer_token("Bearer abc.def.ghi"), Some("abc.def.ghi"));
    assert_eq!(bearer_token("Bearer "), Some(""));
    assert_eq!(bearer_token("Bearer  x"), Some(" x"));
    assert_eq!(bearer_token("Bearer \u{e9}\u{65e5}"), Some("\u{e9}\u{65e5}"));
    assert_eq!(bearer_token("Bearer"), None);
    assert_eq!(bearer_token("bearer abc"), None);
    assert_eq!(bearer_token("Basic abc"), None);
    assert_eq!(bearer_token(" Bearer abc"), None);
    assert_eq!(bearer_token(""), None);
}

#[test]
fn request_without_bearer_credential_is_missing() {
    let gate = AuthGate::new("S");
    assert_eq!(authenticate(&gate, None, 0), Err(AuthError::Missing));
    assert_eq!(authenticate(&gate, Some(""), 0), Err(AuthError::Missing));
    assert_eq!(authenticate(&gate, Some("Basic dXNlcjpwYXNz"), 0), Err(AuthError::Missing));
    let token = credential("S", "x", 50, 1);
    assert_eq!(authenticate(&gate, Some(&token), 0), Err(AuthError::Missing));
}

#[test]
fn request_with_bearer_credential_is_verified() {
    let gate = AuthGate::new("S");
    let token = credential("S", "frank", 50, 1);
    let header = format!("Bearer {}", token);
    assert_eq!(authenticate(&gate, Some(&header), 49), Ok(Claims { sub: "frank".to_string(), exp: 50, iat: 1 }));
    assert_eq!(authenticate(&gate, Some(&header), 50), Err(AuthError::Expired));
    assert_eq!(authenticate(&AuthGate::new("T"), Some(&header), 49), Err(AuthError::BadSignature));
    assert_eq!(authenticate(&gate, Some("Bearer junk"), 49), Err(AuthError::Malformed));
    assert_eq!(authenticate(&gate, Some("Bearer "), 49), Err(AuthError::Malformed));
}

#[test]
fn secrets_that_differ_in_trailing_nul_bytes_sign_alike() {
    let token = credential("S", "alice", 100, 1);
    assert!(AuthGate::new("S\u{0}").verify(&token, 0).is_ok());
    assert_eq!(AuthGate::new("S0").verify(&token, 0), Err(AuthError::BadSignature));
}
