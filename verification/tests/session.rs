use axum_api::error::AppError;
use axum_api::session::{claims_verdict, request_token, Auth};

const NOW: u64 = 1_700_000_000;

#[test]
fn issued_token_decodes_to_its_claims() {
    let auth = Auth::new(b"top-secret", 7);
    let (token, exp) = auth.create_token("u_alice", NOW).expect("signing failed");
    assert_eq!(exp as u64, NOW + 7 * 86400);
    let claims = auth.decode_token(&token, NOW).expect("token refused");
    assert_eq!(claims.sub, "u_alice");
    assert_eq!(claims.exp, exp);
}

#[test]
fn issued_token_is_a_standard_hs256_jwt() {
    let auth = Auth::new(b"top-secret", 1);
    let (token, exp) = auth.create_token("u_bob", NOW).expect("signing failed");
    let mut validation = jsonwebtoken::Validation::default();
    validation.validate_exp = false;
    let data = jsonwebtoken::decode::<serde_json::Value>(
        &token,
        &jsonwebtoken::DecodingKey::from_secret(b"top-secret"),
        &validation,
    )
    .expect("not a valid HS256 token");
    assert_eq!(data.header.alg, jsonwebtoken::Algorithm::HS256);
    assert_eq!(data.claims["sub"], "u_bob");
    assert_eq!(data.claims["exp"].as_u64(), Some(exp as u64));
}

#[test]
fn token_accepted_until_leeway_after_expiry() {
    let auth = Auth::new(b"k", 1);
    let (token, exp) = auth.create_token("u_carol", NOW).unwrap();
    let exp = exp as u64;
    assert!(auth.decode_token(&token, exp).is_ok());
    assert!(auth.decode_token(&token, exp + 60).is_ok());
    assert!(matches!(auth.decode_token(&token, exp + 61),
        Err(AppError::Authentication(m)) if m == "invalid token"));
}

#[test]
fn token_refused_under_another_secret() {
    let (token, _) = Auth::new(b"one", 1).create_token("u_dave", NOW).unwrap();
    assert!(matches!(Auth::new(b"two", 1).decode_token(&token, NOW),
        Err(AppError::Authentication(m)) if m == "invalid token"));
    assert!(matches!(Auth::new(b"one", 1).decode_token("not.a.token", NOW),
        Err(AppError::Authentication(_))));
}

#[test]
fn token_expiry_out_of_range() {
    assert!(matches!(Auth::new(b"k", u64::MAX).create_token("u_x", NOW),
        Err(AppError::Internal(m)) if m == "token expiry out of range"));
}

#[test]
fn claims_verdict_cases() {
    let ok = claims_verdict(Ok((Some("u_a".to_string()), Some(100))), 160).expect("refused");
    assert_eq!((ok.sub.as_str(), ok.exp), ("u_a", 100));
    assert!(claims_verdict(Ok((Some("u_a".to_string()), Some(100))), 161).is_err());
    assert!(claims_verdict(Ok((None, Some(100))), 0).is_err());
    assert!(claims_verdict(Ok((Some("u_a".to_string()), None)), 0).is_err());
    assert!(matches!(claims_verdict(Err("bad signature".to_string()), 0),
        Err(AppError::Authentication(m)) if m == "invalid token"));
}

#[test]
fn request_token_sources() {
    assert_eq!(request_token(Some("Bearer abc.def"), None).as_deref(), Some("abc.def"));
    assert_eq!(request_token(Some("Bearer "), Some("token=zz")).as_deref(), Some(""));
    assert_eq!(request_token(Some("Basic xyz"), Some("a=b; token=t1; c=d")).as_deref(), Some("t1"));
    assert_eq!(request_token(None, Some("  token=t2\t")).as_deref(), Some("t2"));
    assert_eq!(request_token(None, Some("theme=dark;token=t3;token=t4")).as_deref(), Some("t3"));
    assert_eq!(request_token(None, Some("a=b; mytoken=x")), None);
    assert_eq!(request_token(None, Some("")), None);
    assert_eq!(request_token(None, None), None);
}
