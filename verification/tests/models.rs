use axum_api::error::AppError;
use axum_api::models::{classify_register_error, login_refused, logout_cookie, registration_gate, session_cookie,
    user_id_for};

#[test]
fn session_cookie_max_age() {
    assert_eq!(session_cookie("tok", 1000, 400), "token=tok; HttpOnly; Secure; SameSite=Lax; Path=/; Max-Age=600");
    assert_eq!(session_cookie("tok", 10, 400), "token=tok; HttpOnly; Secure; SameSite=Lax; Path=/; Max-Age=0");
    assert_eq!(logout_cookie(), "token=; HttpOnly; Secure; SameSite=Lax; Path=/; Max-Age=0");
}

#[test]
fn registration_rules() {
    assert!(registration_gate(true).is_ok());
    match registration_gate(false) {
        Err(AppError::Authentication(m)) => assert_eq!(m, "Only admin can create new users"),
        _ => panic!("expected refusal"),
    }
    assert_eq!(user_id_for("alice"), "u_alice");
    match classify_register_error("alice", "error 1210: unique constraint violated") {
        AppError::Conflict(m) => assert_eq!(m, "User 'alice' already exists"),
        _ => panic!("expected conflict"),
    }
    assert!(matches!(classify_register_error("alice", "boom"), AppError::Internal(_)));
    assert!(matches!(login_refused(), AppError::Authorization(m) if m == "Unauthorized"));
}
