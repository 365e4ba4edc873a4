//! Request, response and record shapes of the account endpoints and the
//! deployment resources, with the session cookie and account rules.

use vstd::prelude::*;
use vstd::string::*;
use std::collections::HashMap;
use crate::error::AppError;
use crate::config::{seq_contains, str_contains};
use crate::text::{concat_str, owned, push_decimal, decimal, starts_with, seq_starts_with};

verus! {

/// Rollout status of a deployment.
pub struct Status {
    pub ready_replicas: u32,
    pub available_replicas: u32,
    pub conditions: Vec<String>,
}

/// Employment status of a user record.
#[derive(Debug, Clone, Copy, PartialEq, Eq, Structural)]
pub enum UserStatus {
    Fired,
    Replaced,
    Normal,
}

/// A deployment, keyed by its name.
pub struct Deployment {
    pub name: String,
    pub creation_timestamp: String,
    pub status: Option<UserStatus>,
    pub additional_info: Option<String>,
}

/// A user record, keyed by e-mail address.
pub struct User {
    pub email: String,
    pub metadata: HashMap<String, String>,
    pub password_hash: Option<String>,
}

/// The e-mail address of the authenticated caller.
pub struct AuthenticatedUserEmail(pub String);

/// The record of the authenticated caller.
pub struct AuthenticatedUser(pub User);

/// A registration request.
pub struct RegisterRequest {
    pub email: String,
    pub password: String,
    pub invite_id: String,
    pub invite_key: String,
    pub uid: String,
}

/// A login request.
pub struct LoginRequest {
    pub uid: String,
    pub password: String,
}

/// The answer to a successful login.
pub struct LoginResponse {
    pub token: String,
}

/// The claims of a session token: its subject and expiry (seconds since the epoch).
pub struct Claims {
    pub sub: String,
    pub exp: usize,
}

/// The refusal of a registration while self-registration is off.
pub fn registration_gate(user_login_allowed: bool) -> (r: Result<(), AppError>)
    ensures
        r is Ok <==> user_login_allowed,
        r matches Err(e) ==> e matches AppError::Authentication(m) && m@ == "Only admin can create new users"@,
{
    if user_login_allowed {
        Ok(())
    } else {
        Err(AppError::Authentication(String::from_str("Only admin can create new users")))
    }
}

/// The id of the user registered as `username`.
pub fn user_id_for(username: &str) -> (r: String)
    ensures
        r@ == "u_"@ + username@,
{
    concat_str("u_", username)
}

/// The document key of a user named by `user_id`: `u_` is prepended
/// unless it is already there.
pub open spec fn user_key_of(user_id: Seq<char>) -> Seq<char> {
    if seq_starts_with(user_id, "u_"@) { user_id } else { "u_"@ + user_id }
}

/// The key under which the user `user_id` (with or without `u_`) is stored.
pub fn user_document_key(user_id: &str) -> (r: String)
    ensures
        r@ == user_key_of(user_id@),
{
    if starts_with(user_id, "u_") { owned(user_id) } else { concat_str("u_", user_id) }
}

/// Looking a user up by its key finds the same user: the key is a fixed point.
pub proof fn law_user_key_idempotent(user_id: Seq<char>)
    ensures
        user_key_of(user_key_of(user_id)) == user_key_of(user_id),
{
    reveal_strlit("u_");
    if !seq_starts_with(user_id, "u_"@) {
        let k = "u_"@ + user_id;
        assert(k.subrange(0, 2) =~= "u_"@);
    }
}

/// A failed account insert: a uniqueness violation means the user exists.
pub fn classify_register_error(uid: &str, message: &str) -> (r: AppError)
    ensures
        if seq_contains(message@, "unique constraint"@) || seq_contains(message@, "1210"@) {
            r matches AppError::Conflict(m) && m@ == "User '"@ + uid@ + "' already exists"@
        } else {
            r matches AppError::Internal(m) && m@ == message@
        },
{
    if str_contains(message, "unique constraint") || str_contains(message, "1210") {
        let mut m = concat_str("User '", uid);
        m.append("' already exists");
        AppError::Conflict(m)
    } else {
        AppError::Internal(owned(message))
    }
}

/// The refusal of a login, whatever went wrong.
pub fn login_refused() -> (r: AppError)
    ensures
        r matches AppError::Authorization(m) && m@ == "Unauthorized"@,
{
    AppError::Authorization(String::from_str("Unauthorized"))
}

/// What `bcrypt::verify` answers for `password` against the stored hash
/// `hash`: `Some(matches)`, or `None` when the hash cannot be read.
pub uninterp spec fn bcrypt_verified(password: Seq<char>, hash: Seq<char>) -> Option<bool>;

/// Checks a password against a stored hash with `bcrypt::verify`, which
/// rehashes `password` with the cost and salt read from `hash`. Its answer
/// depends on the two texts alone; a hash that is not 60 ASCII bytes (so
/// any hash of other than 60 characters) is refused as malformed.
#[verifier::external_body]
pub(crate) fn verify_password(password: &str, hash: &str) -> (r: Result<bool, String>)
    ensures
        match r {
            Ok(b) => bcrypt_verified(password@, hash@) == Some(b),
            Err(_) => bcrypt_verified(password@, hash@) is None,
        },
        hash@.len() != 60 ==> r is Err,
{
    match bcrypt::verify(password, hash) {
        Ok(b) => Ok(b),
        Err(e) => Err(e.to_string()),
    }
}

/// The outcome of a login given what the password check answered: only a
/// match lets the caller in; an unreadable stored hash is a server fault.
pub fn login_verdict(verified: Result<bool, String>) -> (r: Result<(), AppError>)
    ensures
        match verified {
            Ok(true) => r is Ok,
            Ok(false) => r matches Err(AppError::Authorization(m)) && m@ == "Unauthorized"@,
            Err(t) => r matches Err(AppError::Internal(m)) && m@ == t@,
        },
{
    match verified {
        Ok(true) => Ok(()),
        Ok(false) => Err(login_refused()),
        Err(t) => Err(AppError::Internal(t)),
    }
}

/// The login check of a user whose stored password hash is `stored_hash`
/// (`None` when there is no such user): refused alike for an unknown user
/// and a wrong password.
pub fn check_login(stored_hash: Option<&str>, password: &str) -> (r: Result<(), AppError>)
    ensures
        match stored_hash {
            None => r matches Err(AppError::Authorization(m)) && m@ == "Unauthorized"@,
            Some(h) => match bcrypt_verified(password@, h@) {
                Some(true) => r is Ok,
                Some(false) => r matches Err(AppError::Authorization(m)) && m@ == "Unauthorized"@,
                None => r matches Err(AppError::Internal(_)),
            },
        },
{
    match stored_hash {
        None => Err(login_refused()),
        Some(h) => login_verdict(verify_password(password, h)),
    }
}

/// The expiry (seconds since the epoch) of a session token issued at `now`
/// for `days` days; `None` when it does not fit.
pub fn session_expiry(now: u64, days: u64) -> (r: Option<u64>)
    ensures
        match r {
            Some(e) => e == now + days * 86400,
            None => now + days * 86400 > u64::MAX,
        },
{
    match days.checked_mul(86400) {
        Some(d) => now.checked_add(d),
        None => {
            assert(days * 86400 > u64::MAX);
            None
        },
    }
}

/// Seconds a token expiring at `exp` has left at `now`.
pub open spec fn max_age(exp: usize, now: usize) -> nat {
    if exp >= now { (exp - now) as nat } else { 0 }
}

/// The cookie carrying a session token that expires at `exp`, set at `now`.
pub fn session_cookie(token: &str, exp: usize, now: usize) -> (r: String)
    ensures
        r@ == "token="@ + token@ + "; HttpOnly; Secure; SameSite=Lax; Path=/; Max-Age="@ + decimal(max_age(exp, now)),
{
    let age = exp.saturating_sub(now);
    let mut s = concat_str("token=", token);
    s.append("; HttpOnly; Secure; SameSite=Lax; Path=/; Max-Age=");
    push_decimal(&mut s, age as u64);
    s
}

/// The cookie that ends a session.
pub fn logout_cookie() -> (r: &'static str)
    ensures
        r@ == "token=; HttpOnly; Secure; SameSite=Lax; Path=/; Max-Age=0"@,
{
    "token=; HttpOnly; Secure; SameSite=Lax; Path=/; Max-Age=0"
}

} // verus!
