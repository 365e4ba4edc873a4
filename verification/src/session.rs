//! Session tokens: HS256-signed JWTs that carry the user id as subject and
//! an expiry in seconds since the epoch. A token is issued for the
//! configured number of days and accepted until a minute past its expiry.

use vstd::prelude::*;
use vstd::string::*;
use crate::error::AppError;
use crate::models::{Claims, session_expiry, bcrypt_verified, verify_password};
use crate::kinds::hash_password;
use crate::text::{push_char, seq_starts_with, starts_with};

verus! {

/// Seconds by which a token may be past its expiry and still be accepted
/// (jsonwebtoken's default leeway).
pub const JWT_LEEWAY_SECS: u64 = 60;

/// The token that `jsonwebtoken::encode` makes, with the default header
/// (HS256), for the claims `{"sub": sub, "exp": exp}` under `secret`.
pub uninterp spec fn hs256_token(sub: Seq<char>, exp: u64, secret: Seq<u8>) -> Seq<char>;

/// What `jsonwebtoken::decode` accepts of `token` under `secret`, with the
/// default validation but for the expiry time: `None` where it refuses the
/// token (format, algorithm, signature, a missing or non-numeric `exp`, an
/// `aud` claim); else the `sub` claim where it is a string and the `exp`
/// claim where it is an integer.
pub uninterp spec fn hs256_claims(token: Seq<char>, secret: Seq<u8>) -> Option<(Option<Seq<char>>, Option<u64>)>;

/// The view of an optional string.
pub open spec fn opt_text(s: Option<String>) -> Option<Seq<char>> {
    match s {
        Some(t) => Some(t@),
        None => None,
    }
}

/// `jsonwebtoken::encode` with `Header::default()` (HS256) of the claims
/// `sub` and `exp`, keyed by `EncodingKey::from_secret(secret)`. With an
/// HMAC key and the aws-lc provider the crate neither refuses the key nor
/// fails to sign, so the result is always the token; decoding it under the
/// same secret gives back both claims.
#[verifier::external_body]
fn sign_token(sub: &str, exp: u64, secret: &[u8]) -> (r: Result<String, String>)
    ensures
        r is Ok,
        r matches Ok(t) ==> t@ == hs256_token(sub@, exp, secret@),
        r matches Ok(t) ==> hs256_claims(t@, secret@) == Some((Some(sub@), Some(exp))),
{
    let mut claims = serde_json::Map::new();
    claims.insert("sub".to_string(), serde_json::Value::from(sub));
    claims.insert("exp".to_string(), serde_json::Value::from(exp));
    let key = jsonwebtoken::EncodingKey::from_secret(secret);
    jsonwebtoken::encode(&jsonwebtoken::Header::default(), &claims, &key).map_err(|e| e.to_string())
}

/// `jsonwebtoken::decode` of `token` into a JSON object, keyed by
/// `DecodingKey::from_secret(secret)`, with `Validation::default()` but
/// `validate_exp` off; the `sub` claim as a string and the `exp` claim as
/// an integer are read from the decoded object. The outcome is named
/// `hs256_claims`.
#[verifier::external_body]
fn token_claims(token: &str, secret: &[u8]) -> (r: Result<(Option<String>, Option<u64>), String>)
    ensures
        match r {
            Ok((s, e)) => hs256_claims(token@, secret@) == Some((opt_text(s), e)),
            Err(_) => hs256_claims(token@, secret@) is None,
        },
{
    let mut validation = jsonwebtoken::Validation::default();
    validation.validate_exp = false;
    let key = jsonwebtoken::DecodingKey::from_secret(secret);
    let data = jsonwebtoken::decode::<serde_json::Map<String, serde_json::Value>>(token, &key, &validation)
        .map_err(|e| e.to_string())?;
    let sub = data.claims.get("sub").and_then(serde_json::Value::as_str).map(str::to_string);
    let exp = data.claims.get("exp").and_then(serde_json::Value::as_u64);
    Ok((sub, exp))
}

/// Whether a token expiring at `exp` is refused at `now`: it is more than
/// the leeway past its expiry.
pub open spec fn token_expired(exp: u64, now: u64) -> bool {
    exp + JWT_LEEWAY_SECS < now
}

/// The session that a decoded token gives at `now`: its subject and expiry,
/// where the token was accepted, carries a string subject and an integer
/// expiry that fits a `usize`, and has not expired.
pub open spec fn session_of(decoded: Option<(Option<Seq<char>>, Option<u64>)>, now: u64) -> Option<(Seq<char>, u64)> {
    match decoded {
        Some((Some(s), Some(e))) => if token_expired(e, now) || e > usize::MAX { None } else { Some((s, e)) },
        _ => None,
    }
}

/// The view of what `token_claims` returns.
pub open spec fn decoded_view(d: Result<(Option<String>, Option<u64>), String>) -> Option<(Option<Seq<char>>, Option<u64>)> {
    match d {
        Ok((s, e)) => Some((opt_text(s), e)),
        Err(_) => None,
    }
}

/// The claims of a decoded token at `now`, or the refusal `invalid token`.
pub fn claims_verdict(decoded: Result<(Option<String>, Option<u64>), String>, now: u64) -> (r: Result<Claims, AppError>)
    ensures
        match session_of(decoded_view(decoded), now) {
            Some((s, e)) => r matches Ok(c) && c.sub@ == s && c.exp == e,
            None => r matches Err(AppError::Authentication(m)) && m@ == "invalid token"@,
        },
{
    match decoded {
        Ok((Some(sub), Some(exp))) => {
            if (now > exp && now - exp > JWT_LEEWAY_SECS) || exp > usize::MAX as u64 {
                Err(AppError::Authentication(String::from_str("invalid token")))
            } else {
                Ok(Claims { sub, exp: exp as usize })
            }
        },
        _ => Err(AppError::Authentication(String::from_str("invalid token"))),
    }
}

/// The signing secret and lifetime of session tokens.
pub struct Auth {
    secret: Vec<u8>,
    expiry_days: u64,
}

impl Auth {
    /// The signing secret.
    pub closed spec fn secret(&self) -> Seq<u8> {
        self.secret@
    }

    /// Days a token stays valid.
    pub closed spec fn lifetime_days(&self) -> u64 {
        self.expiry_days
    }

    /// Session tokens signed with `jwt_secret`, valid for `expiry_days` days.
    pub fn new(jwt_secret: &[u8], expiry_days: u64) -> (r: Auth)
        ensures
            r.secret() == jwt_secret@,
            r.lifetime_days() == expiry_days,
    {
        Auth { secret: vstd::slice::slice_to_vec(jwt_secret), expiry_days }
    }

    /// A bcrypt hash of `password` at the default cost, which `password`
    /// verifies against; a failure to draw the random salt is internal.
    pub fn hash_password(&self, password: &str) -> (r: Result<String, AppError>)
        ensures
            r matches Ok(h) ==> h@.len() == 60 && bcrypt_verified(password@, h@) == Some(true),
            r matches Err(e) ==> e is Internal,
    {
        match hash_password(password) {
            Ok(h) => Ok(h),
            Err(m) => Err(AppError::Internal(m)),
        }
    }

    /// Whether `password` matches the bcrypt hash `hash`; a hash that cannot
    /// be read is internal.
    pub fn verify_password(&self, password: &str, hash: &str) -> (r: Result<bool, AppError>)
        ensures
            match bcrypt_verified(password@, hash@) {
                Some(b) => r == Ok::<bool, AppError>(b),
                None => r matches Err(AppError::Internal(_)),
            },
    {
        match verify_password(password, hash) {
            Ok(b) => Ok(b),
            Err(m) => Err(AppError::Internal(m)),
        }
    }

    /// A token for `user_id` issued at `now`, with its expiry: `now` plus
    /// the lifetime; refused as internal where that does not fit a `usize`. The token
    /// is accepted for `user_id` until the leeway past its expiry has gone
    /// by, and refused after that.
    pub fn create_token(&self, user_id: &str, now: u64) -> (r: Result<(String, usize), AppError>)
        ensures
            now + self.lifetime_days() * 86400 > usize::MAX <==> r is Err,
            r matches Err(e) ==> e matches AppError::Internal(m) && m@ == "token expiry out of range"@,
            r matches Ok((t, exp)) ==> {
                &&& exp == now + self.lifetime_days() * 86400
                &&& t@ == hs256_token(user_id@, exp as u64, self.secret())
                &&& forall|later: u64| #[trigger] session_of(hs256_claims(t@, self.secret()), later)
                        == if later <= exp + JWT_LEEWAY_SECS { Some((user_id@, exp as u64)) } else { None }
            },
    {
        match session_expiry(now, self.expiry_days) {
            None => Err(AppError::Internal(String::from_str("token expiry out of range"))),
            Some(exp) if exp > usize::MAX as u64 => Err(AppError::Internal(String::from_str("token expiry out of range"))),
            Some(exp) => {
                let signed = sign_token(user_id, exp, self.secret.as_slice());
                match signed {
                    Ok(t) => Ok((t, exp as usize)),
                    Err(m) => Err(AppError::Internal(m)),
                }
            },
        }
    }

    /// The claims of `token` at `now`: it must carry this secret's
    /// signature, a string subject and an integer expiry not more than the
    /// leeway in the past; else `invalid token`.
    pub fn decode_token(&self, token: &str, now: u64) -> (r: Result<Claims, AppError>)
        ensures
            match session_of(hs256_claims(token@, self.secret()), now) {
                Some((s, e)) => r matches Ok(c) && c.sub@ == s && c.exp == e,
                None => r matches Err(AppError::Authentication(m)) && m@ == "invalid token"@,
            },
    {
        let decoded = token_claims(token, self.secret.as_slice());
        claims_verdict(decoded, now)
    }
}


/// A blank in a cookie header: a space or a tab.
pub open spec fn is_blank(c: char) -> bool {
    c == ' ' || c == '\t'
}

/// `s` without its leading blanks.
pub open spec fn trim_start_blank(s: Seq<char>) -> Seq<char>
    decreases s.len(),
{
    if s.len() > 0 && is_blank(s[0]) { trim_start_blank(s.drop_first()) } else { s }
}

/// `s` without its trailing blanks.
pub open spec fn trim_end_blank(s: Seq<char>) -> Seq<char>
    decreases s.len(),
{
    if s.len() > 0 && is_blank(s.last()) { trim_end_blank(s.drop_last()) } else { s }
}

/// The value of a cookie pair `token=<value>`, the pair trimmed of blanks
/// on both sides; `None` for any other pair.
pub open spec fn pair_token(p: Seq<char>) -> Option<Seq<char>> {
    let t = trim_end_blank(trim_start_blank(p));
    if seq_starts_with(t, "token="@) { Some(t.subrange(6, t.len() as int)) } else { None }
}

/// The first `token` value of the cookie header `s`, scanning from index
/// `i` with the current pair starting at `start`; pairs are separated by
/// `;`.
pub open spec fn cookie_scan(s: Seq<char>, start: int, i: int) -> Option<Seq<char>>
    decreases s.len() - i,
{
    if i >= s.len() {
        pair_token(s.subrange(start, s.len() as int))
    } else if s[i] == ';' {
        match pair_token(s.subrange(start, i)) {
            Some(v) => Some(v),
            None => cookie_scan(s, i + 1, i + 1),
        }
    } else {
        cookie_scan(s, start, i + 1)
    }
}

/// The view of an optional string slice.
pub open spec fn opt_str(s: Option<&str>) -> Option<Seq<char>> {
    match s {
        Some(t) => Some(t@),
        None => None,
    }
}

/// The session token of a request: the rest of an `Authorization` header
/// that starts with `Bearer `, else the value of the first `token` pair of
/// its `Cookie` header.
pub open spec fn request_token_of(authorization: Option<Seq<char>>, cookie: Option<Seq<char>>) -> Option<Seq<char>> {
    let bearer = match authorization {
        Some(a) => if seq_starts_with(a, "Bearer "@) { Some(a.subrange(7, a.len() as int)) } else { None },
        None => None,
    };
    match bearer {
        Some(t) => Some(t),
        None => match cookie {
            Some(c) => cookie_scan(c, 0, 0),
            None => None,
        },
    }
}

/// The characters of `s` from `from` to `to`, as a new string.
fn copy_range(s: &str, from: usize, to: usize) -> (r: String)
    requires
        from <= to <= s@.len(),
    ensures
        r@ == s@.subrange(from as int, to as int),
{
    let mut v = String::new();
    let mut k = from;
    while k < to
        invariant
            from <= k <= to,
            to <= s@.len(),
            v@ == s@.subrange(from as int, k as int),
        decreases to - k,
    {
        push_char(&mut v, s.get_char(k));
        assert(v@ =~= s@.subrange(from as int, (k + 1) as int));
        k = k + 1;
    }
    v
}

fn blank(c: char) -> (r: bool)
    ensures
        r == is_blank(c),
{
    c == ' ' || c == '\t'
}

/// The `token` value of the cookie pair `s[start..end]`, if it is one.
fn pair_value(s: &str, start: usize, end: usize) -> (r: Option<String>)
    requires
        start <= end <= s@.len(),
    ensures
        opt_text(r) == pair_token(s@.subrange(start as int, end as int)),
{
    let ghost p = s@.subrange(start as int, end as int);
    let mut a = start;
    while a < end && blank(s.get_char(a))
        invariant
            start <= a <= end,
            end <= s@.len(),
            trim_start_blank(p) == trim_start_blank(s@.subrange(a as int, end as int)),
        decreases end - a,
    {
        assert(s@.subrange(a as int, end as int).drop_first() =~= s@.subrange(a + 1, end as int));
        a = a + 1;
    }
    assert(trim_start_blank(p) == s@.subrange(a as int, end as int));
    let mut b = end;
    while b > a && blank(s.get_char(b - 1))
        invariant
            a <= b <= end,
            end <= s@.len(),
            trim_end_blank(s@.subrange(a as int, end as int)) == trim_end_blank(s@.subrange(a as int, b as int)),
        decreases b - a,
    {
        assert(s@.subrange(a as int, b as int).drop_last() =~= s@.subrange(a as int, b - 1));
        b = b - 1;
    }
    let ghost t = s@.subrange(a as int, b as int);
    assert(trim_end_blank(trim_start_blank(p)) == t);
    proof { reveal_strlit("token="); }
    let key = "token=";
    if b - a < 6 {
        return None;
    }
    let mut k: usize = 0;
    while k < 6
        invariant
            k <= 6,
            a + 6 <= b,
            b <= s@.len(),
            key@ == "token="@,
            key@.len() == 6,
            t == s@.subrange(a as int, b as int),
            p == s@.subrange(start as int, end as int),
            trim_end_blank(trim_start_blank(p)) == t,
            forall|j: int| 0 <= j < k ==> s@[a + j] == key@[j],
        decreases 6 - k,
    {
        if s.get_char(a + k) != key.get_char(k) {
            assert(t.subrange(0, 6)[k as int] != "token="@[k as int]);
            return None;
        }
        k = k + 1;
    }
    assert(t.subrange(0, 6) =~= "token="@);
    let v = copy_range(s, a + 6, b);
    assert(v@ =~= t.subrange(6, t.len() as int));
    Some(v)
}

/// The session token of a request, from the text of its `Authorization`
/// and `Cookie` headers: a bearer token first, else the cookie `token`.
pub fn request_token(authorization: Option<&str>, cookie: Option<&str>) -> (r: Option<String>)
    ensures
        opt_text(r) == request_token_of(opt_str(authorization), opt_str(cookie)),
{
    proof { reveal_strlit("Bearer "); }
    if let Some(a) = authorization {
        if starts_with(a, "Bearer ") {
            return Some(copy_range(a, 7, a.unicode_len()));
        }
    }
    let ghost want = request_token_of(opt_str(authorization), opt_str(cookie));
    assert(want == match cookie {
        Some(c) => cookie_scan(c@, 0, 0),
        None => None::<Seq<char>>,
    });
    match cookie {
        None => None,
        Some(c) => {
            let n = c.unicode_len();
            let mut start: usize = 0;
            let mut i: usize = 0;
            while i < n
                invariant
                    start <= i <= n,
                    n == c@.len(),
                    cookie_scan(c@, 0, 0) == cookie_scan(c@, start as int, i as int),
                    want == cookie_scan(c@, 0, 0),
                    want == request_token_of(opt_str(authorization), opt_str(cookie)),
                decreases n - i,
            {
                if c.get_char(i) == ';' {
                    let v = pair_value(c, start, i);
                    if v.is_some() {
                        assert(c@[i as int] == ';');
                        assert(cookie_scan(c@, start as int, i as int) == opt_text(v));
                        return v;
                    }
                    start = i + 1;
                }
                i = i + 1;
            }
            pair_value(c, start, n)
        },
    }
}

} // verus!
