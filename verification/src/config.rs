//! Service configuration from environment variables: defaults, the list of
//! client API keys, and the numeric settings, parsed as `str::parse` does.

use vstd::prelude::*;
use vstd::string::*;
use crate::naming::{force_lowercase, lower};
use crate::text::{str_eq, owned, push_char};

verus! {

/// Settings that can change while the service runs.
pub struct RuntimeConfig {
    pub user_login_allowed: bool,
}

impl Default for RuntimeConfig {
    fn default() -> (r: RuntimeConfig)
        ensures
            !r.user_login_allowed,
    {
        RuntimeConfig { user_login_allowed: false }
    }
}

/// The service's start-up settings.
pub struct AppConfig {
    pub jwt_secret: String,
    pub database_connection_string: String,
    pub database_name: String,
    pub database_user: String,
    pub database_password: String,
    pub client_api_keys: Vec<String>,
    pub host: String,
    pub port: u16,
    pub root_password: String,
    pub jwt_expiry_days: u64,
    pub object_store_backend: String,
    pub object_store_path: String,
    pub object_store_url: String,
    pub object_store_bucket: String,
    pub object_store_key: String,
    pub object_store_secret: String,
    pub object_store_region: String,
}

/// The value of the first variable named `name`.
pub open spec fn var_value(vars: Seq<(String, String)>, name: Seq<char>) -> Option<Seq<char>>
    decreases vars.len(),
{
    if vars.len() == 0 {
        None
    } else if vars[0].0@ == name {
        Some(vars[0].1@)
    } else {
        var_value(vars.drop_first(), name)
    }
}

/// The value of variable `name`, or `default`.
pub open spec fn var_or(vars: Seq<(String, String)>, name: Seq<char>, default: Seq<char>) -> Seq<char> {
    match var_value(vars, name) {
        Some(v) => v,
        None => default,
    }
}

/// The value of the first variable named `name`.
pub fn lookup_var<'a>(vars: &'a Vec<(String, String)>, name: &str) -> (r: Option<&'a String>)
    ensures
        match var_value(vars@, name@) {
            Some(v) => r matches Some(s) && s@ == v,
            None => r is None,
        },
{
    let n = vars.len();
    let mut i: usize = 0;
    proof { assert(vars@.skip(0) =~= vars@); }
    while i < n
        invariant
            n == vars@.len(),
            i <= n,
            var_value(vars@, name@) == var_value(vars@.skip(i as int), name@),
        decreases n - i,
    {
        proof {
            assert(vars@.skip(i as int)[0] == vars@[i as int]);
            assert(vars@.skip(i as int).drop_first() =~= vars@.skip(i + 1));
        }
        if str_eq(vars[i].0.as_str(), name) {
            return Some(&vars[i].1);
        }
        i = i + 1;
    }
    None
}

fn var_or_default(vars: &Vec<(String, String)>, name: &str, default: &str) -> (r: String)
    ensures
        r@ == var_or(vars@, name@, default@),
{
    match lookup_var(vars, name) {
        Some(v) => v.clone(),
        None => owned(default),
    }
}

/// Why a number did not parse (`core::num::IntErrorKind`).
#[derive(Debug, Clone, Copy, PartialEq, Eq, Structural)]
pub enum IntErrorKind {
    Empty,
    InvalidDigit,
    PosOverflow,
}

impl IntErrorKind {
    /// The message `ParseIntError` displays for this kind.
    pub fn message(self) -> (r: &'static str)
        ensures
            r@ == match self {
                IntErrorKind::Empty => "cannot parse integer from empty string"@,
                IntErrorKind::InvalidDigit => "invalid digit found in string"@,
                IntErrorKind::PosOverflow => "number too large to fit in target type"@,
            },
    {
        match self {
            IntErrorKind::Empty => "cannot parse integer from empty string",
            IntErrorKind::InvalidDigit => "invalid digit found in string",
            IntErrorKind::PosOverflow => "number too large to fit in target type",
        }
    }
}

/// `c` is an ASCII decimal digit.
pub open spec fn is_digit_char(c: char) -> bool {
    '0' <= c && c <= '9'
}

/// Reading `digits` after `acc`, left to right, with values above `max`
/// an overflow; the first bad character or overflow decides the error.
pub open spec fn read_digits(digits: Seq<char>, acc: int, max: int) -> Result<int, IntErrorKind>
    decreases digits.len(),
{
    if digits.len() == 0 {
        Ok(acc)
    } else if !is_digit_char(digits[0]) {
        Err(IntErrorKind::InvalidDigit)
    } else if acc * 10 + (digits[0] as int - '0' as int) > max {
        Err(IntErrorKind::PosOverflow)
    } else {
        read_digits(digits.drop_first(), acc * 10 + (digits[0] as int - '0' as int), max)
    }
}

/// What `str::parse` gives for an unsigned integer type whose largest value
/// is `max`: a leading `+` is allowed (but not alone), then only digits.
pub open spec fn parse_unsigned(s: Seq<char>, max: int) -> Result<int, IntErrorKind> {
    if s.len() == 0 {
        Err(IntErrorKind::Empty)
    } else if (s[0] == '+' || s[0] == '-') && s.len() == 1 {
        Err(IntErrorKind::InvalidDigit)
    } else if s[0] == '+' {
        read_digits(s.drop_first(), 0, max)
    } else {
        read_digits(s, 0, max)
    }
}

/// Parses an unsigned decimal no larger than `max`.
pub fn parse_unsigned_decimal(s: &str, max: u64) -> (r: Result<u64, IntErrorKind>)
    ensures
        match r {
            Ok(x) => parse_unsigned(s@, max as int) == Ok::<int, IntErrorKind>(x as int) && x <= max,
            Err(k) => parse_unsigned(s@, max as int) == Err::<int, IntErrorKind>(k),
        },
{
    let n = s.unicode_len();
    if n == 0 {
        return Err(IntErrorKind::Empty);
    }
    let first = s.get_char(0);
    if (first == '+' || first == '-') && n == 1 {
        return Err(IntErrorKind::InvalidDigit);
    }
    let start: usize = if first == '+' { 1 } else { 0 };
    proof {
        if first == '+' {
            assert(s@.drop_first() =~= s@.skip(1));
        } else {
            assert(s@ =~= s@.skip(0));
        }
    }
    let mut acc: u64 = 0;
    let mut i: usize = start;
    while i < n
        invariant
            n == s@.len(),
            start <= i <= n,
            acc <= max,
            parse_unsigned(s@, max as int) == read_digits(s@.skip(i as int), acc as int, max as int),
        decreases n - i,
    {
        let c = s.get_char(i);
        proof {
            assert(s@.skip(i as int)[0] == c);
            assert(s@.skip(i as int).drop_first() =~= s@.skip(i + 1));
        }
        if !('0' <= c && c <= '9') {
            return Err(IntErrorKind::InvalidDigit);
        }
        let d = (c as u32 - '0' as u32) as u64;
        if d > max || acc > (max - d) / 10 {
            proof {
                if d <= max {
                    assert(acc * 10 + d > max) by (nonlinear_arith)
                        requires acc > (max - d) / 10, d <= max, acc >= 0;
                }
            }
            return Err(IntErrorKind::PosOverflow);
        }
        proof {
            assert(acc * 10 + d <= max) by (nonlinear_arith)
                requires acc <= (max - d) / 10, d <= max, acc >= 0;
        }
        acc = acc * 10 + d;
        i = i + 1;
    }
    proof {
        assert(s@.skip(n as int).len() == 0);
    }
    Ok(acc)
}

/// The non-empty pieces between `:` separators of `cur` followed by `s`,
/// where `cur` is the piece being read.
pub open spec fn fields_from(s: Seq<char>, cur: Seq<char>) -> Seq<Seq<char>>
    decreases s.len(),
{
    if s.len() == 0 {
        if cur.len() == 0 { Seq::empty() } else { seq![cur] }
    } else if s[0] == ':' {
        let rest = fields_from(s.drop_first(), Seq::empty());
        if cur.len() == 0 { rest } else { seq![cur] + rest }
    } else {
        fields_from(s.drop_first(), cur.push(s[0]))
    }
}

/// The non-empty pieces of `s` between `:` separators, in order.
pub open spec fn colon_fields(s: Seq<char>) -> Seq<Seq<char>> {
    fields_from(s, Seq::empty())
}

/// The non-empty `:`-separated keys of `s`.
pub fn split_api_keys(s: &str) -> (r: Vec<String>)
    ensures
        r@.map_values(|k: String| k@) == colon_fields(s@),
{
    let n = s.unicode_len();
    let mut out: Vec<String> = Vec::new();
    let mut cur = String::new();
    let mut i: usize = 0;
    proof { assert(s@.skip(0) =~= s@); }
    while i < n
        invariant
            n == s@.len(),
            i <= n,
            out@.map_values(|k: String| k@) + fields_from(s@.skip(i as int), cur@) == colon_fields(s@),
        decreases n - i,
    {
        let c = s.get_char(i);
        let ghost before = out@.map_values(|k: String| k@);
        proof {
            assert(s@.skip(i as int)[0] == c);
            assert(s@.skip(i as int).drop_first() =~= s@.skip(i + 1));
        }
        if c == ':' {
            if cur.unicode_len() > 0 {
                let piece = cur;
                let ghost pv = piece@;
                out.push(piece);
                proof {
                    assert(out@.map_values(|k: String| k@) =~= before.push(pv));
                    let rest = fields_from(s@.skip(i + 1), Seq::empty());
                    assert(before + (seq![pv] + rest) =~= before.push(pv) + rest);
                }
            }
            cur = String::new();
        } else {
            push_char(&mut cur, c);
        }
        i = i + 1;
    }
    proof {
        let tail = fields_from(s@.skip(n as int), cur@);
        assert(s@.skip(n as int).len() == 0);
        if cur@.len() > 0 {
            assert(tail == seq![cur@]);
        } else {
            assert(tail =~= Seq::<Seq<char>>::empty());
            assert(out@.map_values(|k: String| k@) + tail =~= out@.map_values(|k: String| k@));
        }
    }
    if cur.unicode_len() > 0 {
        let ghost before = out@.map_values(|k: String| k@);
        let ghost pv = cur@;
        out.push(cur);
        proof {
            assert(out@.map_values(|k: String| k@) =~= before.push(pv));
            assert(before + seq![pv] =~= before.push(pv));
        }
    }
    out
}

/// `needle` occurs in `hay` at position `i`.
pub open spec fn occurs_at(hay: Seq<char>, needle: Seq<char>, i: int) -> bool {
    0 <= i && i + needle.len() <= hay.len() && hay.subrange(i, i + needle.len()) == needle
}

/// `needle` occurs in `hay`.
pub open spec fn seq_contains(hay: Seq<char>, needle: Seq<char>) -> bool {
    exists|i: int| #[trigger] occurs_at(hay, needle, i)
}

/// Whether `needle` occurs in `hay`.
pub fn str_contains(hay: &str, needle: &str) -> (r: bool)
    ensures
        r == seq_contains(hay@, needle@),
{
    let n = hay.unicode_len();
    let m = needle.unicode_len();
    if m > n {
        proof {
            assert forall|i: int| !#[trigger] occurs_at(hay@, needle@, i) by {}
        }
        return false;
    }
    if m == 0 {
        assert(occurs_at(hay@, needle@, 0)) by {
            assert(hay@.subrange(0, 0) =~= needle@);
        }
        return true;
    }
    let mut i: usize = 0;
    while i <= n - m
        invariant
            n == hay@.len(),
            m == needle@.len(),
            0 < m <= n,
            i <= n - m + 1,
            forall|j: int| 0 <= j < i ==> !#[trigger] occurs_at(hay@, needle@, j),
        decreases n - m + 1 - i,
    {
        let piece = hay.substring_char(i, i + m);
        if str_eq(piece, needle) {
            assert(occurs_at(hay@, needle@, i as int));
            return true;
        }
        i = i + 1;
    }
    proof {
        assert forall|j: int| !#[trigger] occurs_at(hay@, needle@, j) by {
            if 0 <= j && j + m <= n {
                assert(j < i);
            }
        }
    }
    false
}

/// The start-up settings read from `vars`, with their defaults.
pub open spec fn config_from(vars: Seq<(String, String)>, c: AppConfig) -> bool {
    &&& c.jwt_secret@ == var_or(vars, "JWT_SECRET"@, "default_jwt_secret_change_in_production"@)
    &&& c.database_connection_string@ == var_or(vars, "DB_CONNECTION_STRING"@, "./data"@)
    &&& c.database_name@ == var_or(vars, "DB_NAME"@, "unnamed"@)
    &&& c.database_user@ == var_or(vars, "DB_USER"@, "root"@)
    &&& c.database_password@ == var_or(vars, "DB_PASSWORD"@, ""@)
    &&& c.client_api_keys@.map_values(|k: String| k@) == colon_fields(var_or(vars, "CLIENT_API_KEYS"@, ""@))
    &&& c.root_password@ == var_or(vars, "ROOT_PASSWORD"@, "changeme"@)
    &&& parse_unsigned(var_or(vars, "JWT_EXPIRY_DAYS"@, "90"@), u64::MAX as int) == Ok::<int, IntErrorKind>(c.jwt_expiry_days as int)
    &&& c.host@ == var_or(vars, "HOST"@, "0.0.0.0"@)
    &&& parse_unsigned(var_or(vars, "PORT"@, "3069"@), u16::MAX as int) == Ok::<int, IntErrorKind>(c.port as int)
    &&& c.object_store_backend@ == var_or(vars, "OBJECT_STORE_BACKEND"@, ""@)
    &&& c.object_store_path@ == var_or(vars, "OBJECT_STORE_PATH"@, "./data"@)
    &&& c.object_store_url@ == var_or(vars, "OBJECT_STORE_URL"@, ""@)
    &&& c.object_store_bucket@ == var_or(vars, "OBJECT_STORE_BUCKET"@, ""@)
    &&& c.object_store_key@ == var_or(vars, "OBJECT_STORE_KEY"@, ""@)
    &&& c.object_store_secret@ == var_or(vars, "OBJECT_STORE_SECRET"@, ""@)
    &&& c.object_store_region@ == var_or(vars, "OBJECT_STORE_REGION"@, "us-east-1"@)
}

impl AppConfig {
    /// Reads the settings from `vars` (name, value pairs), defaulting the
    /// missing ones; fails when the expiry days or the port is not a number
    /// of its type.
    pub fn from_vars(vars: &Vec<(String, String)>) -> (r: Result<AppConfig, IntErrorKind>)
        ensures
            match r {
                Ok(c) => config_from(vars@, c),
                Err(k) => parse_unsigned(var_or(vars@, "JWT_EXPIRY_DAYS"@, "90"@), u64::MAX as int) == Err::<int, IntErrorKind>(k)
                    || (parse_unsigned(var_or(vars@, "JWT_EXPIRY_DAYS"@, "90"@), u64::MAX as int) is Ok
                        && parse_unsigned(var_or(vars@, "PORT"@, "3069"@), u16::MAX as int) == Err::<int, IntErrorKind>(k)),
            },
            r is Ok <==> parse_unsigned(var_or(vars@, "JWT_EXPIRY_DAYS"@, "90"@), u64::MAX as int) is Ok
                && parse_unsigned(var_or(vars@, "PORT"@, "3069"@), u16::MAX as int) is Ok,
    {
        let jwt_secret = var_or_default(vars, "JWT_SECRET", "default_jwt_secret_change_in_production");
        let database_connection_string = var_or_default(vars, "DB_CONNECTION_STRING", "./data");
        let database_name = var_or_default(vars, "DB_NAME", "unnamed");
        let database_user = var_or_default(vars, "DB_USER", "root");
        let database_password = var_or_default(vars, "DB_PASSWORD", "");
        let keys_text = var_or_default(vars, "CLIENT_API_KEYS", "");
        let client_api_keys = split_api_keys(keys_text.as_str());
        let root_password = var_or_default(vars, "ROOT_PASSWORD", "changeme");
        let days_text = var_or_default(vars, "JWT_EXPIRY_DAYS", "90");
        let jwt_expiry_days = parse_unsigned_decimal(days_text.as_str(), u64::MAX)?;
        let host = var_or_default(vars, "HOST", "0.0.0.0");
        let port_text = var_or_default(vars, "PORT", "3069");
        let port = parse_unsigned_decimal(port_text.as_str(), 65535)? as u16;
        let object_store_backend = var_or_default(vars, "OBJECT_STORE_BACKEND", "");
        let object_store_path = var_or_default(vars, "OBJECT_STORE_PATH", "./data");
        let object_store_url = var_or_default(vars, "OBJECT_STORE_URL", "");
        let object_store_bucket = var_or_default(vars, "OBJECT_STORE_BUCKET", "");
        let object_store_key = var_or_default(vars, "OBJECT_STORE_KEY", "");
        let object_store_secret = var_or_default(vars, "OBJECT_STORE_SECRET", "");
        let object_store_region = var_or_default(vars, "OBJECT_STORE_REGION", "us-east-1");
        Ok(AppConfig {
            jwt_secret,
            database_connection_string,
            database_name,
            database_user,
            database_password,
            client_api_keys,
            host,
            port,
            root_password,
            jwt_expiry_days,
            object_store_backend,
            object_store_path,
            object_store_url,
            object_store_bucket,
            object_store_key,
            object_store_secret,
            object_store_region,
        })
    }

    /// The runtime settings from `vars`: registration is allowed unless
    /// `API_ALLOW_USER_REGISTRATION` is set without containing `true` in any case.
    pub fn runtime_from_vars(vars: &Vec<(String, String)>) -> (r: RuntimeConfig)
        ensures
            r.user_login_allowed == match var_value(vars@, "API_ALLOW_USER_REGISTRATION"@) {
                Some(v) => seq_contains(lower(v), "true"@),
                None => true,
            },
    {
        match lookup_var(vars, "API_ALLOW_USER_REGISTRATION") {
            Some(v) => {
                let l = force_lowercase(v.as_str());
                RuntimeConfig { user_login_allowed: str_contains(l.as_str(), "true") }
            },
            None => RuntimeConfig { user_login_allowed: true },
        }
    }
}

} // verus!
