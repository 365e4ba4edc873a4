//! Identifier rules for users, groups and repository credentials.
//!
//! An identifier is first lowercased (ASCII letters only), then checked in
//! this order: at most 63 characters, at least 2 characters, only ASCII
//! letters, digits and the kind's special characters, no leading digit, and
//! (for prefixed kinds) no leading `-`. The first failing rule decides the
//! error.

use vstd::prelude::*;
use vstd::string::*;
use crate::text::{owned, push_char, seq_strip_prefix, strip_prefix_or_self, seq_starts_with};

verus! {

/// Longest accepted identifier.
pub const MAX_ID_LEN: usize = 63;
/// Shortest accepted identifier.
pub const MIN_ID_LEN: usize = 2;

/// The rule an identifier broke.
#[derive(Debug, Clone, Copy, PartialEq, Eq, Structural)]
pub enum NamingError {
    TooLong,
    TooShort,
    InvalidCharacter,
    StartsWithDigit,
    StartsWithHyphen,
}

pub open spec fn is_upper(c: char) -> bool {
    'A' <= c && c <= 'Z'
}

pub open spec fn is_digit(c: char) -> bool {
    '0' <= c && c <= '9'
}

pub open spec fn is_alnum(c: char) -> bool {
    is_digit(c) || is_upper(c) || ('a' <= c && c <= 'z')
}

/// ASCII lowercase of one character; other characters are unchanged.
pub open spec fn lower_char(c: char) -> char {
    if is_upper(c) { ((c as u32) + 32) as char } else { c }
}

/// ASCII lowercase of a string.
pub open spec fn lower(s: Seq<char>) -> Seq<char> {
    Seq::new(s.len(), |i: int| lower_char(s[i]))
}

/// Whether `c` may appear in an identifier whose special characters are `specials`.
pub open spec fn allowed_char(c: char, specials: Seq<char>) -> bool {
    is_alnum(c) || specials.contains(c)
}

/// The first rule that `s` breaks, if any.
pub open spec fn first_violation(s: Seq<char>, specials: Seq<char>, no_leading_hyphen: bool) -> Option<NamingError> {
    if s.len() > MAX_ID_LEN {
        Some(NamingError::TooLong)
    } else if s.len() < MIN_ID_LEN {
        Some(NamingError::TooShort)
    } else if exists|i: int| 0 <= i < s.len() && !allowed_char(#[trigger] s[i], specials) {
        Some(NamingError::InvalidCharacter)
    } else if is_digit(s[0]) {
        Some(NamingError::StartsWithDigit)
    } else if no_leading_hyphen && s[0] == '-' {
        Some(NamingError::StartsWithHyphen)
    } else {
        None
    }
}

/// Special characters allowed in usernames.
pub open spec fn username_specials() -> Seq<char> {
    seq!['_']
}

/// Special characters allowed in group and credential identifiers.
pub open spec fn prefixed_specials() -> Seq<char> {
    seq!['_', '-']
}

/// The validated form of a username, or the rule it breaks.
pub open spec fn username_result(u: Seq<char>) -> Result<Seq<char>, NamingError> {
    match first_violation(lower(u), username_specials(), false) {
        None => Ok(lower(u)),
        Some(e) => Err(e),
    }
}

/// The validated form of a prefixed identifier (without its prefix), or the rule it breaks.
pub open spec fn prefixed_id_result(id: Seq<char>, prefix: Seq<char>) -> Result<Seq<char>, NamingError> {
    let bare = lower(seq_strip_prefix(id, prefix));
    match first_violation(bare, prefixed_specials(), true) {
        None => Ok(bare),
        Some(e) => Err(e),
    }
}

/// The message text reported for each rule.
pub open spec fn naming_message(e: NamingError) -> Seq<char> {
    match e {
        NamingError::TooLong => "Length limit exceeded (at most 63 characters)"@,
        NamingError::TooShort => "Length too short (at least 2 characters)"@,
        NamingError::InvalidCharacter => "Invalid character (only letters, digits and the allowed special characters)"@,
        NamingError::StartsWithDigit => "Identifier cannot start with a digit"@,
        NamingError::StartsWithHyphen => "Identifier cannot start with '-'"@,
    }
}

/// A returned result agrees with a specified one, errors by their message.
pub open spec fn matches_result(r: Result<String, String>, s: Result<Seq<char>, NamingError>) -> bool {
    match s {
        Ok(v) => r is Ok && r->Ok_0@ == v,
        Err(e) => r is Err && r->Err_0@ == naming_message(e),
    }
}

impl NamingError {
    /// Human-readable description of the broken rule.
    pub fn message(&self) -> (r: String)
        ensures
            r@ == naming_message(*self),
    {
        let s = match self {
            NamingError::TooLong => "Length limit exceeded (at most 63 characters)",
            NamingError::TooShort => "Length too short (at least 2 characters)",
            NamingError::InvalidCharacter => "Invalid character (only letters, digits and the allowed special characters)",
            NamingError::StartsWithDigit => "Identifier cannot start with a digit",
            NamingError::StartsWithHyphen => "Identifier cannot start with '-'",
        };
        owned(s)
    }
}

/// ASCII lowercase of one character.
pub fn lowercase_char(c: char) -> (r: char)
    ensures
        r == lower_char(c),
{
    if 'A' <= c && c <= 'Z' {
        let u = (c as u8) + 32;
        u as char
    } else {
        c
    }
}

/// The ASCII-lowercased copy of `s` (the identifier rules' first step).
pub fn force_lowercase(s: &str) -> (r: String)
    ensures
        r@ == lower(s@),
{
    let n = s.unicode_len();
    let mut out = String::new();
    let mut i: usize = 0;
    while i < n
        invariant
            n == s@.len(),
            i <= n,
            out@ =~= lower(s@).subrange(0, i as int),
        decreases n - i,
    {
        let c = lowercase_char(s.get_char(i));
        push_char(&mut out, c);
        i = i + 1;
    }
    out
}

fn is_allowed_char(c: char, specials: &str) -> (r: bool)
    ensures
        r == allowed_char(c, specials@),
{
    if ('0' <= c && c <= '9') || ('A' <= c && c <= 'Z') || ('a' <= c && c <= 'z') {
        return true;
    }
    let m = specials.unicode_len();
    let mut j: usize = 0;
    while j < m
        invariant
            m == specials@.len(),
            j <= m,
            forall|k: int| 0 <= k < j ==> specials@[k] != c,
        decreases m - j,
    {
        if specials.get_char(j) == c {
            return true;
        }
        j = j + 1;
    }
    false
}

/// Runs the identifier rules on an already-lowercased candidate and reports
/// the first one that fails.
pub fn run_validators(s: &str, specials: &str, no_leading_hyphen: bool) -> (r: Option<NamingError>)
    ensures
        r == first_violation(s@, specials@, no_leading_hyphen),
{
    let n = s.unicode_len();
    if n > MAX_ID_LEN {
        return Some(NamingError::TooLong);
    }
    if n < MIN_ID_LEN {
        return Some(NamingError::TooShort);
    }
    let mut i: usize = 0;
    while i < n
        invariant
            n == s@.len(),
            MIN_ID_LEN <= n <= MAX_ID_LEN,
            i <= n,
            forall|j: int| 0 <= j < i ==> allowed_char(#[trigger] s@[j], specials@),
        decreases n - i,
    {
        if !is_allowed_char(s.get_char(i), specials) {
            assert(!allowed_char(s@[i as int], specials@));
            return Some(NamingError::InvalidCharacter);
        }
        i = i + 1;
    }
    let c0 = s.get_char(0);
    if '0' <= c0 && c0 <= '9' {
        return Some(NamingError::StartsWithDigit);
    }
    if no_leading_hyphen && c0 == '-' {
        return Some(NamingError::StartsWithHyphen);
    }
    None
}

/// Validate a username (without the `u_` prefix) and return it lowercased.
pub fn validate_username(username: &str) -> (r: Result<String, String>)
    ensures
        matches_result(r, username_result(username@)),
{
    let lowercased = force_lowercase(username);
    let specials = "_";
    proof {
        reveal_strlit("_");
        assert(specials@ =~= username_specials());
    }
    match run_validators(lowercased.as_str(), specials, false) {
        None => Ok(lowercased),
        Some(e) => Err(e.message()),
    }
}

/// Shared rules for prefixed kinds: strips `prefix` once if present,
/// lowercases and validates; returns the identifier without the prefix.
pub fn validate_prefixed_id(id: &str, prefix: &str) -> (r: Result<String, String>)
    ensures
        matches_result(r, prefixed_id_result(id@, prefix@)),
{
    let id_without_prefix = strip_prefix_or_self(id, prefix);
    let lowercased = force_lowercase(id_without_prefix);
    let specials = "_-";
    proof {
        reveal_strlit("_-");
        assert(specials@ =~= prefixed_specials());
    }
    match run_validators(lowercased.as_str(), specials, true) {
        None => Ok(lowercased),
        Some(e) => Err(e.message()),
    }
}

/// Validate a group ID, with or without its `g_` prefix; returns it without the prefix.
pub fn validate_group_id(group_id: &str) -> (r: Result<String, String>)
    ensures
        matches_result(r, prefixed_id_result(group_id@, "g_"@)),
{
    validate_prefixed_id(group_id, "g_")
}

/// Validate a repo-credential ID, with or without its `rc_` prefix; returns it without the prefix.
pub fn validate_repo_credential_id(id: &str) -> (r: Result<String, String>)
    ensures
        matches_result(r, prefixed_id_result(id@, "rc_"@)),
{
    validate_prefixed_id(id, "rc_")
}

/// Lowercasing twice is lowercasing once.
pub proof fn lemma_lower_idempotent(s: Seq<char>)
    ensures
        lower(lower(s)) == lower(s),
{
    assert forall|i: int| 0 <= i < s.len() implies lower_char(lower_char(s[i])) == lower_char(s[i]) by {
        let c = s[i];
        if is_upper(c) {
            let d = ((c as u32) + 32) as char;
            assert('a' <= d && d <= 'z');
        }
    }
    assert(lower(lower(s)) =~= lower(s));
}

/// Case does not matter to username validation.
pub proof fn law_username_case_insensitive(u: Seq<char>)
    ensures
        username_result(lower(u)) == username_result(u),
{
    lemma_lower_idempotent(u);
}

/// A validated username validates to itself.
pub proof fn law_username_idempotent(u: Seq<char>, r: Seq<char>)
    requires
        username_result(u) == Ok::<Seq<char>, NamingError>(r),
    ensures
        username_result(r) == Ok::<Seq<char>, NamingError>(r),
{
    lemma_lower_idempotent(u);
}

/// The prefix is optional: an identifier validates the same with its prefix
/// prepended (unless it already starts with the prefix itself).
pub proof fn law_prefix_optional(x: Seq<char>, prefix: Seq<char>)
    requires
        !seq_starts_with(x, prefix),
    ensures
        prefixed_id_result(prefix + x, prefix) == prefixed_id_result(x, prefix),
{
    let px = prefix + x;
    assert(px.subrange(0, prefix.len() as int) =~= prefix);
    assert(px.subrange(prefix.len() as int, px.len() as int) =~= x);
    assert(seq_strip_prefix(px, prefix) == x);
    assert(seq_strip_prefix(x, prefix) == x);
}

/// A validated identifier that does not itself start with the prefix
/// validates to itself.
pub proof fn law_prefixed_id_idempotent(id: Seq<char>, prefix: Seq<char>, r: Seq<char>)
    requires
        prefixed_id_result(id, prefix) == Ok::<Seq<char>, NamingError>(r),
        !seq_starts_with(r, prefix),
    ensures
        prefixed_id_result(r, prefix) == Ok::<Seq<char>, NamingError>(r),
{
    lemma_lower_idempotent(seq_strip_prefix(id, prefix));
}


/// One character of a lowercased username passes the character rule
/// exactly when the original character is an ASCII letter, a digit or `_`.
proof fn lemma_username_char(c: char)
    ensures
        allowed_char(lower_char(c), username_specials())
            == (('a' <= c && c <= 'z') || ('A' <= c && c <= 'Z') || ('0' <= c && c <= '9') || c == '_'),
{
    assert(seq!['_'][0] == '_');
    assert(seq!['_'].contains('_'));
    if is_upper(c) {
        let d = ((c as u32) + 32) as char;
        assert('a' <= d && d <= 'z');
    } else {
        if seq!['_'].contains(c) {
            let k = choose|k: int| 0 <= k < seq!['_'].len() && seq!['_'][k] == c;
            assert(k == 0);
        }
    }
}

/// A username is accepted only when every character is an ASCII letter, a
/// digit or `_`; one of valid length holding any other character (such as
/// `-`) is refused as an invalid character.
pub proof fn law_username_charset(u: Seq<char>)
    ensures
        username_result(u) is Ok ==> forall|i: int| 0 <= i < u.len() ==>
            ('a' <= #[trigger] u[i] && u[i] <= 'z') || ('A' <= u[i] && u[i] <= 'Z')
            || ('0' <= u[i] && u[i] <= '9') || u[i] == '_',
        (2 <= u.len() <= 63 && exists|i: int| 0 <= i < u.len() && !(('a' <= #[trigger] u[i] && u[i] <= 'z')
            || ('A' <= u[i] && u[i] <= 'Z') || ('0' <= u[i] && u[i] <= '9') || u[i] == '_'))
            ==> username_result(u) == Err::<Seq<char>, NamingError>(NamingError::InvalidCharacter),
{
    let l = lower(u);
    assert forall|i: int| 0 <= i < u.len() implies allowed_char(#[trigger] l[i], username_specials())
        == (('a' <= u[i] && u[i] <= 'z') || ('A' <= u[i] && u[i] <= 'Z') || ('0' <= u[i] && u[i] <= '9') || u[i] == '_') by {
        lemma_username_char(u[i]);
    }
    if username_result(u) is Ok {
        assert forall|i: int| 0 <= i < u.len() implies
            ('a' <= #[trigger] u[i] && u[i] <= 'z') || ('A' <= u[i] && u[i] <= 'Z')
            || ('0' <= u[i] && u[i] <= '9') || u[i] == '_' by {
            assert(allowed_char(l[i], username_specials()));
        }
    }
    if 2 <= u.len() <= 63 && exists|i: int| 0 <= i < u.len() && !(('a' <= #[trigger] u[i] && u[i] <= 'z')
            || ('A' <= u[i] && u[i] <= 'Z') || ('0' <= u[i] && u[i] <= '9') || u[i] == '_') {
        let i = choose|i: int| 0 <= i < u.len() && !(('a' <= #[trigger] u[i] && u[i] <= 'z')
            || ('A' <= u[i] && u[i] <= 'Z') || ('0' <= u[i] && u[i] <= '9') || u[i] == '_');
        assert(!allowed_char(l[i], username_specials()));
    }
}


/// Lowercasing leaves no capital letter and keeps digits and other
/// characters where they are.
proof fn lemma_lower_char_shape(c: char)
    ensures
        !('A' <= lower_char(c) && lower_char(c) <= 'Z'),
        ('0' <= lower_char(c) && lower_char(c) <= '9') == ('0' <= c && c <= '9'),
        !('A' <= c && c <= 'Z') ==> lower_char(c) == c,
{
    if is_upper(c) {
        let d = ((c as u32) + 32) as char;
        assert('a' <= d && d <= 'z');
    }
}

/// An accepted username comes back lowercased: 2 to 63 characters, each a
/// small ASCII letter, a digit or `_`, the first not a digit.
pub proof fn law_username_accepted_shape(u: Seq<char>)
    ensures
        username_result(u) is Ok ==> {
            let r = username_result(u)->Ok_0;
            &&& r.len() == u.len()
            &&& 2 <= r.len() <= 63
            &&& !('0' <= r[0] && r[0] <= '9')
            &&& forall|i: int| 0 <= i < r.len() ==>
                ('a' <= #[trigger] r[i] && r[i] <= 'z') || ('0' <= r[i] && r[i] <= '9') || r[i] == '_'
        },
{
    if username_result(u) is Ok {
        let r = lower(u);
        law_username_charset(u);
        assert forall|i: int| 0 <= i < r.len() implies
            ('a' <= #[trigger] r[i] && r[i] <= 'z') || ('0' <= r[i] && r[i] <= '9') || r[i] == '_' by {
            lemma_lower_char_shape(u[i]);
            assert(r[i] == lower_char(u[i]));
            if 'A' <= u[i] && u[i] <= 'Z' {
                let d = ((u[i] as u32) + 32) as char;
                assert('a' <= d && d <= 'z');
            }
        }
    }
}

/// An accepted group or credential identifier comes back without its
/// prefix and lowercased: 2 to 63 characters, each a small ASCII letter, a
/// digit, `_` or `-`, the first neither a digit nor `-`.
pub proof fn law_prefixed_id_accepted_shape(id: Seq<char>, prefix: Seq<char>)
    ensures
        prefixed_id_result(id, prefix) is Ok ==> {
            let r = prefixed_id_result(id, prefix)->Ok_0;
            &&& 2 <= r.len() <= 63
            &&& !('0' <= r[0] && r[0] <= '9')
            &&& r[0] != '-'
            &&& forall|i: int| 0 <= i < r.len() ==>
                ('a' <= #[trigger] r[i] && r[i] <= 'z') || ('0' <= r[i] && r[i] <= '9') || r[i] == '_' || r[i] == '-'
        },
{
    if prefixed_id_result(id, prefix) is Ok {
        let x = seq_strip_prefix(id, prefix);
        let r = lower(x);
        assert(seq!['_', '-'][0] == '_' && seq!['_', '-'][1] == '-');
        assert forall|i: int| 0 <= i < r.len() implies
            ('a' <= #[trigger] r[i] && r[i] <= 'z') || ('0' <= r[i] && r[i] <= '9') || r[i] == '_' || r[i] == '-' by {
            lemma_lower_char_shape(x[i]);
            assert(r[i] == lower_char(x[i]));
            assert(allowed_char(r[i], prefixed_specials()));
            if prefixed_specials().contains(r[i]) {
                let k = choose|k: int| 0 <= k < prefixed_specials().len() && prefixed_specials()[k] == r[i];
                assert(k == 0 || k == 1);
            }
        }
    }
}

} // verus!
