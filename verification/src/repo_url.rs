//! Repository URLs: parsing with `gix`'s URL grammar, the schemes a network
//! fetch may use, and the owner/repository pair of a hosted repository.

use vstd::prelude::*;
use vstd::string::*;
use crate::error::AppError;
use crate::text::{concat_str, owned};

verus! {

/// The transport of a repository URL.
#[derive(Debug, Clone, PartialEq, Eq)]
pub enum UrlScheme {
    File,
    Git,
    Ssh,
    Http,
    Https,
    Ext,
    /// A `<helper>::<address>` remote helper, by name.
    Helper(String),
    /// A `<helper>://<address>` remote helper, by name.
    HelperUrl(String),
}

/// A scheme as a plain value.
pub enum SchemeView {
    File,
    Git,
    Ssh,
    Http,
    Https,
    Ext,
    Helper(Seq<char>),
    HelperUrl(Seq<char>),
}

/// The parts of a parsed URL as plain values.
pub struct UrlParts {
    pub scheme: SchemeView,
    pub user: Option<Seq<char>>,
    pub host: Option<Seq<char>>,
    pub port: Option<u16>,
    pub path: Seq<char>,
}

/// A parsed repository URL.
#[derive(Debug, Clone, PartialEq, Eq)]
pub struct RepoUrl {
    pub scheme: UrlScheme,
    pub user: Option<String>,
    pub host: Option<String>,
    pub port: Option<u16>,
    pub path: String,
}

/// A string option as a plain value.
pub open spec fn opt_view(o: Option<String>) -> Option<Seq<char>> {
    match o {
        Some(s) => Some(s@),
        None => None,
    }
}

impl UrlScheme {
    /// The scheme as a plain value.
    pub open spec fn view(&self) -> SchemeView {
        match self {
            UrlScheme::File => SchemeView::File,
            UrlScheme::Git => SchemeView::Git,
            UrlScheme::Ssh => SchemeView::Ssh,
            UrlScheme::Http => SchemeView::Http,
            UrlScheme::Https => SchemeView::Https,
            UrlScheme::Ext => SchemeView::Ext,
            UrlScheme::Helper(n) => SchemeView::Helper(n@),
            UrlScheme::HelperUrl(n) => SchemeView::HelperUrl(n@),
        }
    }
}

impl RepoUrl {
    /// The URL's parts as plain values.
    pub open spec fn view(&self) -> UrlParts {
        UrlParts {
            scheme: self.scheme.view(),
            user: opt_view(self.user),
            host: opt_view(self.host),
            port: self.port,
            path: self.path@,
        }
    }
}

/// What `gix::url::parse` makes of `raw`: the URL's parts, or the text of its error.
pub uninterp spec fn gix_url_parse(raw: Seq<char>) -> Result<UrlParts, Seq<char>>;

/// Parses `raw` with `gix::url::parse` and hands back its parts (scheme,
/// user, host, port, path as text) or its error's message. The contract
/// names the result and claims no more about the grammar.
#[verifier::external_body]
fn gix_parse(raw: &str) -> (r: Result<RepoUrl, String>)
    ensures
        match gix_url_parse(raw@) {
            Ok(p) => r matches Ok(u) && u.view() == p,
            Err(m) => r matches Err(e) && e@ == m,
        },
{
    let u = gix::url::parse(raw).map_err(|e| e.to_string())?;
    let scheme = match u.scheme {
        gix::url::Scheme::File => UrlScheme::File,
        gix::url::Scheme::Git => UrlScheme::Git,
        gix::url::Scheme::Ssh => UrlScheme::Ssh,
        gix::url::Scheme::Http => UrlScheme::Http,
        gix::url::Scheme::Https => UrlScheme::Https,
        gix::url::Scheme::Ext => UrlScheme::Ext,
        gix::url::Scheme::Helper(n) => UrlScheme::Helper(n),
        gix::url::Scheme::HelperUrl(n) => UrlScheme::HelperUrl(n),
    };
    Ok(RepoUrl { scheme, user: u.user, host: u.host, port: u.port, path: u.path.to_string() })
}

/// `format!("{:?}", s)`: the string quoted and escaped as Rust's `Debug` writes it.
pub uninterp spec fn debug_quoted(s: Seq<char>) -> Seq<char>;

/// Formats `s` with `str`'s `Debug` implementation.
#[verifier::external_body]
pub(crate) fn debug_quote(s: &str) -> (r: String)
    ensures
        r@ == debug_quoted(s@),
{
    format!("{:?}", s)
}

/// The scheme as `Debug` writes it.
pub open spec fn scheme_debug(s: SchemeView) -> Seq<char> {
    match s {
        SchemeView::File => "File"@,
        SchemeView::Git => "Git"@,
        SchemeView::Ssh => "Ssh"@,
        SchemeView::Http => "Http"@,
        SchemeView::Https => "Https"@,
        SchemeView::Ext => "Ext"@,
        SchemeView::Helper(n) => "Helper("@ + debug_quoted(n) + ")"@,
        SchemeView::HelperUrl(n) => "HelperUrl("@ + debug_quoted(n) + ")"@,
    }
}

/// The scheme as `Debug` writes it.
pub fn scheme_debug_text(s: &UrlScheme) -> (r: String)
    ensures
        r@ == scheme_debug(s.view()),
{
    match s {
        UrlScheme::File => String::from_str("File"),
        UrlScheme::Git => String::from_str("Git"),
        UrlScheme::Ssh => String::from_str("Ssh"),
        UrlScheme::Http => String::from_str("Http"),
        UrlScheme::Https => String::from_str("Https"),
        UrlScheme::Ext => String::from_str("Ext"),
        UrlScheme::Helper(n) => {
            let q = debug_quote(n.as_str());
            let a = concat_str("Helper(", q.as_str());
            concat_str(a.as_str(), ")")
        },
        UrlScheme::HelperUrl(n) => {
            let q = debug_quote(n.as_str());
            let a = concat_str("HelperUrl(", q.as_str());
            concat_str(a.as_str(), ")")
        },
    }
}

/// A scheme a real git remote can be fetched over.
pub open spec fn fetchable(s: SchemeView) -> bool {
    s is Http || s is Https || s is Ssh || s is Git
}

/// Judges what the URL parser made of a repository URL: a parse error is
/// refused as invalid; of parsed URLs only HTTP, HTTPS, SSH and git remotes
/// are accepted, and local files, `ext` and remote helpers are refused.
pub fn check_repo_url(parsed: Result<RepoUrl, String>) -> (r: Result<RepoUrl, AppError>)
    ensures
        match parsed {
            Err(m) => r matches Err(AppError::BadRequest(t)) && t@ == "invalid repository URL: "@ + m@,
            Ok(u) => if fetchable(u.view().scheme) {
                r matches Ok(v) && v.view() == u.view()
            } else {
                r matches Err(AppError::BadRequest(t)) && t@ == "unsupported repository URL scheme: "@ + scheme_debug(u.view().scheme)
            },
        },
{
    match parsed {
        Err(m) => Err(AppError::BadRequest(concat_str("invalid repository URL: ", m.as_str()))),
        Ok(url) => {
            match url.scheme {
                UrlScheme::Http | UrlScheme::Https | UrlScheme::Ssh | UrlScheme::Git => Ok(url),
                _ => {
                    let d = scheme_debug_text(&url.scheme);
                    Err(AppError::BadRequest(concat_str("unsupported repository URL scheme: ", d.as_str())))
                },
            }
        },
    }
}

/// Parses and validates a repository URL with `gix::url::parse`, then
/// `check_repo_url`.
pub fn parse_repo_url(raw: &str) -> (r: Result<RepoUrl, AppError>)
    ensures
        match gix_url_parse(raw@) {
            Err(m) => r matches Err(AppError::BadRequest(t)) && t@ == "invalid repository URL: "@ + m,
            Ok(p) => if fetchable(p.scheme) {
                r matches Ok(u) && u.view() == p
            } else {
                r matches Err(AppError::BadRequest(t)) && t@ == "unsupported repository URL scheme: "@ + scheme_debug(p.scheme)
            },
        },
{
    check_repo_url(gix_parse(raw))
}

/// `s` without its leading slashes.
pub open spec fn strip_leading_slashes(s: Seq<char>) -> Seq<char>
    decreases s.len(),
{
    if s.len() > 0 && s[0] == '/' { strip_leading_slashes(s.drop_first()) } else { s }
}

/// `s` without its trailing slashes.
pub open spec fn strip_trailing_slashes(s: Seq<char>) -> Seq<char>
    decreases s.len(),
{
    if s.len() > 0 && s.last() == '/' { strip_trailing_slashes(s.drop_last()) } else { s }
}

/// `s` without its trailing `.git` suffixes, however many.
pub open spec fn strip_git_suffixes(s: Seq<char>) -> Seq<char>
    decreases s.len(),
{
    if s.len() >= 4 && s.subrange(s.len() - 4, s.len() as int) == ".git"@ {
        strip_git_suffixes(s.subrange(0, s.len() - 4))
    } else {
        s
    }
}

/// Position of the last `/` in `s`.
pub open spec fn last_slash(s: Seq<char>) -> Option<int> {
    if exists|k: int| 0 <= k < s.len() && s[k] == '/' {
        Some(choose|k: int| 0 <= k < s.len() && s[k] == '/' && forall|j: int| k < j < s.len() ==> s[j] != '/')
    } else {
        None
    }
}

/// The `(owner, repo)` pair named by a URL path: slashes trimmed from both
/// ends, `.git` suffixes dropped, then split at the last slash; both parts
/// must be non-empty.
pub open spec fn owner_repo_of(path: Seq<char>) -> Option<(Seq<char>, Seq<char>)> {
    let t = strip_git_suffixes(strip_trailing_slashes(strip_leading_slashes(path)));
    match last_slash(t) {
        Some(k) => {
            let owner = t.subrange(0, k);
            let repo = t.subrange(k + 1, t.len() as int);
            if owner.len() == 0 || repo.len() == 0 { None } else { Some((owner, repo)) }
        },
        None => None,
    }
}

/// The span `[a, b)` of `p` left after trimming slashes from both ends and
/// then `.git` suffixes.
fn trimmed_span(p: &str) -> (r: (usize, usize))
    ensures
        r.0 <= r.1 <= p@.len(),
        p@.subrange(r.0 as int, r.1 as int) == strip_git_suffixes(strip_trailing_slashes(strip_leading_slashes(p@))),
{
    let ghost ps = p@;
    let n = p.unicode_len();
    let mut a: usize = 0;
    proof { assert(ps.subrange(0, n as int) =~= ps); }
    while a < n && p.get_char(a) == '/'
        invariant
            p@ == ps,
            n == ps.len(),
            a <= n,
            strip_leading_slashes(ps) == strip_leading_slashes(ps.subrange(a as int, n as int)),
        decreases n - a,
    {
        proof {
            assert(ps.subrange(a as int, n as int)[0] == '/');
            assert(ps.subrange(a as int, n as int).drop_first() =~= ps.subrange(a + 1, n as int));
        }
        a = a + 1;
    }
    let ghost lead = ps.subrange(a as int, n as int);
    assert(strip_leading_slashes(ps) == lead);
    let mut b: usize = n;
    while b > a && p.get_char(b - 1) == '/'
        invariant
            p@ == ps,
            n == ps.len(),
            a <= b <= n,
            lead == ps.subrange(a as int, n as int),
            strip_trailing_slashes(lead) == strip_trailing_slashes(ps.subrange(a as int, b as int)),
        decreases b - a,
    {
        proof {
            assert(ps.subrange(a as int, b as int).last() == '/');
            assert(ps.subrange(a as int, b as int).drop_last() =~= ps.subrange(a as int, b - 1));
        }
        b = b - 1;
    }
    let ghost trail = ps.subrange(a as int, b as int);
    assert(strip_trailing_slashes(lead) == trail);
    proof { reveal_strlit(".git"); }
    while b - a >= 4 && p.get_char(b - 4) == '.' && p.get_char(b - 3) == 'g' && p.get_char(b - 2) == 'i'
        && p.get_char(b - 1) == 't'
        invariant
            p@ == ps,
            n == ps.len(),
            a <= b <= n,
            strip_git_suffixes(trail) == strip_git_suffixes(ps.subrange(a as int, b as int)),
        decreases b - a,
    {
        proof {
            reveal_strlit(".git");
            let s = ps.subrange(a as int, b as int);
            assert(s.subrange(s.len() - 4, s.len() as int) =~= ".git"@);
            assert(s.subrange(0, s.len() - 4) =~= ps.subrange(a as int, b - 4));
        }
        b = b - 4;
    }
    proof {
        reveal_strlit(".git");
        let t = ps.subrange(a as int, b as int);
        if t.len() >= 4 && t.subrange(t.len() - 4, t.len() as int) == ".git"@ {
            assert(t.subrange(t.len() - 4, t.len() as int)[0] == '.');
            assert(t.subrange(t.len() - 4, t.len() as int)[1] == 'g');
            assert(t.subrange(t.len() - 4, t.len() as int)[2] == 'i');
            assert(t.subrange(t.len() - 4, t.len() as int)[3] == 't');
            assert(false);
        }
        assert(strip_git_suffixes(trail) == t);
    }
    (a, b)
}

/// Position of the last `/` of `p` within `[a, b)`.
fn last_slash_between(p: &str, a: usize, b: usize) -> (r: Option<usize>)
    requires
        a <= b <= p@.len(),
    ensures
        match r {
            Some(k) => a <= k < b && p@[k as int] == '/' && forall|j: int| k < j < b ==> p@[j] != '/',
            None => forall|j: int| a <= j < b ==> p@[j] != '/',
        },
{
    let mut k: usize = b;
    while k > a && p.get_char(k - 1) != '/'
        invariant
            a <= k <= b <= p@.len(),
            forall|j: int| k <= j < b ==> p@[j] != '/',
        decreases k - a,
    {
        k = k - 1;
    }
    if k == a { None } else { Some(k - 1) }
}

/// Best-effort `(owner, repo)` of a hosted repository, e.g. `/org/repo.git`
/// or `org/repo.git` gives `("org", "repo")`.
pub fn owner_repo(url: &RepoUrl) -> (r: Option<(String, String)>)
    ensures
        match owner_repo_of(url.path@) {
            Some((o, p)) => r matches Some((a, b)) && a@ == o && b@ == p,
            None => r is None,
        },
{
    let p = url.path.as_str();
    let ghost ps = p@;
    let (a, b) = trimmed_span(p);
    let ghost t = ps.subrange(a as int, b as int);
    match last_slash_between(p, a, b) {
        None => {
            proof {
                assert(!exists|j: int| 0 <= j < t.len() && t[j] == '/') by {
                    assert forall|j: int| 0 <= j < t.len() implies t[j] != '/' by {
                        assert(t[j] == ps[a + j]);
                    }
                }
            }
            None
        },
        Some(slash) => {
            proof {
                let kk = slash - a;
                assert(t[kk as int] == '/');
                assert forall|j: int| kk < j < t.len() implies t[j] != '/' by {
                    assert(t[j] == ps[a + j]);
                }
                let c = choose|c: int| 0 <= c < t.len() && t[c] == '/' && forall|j: int| c < j < t.len() ==> t[j] != '/';
                assert(c == kk) by {
                    if c < kk { assert(t[kk as int] != '/'); }
                    if c > kk { assert(t[c] != '/'); }
                }
                assert(t.subrange(0, kk as int) =~= ps.subrange(a as int, slash as int));
                assert(t.subrange(kk + 1, t.len() as int) =~= ps.subrange(slash + 1, b as int));
            }
            if slash == a || slash + 1 == b {
                return None;
            }
            let owner = p.substring_char(a, slash);
            let repo = p.substring_char(slash + 1, b);
            Some((owned(owner), owned(repo)))
        },
    }
}


/// Every URL that parses with an HTTP, HTTPS, SSH or git scheme is
/// accepted, as parsed; only local files, `ext` and remote helpers are
/// refused.
pub proof fn law_repo_url_schemes(p: UrlParts)
    ensures
        (p.scheme is Http || p.scheme is Https || p.scheme is Ssh || p.scheme is Git) ==> fetchable(p.scheme),
        (p.scheme is File || p.scheme is Ext || p.scheme is Helper || p.scheme is HelperUrl) ==> !fetchable(p.scheme),
{
}

} // verus!
