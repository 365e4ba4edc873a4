//! The repository connectivity probe: which transport to use, the checks on
//! the request's shape, and how each result of talking to the repository is
//! reported. The network, file system and timers are driven from outside.

use vstd::prelude::*;
use vstd::string::*;
use crate::error::AppError;
use crate::repo_url::{RepoUrl, parse_repo_url, owner_repo, owner_repo_of, gix_url_parse, fetchable, debug_quote,
    debug_quoted, UrlParts};
use crate::text::{concat_str, owned, ends_with, push_char, push_decimal, decimal};

verus! {

/// The file every probe looks for.
pub const PROBE_PATH: &'static str = "pipelines.js";

/// Seconds a probe may take before it is abandoned.
pub const PROBE_TIMEOUT_SECS: u64 = 30;

/// What the probe found.
#[derive(Debug, Clone, Copy, PartialEq, Eq, Structural)]
pub enum ProbeStatus {
    Found,
    Missing,
    Error,
}

/// The report of a probe.
#[derive(Debug)]
pub struct ProbeOutcome {
    pub status: ProbeStatus,
    pub branch: Option<String>,
    pub size: Option<u64>,
    pub message: String,
}

impl ProbeOutcome {
    /// A failed probe with `message`.
    pub fn error(message: String) -> (r: ProbeOutcome)
        ensures
            r.status == ProbeStatus::Error,
            r.branch is None,
            r.size is None,
            r.message == message,
    {
        ProbeOutcome { status: ProbeStatus::Error, branch: None, size: None, message }
    }

    /// The probe file was found on `branch`.
    pub fn found(branch: &str, size: Option<u64>) -> (r: ProbeOutcome)
        ensures
            r.status == ProbeStatus::Found,
            r.branch matches Some(b) && b@ == branch@,
            r.size == size,
            r.message@ == "pipelines.js found on branch "@ + branch@,
    {
        ProbeOutcome {
            status: ProbeStatus::Found,
            branch: Some(owned(branch)),
            size,
            message: concat_str("pipelines.js found on branch ", branch),
        }
    }

    /// The probe file is absent from `branch`.
    pub fn missing(branch: &str) -> (r: ProbeOutcome)
        ensures
            r.status == ProbeStatus::Missing,
            r.branch matches Some(b) && b@ == branch@,
            r.size is None,
            r.message@ == "pipelines.js not found on branch "@ + branch@,
    {
        ProbeOutcome {
            status: ProbeStatus::Missing,
            branch: Some(owned(branch)),
            size: None,
            message: concat_str("pipelines.js not found on branch ", branch),
        }
    }
}

/// Where a repository is hosted, as far as the probe distinguishes it.
#[derive(Debug, Clone, Copy, PartialEq, Eq, Structural)]
pub enum RepoProvider {
    Github,
    Other,
}

/// How the probe authenticates, as far as it distinguishes it.
#[derive(Debug, Clone, Copy, PartialEq, Eq, Structural)]
pub enum RepoAuthMethod {
    Ssh,
    GithubToken,
    Other,
}

/// The fields of a project's repository link the probe reads.
pub struct RepoLink {
    pub url: String,
    pub provider: RepoProvider,
    pub auth_method: RepoAuthMethod,
    pub default_branch: Option<String>,
}

/// How to probe a repository whose request passed the checks.
#[derive(Debug)]
pub enum ProbePlan {
    /// Through the GitHub API, for `owner/repo`, with a token if one is used.
    Github { owner: String, repo: String, token: Option<String> },
    /// By a shallow clone over git.
    Git,
}

/// The secret is present and not empty.
pub open spec fn usable_secret(secret: Option<&str>) -> bool {
    secret matches Some(s) && s@.len() > 0
}

/// The probe's checks on a request, and the plan they lead to.
pub open spec fn probe_plan_result(link: RepoLink, secret: Option<&str>, r: Result<ProbePlan, AppError>) -> bool {
    match gix_url_parse(link.url@) {
        Err(m) => r matches Err(AppError::BadRequest(t)) && t@ == "invalid repository URL: "@ + m,
        Ok(p) => if !fetchable(p.scheme) {
            r matches Err(AppError::BadRequest(_))
        } else if link.provider == RepoProvider::Github {
            match owner_repo_of(p.path) {
                None => r matches Err(AppError::BadRequest(t)) && t@ == "could not determine owner/repo from repository URL"@,
                Some((o, n)) => if link.auth_method == RepoAuthMethod::GithubToken && !usable_secret(secret) {
                    r matches Err(AppError::Validation(t)) && t@ == "github_token auth requires a credential with a token set"@
                } else {
                    r matches Ok(ProbePlan::Github { owner, repo, token }) && owner@ == o && repo@ == n
                        && if link.auth_method == RepoAuthMethod::GithubToken {
                            token matches Some(tk) && secret matches Some(s) && tk@ == s@
                        } else {
                            token is None
                        }
                },
            }
        } else if link.auth_method == RepoAuthMethod::Ssh && !usable_secret(secret) {
            r matches Err(AppError::Validation(t)) && t@ == "ssh auth requires a credential with a private key set"@
        } else {
            r matches Ok(ProbePlan::Git)
        },
    }
}

/// Checks a probe request and picks the transport: the URL must parse with
/// a fetchable scheme; GitHub links go through the API and need an
/// owner/repo path (and a token when token auth is configured); other
/// links are cloned over git and need a private key for SSH auth.
pub fn plan_probe(link: &RepoLink, secret: Option<&str>) -> (r: Result<ProbePlan, AppError>)
    ensures
        probe_plan_result(*link, secret, r),
{
    let url = parse_repo_url(link.url.as_str())?;
    let usable = match secret {
        Some(s) => s.unicode_len() > 0,
        None => false,
    };
    if link.provider == RepoProvider::Github {
        let (owner, repo) = match owner_repo(&url) {
            Some(pair) => pair,
            None => return Err(AppError::bad_request("could not determine owner/repo from repository URL")),
        };
        let token = if link.auth_method == RepoAuthMethod::GithubToken {
            if !usable {
                return Err(AppError::validation("github_token auth requires a credential with a token set"));
            }
            match secret {
                Some(s) => Some(owned(s)),
                None => None,
            }
        } else {
            None
        };
        Ok(ProbePlan::Github { owner, repo, token })
    } else {
        if link.auth_method == RepoAuthMethod::Ssh && !usable {
            return Err(AppError::validation("ssh auth requires a credential with a private key set"));
        }
        Ok(ProbePlan::Git)
    }
}

/// The branch a GitHub probe reads: the configured one, else the
/// repository's default, else `main`.
pub fn choose_branch(configured: Option<String>, remote_default: Option<String>) -> (r: String)
    ensures
        r@ == match configured {
            Some(b) => b@,
            None => match remote_default {
                Some(d) => d@,
                None => "main"@,
            },
        },
{
    match configured {
        Some(b) => b,
        None => match remote_default {
            Some(d) => d,
            None => String::from_str("main"),
        },
    }
}

/// The report of a GitHub API lookup of the probe file on `branch`: its size,
/// its absence, or the API's error message.
pub fn github_file_outcome(branch: &str, lookup: Result<Option<u64>, String>) -> (r: ProbeOutcome)
    ensures
        match lookup {
            Ok(Some(size)) => r.status == ProbeStatus::Found && r.size == Some(size)
                && (r.branch matches Some(b) && b@ == branch@)
                && r.message@ == "pipelines.js found on branch "@ + branch@,
            Ok(None) => r.status == ProbeStatus::Missing && r.size is None
                && (r.branch matches Some(b) && b@ == branch@)
                && r.message@ == "pipelines.js not found on branch "@ + branch@,
            Err(e) => r.status == ProbeStatus::Error && r.branch is None && r.size is None
                && r.message@ == "GitHub API error: "@ + e@,
        },
{
    match lookup {
        Ok(Some(size)) => ProbeOutcome::found(branch, Some(size)),
        Ok(None) => ProbeOutcome::missing(branch),
        Err(e) => ProbeOutcome::error(concat_str("GitHub API error: ", e.as_str())),
    }
}

/// The size GitHub reports for a file, negative values read as zero.
pub fn content_size(size: i64) -> (r: u64)
    ensures
        r == if size < 0 { 0 } else { size as int },
{
    if size < 0 { 0 } else { size as u64 }
}

/// The branch a git probe reports: the configured one, else `HEAD`.
pub fn branch_label(default_branch: &Option<String>) -> (r: String)
    ensures
        r@ == match default_branch {
            Some(b) => b@,
            None => "HEAD"@,
        },
{
    match default_branch {
        Some(b) => b.clone(),
        None => String::from_str("HEAD"),
    }
}

/// The references tried, in order, to find the commit of `branch`.
pub fn commit_ref_candidates(branch: &str) -> (r: Vec<String>)
    ensures
        r@.len() == 3,
        r@[0]@ == "refs/remotes/origin/"@ + branch@,
        r@[1]@ == "refs/heads/"@ + branch@,
        r@[2]@ == branch@,
{
    let mut v: Vec<String> = Vec::new();
    v.push(concat_str("refs/remotes/origin/", branch));
    v.push(concat_str("refs/heads/", branch));
    v.push(owned(branch));
    v
}

/// The report of looking the probe file up in the fetched tree: found (with
/// its size when the object could be read), absent, or the lookup's error.
pub fn tree_outcome(label: &str, lookup: Result<Option<Option<u64>>, String>) -> (r: ProbeOutcome)
    ensures
        match lookup {
            Ok(Some(size)) => r.status == ProbeStatus::Found && r.size == size
                && (r.branch matches Some(b) && b@ == label@)
                && r.message@ == "pipelines.js found on branch "@ + label@,
            Ok(None) => r.status == ProbeStatus::Missing && r.size is None
                && (r.branch matches Some(b) && b@ == label@)
                && r.message@ == "pipelines.js not found on branch "@ + label@,
            Err(e) => r.status == ProbeStatus::Error && r.branch is None && r.size is None
                && r.message@ == "failed to read repository tree: "@ + e@,
        },
{
    match lookup {
        Ok(Some(size)) => ProbeOutcome::found(label, size),
        Ok(None) => ProbeOutcome::missing(label),
        Err(e) => ProbeOutcome::error(concat_str("failed to read repository tree: ", e.as_str())),
    }
}

/// A step of a probe that failed, with the message of the error that stopped it.
pub enum ProbeFailure {
    TempDir(String),
    InvalidUrl(String),
    SshKey(String),
    InvalidBranch { branch: String, error: String },
    Connect(String),
    ResolveBranch { label: String, error: String },
    CommitTree(String),
    TaskFailed(String),
    GitTimeout,
    GithubClient(String),
    GithubTimeout,
}

/// The message reporting a failed step.
pub open spec fn failure_message(f: ProbeFailure) -> Seq<char> {
    match f {
        ProbeFailure::TempDir(e) => "failed to create temp dir: "@ + e@,
        ProbeFailure::InvalidUrl(e) => "invalid repository URL: "@ + e@,
        ProbeFailure::SshKey(e) => "failed to stage SSH key: "@ + e@,
        ProbeFailure::InvalidBranch { branch, error } => "invalid branch name "@ + debug_quoted(branch@) + ": "@ + error@,
        ProbeFailure::Connect(e) => "failed to connect to repository: "@ + e@,
        ProbeFailure::ResolveBranch { label, error } => "failed to resolve branch "@ + debug_quoted(label@) + ": "@ + error@,
        ProbeFailure::CommitTree(e) => "failed to read commit tree: "@ + e@,
        ProbeFailure::TaskFailed(e) => "probe task failed: "@ + e@,
        ProbeFailure::GitTimeout => "timed out after "@ + decimal(PROBE_TIMEOUT_SECS as nat) + "s connecting to the repository"@,
        ProbeFailure::GithubClient(e) => "failed to build GitHub client: "@ + e@,
        ProbeFailure::GithubTimeout => "timed out after "@ + decimal(PROBE_TIMEOUT_SECS as nat) + "s talking to the GitHub API"@,
    }
}

fn message_with(prefix: &str, quoted: &str, error: &str) -> (r: String)
    ensures
        r@ == prefix@ + debug_quoted(quoted@) + ": "@ + error@,
{
    let q = debug_quote(quoted);
    let mut s = concat_str(prefix, q.as_str());
    s.append(": ");
    s.append(error);
    proof { reveal_strlit(": "); }
    s
}

fn timeout_message(tail: &str) -> (r: String)
    ensures
        r@ == "timed out after "@ + decimal(PROBE_TIMEOUT_SECS as nat) + tail@,
{
    let mut s = String::from_str("timed out after ");
    push_decimal(&mut s, 30);
    s.append(tail);
    s
}

/// The report of a failed step.
pub fn failure_outcome(f: ProbeFailure) -> (r: ProbeOutcome)
    ensures
        r.status == ProbeStatus::Error,
        r.branch is None,
        r.size is None,
        r.message@ == failure_message(f),
{
    let message = match &f {
        ProbeFailure::TempDir(e) => concat_str("failed to create temp dir: ", e.as_str()),
        ProbeFailure::InvalidUrl(e) => concat_str("invalid repository URL: ", e.as_str()),
        ProbeFailure::SshKey(e) => concat_str("failed to stage SSH key: ", e.as_str()),
        ProbeFailure::InvalidBranch { branch, error } => message_with("invalid branch name ", branch.as_str(), error.as_str()),
        ProbeFailure::Connect(e) => concat_str("failed to connect to repository: ", e.as_str()),
        ProbeFailure::ResolveBranch { label, error } => message_with("failed to resolve branch ", label.as_str(), error.as_str()),
        ProbeFailure::CommitTree(e) => concat_str("failed to read commit tree: ", e.as_str()),
        ProbeFailure::TaskFailed(e) => concat_str("probe task failed: ", e.as_str()),
        ProbeFailure::GitTimeout => timeout_message("s connecting to the repository"),
        ProbeFailure::GithubClient(e) => concat_str("failed to build GitHub client: ", e.as_str()),
        ProbeFailure::GithubTimeout => timeout_message("s talking to the GitHub API"),
    };
    ProbeOutcome::error(message)
}

/// An SSH private key as written to its key file: with a final newline.
pub fn ssh_key_contents(secret: &str) -> (r: String)
    ensures
        r@ == if secret@.len() > 0 && secret@.last() == '\n' { secret@ } else { secret@.push('\n') },
{
    let mut contents = owned(secret);
    proof { reveal_strlit("\n"); }
    if !ends_with(secret, "\n") {
        push_char(&mut contents, '\n');
    } else {
        proof {
            assert(secret@.subrange(secret@.len() - 1, secret@.len() as int)[0] == secret@.last());
        }
    }
    proof {
        if secret@.len() > 0 && secret@.last() == '\n' {
            assert(secret@.subrange(secret@.len() - 1, secret@.len() as int) =~= "\n"@);
        }
    }
    contents
}

/// The git configuration override that makes SSH use the key file at
/// `key_path`, identities only, accepting new host keys without recording them.
pub fn ssh_command_override(key_path: &str) -> (r: String)
    ensures
        r@ == "core.sshCommand=ssh -i "@ + key_path@
            + " -o IdentitiesOnly=yes -o StrictHostKeyChecking=accept-new -o UserKnownHostsFile=/dev/null"@,
{
    let mut s = concat_str("core.sshCommand=ssh -i ", key_path);
    s.append(" -o IdentitiesOnly=yes -o StrictHostKeyChecking=accept-new -o UserKnownHostsFile=/dev/null");
    s
}

/// A branch of a hosted repository and its head commit.
#[derive(Debug)]
pub struct Branch {
    pub name: String,
    pub commit: CommitRef,
}

/// A commit by its hash.
#[derive(Debug)]
pub struct CommitRef {
    pub sha: String,
}

/// The state of a hosted issue.
#[derive(Debug, Clone, Copy, PartialEq, Eq, Structural)]
pub enum IssueState {
    Open,
    Closed,
    Other,
}

/// An issue of a hosted repository.
#[derive(Debug)]
pub struct Issue {
    pub id: u64,
    pub number: u64,
    pub title: String,
    pub body: Option<String>,
    pub state: String,
}

impl Issue {
    /// An issue whose state is written `open`, `closed` or `unknown`.
    pub fn new(id: u64, number: u64, title: String, body: Option<String>, state: IssueState) -> (r: Issue)
        ensures
            r.id == id,
            r.number == number,
            r.title == title,
            r.body == body,
            r.state@ == match state {
                IssueState::Open => "open"@,
                IssueState::Closed => "closed"@,
                IssueState::Other => "unknown"@,
            },
    {
        let label = match state {
            IssueState::Open => "open",
            IssueState::Closed => "closed",
            IssueState::Other => "unknown",
        };
        Issue { id, number, title, body, state: owned(label) }
    }
}

} // verus!
