use axum_api::error::AppError;
use axum_api::probe::{branch_label, choose_branch, commit_ref_candidates, content_size, failure_outcome,
    github_file_outcome, plan_probe, ssh_command_override, ssh_key_contents, tree_outcome, Issue, IssueState,
    ProbeFailure, ProbePlan, ProbeStatus, RepoAuthMethod, RepoLink, RepoProvider};

fn link(url: &str, provider: RepoProvider, auth: RepoAuthMethod) -> RepoLink {
    RepoLink { url: url.to_string(), provider, auth_method: auth, default_branch: None }
}

#[test]
fn github_plan_needs_owner_and_token() {
    let l = link("https://github.com/org/repo.git", RepoProvider::Github, RepoAuthMethod::GithubToken);
    match plan_probe(&l, Some("tok")) {
        Ok(ProbePlan::Github { owner, repo, token }) => {
            assert_eq!((owner.as_str(), repo.as_str(), token.as_deref()), ("org", "repo", Some("tok")));
        }
        _ => panic!("expected github plan"),
    }
    assert!(matches!(plan_probe(&l, Some("")), Err(AppError::Validation(m))
        if m == "github_token auth requires a credential with a token set"));
    let short = link("https://github.com/repo", RepoProvider::Github, RepoAuthMethod::Other);
    assert!(matches!(plan_probe(&short, None), Err(AppError::BadRequest(m))
        if m == "could not determine owner/repo from repository URL"));
    let anon = link("https://github.com/org/repo", RepoProvider::Github, RepoAuthMethod::Other);
    assert!(matches!(plan_probe(&anon, Some("ignored")), Ok(ProbePlan::Github { token: None, .. })));
}

#[test]
fn git_plan_needs_key_for_ssh() {
    let l = link("git@host:org/repo.git", RepoProvider::Other, RepoAuthMethod::Ssh);
    assert!(matches!(plan_probe(&l, None), Err(AppError::Validation(m))
        if m == "ssh auth requires a credential with a private key set"));
    assert!(matches!(plan_probe(&l, Some("KEY")), Ok(ProbePlan::Git)));
    let bad = link("file:///tmp/x", RepoProvider::Other, RepoAuthMethod::Other);
    assert!(matches!(plan_probe(&bad, None), Err(AppError::BadRequest(_))));
}

#[test]
fn branch_choices() {
    assert_eq!(choose_branch(Some("dev".to_string()), Some("main2".to_string())), "dev");
    assert_eq!(choose_branch(None, Some("trunk".to_string())), "trunk");
    assert_eq!(choose_branch(None, None), "main");
    assert_eq!(branch_label(&None), "HEAD");
    assert_eq!(branch_label(&Some("x".to_string())), "x");
    assert_eq!(commit_ref_candidates("dev"), vec!["refs/remotes/origin/dev".to_string(),
        "refs/heads/dev".to_string(), "dev".to_string()]);
}

#[test]
fn outcomes_reported() {
    let found = github_file_outcome("main", Ok(Some(12)));
    assert_eq!(found.status, ProbeStatus::Found);
    assert_eq!(found.size, Some(12));
    assert_eq!(found.message, "pipelines.js found on branch main");
    let missing = tree_outcome("HEAD", Ok(None));
    assert_eq!(missing.status, ProbeStatus::Missing);
    assert_eq!(missing.message, "pipelines.js not found on branch HEAD");
    let err = github_file_outcome("main", Err("rate limited".to_string()));
    assert_eq!(err.status, ProbeStatus::Error);
    assert_eq!(err.message, "GitHub API error: rate limited");
    assert_eq!(tree_outcome("x", Ok(Some(None))).size, None);
}

#[test]
fn failure_messages() {
    assert_eq!(failure_outcome(ProbeFailure::GitTimeout).message, "timed out after 30s connecting to the repository");
    assert_eq!(failure_outcome(ProbeFailure::GithubTimeout).message, "timed out after 30s talking to the GitHub API");
    assert_eq!(failure_outcome(ProbeFailure::InvalidBranch { branch: "a\"b".to_string(), error: "bad".to_string() }).message,
        "invalid branch name \"a\\\"b\": bad");
    assert_eq!(failure_outcome(ProbeFailure::Connect("refused".to_string())).message,
        "failed to connect to repository: refused");
}

#[test]
fn ssh_key_gets_final_newline() {
    assert_eq!(ssh_key_contents("KEY"), "KEY\n");
    assert_eq!(ssh_key_contents("KEY\n"), "KEY\n");
    assert_eq!(ssh_key_contents(""), "\n");
    assert_eq!(ssh_command_override("/tmp/k"),
        "core.sshCommand=ssh -i /tmp/k -o IdentitiesOnly=yes -o StrictHostKeyChecking=accept-new -o UserKnownHostsFile=/dev/null");
}

#[test]
fn sizes_and_issues() {
    assert_eq!(content_size(-5), 0);
    assert_eq!(content_size(7), 7);
    let i = Issue::new(1, 2, "t".to_string(), None, IssueState::Other);
    assert_eq!(i.state, "unknown");
    assert_eq!(Issue::new(1, 2, "t".to_string(), None, IssueState::Closed).state, "closed");
}
