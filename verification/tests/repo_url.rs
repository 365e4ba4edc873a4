use axum_api::repo_url::{check_repo_url, owner_repo, parse_repo_url, RepoUrl, UrlScheme};
use axum_api::error::AppError;

#[test]
fn accepts_https_url() {
    let url = parse_repo_url("https://github.com/org/repo.git").unwrap();
    assert_eq!(url.scheme, UrlScheme::Https);
}

#[test]
fn accepts_scp_style_ssh_url() {
    let url = parse_repo_url("git@github.com:org/repo.git").unwrap();
    assert_eq!(url.scheme, UrlScheme::Ssh);
}

#[test]
fn accepts_explicit_ssh_url() {
    let url = parse_repo_url("ssh://git@github.com/org/repo.git").unwrap();
    assert_eq!(url.scheme, UrlScheme::Ssh);
}

#[test]
fn rejects_file_scheme() {
    assert!(parse_repo_url("file:///etc/passwd").is_err());
}

#[test]
fn rejects_garbage() {
    assert!(parse_repo_url("not a url at all \0").is_err());
}

#[test]
fn owner_repo_from_https_url() {
    let url = parse_repo_url("https://github.com/org/repo.git").unwrap();
    assert_eq!(owner_repo(&url), Some(("org".to_string(), "repo".to_string())));
}

#[test]
fn owner_repo_from_scp_style_url() {
    let url = parse_repo_url("git@github.com:org/repo.git").unwrap();
    assert_eq!(owner_repo(&url), Some(("org".to_string(), "repo".to_string())));
}

#[test]
fn owner_repo_from_url_without_git_suffix() {
    let url = parse_repo_url("https://github.com/org/repo").unwrap();
    assert_eq!(owner_repo(&url), Some(("org".to_string(), "repo".to_string())));
}

#[test]
fn owner_repo_missing_when_path_too_short() {
    let url = parse_repo_url("https://github.com/repo").unwrap();
    assert_eq!(owner_repo(&url), None);
}

#[test]
fn file_scheme_error_names_the_scheme() {
    match parse_repo_url("file:///etc/passwd") {
        Err(AppError::BadRequest(m)) => assert_eq!(m, "unsupported repository URL scheme: File"),
        other => panic!("unexpected {:?}", other.map(|u| u.path)),
    }
}

#[test]
fn url_keeps_host_and_path() {
    let url = parse_repo_url("https://github.com/org/repo.git").unwrap();
    assert_eq!(url.host.as_deref(), Some("github.com"));
    assert_eq!(url.path, "/org/repo.git");
}

#[test]
fn owner_repo_trims_slashes_and_repeated_suffixes() {
    let url = parse_repo_url("https://example.com/team/tool.git.git/").unwrap();
    assert_eq!(owner_repo(&url), Some(("team".to_string(), "tool".to_string())));
}

#[test]
fn owner_repo_keeps_nested_owner() {
    let url = parse_repo_url("https://gitlab.com/group/sub/project.git").unwrap();
    assert_eq!(owner_repo(&url), Some(("group/sub".to_string(), "project".to_string())));
}

#[test]
fn git_scheme_accepted() {
    let url = parse_repo_url("git://example.com/org/repo.git").unwrap();
    assert_eq!(url.scheme, UrlScheme::Git);
}

#[test]
fn check_repo_url_verdicts() {
    let url = |scheme: UrlScheme| RepoUrl { scheme, user: None, host: Some("example.org".to_string()), port: None, path: "/o/r.git".to_string() };
    let ok = check_repo_url(Ok(url(UrlScheme::Https))).expect("https refused");
    assert_eq!(ok, url(UrlScheme::Https));
    assert!(matches!(check_repo_url(Ok(url(UrlScheme::File))),
        Err(AppError::BadRequest(m)) if m == "unsupported repository URL scheme: File"));
    assert!(matches!(check_repo_url(Ok(url(UrlScheme::Helper("foo".to_string())))),
        Err(AppError::BadRequest(m)) if m == "unsupported repository URL scheme: Helper(\"foo\")"));
    assert!(matches!(check_repo_url(Err("boom".to_string())),
        Err(AppError::BadRequest(m)) if m == "invalid repository URL: boom"));
}
