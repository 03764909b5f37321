use cchecker::repo::{parse_github_repo, repo_from_remote, repo_source, RepoSource, ResolveError};

#[test]
fn explicit_repo_skips_remote() {
    match repo_source(Some("octocat/Hello-World".to_string())) {
        RepoSource::Given(s) => assert_eq!(s, "octocat/Hello-World"),
        RepoSource::FromRemote => panic!("the remote must not be read"),
    }
    assert!(matches!(repo_source(None), RepoSource::FromRemote));
}

#[test]
fn parses_remote_urls() {
    assert_eq!(parse_github_repo("https://github.com/octocat/Hello-World.git"), Some("octocat/Hello-World".to_string()));
    assert_eq!(parse_github_repo("git@github.com:owner/repo"), Some("owner/repo".to_string()));
    assert_eq!(parse_github_repo("https://github.com/a/b.git.git"), Some("a/b".to_string()));
    assert_eq!(parse_github_repo("https://gitlab.com/a/b.git"), None);
    assert_eq!(parse_github_repo("github.com"), None);
    assert_eq!(parse_github_repo("github.com/"), Some(String::new()));
}

#[test]
fn remote_resolution_errors() {
    assert_eq!(repo_from_remote(None), Err(ResolveError::NoRemote));
    assert_eq!(repo_from_remote(Some("https://example.org/x".to_string())), Err(ResolveError::NotHosted));
    assert_eq!(repo_from_remote(Some("https://github.com/x/y.git".to_string())), Ok("x/y".to_string()));
}
