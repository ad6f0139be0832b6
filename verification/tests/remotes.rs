use stash_core::github::parse_github_remote;
use stash_core::providers::{bitbucket, github, gitlab};

fn pair(a: &str, b: &str) -> Option<(String, String)> {
    Some((a.to_string(), b.to_string()))
}

#[test]
fn remote_recognizes_common_github_remote_forms() {
    assert_eq!(parse_github_remote("https://github.com/facebook/react.git"), pair("facebook", "react"));
    assert_eq!(parse_github_remote("https://github.com/facebook/react"), pair("facebook", "react"));
    assert_eq!(parse_github_remote("git@github.com:facebook/react.git"), pair("facebook", "react"));
    assert_eq!(parse_github_remote("ssh://git@github.com/facebook/react.git"), pair("facebook", "react"));
    assert_eq!(parse_github_remote("https://github.com/facebook/react/"), pair("facebook", "react"));
}

#[test]
fn remote_rejects_non_github_or_malformed_urls() {
    assert_eq!(parse_github_remote("https://gitlab.com/owner/repo.git"), None);
    assert_eq!(parse_github_remote("C:\\repos\\local-repo"), None);
    assert_eq!(parse_github_remote("https://github.com/only-owner"), None);
}

#[test]
fn github_recognizes_common_github_remote_forms() {
    assert_eq!(github::parse_remote("https://github.com/facebook/react.git"), pair("facebook", "react"));
    assert_eq!(github::parse_remote("https://github.com/facebook/react"), pair("facebook", "react"));
    assert_eq!(github::parse_remote("git@github.com:facebook/react.git"), pair("facebook", "react"));
    assert_eq!(github::parse_remote("ssh://git@github.com/facebook/react.git"), pair("facebook", "react"));
    assert_eq!(github::parse_remote("https://github.com/facebook/react/"), pair("facebook", "react"));
}

#[test]
fn github_rejects_non_github_or_malformed_urls() {
    assert_eq!(github::parse_remote("https://bitbucket.org/owner/repo.git"), None);
    assert_eq!(github::parse_remote("C:\\repos\\local-repo"), None);
    assert_eq!(github::parse_remote("https://github.com/only-owner"), None);
}

#[test]
fn recognizes_common_bitbucket_remote_forms() {
    assert_eq!(bitbucket::parse_remote("https://bitbucket.org/team/repo.git"), pair("team", "repo"));
    assert_eq!(bitbucket::parse_remote("git@bitbucket.org:team/repo.git"), pair("team", "repo"));
    assert_eq!(bitbucket::parse_remote("ssh://git@bitbucket.org/team/repo.git"), pair("team", "repo"));
}

#[test]
fn rejects_non_bitbucket_urls() {
    assert_eq!(bitbucket::parse_remote("https://github.com/team/repo.git"), None);
}

#[test]
fn recognizes_common_gitlab_remote_forms() {
    assert_eq!(gitlab::parse_remote("https://gitlab.com/team/project.git"), pair("team", "project"));
    assert_eq!(gitlab::parse_remote("git@gitlab.com:team/project.git"), pair("team", "project"));
    assert_eq!(gitlab::parse_remote("ssh://git@gitlab.com/team/project.git"), pair("team", "project"));
}

#[test]
fn keeps_nested_subgroup_segments_in_repo() {
    assert_eq!(
        gitlab::parse_remote("https://gitlab.com/team/subgroup/project.git"),
        pair("team", "subgroup/project")
    );
    assert_eq!(gitlab::project_id("team", "subgroup/project"), "team%2Fsubgroup%2Fproject");
}

#[test]
fn rejects_non_gitlab_urls() {
    assert_eq!(gitlab::parse_remote("https://github.com/team/project.git"), None);
}

#[test]
fn http_form_and_surrounding_whitespace_are_accepted() {
    assert_eq!(parse_github_remote("  http://github.com/a/b.git/ \n"), pair("a", "b"));
    assert_eq!(parse_github_remote("https://github.com/a/b.git.git"), pair("a", "b"));
}

#[test]
fn empty_owner_or_repo_is_rejected() {
    assert_eq!(parse_github_remote("https://github.com//repo"), None);
    assert_eq!(parse_github_remote("git@github.com:owner/"), None);
    assert_eq!(parse_github_remote(""), None);
}
