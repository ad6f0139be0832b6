//! The GitHub integration of the repository view: which GitHub repository
//! the `origin` remote points at, and the token it needs.
use vstd::prelude::*;
use crate::remote::{lemma_remote_iff, parse_hosted, parse_hosted_remote, spelled_as_remote, trimmed_remote};
use crate::text::string_of;

verus! {

pub const API_BASE: &'static str = "https://api.github.com";

/// Service name under which tokens are kept in the OS credential store.
pub const SERVICE: &'static str = "Stash";

/// Account name of the GitHub token in the OS credential store.
pub const ACCOUNT: &'static str = "github_token";

/// Extracts `(owner, repo)` from a GitHub remote URL, supporting the forms
/// git produces (`https://github.com/owner/repo.git`,
/// `git@github.com:owner/repo.git`, `ssh://git@github.com/owner/repo`, and
/// `http://`); `None` for anything not hosted on github.com.
pub fn parse_github_remote(url: &str) -> (r: Option<(String, String)>)
    ensures
        r matches Some((o, p)) ==> parse_hosted_remote(url@, "github.com"@) == Some((o@, p@)),
        r is None ==> parse_hosted_remote(url@, "github.com"@) is None,
{
    parse_hosted(url, "github.com")
}

/// The GitHub repository of the `origin` remote's URL, or why there is none.
pub fn owner_repo_of_origin(url: &str) -> (r: Result<(String, String), String>)
    ensures
        r matches Ok((o, p)) ==> parse_hosted_remote(url@, "github.com"@) == Some((o@, p@)),
        r matches Err(e) ==> parse_hosted_remote(url@, "github.com"@) is None && e@
            == "El remoto 'origin' no es un repositorio de GitHub"@,
{
    match parse_github_remote(url) {
        Some(x) => Ok(x),
        None => Err(string_of("El remoto 'origin' no es un repositorio de GitHub")),
    }
}

/// The stored token, or the error asking to connect first.
pub fn require_token(stored: Option<String>) -> (r: Result<String, String>)
    ensures
        match stored {
            Some(t) => r == Ok::<String, String>(t),
            None => r matches Err(e) && e@ == "Conecta tu cuenta de GitHub primero"@,
        },
{
    match stored {
        Some(t) => Ok(t),
        None => Err(string_of("Conecta tu cuenta de GitHub primero")),
    }
}

pub struct GithubRepoStatus {
    pub has_token: bool,
    pub owner: Option<String>,
    pub repo: Option<String>,
}

/// The GitHub status of a repository: whether a token is stored, and the
/// owner and repository when `origin` is on GitHub.
pub fn github_status_of(resolved: Option<(String, String)>, has_token: bool) -> (st:
    GithubRepoStatus)
    ensures
        st.has_token == has_token,
        match resolved {
            Some((o, p)) => st.owner == Some(o) && st.repo == Some(p),
            None => st.owner is None && st.repo is None,
        },
{
    match resolved {
        Some((o, p)) => GithubRepoStatus { has_token, owner: Some(o), repo: Some(p) },
        None => GithubRepoStatus { has_token, owner: None, repo: None },
    }
}

/// Law: `parse_github_remote` gives `Some((owner, repo))` exactly when the
/// trimmed URL is `git@github.com:`, `ssh://git@github.com/`,
/// `https://github.com/` or `http://github.com/` followed by `owner/repo`,
/// with `owner` non-empty and free of `/` and `repo` non-empty; it gives
/// `None` for every other URL.
pub proof fn lemma_github_remote_iff(url: Seq<char>, owner: Seq<char>, repo: Seq<char>)
    ensures
        parse_hosted_remote(url, "github.com"@) == Some((owner, repo)) <==> {
            &&& spelled_as_remote(trimmed_remote(url), "github.com"@, owner, repo)
            &&& owner.len() > 0
            &&& !owner.contains('/')
            &&& repo.len() > 0
        },
{
    lemma_remote_iff(url, "github.com"@, owner, repo);
}

} // verus!
