//! Pull-request providers (GitHub, GitLab, Bitbucket): which one a remote
//! belongs to, how each one's credential is named and validated, and the
//! provider-independent shapes the UI renders.
pub mod bitbucket;
pub mod github;
pub mod gitlab;

use vstd::prelude::*;
use crate::remote::{lemma_hosts_exclusive, parse_hosted_remote};
use crate::text::{concat_str, str_eq, string_of};
use self::bitbucket::{decode_credential, spec_decode_credential, spec_encode_credential, Credential};

verus! {

#[derive(Clone, Copy, PartialEq, Eq, Structural, Debug)]
pub enum Provider {
    Github,
    Bitbucket,
    Gitlab,
}

/// The provider a (lower-case) provider name designates.
pub open spec fn provider_named(s: Seq<char>) -> Option<Provider> {
    if s == "github"@ {
        Some(Provider::Github)
    } else if s == "bitbucket"@ {
        Some(Provider::Bitbucket)
    } else if s == "gitlab"@ {
        Some(Provider::Gitlab)
    } else {
        None
    }
}

/// The credential-store account each provider's credential lives under.
pub open spec fn spec_token_account(p: Provider) -> Seq<char> {
    match p {
        Provider::Github => "github_token"@,
        Provider::Bitbucket => "bitbucket_token"@,
        Provider::Gitlab => "gitlab_token"@,
    }
}

/// The display name of each provider.
pub open spec fn spec_label(p: Provider) -> Seq<char> {
    match p {
        Provider::Github => "GitHub"@,
        Provider::Bitbucket => "Bitbucket"@,
        Provider::Gitlab => "GitLab"@,
    }
}

impl Provider {
    /// The provider of a lower-case name, or the "unknown provider" error.
    pub fn parse(s: &str) -> (r: Result<Provider, String>)
        ensures
            r matches Ok(p) ==> provider_named(s@) == Some(p),
            r matches Err(e) ==> provider_named(s@) is None && e@ == "Proveedor desconocido: "@ + s@,
    {
        if str_eq(s, "github") {
            Ok(Provider::Github)
        } else if str_eq(s, "bitbucket") {
            Ok(Provider::Bitbucket)
        } else if str_eq(s, "gitlab") {
            Ok(Provider::Gitlab)
        } else {
            Err(concat_str("Proveedor desconocido: ", s))
        }
    }

    pub fn token_account(self) -> (r: &'static str)
        ensures
            r@ == spec_token_account(self),
    {
        match self {
            Provider::Github => "github_token",
            Provider::Bitbucket => "bitbucket_token",
            Provider::Gitlab => "gitlab_token",
        }
    }

    pub fn label(self) -> (r: &'static str)
        ensures
            r@ == spec_label(self),
    {
        match self {
            Provider::Github => "GitHub",
            Provider::Bitbucket => "Bitbucket",
            Provider::Gitlab => "GitLab",
        }
    }
}

/// Law: every provider's credential is stored under an account of its own,
/// so connecting one provider never overwrites another's credential.
pub proof fn lemma_token_accounts_distinct(p: Provider, q: Provider)
    requires
        p != q,
    ensures
        spec_token_account(p) != spec_token_account(q),
{
    reveal_strlit("github_token");
    reveal_strlit("bitbucket_token");
    reveal_strlit("gitlab_token");
    if spec_token_account(p) == spec_token_account(q) {
        let a = spec_token_account(p);
        let b = spec_token_account(q);
        assert(a.len() == b.len());
        assert(a[3] == b[3]);
    }
}

#[derive(Debug)]
pub struct ConnectedUser {
    pub login: String,
    pub avatar_url: String,
}

#[derive(Debug)]
pub struct PullRequestSummary {
    pub number: u64,
    pub title: String,
    pub author: String,
    pub state: String,
    pub draft: bool,
    pub base: String,
    pub head: String,
    pub html_url: String,
    pub created_at: String,
    pub updated_at: String,
}

#[derive(Debug)]
pub struct PullRequestDetail {
    pub summary: PullRequestSummary,
    pub body: String,
    pub merged: bool,
    pub mergeable: Option<bool>,
    pub mergeable_state: String,
    pub additions: i64,
    pub deletions: i64,
    pub changed_files: i64,
    pub commits: i64,
}

/// Text of an optional string, empty when absent (`unwrap_or_default`).
pub open spec fn text_or_empty(o: Option<String>) -> Seq<char> {
    match o {
        Some(s) => s@,
        None => Seq::empty(),
    }
}

/// `o.unwrap_or_default()` for an optional string.
pub fn string_or_empty(o: Option<String>) -> (r: String)
    ensures
        r@ == text_or_empty(o),
{
    match o {
        Some(s) => s,
        None => String::new(),
    }
}

/// A remote resolved to its provider and `owner/repo` (or, for Bitbucket,
/// `workspace/repo_slug`).
pub struct RemoteRef {
    pub provider: Provider,
    pub owner: String,
    pub repo: String,
}

/// The provider whose remote forms a URL matches, tried in the order GitHub,
/// Bitbucket, GitLab, with the owner and repository it names.
pub open spec fn detect_remote(url: Seq<char>) -> Option<(Provider, Seq<char>, Seq<char>)> {
    match parse_hosted_remote(url, "github.com"@) {
        Some((o, r)) => Some((Provider::Github, o, r)),
        None => match parse_hosted_remote(url, "bitbucket.org"@) {
            Some((o, r)) => Some((Provider::Bitbucket, o, r)),
            None => match parse_hosted_remote(url, "gitlab.com"@) {
                Some((o, r)) => Some((Provider::Gitlab, o, r)),
                None => None,
            },
        },
    }
}

/// Which provider (if any) a remote URL belongs to, and its owner/repo.
pub fn parse_remote(url: &str) -> (r: Option<RemoteRef>)
    ensures
        r matches Some(x) ==> detect_remote(url@) == Some((x.provider, x.owner@, x.repo@)),
        r is None ==> detect_remote(url@) is None,
{
    if let Some((owner, repo)) = github::parse_remote(url) {
        return Some(RemoteRef { provider: Provider::Github, owner, repo });
    }
    if let Some((owner, repo)) = bitbucket::parse_remote(url) {
        return Some(RemoteRef { provider: Provider::Bitbucket, owner, repo });
    }
    if let Some((owner, repo)) = gitlab::parse_remote(url) {
        return Some(RemoteRef { provider: Provider::Gitlab, owner, repo });
    }
    None
}

/// Law: a remote URL is recognized by at most one provider, so the order in
/// which `parse_remote` tries them never changes the answer.
pub proof fn lemma_at_most_one_provider(url: Seq<char>)
    ensures
        !(parse_hosted_remote(url, "github.com"@) is Some && parse_hosted_remote(url, "bitbucket.org"@) is Some),
        !(parse_hosted_remote(url, "github.com"@) is Some && parse_hosted_remote(url, "gitlab.com"@) is Some),
        !(parse_hosted_remote(url, "bitbucket.org"@) is Some && parse_hosted_remote(url, "gitlab.com"@) is Some),
{
    reveal_strlit("github.com");
    reveal_strlit("bitbucket.org");
    reveal_strlit("gitlab.com");
    lemma_hosts_exclusive(url, "github.com"@, "bitbucket.org"@, 0);
    lemma_hosts_exclusive(url, "github.com"@, "gitlab.com"@, 3);
    lemma_hosts_exclusive(url, "bitbucket.org"@, "gitlab.com"@, 0);
}

/// The origin remote's URL resolved to a supported provider.
pub fn resolve_origin_url(url: &str) -> (r: Result<RemoteRef, String>)
    ensures
        r matches Ok(x) ==> detect_remote(url@) == Some((x.provider, x.owner@, x.repo@)),
        r matches Err(e) ==> detect_remote(url@) is None
            && e@ == "El remoto 'origin' no es de un proveedor soportado (GitHub, GitLab o Bitbucket)"@,
{
    match parse_remote(url) {
        Some(x) => Ok(x),
        None => Err(string_of("El remoto 'origin' no es de un proveedor soportado (GitHub, GitLab o Bitbucket)")),
    }
}

pub struct ProviderStatus {
    pub provider: Option<Provider>,
    pub provider_label: Option<String>,
    pub has_token: bool,
    pub owner: Option<String>,
    pub repo: Option<String>,
}

/// The status shown for a repository: its provider, owner and repository
/// when the origin resolved (with whether that provider has a stored
/// credential), all absent otherwise.
pub fn provider_status_of(resolved: Option<RemoteRef>, has_token: bool) -> (st: ProviderStatus)
    ensures
        match resolved {
            Some(x) => {
                &&& st.provider == Some(x.provider)
                &&& st.provider_label matches Some(l) && l@ == spec_label(x.provider)
                &&& st.has_token == has_token
                &&& st.owner == Some(x.owner)
                &&& st.repo == Some(x.repo)
            },
            None => {
                &&& st.provider is None
                &&& st.provider_label is None
                &&& !st.has_token
                &&& st.owner is None
                &&& st.repo is None
            },
        },
{
    match resolved {
        Some(x) => ProviderStatus {
            provider: Some(x.provider),
            provider_label: Some(string_of(x.provider.label())),
            has_token,
            owner: Some(x.owner),
            repo: Some(x.repo),
        },
        None => ProviderStatus {
            provider: None,
            provider_label: None,
            has_token: false,
            owner: None,
            repo: None,
        },
    }
}

/// What connecting a provider checks against its API and then stores.
pub enum ConnectPlan {
    /// A bearer token (GitHub, GitLab).
    Bearer { provider: Provider, token: String },
    /// A Bitbucket username and app password.
    Basic { credential: Credential },
}

/// Whether an optional field was given and is not empty.
pub open spec fn given(o: Option<String>) -> bool {
    o matches Some(s) && s@.len() > 0
}

/// Validates a connect request: the provider name must be known; GitHub and
/// GitLab need a non-empty token, Bitbucket a non-empty username and app
/// password, checked in that order.
pub fn plan_connect(
    provider: &str,
    token: Option<String>,
    username: Option<String>,
    secret: Option<String>,
) -> (r: Result<ConnectPlan, String>)
    ensures
        match provider_named(provider@) {
            None => r matches Err(e) && e@ == "Proveedor desconocido: "@ + provider@,
            Some(p) => if p != Provider::Bitbucket {
                if given(token) {
                    r matches Ok(ConnectPlan::Bearer { provider: q, token: t }) && q == p && Some(t)
                        == token
                } else {
                    r matches Err(e) && e@ == "Falta el token"@
                }
            } else if !given(username) {
                r matches Err(e) && e@ == "Falta el usuario"@
            } else if !given(secret) {
                r matches Err(e) && e@ == "Falta el app password"@
            } else {
                r matches Ok(ConnectPlan::Basic { credential: c }) && Some(c.username) == username
                    && Some(c.secret) == secret
            },
        },
{
    let p = Provider::parse(provider)?;
    match p {
        Provider::Github | Provider::Gitlab => match token {
            Some(t) if !t.as_str().is_empty() => Ok(ConnectPlan::Bearer { provider: p, token: t }),
            _ => Err(string_of("Falta el token")),
        },
        Provider::Bitbucket => {
            let username = match username {
                Some(u) if !u.as_str().is_empty() => u,
                _ => {
                    return Err(string_of("Falta el usuario"));
                },
            };
            let secret = match secret {
                Some(s) if !s.as_str().is_empty() => s,
                _ => {
                    return Err(string_of("Falta el app password"));
                },
            };
            Ok(ConnectPlan::Basic { credential: Credential { username, secret } })
        },
    }
}

impl ConnectPlan {
    /// The provider the plan connects.
    pub fn provider(&self) -> (p: Provider)
        ensures
            match self {
                ConnectPlan::Bearer { provider, .. } => p == *provider,
                ConnectPlan::Basic { .. } => p == Provider::Bitbucket,
            },
    {
        match self {
            ConnectPlan::Bearer { provider, .. } => *provider,
            ConnectPlan::Basic { .. } => Provider::Bitbucket,
        }
    }

    /// The string stored in the credential store once the provider accepted
    /// the credential: the token itself, or the packed Bitbucket pair.
    pub fn stored_secret(&self) -> (s: String)
        ensures
            match self {
                ConnectPlan::Bearer { token, .. } => s@ == token@,
                ConnectPlan::Basic { credential } => s@ == spec_encode_credential(
                    credential.username@,
                    credential.secret@,
                ),
            },
    {
        match self {
            ConnectPlan::Bearer { token, .. } => token.clone(),
            ConnectPlan::Basic { credential } => bitbucket::encode_credential(
                credential.username.as_str(),
                credential.secret.as_str(),
            ),
        }
    }
}

/// "Connect your <provider> account first".
fn connect_first(provider: Provider) -> (e: String)
    ensures
        e@ == "Conecta tu cuenta de "@ + spec_label(provider) + " primero"@,
{
    let a = concat_str("Conecta tu cuenta de ", provider.label());
    concat_str(a.as_str(), " primero")
}

/// The stored bearer token, or the "connect first" error.
pub fn require_bearer_token(provider: Provider, stored: Option<String>) -> (r: Result<String, String>)
    ensures
        match stored {
            Some(t) => r == Ok::<String, String>(t),
            None => r matches Err(e) && e@ == "Conecta tu cuenta de "@ + spec_label(provider)
                + " primero"@,
        },
{
    match stored {
        Some(t) => Ok(t),
        None => Err(connect_first(provider)),
    }
}

/// The stored Bitbucket credential unpacked, or why it cannot be used.
pub fn require_bitbucket_credential(provider: Provider, stored: Option<String>) -> (r: Result<
    Credential,
    String,
>)
    ensures
        match stored {
            None => r matches Err(e) && e@ == "Conecta tu cuenta de "@ + spec_label(provider)
                + " primero"@,
            Some(s) => match spec_decode_credential(s@) {
                Some((u, p)) => r matches Ok(c) && c.username@ == u && c.secret@ == p,
                None => r matches Err(e) && e@
                    == "Credencial de Bitbucket inválida; reconecta tu cuenta"@,
            },
        },
{
    match stored {
        None => Err(connect_first(provider)),
        Some(s) => match decode_credential(s.as_str()) {
            Some(c) => Ok(c),
            None => Err(string_of("Credencial de Bitbucket inválida; reconecta tu cuenta")),
        },
    }
}

/// Law: the provider names accepted, the display names and the credential
/// accounts: `github` is GitHub under `github_token`, `bitbucket` is
/// Bitbucket under `bitbucket_token`, `gitlab` is GitLab under
/// `gitlab_token`, and no other name designates a provider.
pub proof fn lemma_provider_names(s: Seq<char>)
    ensures
        provider_named("github"@) == Some(Provider::Github),
        provider_named("bitbucket"@) == Some(Provider::Bitbucket),
        provider_named("gitlab"@) == Some(Provider::Gitlab),
        s != "github"@ && s != "bitbucket"@ && s != "gitlab"@ ==> provider_named(s) is None,
        spec_label(Provider::Github) == "GitHub"@,
        spec_label(Provider::Bitbucket) == "Bitbucket"@,
        spec_label(Provider::Gitlab) == "GitLab"@,
        spec_token_account(Provider::Github) == "github_token"@,
        spec_token_account(Provider::Bitbucket) == "bitbucket_token"@,
        spec_token_account(Provider::Gitlab) == "gitlab_token"@,
{
    reveal_strlit("github");
    reveal_strlit("bitbucket");
    reveal_strlit("gitlab");
    assert("bitbucket"@ != "github"@) by {
        assert("bitbucket"@.len() != "github"@.len());
    }
    assert("gitlab"@ != "github"@) by {
        assert("gitlab"@[3] != "github"@[3]);
    }
    assert("gitlab"@ != "bitbucket"@) by {
        assert("gitlab"@.len() != "bitbucket"@.len());
    }
}

} // verus!
