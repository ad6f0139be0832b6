//! GitHub pull requests: remote recognition and the mapping of GitHub's
//! pull-request objects onto the provider-independent shapes.
use vstd::prelude::*;
use crate::remote::{parse_hosted, parse_hosted_remote};
use crate::text::{concat_str, decimal, decimal_of};
use super::{string_or_empty, text_or_empty, ConnectedUser, PullRequestDetail, PullRequestSummary};

verus! {

pub const API_BASE: &'static str = "https://api.github.com";

pub const USER_AGENT: &'static str = "Stash-Git-Client";

/// `(owner, repo)` of a GitHub remote URL.
pub fn parse_remote(url: &str) -> (r: Option<(String, String)>)
    ensures
        r matches Some((o, p)) ==> parse_hosted_remote(url@, "github.com"@) == Some((o@, p@)),
        r is None ==> parse_hosted_remote(url@, "github.com"@) is None,
{
    parse_hosted(url, "github.com")
}

/// A user object as the GitHub API returns it.
pub struct RawUser {
    pub login: String,
    pub avatar_url: String,
}

/// A branch reference (`{"ref": ...}`) of a pull request.
pub struct RawBranchRef {
    pub ref_: String,
}

/// A pull request as the GitHub API returns it.
pub struct RawPullRequest {
    pub number: u64,
    pub title: String,
    pub state: String,
    pub draft: bool,
    pub user: RawUser,
    pub base: RawBranchRef,
    pub head: RawBranchRef,
    pub html_url: String,
    pub created_at: String,
    pub updated_at: String,
    pub body: Option<String>,
    pub merged: Option<bool>,
    pub mergeable: Option<bool>,
    pub mergeable_state: Option<String>,
    pub additions: Option<i64>,
    pub deletions: Option<i64>,
    pub changed_files: Option<i64>,
    pub commits: Option<i64>,
}

impl RawUser {
    /// The connected account: its login and avatar.
    pub fn into_user(self) -> (u: ConnectedUser)
        ensures
            u.login == self.login,
            u.avatar_url == self.avatar_url,
    {
        ConnectedUser { login: self.login, avatar_url: self.avatar_url }
    }
}

/// `o.unwrap_or(d)` for numbers.
pub open spec fn count_or(o: Option<i64>, d: i64) -> i64 {
    match o {
        Some(v) => v,
        None => d,
    }
}

fn i64_or(o: Option<i64>, d: i64) -> (r: i64)
    ensures
        r == count_or(o, d),
{
    match o {
        Some(v) => v,
        None => d,
    }
}

impl RawPullRequest {
    /// The list entry: GitHub's fields carried over unchanged (GitHub
    /// already uses the lower-case `open`/`closed` states).
    pub fn into_summary(self) -> (s: PullRequestSummary)
        ensures
            s.number == self.number,
            s.title == self.title,
            s.author == self.user.login,
            s.state == self.state,
            s.draft == self.draft,
            s.base == self.base.ref_,
            s.head == self.head.ref_,
            s.html_url == self.html_url,
            s.created_at == self.created_at,
            s.updated_at == self.updated_at,
    {
        PullRequestSummary {
            number: self.number,
            title: self.title,
            author: self.user.login,
            state: self.state,
            draft: self.draft,
            base: self.base.ref_,
            head: self.head.ref_,
            html_url: self.html_url,
            created_at: self.created_at,
            updated_at: self.updated_at,
        }
    }

    /// The detail view: absent optional fields become empty text, `false`
    /// or zero; `mergeable` stays unknown when GitHub has not computed it.
    pub fn into_detail(self) -> (d: PullRequestDetail)
        ensures
            d.body@ == text_or_empty(self.body),
            d.merged == (self.merged == Some(true)),
            d.mergeable == self.mergeable,
            d.mergeable_state@ == text_or_empty(self.mergeable_state),
            d.additions == count_or(self.additions, 0),
            d.deletions == count_or(self.deletions, 0),
            d.changed_files == count_or(self.changed_files, 0),
            d.commits == count_or(self.commits, 0),
            d.summary.number == self.number,
            d.summary.title == self.title,
            d.summary.author == self.user.login,
            d.summary.state == self.state,
            d.summary.draft == self.draft,
            d.summary.base == self.base.ref_,
            d.summary.head == self.head.ref_,
            d.summary.html_url == self.html_url,
            d.summary.created_at == self.created_at,
            d.summary.updated_at == self.updated_at,
    {
        let body = string_or_empty(self.body);
        let merged = match self.merged {
            Some(m) => m,
            None => false,
        };
        let mergeable = self.mergeable;
        let mergeable_state = string_or_empty(self.mergeable_state);
        let additions = i64_or(self.additions, 0);
        let deletions = i64_or(self.deletions, 0);
        let changed_files = i64_or(self.changed_files, 0);
        let commits = i64_or(self.commits, 0);
        let summary = PullRequestSummary {
            number: self.number,
            title: self.title,
            author: self.user.login,
            state: self.state,
            draft: self.draft,
            base: self.base.ref_,
            head: self.head.ref_,
            html_url: self.html_url,
            created_at: self.created_at,
            updated_at: self.updated_at,
        };
        PullRequestDetail {
            summary,
            body,
            merged,
            mergeable,
            mergeable_state,
            additions,
            deletions,
            changed_files,
            commits,
        }
    }
}

/// The `Authorization` header value for a token.
pub fn bearer(token: &str) -> (h: String)
    ensures
        h@ == "Bearer "@ + token@,
{
    concat_str("Bearer ", token)
}

/// The JSON body of a failed GitHub call, as far as it is read: its
/// `message` member when that is a string.
pub struct ErrorBody {
    pub message: Option<String>,
}

/// What a failed call is explained by: GitHub's own message when the body
/// carried one, else the raw body.
pub open spec fn spec_error_detail(body: Option<ErrorBody>, raw: Seq<char>) -> Seq<char> {
    match body {
        Some(ErrorBody { message: Some(m) }) => m@,
        _ => raw,
    }
}

/// The error for a failed API call: the status, then its explanation.
pub fn api_error(status: &str, body: Option<ErrorBody>, raw: String) -> (e: String)
    ensures
        e@ == "GitHub respondió "@ + status@ + ": "@ + spec_error_detail(body, raw@),
{
    let m = match body {
        Some(ErrorBody { message: Some(m) }) => m,
        _ => raw,
    };
    let a = concat_str("GitHub respondió ", status);
    let b = concat_str(a.as_str(), ": ");
    concat_str(b.as_str(), m.as_str())
}

/// The result of a merge request: done when GitHub reports it merged,
/// otherwise GitHub's explanation.
pub fn merge_outcome(merged: bool, message: String) -> (r: Result<(), String>)
    ensures
        merged ==> r is Ok,
        !merged ==> r == Err::<(), String>(message),
{
    if merged {
        Ok(())
    } else {
        Err(message)
    }
}

/// `GET` endpoint of the authenticated user.
pub fn user_url(base: &str) -> (r: String)
    ensures
        r@ == base@ + "/user"@,
{
    concat_str(base, "/user")
}

/// The pull-request collection of a repository.
pub open spec fn spec_pulls_url(base: Seq<char>, owner: Seq<char>, repo: Seq<char>) -> Seq<char> {
    base + "/repos/"@ + owner + "/"@ + repo + "/pulls"@
}

pub fn pulls_url(base: &str, owner: &str, repo: &str) -> (r: String)
    ensures
        r@ == spec_pulls_url(base@, owner@, repo@),
{
    let a = concat_str(base, "/repos/");
    let b = concat_str(a.as_str(), owner);
    let c = concat_str(b.as_str(), "/");
    let d = concat_str(c.as_str(), repo);
    concat_str(d.as_str(), "/pulls")
}

/// One pull request of a repository.
pub fn pull_url(base: &str, owner: &str, repo: &str, number: u64) -> (r: String)
    ensures
        r@ == spec_pulls_url(base@, owner@, repo@) + "/"@ + decimal(number as nat),
{
    let a = pulls_url(base, owner, repo);
    let b = concat_str(a.as_str(), "/");
    concat_str(b.as_str(), decimal_of(number).as_str())
}

/// The merge endpoint of a pull request.
pub fn merge_url(base: &str, owner: &str, repo: &str, number: u64) -> (r: String)
    ensures
        r@ == spec_pulls_url(base@, owner@, repo@) + "/"@ + decimal(number as nat) + "/merge"@,
{
    let a = pull_url(base, owner, repo, number);
    concat_str(a.as_str(), "/merge")
}

/// The error for a successful response whose body is not what was asked for.
pub fn unexpected_response(detail: &str) -> (e: String)
    ensures
        e@ == "Respuesta inesperada de GitHub: "@ + detail@,
{
    concat_str("Respuesta inesperada de GitHub: ", detail)
}

} // verus!
