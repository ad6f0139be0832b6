//! Bitbucket pull requests: remote recognition, the packed username/app
//! password credential, and the mapping of Bitbucket's pull-request objects
//! onto the provider-independent shapes.
use vstd::prelude::*;
use crate::remote::{parse_hosted, parse_hosted_remote};
use crate::text::{
    concat_chars, concat_str, decimal, decimal_of, from_chars, lemma_split_once_concat, lemma_split_once_rejoin,
    split_once, split_once_chars, str_eq, string_of, to_chars,
};
use super::{string_or_empty, text_or_empty, ConnectedUser, PullRequestDetail, PullRequestSummary};

verus! {

pub const API_BASE: &'static str = "https://api.bitbucket.org/2.0";

/// `(workspace, repo_slug)` of a Bitbucket remote URL.
pub fn parse_remote(url: &str) -> (r: Option<(String, String)>)
    ensures
        r matches Some((o, p)) ==> parse_hosted_remote(url@, "bitbucket.org"@) == Some((o@, p@)),
        r is None ==> parse_hosted_remote(url@, "bitbucket.org"@) is None,
{
    parse_hosted(url, "bitbucket.org")
}

/// A Bitbucket username with its app password.
pub struct Credential {
    pub username: String,
    pub secret: String,
}

/// The single stored string for a credential: `username`, newline, `secret`.
pub open spec fn spec_encode_credential(username: Seq<char>, secret: Seq<char>) -> Seq<char> {
    username + seq!['\n'] + secret
}

/// The credential a stored string holds: split at its first newline, both
/// parts non-empty.
pub open spec fn spec_decode_credential(stored: Seq<char>) -> Option<(Seq<char>, Seq<char>)> {
    match split_once(stored, '\n') {
        Some((u, s)) => if u.len() == 0 || s.len() == 0 {
            None
        } else {
            Some((u, s))
        },
        None => None,
    }
}

pub fn encode_credential(username: &str, secret: &str) -> (r: String)
    ensures
        r@ == spec_encode_credential(username@, secret@),
{
    let mut nl: Vec<char> = Vec::new();
    nl.push('\n');
    let a = concat_chars(&to_chars(username), &nl);
    let b = concat_chars(&a, &to_chars(secret));
    from_chars(&b)
}

pub fn decode_credential(stored: &str) -> (r: Option<Credential>)
    ensures
        r matches Some(c) ==> spec_decode_credential(stored@) == Some((c.username@, c.secret@)),
        r is None ==> spec_decode_credential(stored@) is None,
{
    let s = to_chars(stored);
    match split_once_chars(&s, '\n') {
        Some((u, p)) => {
            if u.len() == 0 || p.len() == 0 {
                None
            } else {
                Some(Credential { username: from_chars(&u), secret: from_chars(&p) })
            }
        },
        None => None,
    }
}

/// Law: a credential packed for storage unpacks to the same username and
/// app password, provided both are non-empty and the username holds no
/// newline.
pub proof fn lemma_credential_round_trip(username: Seq<char>, secret: Seq<char>)
    requires
        username.len() > 0,
        secret.len() > 0,
        !username.contains('\n'),
    ensures
        spec_decode_credential(spec_encode_credential(username, secret)) == Some((username, secret)),
{
    lemma_split_once_concat(username, '\n', secret);
}

/// Law: whatever unpacks as a credential is exactly the packing of what it
/// unpacks to.
pub proof fn lemma_decoded_credential_repacks(stored: Seq<char>)
    ensures
        spec_decode_credential(stored) matches Some((u, s)) ==> spec_encode_credential(u, s)
            == stored,
{
    lemma_split_once_rejoin(stored, '\n');
}

/// A link object (`{"href": ...}`).
pub struct RawLink {
    pub href: String,
}

/// A user's links; the avatar may be missing.
pub struct RawUserLinks {
    pub avatar: Option<RawLink>,
}

/// A user object as the Bitbucket API returns it.
pub struct RawUser {
    pub display_name: String,
    pub links: RawUserLinks,
}

pub struct RawBranch {
    pub name: String,
}

pub struct RawBranchRef {
    pub branch: RawBranch,
}

pub struct RawPrLinks {
    pub html: RawLink,
}

/// A pull request as the Bitbucket API returns it.
pub struct RawPullRequest {
    pub id: u64,
    pub title: String,
    pub state: String,
    pub draft: bool,
    pub author: RawUser,
    pub source: RawBranchRef,
    pub destination: RawBranchRef,
    pub links: RawPrLinks,
    pub created_on: String,
    pub updated_on: String,
    pub description: Option<String>,
}

impl RawUser {
    /// The connected account: display name and avatar link (empty when
    /// Bitbucket gives none).
    pub fn into_user(self) -> (u: ConnectedUser)
        ensures
            u.login == self.display_name,
            u.avatar_url@ == (match self.links.avatar {
                Some(a) => a.href@,
                None => Seq::empty(),
            }),
    {
        let avatar_url = match self.links.avatar {
            Some(a) => a.href,
            None => String::new(),
        };
        ConnectedUser { login: self.display_name, avatar_url }
    }
}

/// Bitbucket's OPEN/MERGED/DECLINED/SUPERSEDED folded onto `open`/`closed`.
pub open spec fn normalized_state(state: Seq<char>) -> Seq<char> {
    if state == "OPEN"@ {
        "open"@
    } else {
        "closed"@
    }
}

fn normalize_state(state: &str) -> (r: String)
    ensures
        r@ == normalized_state(state@),
{
    if str_eq(state, "OPEN") {
        string_of("open")
    } else {
        string_of("closed")
    }
}

impl RawPullRequest {
    /// The list entry, with the state normalized and the branches taken from
    /// source (head) and destination (base).
    pub fn into_summary(self) -> (s: PullRequestSummary)
        ensures
            s.number == self.id,
            s.title == self.title,
            s.author == self.author.display_name,
            s.state@ == normalized_state(self.state@),
            s.draft == self.draft,
            s.base == self.destination.branch.name,
            s.head == self.source.branch.name,
            s.html_url == self.links.html.href,
            s.created_at == self.created_on,
            s.updated_at == self.updated_on,
    {
        let state = normalize_state(self.state.as_str());
        PullRequestSummary {
            number: self.id,
            title: self.title,
            author: self.author.display_name,
            state,
            draft: self.draft,
            base: self.destination.branch.name,
            head: self.source.branch.name,
            html_url: self.links.html.href,
            created_at: self.created_on,
            updated_at: self.updated_on,
        }
    }

    /// The detail view: merged exactly when Bitbucket says MERGED; the
    /// fields Bitbucket does not expose stay unknown or zero.
    pub fn into_detail(self) -> (d: PullRequestDetail)
        ensures
            d.body@ == text_or_empty(self.description),
            d.merged == (self.state@ == "MERGED"@),
            d.mergeable is None,
            d.mergeable_state@ == Seq::<char>::empty(),
            d.additions == 0,
            d.deletions == 0,
            d.changed_files == 0,
            d.commits == 0,
            d.summary.number == self.id,
            d.summary.title == self.title,
            d.summary.author == self.author.display_name,
            d.summary.state@ == normalized_state(self.state@),
            d.summary.draft == self.draft,
            d.summary.base == self.destination.branch.name,
            d.summary.head == self.source.branch.name,
            d.summary.html_url == self.links.html.href,
            d.summary.created_at == self.created_on,
            d.summary.updated_at == self.updated_on,
    {
        let merged = str_eq(self.state.as_str(), "MERGED");
        let body = string_or_empty(self.description);
        let state = normalize_state(self.state.as_str());
        let summary = PullRequestSummary {
            number: self.id,
            title: self.title,
            author: self.author.display_name,
            state,
            draft: self.draft,
            base: self.destination.branch.name,
            head: self.source.branch.name,
            html_url: self.links.html.href,
            created_at: self.created_on,
            updated_at: self.updated_on,
        };
        PullRequestDetail {
            summary,
            body,
            merged,
            mergeable: None,
            mergeable_state: String::new(),
            additions: 0,
            deletions: 0,
            changed_files: 0,
            commits: 0,
        }
    }
}

/// The Bitbucket states a UI filter (`open`, `closed`, anything else) asks
/// for; no filter at all for anything else.
pub open spec fn spec_state_filter(state: Seq<char>) -> Seq<Seq<char>> {
    if state == "open"@ {
        seq!["OPEN"@]
    } else if state == "closed"@ {
        seq!["MERGED"@, "DECLINED"@, "SUPERSEDED"@]
    } else {
        seq![]
    }
}

pub fn state_filter_values(state: &str) -> (r: Vec<&'static str>)
    ensures
        r@.map_values(|x: &str| x@) == spec_state_filter(state@),
{
    let mut v: Vec<&'static str> = Vec::new();
    if str_eq(state, "open") {
        v.push("OPEN");
    } else if str_eq(state, "closed") {
        v.push("MERGED");
        v.push("DECLINED");
        v.push("SUPERSEDED");
    }
    assert(v@.map_values(|x: &str| x@) =~= spec_state_filter(state@));
    v
}

/// Law: filtering by `open` or `closed` asks exactly for Bitbucket states
/// that the list normalizes back to that same label.
pub proof fn lemma_filter_matches_normalization(label: Seq<char>, i: int)
    requires
        label == "open"@ || label == "closed"@,
        0 <= i < spec_state_filter(label).len(),
    ensures
        normalized_state(spec_state_filter(label)[i]) == label,
{
    reveal_strlit("open");
    reveal_strlit("closed");
    reveal_strlit("OPEN");
    reveal_strlit("MERGED");
    reveal_strlit("DECLINED");
    reveal_strlit("SUPERSEDED");
    if label == "closed"@ {
        assert("open"@ != "closed"@) by {
            assert("open"@.len() != "closed"@.len());
        }
        let s = spec_state_filter(label)[i];
        assert(s != "OPEN"@) by {
            assert(s[0] != 'O');
        }
    }
}

/// Bitbucket's merge strategy for the UI's merge method: `squash` as is,
/// `rebase` as the closest equivalent `fast_forward`, anything else as a
/// merge commit.
pub open spec fn spec_merge_strategy(method: Seq<char>) -> Seq<char> {
    if method == "squash"@ {
        "squash"@
    } else if method == "rebase"@ {
        "fast_forward"@
    } else {
        "merge_commit"@
    }
}

pub fn merge_strategy(method: &str) -> (r: &'static str)
    ensures
        r@ == spec_merge_strategy(method@),
{
    if str_eq(method, "squash") {
        "squash"
    } else if str_eq(method, "rebase") {
        "fast_forward"
    } else {
        "merge_commit"
    }
}

/// The `error` object of a failed Bitbucket call's body.
pub struct ErrorDetail {
    pub message: Option<String>,
}

/// The JSON body of a failed Bitbucket call, as far as it is read.
pub struct ErrorBody {
    pub error: Option<ErrorDetail>,
}

/// What a failed call is explained by: Bitbucket's `error.message` when the
/// body carried one, else the raw body.
pub open spec fn spec_error_detail(body: Option<ErrorBody>, raw: Seq<char>) -> Seq<char> {
    match body {
        Some(ErrorBody { error: Some(ErrorDetail { message: Some(m) }) }) => m@,
        _ => raw,
    }
}

fn error_detail(body: Option<ErrorBody>, raw: String) -> (e: String)
    ensures
        e@ == spec_error_detail(body, raw@),
{
    match body {
        Some(ErrorBody { error: Some(ErrorDetail { message: Some(m) }) }) => m,
        _ => raw,
    }
}

/// The error for a failed API call: the status, then its explanation.
pub fn api_error(status: &str, body: Option<ErrorBody>, raw: String) -> (e: String)
    ensures
        e@ == "Bitbucket respondió "@ + status@ + ": "@ + spec_error_detail(body, raw@),
{
    let m = error_detail(body, raw);
    let a = concat_str("Bitbucket respondió ", status);
    let b = concat_str(a.as_str(), ": ");
    concat_str(b.as_str(), m.as_str())
}

/// A refused merge is explained without the status.
pub fn merge_error(body: Option<ErrorBody>, raw: String) -> (e: String)
    ensures
        e@ == spec_error_detail(body, raw@),
{
    error_detail(body, raw)
}

/// `GET` endpoint of the authenticated user.
pub fn user_url(base: &str) -> (r: String)
    ensures
        r@ == base@ + "/user"@,
{
    concat_str(base, "/user")
}

/// The pull-request collection of a repository.
pub open spec fn spec_pullrequests_url(base: Seq<char>, workspace: Seq<char>, repo_slug: Seq<
    char,
>) -> Seq<char> {
    base + "/repositories/"@ + workspace + "/"@ + repo_slug + "/pullrequests"@
}

pub fn pullrequests_url(base: &str, workspace: &str, repo_slug: &str) -> (r: String)
    ensures
        r@ == spec_pullrequests_url(base@, workspace@, repo_slug@),
{
    let a = concat_str(base, "/repositories/");
    let b = concat_str(a.as_str(), workspace);
    let c = concat_str(b.as_str(), "/");
    let d = concat_str(c.as_str(), repo_slug);
    concat_str(d.as_str(), "/pullrequests")
}

/// One pull request of a repository.
pub fn pullrequest_url(base: &str, workspace: &str, repo_slug: &str, number: u64) -> (r: String)
    ensures
        r@ == spec_pullrequests_url(base@, workspace@, repo_slug@) + "/"@ + decimal(number as nat),
{
    let a = pullrequests_url(base, workspace, repo_slug);
    let b = concat_str(a.as_str(), "/");
    concat_str(b.as_str(), decimal_of(number).as_str())
}

/// The merge endpoint of a pull request.
pub fn merge_url(base: &str, workspace: &str, repo_slug: &str, number: u64) -> (r: String)
    ensures
        r@ == spec_pullrequests_url(base@, workspace@, repo_slug@) + "/"@ + decimal(number as nat)
            + "/merge"@,
{
    let a = pullrequest_url(base, workspace, repo_slug, number);
    concat_str(a.as_str(), "/merge")
}

/// The error for a successful response whose body is not what was asked for.
pub fn unexpected_response(detail: &str) -> (e: String)
    ensures
        e@ == "Respuesta inesperada de Bitbucket: "@ + detail@,
{
    concat_str("Respuesta inesperada de Bitbucket: ", detail)
}

/// Law: Bitbucket's states and merge methods. Only `OPEN` is shown as
/// `open`, every other state as `closed`, and only `MERGED` counts as merged;
/// `squash` merges squashed, `rebase` fast-forwards, anything else makes a
/// merge commit.
pub proof fn lemma_states_and_strategies(state: Seq<char>, method: Seq<char>)
    ensures
        normalized_state("OPEN"@) == "open"@,
        state != "OPEN"@ ==> normalized_state(state) == "closed"@,
        spec_merge_strategy("squash"@) == "squash"@,
        spec_merge_strategy("rebase"@) == "fast_forward"@,
        method != "squash"@ && method != "rebase"@ ==> spec_merge_strategy(method) == "merge_commit"@,
{
    reveal_strlit("squash");
    reveal_strlit("rebase");
    assert("rebase"@ != "squash"@) by {
        assert("rebase"@[0] != "squash"@[0]);
    }
}

} // verus!
