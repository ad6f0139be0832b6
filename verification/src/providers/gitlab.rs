//! GitLab merge requests: remote recognition (subgroups included), the
//! URL-encoded project id, and the mapping of GitLab's merge-request objects
//! onto the provider-independent shapes.
use vstd::prelude::*;
use crate::remote::{parse_hosted, parse_hosted_remote};
use crate::text::{
    concat_str, decimal, decimal_of, from_chars, parse_i64, parse_i64_chars, str_eq, string_of, to_chars,
    trim_end_class, trim_end_in, CharClass,
};
use super::{string_or_empty, text_or_empty, ConnectedUser, PullRequestDetail, PullRequestSummary};

verus! {

pub const API_BASE: &'static str = "https://gitlab.com/api/v4";

pub const USER_AGENT: &'static str = "Stash-Git-Client";

/// `(owner, repo)` of a GitLab remote URL; `repo` keeps nested subgroup
/// segments (`subgroup/project`).
pub fn parse_remote(url: &str) -> (r: Option<(String, String)>)
    ensures
        r matches Some((o, p)) ==> parse_hosted_remote(url@, "gitlab.com"@) == Some((o@, p@)),
        r is None ==> parse_hosted_remote(url@, "gitlab.com"@) is None,
{
    parse_hosted(url, "gitlab.com")
}

/// `s` with every `/` written as `%2F`.
pub open spec fn escape_slashes(s: Seq<char>) -> Seq<char>
    decreases s.len(),
{
    if s.len() == 0 {
        Seq::empty()
    } else {
        escape_slashes(s.drop_last()) + (if s.last() == '/' {
            "%2F"@
        } else {
            seq![s.last()]
        })
    }
}

/// The URL-encoded full project path GitLab's project endpoints take.
pub open spec fn spec_project_id(owner: Seq<char>, repo: Seq<char>) -> Seq<char> {
    escape_slashes(owner + "/"@ + repo)
}

pub fn project_id(owner: &str, repo: &str) -> (r: String)
    ensures
        r@ == spec_project_id(owner@, repo@),
{
    let a = concat_str(owner, "/");
    let path = concat_str(a.as_str(), repo);
    let s = to_chars(path.as_str());
    let esc = to_chars("%2F");
    let mut out: Vec<char> = Vec::new();
    let mut i: usize = 0;
    while i < s.len()
        invariant
            i <= s@.len(),
            out@ == escape_slashes(s@.take(i as int)),
            esc@ == "%2F"@,
        decreases s@.len() - i,
    {
        assert(s@.take(i + 1).drop_last() =~= s@.take(i as int));
        let c = s[i];
        if c == '/' {
            let mut j: usize = 0;
            let ghost before = out@;
            proof {
                reveal_strlit("%2F");
            }
            while j < esc.len()
                invariant
                    j <= esc@.len(),
                    out@ == before + esc@.take(j as int),
                decreases esc@.len() - j,
            {
                out.push(esc[j]);
                assert(esc@.take(j + 1) =~= esc@.take(j as int).push(esc@[j as int]));
                j += 1;
            }
            assert(esc@.take(esc@.len() as int) =~= esc@);
        } else {
            out.push(c);
        }
        i += 1;
    }
    assert(s@.take(s@.len() as int) =~= s@);
    from_chars(&out)
}

/// Law: the project id has no `/` left, so it is a single URL path segment.
pub proof fn lemma_project_id_single_segment(s: Seq<char>)
    ensures
        !escape_slashes(s).contains('/'),
    decreases s.len(),
{
    reveal_strlit("%2F");
    if s.len() > 0 {
        lemma_project_id_single_segment(s.drop_last());
        let a = escape_slashes(s.drop_last());
        let b = if s.last() == '/' {
            "%2F"@
        } else {
            seq![s.last()]
        };
        assert forall|j: int| 0 <= j < (a + b).len() implies (a + b)[j] != '/' by {
            if j < a.len() {
                assert((a + b)[j] == a[j]);
            } else {
                assert((a + b)[j] == b[j - a.len()]);
            }
        }
    }
}

/// A user object as the GitLab API returns it.
pub struct RawUser {
    pub username: String,
    pub avatar_url: Option<String>,
}

/// A merge request as the GitLab API returns it.
pub struct RawMergeRequest {
    pub iid: u64,
    pub title: String,
    pub state: String,
    pub draft: bool,
    pub author: RawUser,
    pub source_branch: String,
    pub target_branch: String,
    pub web_url: String,
    pub created_at: String,
    pub updated_at: String,
    pub description: Option<String>,
    pub merge_status: Option<String>,
    pub changes_count: Option<String>,
}

impl RawUser {
    /// The connected account: username and avatar (empty when absent).
    pub fn into_user(self) -> (u: ConnectedUser)
        ensures
            u.login == self.username,
            u.avatar_url@ == text_or_empty(self.avatar_url),
    {
        ConnectedUser { login: self.username, avatar_url: string_or_empty(self.avatar_url) }
    }
}

/// GitLab's opened/closed/merged/locked folded onto `open`/`closed`.
pub open spec fn normalized_state(state: Seq<char>) -> Seq<char> {
    if state == "opened"@ {
        "open"@
    } else {
        "closed"@
    }
}

fn normalize_state(state: &str) -> (r: String)
    ensures
        r@ == normalized_state(state@),
{
    if str_eq(state, "opened") {
        string_of("open")
    } else {
        string_of("closed")
    }
}

/// `can_be_merged` / `cannot_be_merged`, anything else unknown.
pub open spec fn spec_mergeable(merge_status: Option<String>) -> Option<bool> {
    match merge_status {
        Some(m) => if m@ == "can_be_merged"@ {
            Some(true)
        } else if m@ == "cannot_be_merged"@ {
            Some(false)
        } else {
            None
        },
        None => None,
    }
}

/// The changed-file count from GitLab's `changes_count` string ("3", or
/// "1000+" when capped); zero when absent or not a number.
pub open spec fn spec_changed_files(changes_count: Option<String>) -> i64 {
    match changes_count {
        Some(c) => match parse_i64(trim_end_in(c@, CharClass::Exactly('+'))) {
            Some(v) => v,
            None => 0,
        },
        None => 0,
    }
}

fn changed_files_of(changes_count: &Option<String>) -> (r: i64)
    ensures
        r == spec_changed_files(*changes_count),
{
    match changes_count {
        Some(c) => {
            let cs = to_chars(c.as_str());
            let t = trim_end_class(&cs, CharClass::Exactly('+'));
            match parse_i64_chars(&t) {
                Some(v) => v,
                None => 0,
            }
        },
        None => 0,
    }
}

impl RawMergeRequest {
    /// The list entry, with the state normalized and the branches taken from
    /// source (head) and target (base).
    pub fn into_summary(self) -> (s: PullRequestSummary)
        ensures
            s.number == self.iid,
            s.title == self.title,
            s.author == self.author.username,
            s.state@ == normalized_state(self.state@),
            s.draft == self.draft,
            s.base == self.target_branch,
            s.head == self.source_branch,
            s.html_url == self.web_url,
            s.created_at == self.created_at,
            s.updated_at == self.updated_at,
    {
        let state = normalize_state(self.state.as_str());
        PullRequestSummary {
            number: self.iid,
            title: self.title,
            author: self.author.username,
            state,
            draft: self.draft,
            base: self.target_branch,
            head: self.source_branch,
            html_url: self.web_url,
            created_at: self.created_at,
            updated_at: self.updated_at,
        }
    }

    /// The detail view: merged exactly when GitLab says `merged`, the
    /// mergeable flag from `merge_status`, the changed-file count from
    /// `changes_count`; the figures GitLab has no cheap endpoint for stay 0.
    pub fn into_detail(self) -> (d: PullRequestDetail)
        ensures
            d.body@ == text_or_empty(self.description),
            d.merged == (self.state@ == "merged"@),
            d.mergeable == spec_mergeable(self.merge_status),
            d.mergeable_state@ == text_or_empty(self.merge_status),
            d.additions == 0,
            d.deletions == 0,
            d.changed_files == spec_changed_files(self.changes_count),
            d.commits == 0,
            d.summary.number == self.iid,
            d.summary.title == self.title,
            d.summary.author == self.author.username,
            d.summary.state@ == normalized_state(self.state@),
            d.summary.draft == self.draft,
            d.summary.base == self.target_branch,
            d.summary.head == self.source_branch,
            d.summary.html_url == self.web_url,
            d.summary.created_at == self.created_at,
            d.summary.updated_at == self.updated_at,
    {
        let merged = str_eq(self.state.as_str(), "merged");
        let mergeable = match &self.merge_status {
            Some(m) => if str_eq(m.as_str(), "can_be_merged") {
                Some(true)
            } else if str_eq(m.as_str(), "cannot_be_merged") {
                Some(false)
            } else {
                None
            },
            None => None,
        };
        let changed_files = changed_files_of(&self.changes_count);
        let body = string_or_empty(self.description);
        let mergeable_state = string_or_empty(self.merge_status);
        let state = normalize_state(self.state.as_str());
        let summary = PullRequestSummary {
            number: self.iid,
            title: self.title,
            author: self.author.username,
            state,
            draft: self.draft,
            base: self.target_branch,
            head: self.source_branch,
            html_url: self.web_url,
            created_at: self.created_at,
            updated_at: self.updated_at,
        };
        PullRequestDetail {
            summary,
            body,
            merged,
            mergeable,
            mergeable_state,
            additions: 0,
            deletions: 0,
            changed_files,
            commits: 0,
        }
    }
}

/// The GitLab states one request per value asks for: `open` is `opened`,
/// `closed` is `closed` and `merged` (GitLab filters on one state at a time),
/// anything else is `all`.
pub open spec fn spec_state_filter(state: Seq<char>) -> Seq<Seq<char>> {
    if state == "open"@ {
        seq!["opened"@]
    } else if state == "closed"@ {
        seq!["closed"@, "merged"@]
    } else {
        seq!["all"@]
    }
}

pub fn state_filter_values(state: &str) -> (r: Vec<&'static str>)
    ensures
        r@.map_values(|x: &str| x@) == spec_state_filter(state@),
{
    let mut v: Vec<&'static str> = Vec::new();
    if str_eq(state, "open") {
        v.push("opened");
    } else if str_eq(state, "closed") {
        v.push("closed");
        v.push("merged");
    } else {
        v.push("all");
    }
    assert(v@.map_values(|x: &str| x@) =~= spec_state_filter(state@));
    v
}

/// Law: filtering by `open` or `closed` asks exactly for GitLab states that
/// the list normalizes back to that same label.
pub proof fn lemma_filter_matches_normalization(label: Seq<char>, i: int)
    requires
        label == "open"@ || label == "closed"@,
        0 <= i < spec_state_filter(label).len(),
    ensures
        normalized_state(spec_state_filter(label)[i]) == label,
{
    reveal_strlit("open");
    reveal_strlit("closed");
    reveal_strlit("opened");
    reveal_strlit("merged");
    if label == "closed"@ {
        assert("open"@ != "closed"@) by {
            assert("open"@.len() != "closed"@.len());
        }
        let s = spec_state_filter(label)[i];
        assert(s != "opened"@) by {
            assert(s[0] != 'o');
        }
    }
}

/// Whether a merge method asks GitLab to squash (GitLab has no
/// rebase-and-merge, so `rebase` is a plain merge).
pub fn wants_squash(method: &str) -> (b: bool)
    ensures
        b == (method@ == "squash"@),
{
    str_eq(method, "squash")
}

/// The JSON body of a failed GitLab call, as far as it is read: the JSON
/// text of its `message` and `error` members, when present.
pub struct ErrorBody {
    pub message: Option<String>,
    pub error: Option<String>,
}

/// What a failed call is explained by: GitLab's `message`, else its
/// `error`, else the raw body.
pub open spec fn spec_error_detail(body: Option<ErrorBody>, raw: Seq<char>) -> Seq<char> {
    match body {
        Some(ErrorBody { message: Some(m), .. }) => m@,
        Some(ErrorBody { message: None, error: Some(e) }) => e@,
        _ => raw,
    }
}

/// The error for a failed API call: the status, then its explanation.
pub fn api_error(status: &str, body: Option<ErrorBody>, raw: String) -> (e: String)
    ensures
        e@ == "GitLab respondió "@ + status@ + ": "@ + spec_error_detail(body, raw@),
{
    let m = match body {
        Some(ErrorBody { message: Some(m), .. }) => m,
        Some(ErrorBody { message: None, error: Some(e) }) => e,
        _ => raw,
    };
    let a = concat_str("GitLab respondió ", status);
    let b = concat_str(a.as_str(), ": ");
    concat_str(b.as_str(), m.as_str())
}

/// A refused merge is explained by GitLab's `message` alone, else the raw
/// body, with no status.
pub fn merge_error(body: Option<ErrorBody>, raw: String) -> (e: String)
    ensures
        e@ == match body {
            Some(ErrorBody { message: Some(m), .. }) => m@,
            _ => raw@,
        },
{
    match body {
        Some(ErrorBody { message: Some(m), .. }) => m,
        _ => raw,
    }
}

/// `GET` endpoint of the authenticated user.
pub fn user_url(base: &str) -> (r: String)
    ensures
        r@ == base@ + "/user"@,
{
    concat_str(base, "/user")
}

/// The merge-request collection of a project.
pub open spec fn spec_merge_requests_url(base: Seq<char>, owner: Seq<char>, repo: Seq<char>) -> Seq<
    char,
> {
    base + "/projects/"@ + spec_project_id(owner, repo) + "/merge_requests"@
}

pub fn merge_requests_url(base: &str, owner: &str, repo: &str) -> (r: String)
    ensures
        r@ == spec_merge_requests_url(base@, owner@, repo@),
{
    let id = project_id(owner, repo);
    let a = concat_str(base, "/projects/");
    let b = concat_str(a.as_str(), id.as_str());
    concat_str(b.as_str(), "/merge_requests")
}

/// One merge request of a project, by its project-local number.
pub fn merge_request_url(base: &str, owner: &str, repo: &str, number: u64) -> (r: String)
    ensures
        r@ == spec_merge_requests_url(base@, owner@, repo@) + "/"@ + decimal(number as nat),
{
    let a = merge_requests_url(base, owner, repo);
    let b = concat_str(a.as_str(), "/");
    concat_str(b.as_str(), decimal_of(number).as_str())
}

/// The merge endpoint of a merge request.
pub fn merge_url(base: &str, owner: &str, repo: &str, number: u64) -> (r: String)
    ensures
        r@ == spec_merge_requests_url(base@, owner@, repo@) + "/"@ + decimal(number as nat)
            + "/merge"@,
{
    let a = merge_request_url(base, owner, repo, number);
    concat_str(a.as_str(), "/merge")
}

/// The error for a successful response whose body is not what was asked for.
pub fn unexpected_response(detail: &str) -> (e: String)
    ensures
        e@ == "Respuesta inesperada de GitLab: "@ + detail@,
{
    concat_str("Respuesta inesperada de GitLab: ", detail)
}

/// Law: GitLab's states and merge status. Only `opened` is shown as `open`,
/// every other state as `closed`; `can_be_merged` is mergeable,
/// `cannot_be_merged` is not, and any other status leaves it unknown.
pub proof fn lemma_states_and_mergeable(state: Seq<char>, status: Option<String>)
    ensures
        normalized_state("opened"@) == "open"@,
        state != "opened"@ ==> normalized_state(state) == "closed"@,
        status matches Some(m) && m@ == "can_be_merged"@ ==> spec_mergeable(status) == Some(true),
        status matches Some(m) && m@ == "cannot_be_merged"@ ==> spec_mergeable(status) == Some(
            false,
        ),
        status matches Some(m) && m@ != "can_be_merged"@ && m@ != "cannot_be_merged"@
            ==> spec_mergeable(status) is None,
        status is None ==> spec_mergeable(status) is None,
{
    reveal_strlit("can_be_merged");
    reveal_strlit("cannot_be_merged");
    assert("can_be_merged"@ != "cannot_be_merged"@) by {
        assert("can_be_merged"@.len() != "cannot_be_merged"@.len());
    }
}

} // verus!
