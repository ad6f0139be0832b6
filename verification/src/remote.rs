//! Recognition of hosted-repository remote URLs (`https://host/owner/repo.git`,
//! `git@host:owner/repo.git`, `ssh://git@host/owner/repo`, `http://host/...`),
//! shared by the GitHub, GitLab and Bitbucket integrations.
use vstd::prelude::*;
use crate::text::{
    in_class, concat_chars, trim_start_in, first_in, from_chars, lemma_first_in, split_once, split_once_chars, strip_prefix,
    strip_prefix_chars, to_chars, trim, trim_chars, trim_end_class, trim_end_in, trim_end_seq,
    trim_end_seq_chars, CharClass,
};

verus! {

/// The scp-like form `git@<host>:`.
pub open spec fn scp_prefix(host: Seq<char>) -> Seq<char> {
    "git@"@ + host + ":"@
}

/// The `ssh://git@<host>/` form.
pub open spec fn ssh_prefix(host: Seq<char>) -> Seq<char> {
    "ssh://git@"@ + host + "/"@
}

/// The `https://<host>/` form.
pub open spec fn https_prefix(host: Seq<char>) -> Seq<char> {
    "https://"@ + host + "/"@
}

/// The `http://<host>/` form.
pub open spec fn http_prefix(host: Seq<char>) -> Seq<char> {
    "http://"@ + host + "/"@
}

/// The URL with surrounding whitespace, then trailing slashes, then trailing
/// `.git` suffixes removed.
pub open spec fn trimmed_remote(url: Seq<char>) -> Seq<char> {
    trim_end_seq(trim_end_in(trim(url), CharClass::Exactly('/')), ".git"@)
}

/// What follows the first of the four host prefixes that the trimmed URL
/// starts with.
pub open spec fn after_host(t: Seq<char>, host: Seq<char>) -> Option<Seq<char>> {
    match strip_prefix(t, scp_prefix(host)) {
        Some(a) => Some(a),
        None => match strip_prefix(t, ssh_prefix(host)) {
            Some(a) => Some(a),
            None => match strip_prefix(t, https_prefix(host)) {
                Some(a) => Some(a),
                None => strip_prefix(t, http_prefix(host)),
            },
        },
    }
}

/// `(owner, repo)` of a remote URL on `host`: the path after the host split
/// at its first `/`, both parts non-empty. `repo` keeps any further `/`.
pub open spec fn parse_hosted_remote(url: Seq<char>, host: Seq<char>) -> Option<
    (Seq<char>, Seq<char>),
> {
    match after_host(trimmed_remote(url), host) {
        None => None,
        Some(a) => match split_once(a, '/') {
            None => None,
            Some((owner, repo)) => if owner.len() == 0 || repo.len() == 0 {
                None
            } else {
                Some((owner, repo))
            },
        },
    }
}

/// Copies of the four host prefixes, in the order they are tried.
fn host_prefixes(host: &str) -> (r: (Vec<char>, Vec<char>, Vec<char>, Vec<char>))
    ensures
        r.0@ == scp_prefix(host@),
        r.1@ == ssh_prefix(host@),
        r.2@ == https_prefix(host@),
        r.3@ == http_prefix(host@),
{
    let h = to_chars(host);
    let a = concat_chars(&concat_chars(&to_chars("git@"), &h), &to_chars(":"));
    let b = concat_chars(&concat_chars(&to_chars("ssh://git@"), &h), &to_chars("/"));
    let c = concat_chars(&concat_chars(&to_chars("https://"), &h), &to_chars("/"));
    let d = concat_chars(&concat_chars(&to_chars("http://"), &h), &to_chars("/"));
    (a, b, c, d)
}

/// Splits a remote URL on `host` into `(owner, repo)`.
pub fn parse_hosted(url: &str, host: &str) -> (r: Option<(String, String)>)
    ensures
        r matches Some((o, p)) ==> parse_hosted_remote(url@, host@) == Some((o@, p@)),
        r is None ==> parse_hosted_remote(url@, host@) is None,
{
    let u = to_chars(url);
    let t0 = trim_chars(&u);
    let t1 = trim_end_class(&t0, CharClass::Exactly('/'));
    let git = to_chars(".git");
    proof {
        reveal_strlit(".git");
    }
    let t = trim_end_seq_chars(&t1, &git);
    let (p1, p2, p3, p4) = host_prefixes(host);
    let after = match strip_prefix_chars(&t, &p1) {
        Some(a) => a,
        None => match strip_prefix_chars(&t, &p2) {
            Some(a) => a,
            None => match strip_prefix_chars(&t, &p3) {
                Some(a) => a,
                None => match strip_prefix_chars(&t, &p4) {
                    Some(a) => a,
                    None => {
                        return None;
                    },
                },
            },
        },
    };
    match split_once_chars(&after, '/') {
        None => None,
        Some((owner, repo)) => {
            if owner.len() == 0 || repo.len() == 0 {
                None
            } else {
                Some((from_chars(&owner), from_chars(&repo)))
            }
        },
    }
}

/// Law: whatever is recognized has a non-empty owner without `/` and a
/// non-empty repository path.
pub proof fn lemma_parsed_parts_shape(url: Seq<char>, host: Seq<char>)
    ensures
        parse_hosted_remote(url, host) matches Some((o, r)) ==> {
            &&& o.len() > 0
            &&& r.len() > 0
            &&& !o.contains('/')
        },
{
    if let Some(a) = after_host(trimmed_remote(url), host) {
        lemma_first_in(a, CharClass::Exactly('/'));
        if let Some(i) = first_in(a, CharClass::Exactly('/')) {
            let o = a.take(i);
            assert forall|j: int| 0 <= j < o.len() implies o[j] != '/' by {
                assert(o[j] == a[j]);
            }
        }
    }
}

/// The host prefix of each URL form git produces: scp-like, `ssh://`,
/// `https://` and `http://`.
pub open spec fn form_prefix(form: int, host: Seq<char>) -> Seq<char> {
    if form == 0 {
        scp_prefix(host)
    } else if form == 1 {
        ssh_prefix(host)
    } else if form == 2 {
        https_prefix(host)
    } else {
        http_prefix(host)
    }
}

/// The remote URL of `owner/repo` on `host` in the given form, with or
/// without the `.git` suffix.
pub open spec fn remote_url(form: int, host: Seq<char>, owner: Seq<char>, repo: Seq<char>, dot_git: bool) -> Seq<char> {
    form_prefix(form, host) + owner + "/"@ + repo + (if dot_git { ".git"@ } else { Seq::empty() })
}

proof fn lemma_not_prefix_at(p: Seq<char>, t: Seq<char>, i: int)
    requires
        0 <= i < p.len(),
        i < t.len(),
        p[i] != t[i],
    ensures
        !p.is_prefix_of(t),
{
}

proof fn lemma_trimmed_remote(x: Seq<char>, dot_git: bool)
    requires
        x.len() > 0,
        !crate::text::is_ws(x[0]),
        !crate::text::is_ws(x.last()),
        x.last() != '/',
        !".git"@.is_suffix_of(x),
    ensures
        trimmed_remote(x + (if dot_git { ".git"@ } else { Seq::empty() })) == x,
{
    reveal_strlit(".git");
    let url = x + (if dot_git { ".git"@ } else { Seq::empty() });
    assert(url[0] == x[0]);
    if dot_git {
        assert(url.last() == 't');
        assert(url.subrange(0, url.len() - 4) =~= x);
        assert(".git"@.is_suffix_of(url)) by {
            assert forall|j: int| 0 <= j < 4 implies ".git"@[j] == url[url.len() - 4 + j] by {}
        }
    } else {
        assert(url =~= x);
    }
    assert(trim_start_in(url, CharClass::Whitespace) == url);
    assert(trim(url) == url);
    assert(trim_end_in(url, CharClass::Exactly('/')) == url);
    assert(trim_end_seq(x, ".git"@) == x);
    if dot_git {
        assert(trim_end_seq(url, ".git"@) == trim_end_seq(url.subrange(0, url.len() - 4), ".git"@));
    }
    assert(trim_end_seq(url, ".git"@) == x);
}

proof fn lemma_no_git_suffix(p: Seq<char>, owner: Seq<char>, repo: Seq<char>)
    requires
        repo.len() > 0,
        !".git"@.is_suffix_of(repo),
    ensures
        !".git"@.is_suffix_of(p + owner + "/"@ + repo),
{
    reveal_strlit(".git");
    reveal_strlit("/");
    let x = p + owner + "/"@ + repo;
    if ".git"@.is_suffix_of(x) {
        if repo.len() >= 4 {
            assert forall|j: int| 0 <= j < 4 implies ".git"@[j] == repo[repo.len() - 4 + j] by {
                assert(x[x.len() - 4 + j] == repo[repo.len() - 4 + j]);
            }
            assert(".git"@.is_suffix_of(repo));
        } else {
            let k = 4 - repo.len() - 1;
            assert(x[x.len() - repo.len() - 1] == '/');
            assert(".git"@[k] == x[x.len() - 4 + k]);
        }
    }
}

proof fn lemma_after_host_form(form: int, host: Seq<char>, rest: Seq<char>)
    requires
        0 <= form < 4,
    ensures
        after_host(form_prefix(form, host) + rest, host) == Some(rest),
{
    reveal_strlit("git@");
    reveal_strlit(":");
    reveal_strlit("ssh://git@");
    reveal_strlit("/");
    reveal_strlit("https://");
    reveal_strlit("http://");
    let p = form_prefix(form, host);
    let x = p + rest;
    assert(strip_prefix(x, p) == Some(rest)) by {
        assert(p.is_prefix_of(x));
        assert(x.skip(p.len() as int) =~= rest);
    }
    if form >= 1 {
        lemma_not_prefix_at(scp_prefix(host), x, 0);
    }
    if form >= 2 {
        lemma_not_prefix_at(ssh_prefix(host), x, 0);
    }
    if form == 3 {
        lemma_not_prefix_at(https_prefix(host), x, 4);
    }
}

proof fn lemma_split_owner_repo(owner: Seq<char>, repo: Seq<char>)
    requires
        !owner.contains('/'),
    ensures
        split_once(owner + "/"@ + repo, '/') == Some((owner, repo)),
{
    reveal_strlit("/");
    let rest = owner + "/"@ + repo;
    assert forall|j: int| 0 <= j < owner.len() implies !in_class(
        CharClass::Exactly('/'),
        #[trigger] rest[j],
    ) by {
        assert(rest[j] == owner[j]);
    }
    assert(rest[owner.len() as int] == '/');
    crate::text::lemma_first_in_at(rest, CharClass::Exactly('/'), owner.len() as int);
    assert(rest.take(owner.len() as int) =~= owner);
    assert(rest.skip(owner.len() as int + 1) =~= repo);
}

/// Law: every URL form git produces for `owner/repo` on `host` is recognized
/// and yields exactly `(owner, repo)`, with or without the `.git` suffix.
pub proof fn lemma_recognizes_remote_forms(
    form: int,
    host: Seq<char>,
    owner: Seq<char>,
    repo: Seq<char>,
    dot_git: bool,
)
    requires
        0 <= form < 4,
        owner.len() > 0,
        !owner.contains('/'),
        repo.len() > 0,
        !crate::text::is_ws(repo.last()),
        repo.last() != '/',
        !".git"@.is_suffix_of(repo),
    ensures
        parse_hosted_remote(remote_url(form, host, owner, repo, dot_git), host) == Some((owner, repo)),
{
    reveal_strlit("git@");
    reveal_strlit("ssh://git@");
    reveal_strlit("https://");
    reveal_strlit("http://");
    let p = form_prefix(form, host);
    let rest = owner + "/"@ + repo;
    let x = p + rest;
    assert(x =~= p + owner + "/"@ + repo);
    assert(remote_url(form, host, owner, repo, dot_git) =~= x + (if dot_git { ".git"@ } else { Seq::empty() }));
    assert(x[0] == p[0]);
    assert(x.last() == repo.last());
    lemma_no_git_suffix(p, owner, repo);
    lemma_trimmed_remote(x, dot_git);
    lemma_after_host_form(form, host, rest);
    lemma_split_owner_repo(owner, repo);
}

proof fn lemma_after_host_form_of(t: Seq<char>, host: Seq<char>) -> (f: int)
    requires
        after_host(t, host) is Some,
    ensures
        0 <= f < 4,
        form_prefix(f, host).is_prefix_of(t),
        after_host(t, host) == Some(t.skip(form_prefix(f, host).len() as int)),
{
    if scp_prefix(host).is_prefix_of(t) {
        0
    } else if ssh_prefix(host).is_prefix_of(t) {
        1
    } else if https_prefix(host).is_prefix_of(t) {
        2
    } else {
        3
    }
}

proof fn lemma_prefixes_agree(p1: Seq<char>, p2: Seq<char>, t: Seq<char>, i: int)
    requires
        p1.is_prefix_of(t),
        p2.is_prefix_of(t),
        0 <= i < p1.len(),
        i < p2.len(),
    ensures
        p1[i] == p2[i],
{
    assert(p1[i] == t[i]);
    assert(p2[i] == t[i]);
}

/// Law: two hosts that differ at some position `k` never both recognize the
/// same URL: each form spells its host at a fixed place, and the forms
/// differ from one another within their first five characters.
pub proof fn lemma_hosts_exclusive(url: Seq<char>, h1: Seq<char>, h2: Seq<char>, k: int)
    requires
        0 <= k < h1.len(),
        k < h2.len(),
        h1[k] != h2[k],
    ensures
        !(parse_hosted_remote(url, h1) is Some && parse_hosted_remote(url, h2) is Some),
{
    reveal_strlit("git@");
    reveal_strlit(":");
    reveal_strlit("ssh://git@");
    reveal_strlit("/");
    reveal_strlit("https://");
    reveal_strlit("http://");
    let t = trimmed_remote(url);
    if after_host(t, h1) is Some && after_host(t, h2) is Some {
        let f1 = lemma_after_host_form_of(t, h1);
        let f2 = lemma_after_host_form_of(t, h2);
        let p1 = form_prefix(f1, h1);
        let p2 = form_prefix(f2, h2);
        if f1 == f2 {
            let a: int = if f1 == 0 {
                4
            } else if f1 == 1 {
                10
            } else if f1 == 2 {
                8
            } else {
                7
            };
            assert(p1[a + k] == h1[k]);
            assert(p2[a + k] == h2[k]);
            lemma_prefixes_agree(p1, p2, t, a + k);
        } else if (f1 == 2 && f2 == 3) || (f1 == 3 && f2 == 2) {
            lemma_prefixes_agree(p1, p2, t, 4);
        } else {
            lemma_prefixes_agree(p1, p2, t, 0);
        }
    }
}

/// `t` spells `owner/repo` after one of the four host prefixes.
pub open spec fn spelled_as_remote(t: Seq<char>, host: Seq<char>, owner: Seq<char>, repo: Seq<char>) -> bool {
    exists|form: int| 0 <= form < 4 && t == #[trigger] form_prefix(form, host) + owner + "/"@ + repo
}

/// Law: a URL is recognized as `(owner, repo)` exactly when, trimmed, it is
/// one of the four host prefixes followed by `owner/repo`, with `owner`
/// non-empty and free of `/` and `repo` non-empty (`repo` may hold `/`).
/// Every other URL is not recognized at all.
pub proof fn lemma_remote_iff(url: Seq<char>, host: Seq<char>, owner: Seq<char>, repo: Seq<char>)
    ensures
        parse_hosted_remote(url, host) == Some((owner, repo)) <==> {
            &&& spelled_as_remote(trimmed_remote(url), host, owner, repo)
            &&& owner.len() > 0
            &&& !owner.contains('/')
            &&& repo.len() > 0
        },
{
    let t = trimmed_remote(url);
    if parse_hosted_remote(url, host) == Some((owner, repo)) {
        let f = lemma_after_host_form_of(t, host);
        let p = form_prefix(f, host);
        let a = t.skip(p.len() as int);
        assert(after_host(t, host) == Some(a));
        crate::text::lemma_split_once_rejoin(a, '/');
        reveal_strlit("/");
        assert(split_once(a, '/') == Some((owner, repo)));
        assert(a =~= owner + "/"@ + repo);
        assert(t =~= p + a);
        assert(t =~= form_prefix(f, host) + owner + "/"@ + repo);
    }
    if spelled_as_remote(t, host, owner, repo) && owner.len() > 0 && !owner.contains('/')
        && repo.len() > 0 {
        let f = choose|form: int|
            0 <= form < 4 && t == #[trigger] form_prefix(form, host) + owner + "/"@ + repo;
        let rest = owner + "/"@ + repo;
        assert(t =~= form_prefix(f, host) + rest);
        lemma_after_host_form(f, host, rest);
        lemma_split_owner_repo(owner, repo);
    }
}

} // verus!
