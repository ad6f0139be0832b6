//! Remotes, and the network commands run through the `git` binary.
use vstd::prelude::*;
use crate::text::{
    concat_chars, from_chars, join, join_chars, string_of, to_chars, trim, trim_chars, views,
};

verus! {

pub struct RemoteInfo {
    pub name: String,
    pub url: String,
}

/// A remote as listed: its name and URL (empty when it has none).
pub fn remote_info(name: String, url: Option<String>) -> (r: RemoteInfo)
    ensures
        r.name == name,
        r.url@ == match url {
            Some(u) => u@,
            None => Seq::<char>::empty(),
        },
{
    RemoteInfo {
        name,
        url: match url {
            Some(u) => u,
            None => String::new(),
        },
    }
}

pub open spec fn arg_views(v: Seq<String>) -> Seq<Seq<char>> {
    v.map_values(|s: String| s@)
}

/// The error of a failed `git` run: its standard error, trimmed, or when
/// that is empty, `git <args> falló`.
pub open spec fn spec_git_failure(args: Seq<Seq<char>>, stderr: Seq<char>) -> Seq<char> {
    if trim(stderr).len() == 0 {
        "git "@ + join(args, " "@) + " falló"@
    } else {
        trim(stderr)
    }
}

pub fn git_failure_message(args: &Vec<String>, stderr: &str) -> (r: String)
    ensures
        r@ == spec_git_failure(arg_views(args@), stderr@),
{
    let t = trim_chars(&to_chars(stderr));
    if t.len() > 0 {
        return from_chars(&t);
    }
    let mut parts: Vec<Vec<char>> = Vec::new();
    let mut i: usize = 0;
    while i < args.len()
        invariant
            i <= args@.len(),
            views(parts@) == arg_views(args@).take(i as int),
        decreases args@.len() - i,
    {
        let ghost prev = views(parts@);
        parts.push(to_chars(args[i].as_str()));
        assert(views(parts@) =~= prev.push(args@[i as int]@));
        assert(arg_views(args@).take(i + 1) =~= arg_views(args@).take(i as int).push(
            args@[i as int]@,
        ));
        i += 1;
    }
    assert(arg_views(args@).take(args@.len() as int) =~= arg_views(args@));
    let joined = join_chars(&parts, &to_chars(" "));
    let a = concat_chars(&to_chars("git "), &joined);
    from_chars(&concat_chars(&a, &to_chars(" falló")))
}

/// `git fetch <remote>`.
pub fn fetch_args(remote: &str) -> (r: Vec<String>)
    ensures
        arg_views(r@) == seq!["fetch"@, remote@],
{
    let mut v: Vec<String> = Vec::new();
    v.push(string_of("fetch"));
    v.push(string_of(remote));
    assert(arg_views(v@) =~= seq!["fetch"@, remote@]);
    v
}

/// `git pull --ff-only <remote>`: never a merge commit, never clobbering
/// local work; a divergence is an error.
pub fn pull_args(remote: &str) -> (r: Vec<String>)
    ensures
        arg_views(r@) == seq!["pull"@, "--ff-only"@, remote@],
{
    let mut v: Vec<String> = Vec::new();
    v.push(string_of("pull"));
    v.push(string_of("--ff-only"));
    v.push(string_of(remote));
    assert(arg_views(v@) =~= seq!["pull"@, "--ff-only"@, remote@]);
    v
}

/// `git push -u <remote> <branch>`.
pub fn push_args(remote: &str, branch: &str) -> (r: Vec<String>)
    ensures
        arg_views(r@) == seq!["push"@, "-u"@, remote@, branch@],
{
    let mut v: Vec<String> = Vec::new();
    v.push(string_of("push"));
    v.push(string_of("-u"));
    v.push(string_of(remote));
    v.push(string_of(branch));
    assert(arg_views(v@) =~= seq!["push"@, "-u"@, remote@, branch@]);
    v
}

} // verus!
