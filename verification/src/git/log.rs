//! The commit log: each commit with its parents and the branch, tag and
//! remote names that point at it.
use vstd::prelude::*;
use crate::git::interactive_rebase::short_sha;

verus! {

pub struct CommitInfo {
    pub sha: String,
    pub short_sha: String,
    pub summary: String,
    pub author_name: String,
    pub author_email: String,
    pub timestamp: i64,
    pub parents: Vec<String>,
    pub refs: Vec<String>,
}

/// A reference as libgit2 lists it: whether it is a branch, tag or
/// remote-tracking branch, the commit it points at directly, and its short
/// name (absent when not UTF-8).
pub struct RefRecord {
    pub listed: bool,
    pub target: Option<String>,
    pub shorthand: Option<String>,
}

/// The name a reference shows next to commit `sha`: only branches, tags and
/// remote-tracking branches pointing straight at it, with a non-empty name.
pub open spec fn ref_name_at(r: RefRecord, sha: Seq<char>) -> Option<Seq<char>> {
    let name = match r.shorthand {
        Some(n) => n@,
        None => Seq::empty(),
    };
    if r.listed && (r.target matches Some(t) && t@ == sha) && name.len() > 0 {
        Some(name)
    } else {
        None
    }
}

pub open spec fn ref_names_at(rs: Seq<RefRecord>, sha: Seq<char>) -> Seq<Seq<char>>
    decreases rs.len(),
{
    if rs.len() == 0 {
        Seq::empty()
    } else {
        match ref_name_at(rs.last(), sha) {
            Some(n) => ref_names_at(rs.drop_last(), sha).push(n),
            None => ref_names_at(rs.drop_last(), sha),
        }
    }
}

pub open spec fn names(v: Seq<String>) -> Seq<Seq<char>> {
    v.map_values(|s: String| s@)
}

/// The names pointing at `sha`, in reference order.
pub fn refs_at(sha: &str, refs: &Vec<RefRecord>) -> (r: Vec<String>)
    ensures
        names(r@) == ref_names_at(refs@, sha@),
{
    let mut out: Vec<String> = Vec::new();
    let mut i: usize = 0;
    while i < refs.len()
        invariant
            i <= refs@.len(),
            names(out@) == ref_names_at(refs@.take(i as int), sha@),
        decreases refs@.len() - i,
    {
        assert(refs@.take(i + 1).drop_last() =~= refs@.take(i as int));
        let r = &refs[i];
        if r.listed {
            if let Some(t) = &r.target {
                if crate::text::str_eq(t.as_str(), sha) {
                    if let Some(n) = &r.shorthand {
                        if !n.as_str().is_empty() {
                            let ghost prev = names(out@);
                            out.push(n.clone());
                            assert(names(out@) =~= prev.push(n@));
                        }
                    }
                }
            }
        }
        i += 1;
    }
    assert(refs@.take(refs@.len() as int) =~= refs@);
    out
}

/// One log entry: id and short id, summary and author (empty when absent),
/// time, parents, and the names pointing at it.
pub fn commit_info(
    sha: String,
    summary: Option<String>,
    author_name: Option<String>,
    author_email: Option<String>,
    timestamp: i64,
    parents: Vec<String>,
    refs: &Vec<RefRecord>,
) -> (c: CommitInfo)
    ensures
        c.sha == sha,
        c.short_sha@ == sha@.take(if sha@.len() < 7 { sha@.len() as int } else { 7 }),
        c.summary@ == match summary {
            Some(s) => s@,
            None => Seq::<char>::empty(),
        },
        c.author_name@ == match author_name {
            Some(s) => s@,
            None => Seq::<char>::empty(),
        },
        c.author_email@ == match author_email {
            Some(s) => s@,
            None => Seq::<char>::empty(),
        },
        c.timestamp == timestamp,
        c.parents@ == parents@,
        names(c.refs@) == ref_names_at(refs@, sha@),
{
    let short = short_sha(sha.as_str());
    let names_at = refs_at(sha.as_str(), refs);
    CommitInfo {
        short_sha: short,
        summary: match summary {
            Some(s) => s,
            None => String::new(),
        },
        author_name: match author_name {
            Some(s) => s,
            None => String::new(),
        },
        author_email: match author_email {
            Some(s) => s,
            None => String::new(),
        },
        timestamp,
        parents,
        refs: names_at,
        sha,
    }
}

/// Reference `r` is listed, points straight at `sha` and is named `n`, a
/// non-empty name.
pub open spec fn names_commit(r: RefRecord, sha: Seq<char>, n: Seq<char>) -> bool {
    &&& r.listed
    &&& r.target matches Some(t) && t@ == sha
    &&& r.shorthand matches Some(m) && m@ == n
    &&& n.len() > 0
}

/// Law: the names shown beside a commit are exactly the non-empty short
/// names of the listed references that point straight at it; a reference
/// that is not listed, points elsewhere or has no name shows nothing.
pub proof fn lemma_refs_at_exactly_pointing(rs: Seq<RefRecord>, sha: Seq<char>, n: Seq<char>)
    ensures
        ref_names_at(rs, sha).contains(n) <==> exists|i: int|
            0 <= i < rs.len() && names_commit(#[trigger] rs[i], sha, n),
        ref_names_at(rs, sha).len() <= rs.len(),
    decreases rs.len(),
{
    if rs.len() > 0 {
        let init = rs.drop_last();
        lemma_refs_at_exactly_pointing(init, sha, n);
        assert forall|i: int| 0 <= i < init.len() implies init[i] == rs[i] by {}
        let last = rs.last();
        if ref_names_at(rs, sha).contains(n) {
            if ref_name_at(last, sha) == Some(n) {
                assert(names_commit(rs[rs.len() - 1], sha, n));
            } else {
                let k = choose|k: int| 0 <= k < ref_names_at(rs, sha).len() && ref_names_at(rs, sha)[k] == n;
                assert(ref_names_at(init, sha)[k] == n);
                let i = choose|i: int| 0 <= i < init.len() && names_commit(#[trigger] init[i], sha, n);
                assert(names_commit(rs[i], sha, n));
            }
        }
        if exists|i: int| 0 <= i < rs.len() && names_commit(#[trigger] rs[i], sha, n) {
            let i = choose|i: int| 0 <= i < rs.len() && names_commit(#[trigger] rs[i], sha, n);
            if i == rs.len() - 1 {
                assert(ref_name_at(last, sha) == Some(n));
                assert(ref_names_at(rs, sha)[ref_names_at(rs, sha).len() - 1] == n);
            } else {
                assert(names_commit(init[i], sha, n));
                assert(ref_names_at(init, sha).contains(n));
                let k = choose|k: int| 0 <= k < ref_names_at(init, sha).len() && ref_names_at(init, sha)[k] == n;
                assert(ref_names_at(rs, sha)[k] == n);
            }
        }
    }
}

} // verus!
