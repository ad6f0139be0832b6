//! The list of known repositories: one entry per path, named after the
//! path's last component.
use vstd::prelude::*;
use crate::paths::{repo_name, spec_repo_name};
use crate::text::str_eq;

verus! {

#[derive(Debug)]
pub struct RepoEntry {
    pub path: String,
    pub name: String,
}

impl View for RepoEntry {
    type V = (Seq<char>, Seq<char>);

    open spec fn view(&self) -> (Seq<char>, Seq<char>) {
        (self.path@, self.name@)
    }
}

/// The list as `(path, name)` pairs.
pub open spec fn entries(v: Seq<RepoEntry>) -> Seq<(Seq<char>, Seq<char>)> {
    v.map_values(|e: RepoEntry| e@)
}

pub open spec fn has_path(s: Seq<(Seq<char>, Seq<char>)>, path: Seq<char>) -> bool {
    exists|i: int| 0 <= i < s.len() && (#[trigger] s[i]).0 == path
}

/// Adding a path: appended with its derived name, unless already listed.
pub open spec fn add_entry(s: Seq<(Seq<char>, Seq<char>)>, path: Seq<char>) -> Seq<
    (Seq<char>, Seq<char>),
> {
    if has_path(s, path) {
        s
    } else {
        s.push((path, spec_repo_name(path)))
    }
}

/// Entries for a path other than `path`.
pub open spec fn other_path(path: Seq<char>) -> spec_fn((Seq<char>, Seq<char>)) -> bool {
    |e: (Seq<char>, Seq<char>)| e.0 != path
}

/// Removing a path: every entry with that path dropped, the rest in order.
pub open spec fn remove_entry(s: Seq<(Seq<char>, Seq<char>)>, path: Seq<char>) -> Seq<
    (Seq<char>, Seq<char>),
> {
    s.filter(other_path(path))
}

/// No two entries share a path.
pub open spec fn paths_unique(s: Seq<(Seq<char>, Seq<char>)>) -> bool {
    forall|i: int, j: int| 0 <= i < j < s.len() ==> (#[trigger] s[i]).0 != (#[trigger] s[j]).0
}

/// Adds `path` to the list if it is not already present; no-op if it is.
pub fn add_repo_entry(repos: &mut Vec<RepoEntry>, path: String)
    ensures
        entries(final(repos)@) == add_entry(entries(old(repos)@), path@),
{
    let ghost s = entries(repos@);
    let mut i: usize = 0;
    while i < repos.len()
        invariant
            i <= repos@.len(),
            s == entries(repos@),
            forall|j: int| 0 <= j < i ==> (#[trigger] s[j]).0 != path@,
        decreases repos@.len() - i,
    {
        if repos[i].path == path {
            assert(s[i as int].0 == path@);
            return;
        }
        i += 1;
    }
    let name = repo_name(path.as_str());
    repos.push(RepoEntry { name, path });
    assert(entries(repos@) =~= s.push((path@, spec_repo_name(path@))));
}

/// Removes every entry whose path is `path`.
pub fn remove_repo_entry(repos: &mut Vec<RepoEntry>, path: &str)
    ensures
        entries(final(repos)@) == remove_entry(entries(old(repos)@), path@),
{
    let ghost s = entries(repos@);
    let mut kept: Vec<RepoEntry> = Vec::new();
    let mut i: usize = 0;
    while i < repos.len()
        invariant
            i <= repos@.len(),
            s == entries(repos@),
            entries(kept@) == s.take(i as int).filter(other_path(path@)),
        decreases repos@.len() - i,
    {
        assert(s.take(i + 1) =~= s.take(i as int).push(s[i as int]));
        proof {
            s.take(i as int).lemma_filter_push(s[i as int], other_path(path@));
        }
        if !str_eq(repos[i].path.as_str(), path) {
            let e = RepoEntry { path: repos[i].path.clone(), name: repos[i].name.clone() };
            let ghost prev = entries(kept@);
            kept.push(e);
            assert(entries(kept@) =~= prev.push(s[i as int]));
        }
        i += 1;
    }
    assert(s.take(repos@.len() as int) =~= s);
    *repos = kept;
}

/// Law: adding a path that is already listed changes nothing, so adding the
/// same path twice is the same as adding it once.
pub proof fn lemma_add_idempotent(s: Seq<(Seq<char>, Seq<char>)>, path: Seq<char>)
    ensures
        add_entry(add_entry(s, path), path) == add_entry(s, path),
        has_path(add_entry(s, path), path),
{
    if !has_path(s, path) {
        let t = s.push((path, spec_repo_name(path)));
        assert(t[s.len() as int].0 == path);
    }
}

/// Law: adding keeps the list free of duplicate paths.
pub proof fn lemma_add_keeps_paths_unique(s: Seq<(Seq<char>, Seq<char>)>, path: Seq<char>)
    requires
        paths_unique(s),
    ensures
        paths_unique(add_entry(s, path)),
{
    if !has_path(s, path) {
        let t = s.push((path, spec_repo_name(path)));
        assert forall|i: int, j: int| 0 <= i < j < t.len() implies (#[trigger] t[i]).0 != (
        #[trigger] t[j]).0 by {
            if j == s.len() {
                assert(t[i] == s[i]);
            } else {
                assert(t[i] == s[i] && t[j] == s[j]);
            }
        }
    }
}

/// Law: after removal no entry has the path, and every entry with another
/// path is still there.
pub proof fn lemma_remove_drops_only_that_path(s: Seq<(Seq<char>, Seq<char>)>, path: Seq<char>)
    ensures
        !has_path(remove_entry(s, path), path),
        forall|i: int| 0 <= i < s.len() && (#[trigger] s[i]).0 != path ==> remove_entry(
            s,
            path,
        ).contains(s[i]),
{
    let pred = other_path(path);
    let r = s.filter(pred);
    assert forall|i: int| 0 <= i < r.len() implies (#[trigger] r[i]).0 != path by {
        s.lemma_filter_pred(pred, i);
    }
    assert forall|i: int| 0 <= i < s.len() && (#[trigger] s[i]).0 != path implies r.contains(
        s[i],
    ) by {
        s.lemma_filter_contains(pred, i);
    }
}

proof fn lemma_filter_all(s: Seq<(Seq<char>, Seq<char>)>, path: Seq<char>)
    requires
        !has_path(s, path),
    ensures
        remove_entry(s, path) == s,
    decreases s.len(),
{
    if s.len() > 0 {
        let d = s.drop_last();
        assert(!has_path(d, path)) by {
            if has_path(d, path) {
                let i = choose|i: int| 0 <= i < d.len() && (#[trigger] d[i]).0 == path;
                assert(s[i] == d[i]);
            }
        }
        lemma_filter_all(d, path);
        assert(s =~= d.push(s.last()));
        assert(s[s.len() - 1].0 != path);
        d.lemma_filter_push(s.last(), other_path(path));
    } else {
        reveal(Seq::filter);
    }
}

/// Law: removing a path that was just added to a list without it gives
/// back the list as it was.
pub proof fn lemma_remove_undoes_add(s: Seq<(Seq<char>, Seq<char>)>, path: Seq<char>)
    requires
        !has_path(s, path),
    ensures
        remove_entry(add_entry(s, path), path) == s,
{
    lemma_filter_all(s, path);
    s.lemma_filter_push((path, spec_repo_name(path)), other_path(path));
}

} // verus!
