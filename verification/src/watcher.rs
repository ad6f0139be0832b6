//! Which changes under `.git` mean the branch list or the current branch may
//! have moved.
use vstd::prelude::*;
use crate::paths::{components, components_of, file_name, file_name_of};
use crate::text::{eq_str, to_chars, views};

verus! {

/// `refs/heads` or `refs/remotes` at components `i`, `i + 1`.
pub open spec fn refs_pair_at(c: Seq<Seq<char>>, i: int) -> bool {
    0 <= i && i + 1 < c.len() && c[i] == "refs"@ && (c[i + 1] == "heads"@ || c[i + 1]
        == "remotes"@)
}

/// A path is relevant when it is `HEAD` or `packed-refs`, or lies under
/// `refs/heads` or `refs/remotes`; the index, objects, tags and lock files
/// are not.
pub open spec fn spec_is_relevant(path: Seq<char>) -> bool {
    file_name(path) == Some("HEAD"@) || file_name(path) == Some("packed-refs"@) || exists|i: int|
        #[trigger] refs_pair_at(components(path), i)
}

pub fn is_relevant(path: &str) -> (b: bool)
    ensures
        b == spec_is_relevant(path@),
{
    let p = to_chars(path);
    match file_name_of(&p) {
        Some(n) => {
            if eq_str(&n, "HEAD") || eq_str(&n, "packed-refs") {
                return true;
            }
        },
        None => {},
    }
    let c = components_of(&p);
    let ghost cv = components(path@);
    let mut i: usize = 0;
    let n = c.len();
    while n > 0 && i < n - 1
        invariant
            n == c@.len(),
            cv == components(path@),
            views(c@) == cv,
            i <= n,
            forall|j: int| 0 <= j < i ==> !#[trigger] refs_pair_at(cv, j),
        decreases n - i,
    {
        assert(c@[i as int]@ == cv[i as int]);
        assert(c@[i + 1]@ == cv[i + 1]);
        if eq_str(&c[i], "refs") && (eq_str(&c[i + 1], "heads") || eq_str(&c[i + 1], "remotes")) {
            assert(refs_pair_at(cv, i as int));
            return true;
        }
        i += 1;
    }
    assert forall|j: int| !#[trigger] refs_pair_at(cv, j) by {
        if 0 <= j && j + 1 < cv.len() {
            assert(j < i);
        }
    }
    false
}

/// The kinds of file-system change a watcher reports.
#[derive(Clone, Copy, PartialEq, Eq, Structural)]
pub enum ChangeKind {
    Create,
    Modify,
    Remove,
    Other,
}

/// A reported change calls for a refresh when it creates, modifies or
/// removes something and at least one of its paths is relevant.
pub open spec fn spec_should_refresh(kind: ChangeKind, paths: Seq<Seq<char>>) -> bool {
    kind != ChangeKind::Other && exists|i: int| 0 <= i < paths.len() && #[trigger] spec_is_relevant(
        paths[i],
    )
}

pub fn should_refresh(kind: ChangeKind, paths: &Vec<String>) -> (b: bool)
    ensures
        b == spec_should_refresh(kind, paths@.map_values(|p: String| p@)),
{
    let ghost pv = paths@.map_values(|p: String| p@);
    if kind == ChangeKind::Other {
        return false;
    }
    let mut i: usize = 0;
    while i < paths.len()
        invariant
            i <= paths@.len(),
            kind != ChangeKind::Other,
            pv == paths@.map_values(|p: String| p@),
            forall|j: int| 0 <= j < i ==> !#[trigger] spec_is_relevant(pv[j]),
        decreases paths@.len() - i,
    {
        assert(pv[i as int] == paths@[i as int]@);
        if is_relevant(paths[i].as_str()) {
            assert(spec_is_relevant(pv[i as int]));
            return true;
        }
        i += 1;
    }
    false
}

/// Law: what sets off a refresh. `HEAD` and `packed-refs` are relevant
/// wherever they lie; a relevant path in a created, modified or removed
/// batch always sets off a refresh, and adding paths to a batch never takes
/// one away; a change of any other kind, or an empty batch, never does.
pub proof fn lemma_refresh_triggers(kind: ChangeKind, paths: Seq<Seq<char>>, p: Seq<char>)
    ensures
        file_name(p) == Some("HEAD"@) ==> spec_is_relevant(p),
        file_name(p) == Some("packed-refs"@) ==> spec_is_relevant(p),
        (kind != ChangeKind::Other && spec_is_relevant(p)) ==> spec_should_refresh(
            kind,
            paths.push(p),
        ),
        spec_should_refresh(kind, paths) ==> spec_should_refresh(kind, paths.push(p)),
        kind == ChangeKind::Other ==> !spec_should_refresh(kind, paths),
        paths.len() == 0 ==> !spec_should_refresh(kind, paths),
{
    let q = paths.push(p);
    if kind != ChangeKind::Other && spec_is_relevant(p) {
        assert(q[paths.len() as int] == p);
    }
    if spec_should_refresh(kind, paths) {
        let i = choose|i: int| 0 <= i < paths.len() && #[trigger] spec_is_relevant(paths[i]);
        assert(q[i] == paths[i]);
    }
}

} // verus!
