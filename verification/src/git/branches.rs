//! Branch listing and the rules for deleting and checking out branches.
use vstd::prelude::*;
use crate::sort::{lemma_multiset_map, lemma_with_key_map, sort_by_key, sorted_by_key, with_key, Keyed};
use crate::text::{
    concat_str, from_chars, lemma_split_once_concat, lemma_split_once_rejoin, split_once,
    split_once_chars, str_eq, string_of, to_chars,
};

verus! {

pub struct BranchInfo {
    pub name: String,
    pub is_head: bool,
    pub upstream: Option<String>,
}

pub struct RemoteBranchInfo {
    pub name: String,
    pub remote: String,
    pub branch: String,
    pub has_local: bool,
}

impl Keyed for BranchInfo {
    open spec fn key(&self) -> Seq<char> {
        self.name@
    }

    fn key_chars(&self) -> (r: Vec<char>) {
        to_chars(self.name.as_str())
    }
}

impl Keyed for RemoteBranchInfo {
    open spec fn key(&self) -> Seq<char> {
        self.name@
    }

    fn key_chars(&self) -> (r: Vec<char>) {
        to_chars(self.name.as_str())
    }
}

pub open spec fn opt_text(o: Option<String>) -> Option<Seq<char>> {
    match o {
        Some(s) => Some(s@),
        None => None,
    }
}

/// A local branch as libgit2 lists it: its name (absent when not UTF-8),
/// whether it is `HEAD`, and its upstream's name if it has one.
pub struct LocalBranch {
    pub name: Option<String>,
    pub is_head: bool,
    pub upstream: Option<String>,
}

/// A listed branch as plain values.
pub open spec fn branch_model(b: BranchInfo) -> (Seq<char>, bool, Option<Seq<char>>) {
    (b.name@, b.is_head, opt_text(b.upstream))
}

pub open spec fn local_model(b: LocalBranch) -> (Seq<char>, bool, Option<Seq<char>>) {
    (
        match b.name {
            Some(n) => n@,
            None => Seq::empty(),
        },
        b.is_head,
        opt_text(b.upstream),
    )
}

/// Listed branches as plain values.
pub open spec fn branch_models(s: Seq<BranchInfo>) -> Seq<(Seq<char>, bool, Option<Seq<char>>)> {
    s.map_values(|b: BranchInfo| branch_model(b))
}

/// Branches as libgit2 lists them, as plain values.
pub open spec fn local_models(s: Seq<LocalBranch>) -> Seq<(Seq<char>, bool, Option<Seq<char>>)> {
    s.map_values(|b: LocalBranch| local_model(b))
}

/// Whether a listed entry carries the name `name`.
pub open spec fn named<X, Y>(name: Seq<char>) -> spec_fn((Seq<char>, X, Y)) -> bool {
    |m: (Seq<char>, X, Y)| m.0 == name
}

/// Whether a remote-tracking entry carries the full name `name`.
pub open spec fn named_remote(name: Seq<char>) -> spec_fn((Seq<char>, Seq<char>, Seq<char>, bool)) -> bool {
    |m: (Seq<char>, Seq<char>, Seq<char>, bool)| m.0 == name
}

/// The local branches, each once, ordered by name; branches of equal names
/// keep their order.
pub fn list_branches(raw: Vec<LocalBranch>) -> (r: Vec<BranchInfo>)
    ensures
        sorted_by_key(r@),
        r@.map_values(|b: BranchInfo| branch_model(b)).to_multiset() == raw@.map_values(
            |b: LocalBranch| local_model(b),
        ).to_multiset(),
        forall|name: Seq<char>|
            #[trigger] branch_models(r@).filter(named(name)) == local_models(raw@).filter(
                named(name),
            ),
{
    let mut built: Vec<BranchInfo> = Vec::new();
    let mut i: usize = 0;
    while i < raw.len()
        invariant
            i <= raw@.len(),
            built@.map_values(|b: BranchInfo| branch_model(b)) == raw@.take(i as int).map_values(
                |b: LocalBranch| local_model(b),
            ),
        decreases raw@.len() - i,
    {
        let b = &raw[i];
        let name = match &b.name {
            Some(n) => n.clone(),
            None => String::new(),
        };
        let upstream = match &b.upstream {
            Some(u) => Some(u.clone()),
            None => None,
        };
        let ghost prev = built@.map_values(|x: BranchInfo| branch_model(x));
        let info = BranchInfo { name, is_head: b.is_head, upstream };
        assert(branch_model(info) == local_model(raw@[i as int]));
        built.push(info);
        assert(built@.map_values(|x: BranchInfo| branch_model(x)) =~= prev.push(
            local_model(raw@[i as int]),
        ));
        assert(raw@.take(i + 1).map_values(|x: LocalBranch| local_model(x)) =~= raw@.take(
            i as int,
        ).map_values(|x: LocalBranch| local_model(x)).push(local_model(raw@[i as int])));
        i += 1;
    }
    assert(raw@.take(raw@.len() as int) =~= raw@);
    let sorted = sort_by_key(built);
    proof {
        lemma_multiset_map(sorted@, built@, |b: BranchInfo| branch_model(b));
        assert forall|name: Seq<char>|
            #[trigger] branch_models(sorted@).filter(named(name)) == local_models(raw@).filter(
                named(name),
            ) by {
            lemma_with_key_map(sorted@, name, |b: BranchInfo| branch_model(b), named(name));
            lemma_with_key_map(built@, name, |b: BranchInfo| branch_model(b), named(name));
            assert(with_key(sorted@, name) == with_key(built@, name));
        }
    }
    sorted
}

/// A remote-tracking branch as libgit2 lists it: whether it is a symbolic
/// pointer (such as `origin/HEAD`) and its full name (absent when it cannot
/// be read).
pub struct RemoteBranchRaw {
    pub symbolic: bool,
    pub name: Option<String>,
}

/// The entry a remote-tracking branch gives: none for symbolic pointers or
/// names without a `/`; else the full name, the remote (before the first
/// `/`), the branch (after it), and whether a local branch of that name
/// exists.
pub open spec fn remote_entry(r: RemoteBranchRaw, locals: Seq<Seq<char>>) -> Option<
    (Seq<char>, Seq<char>, Seq<char>, bool),
> {
    if r.symbolic {
        None
    } else {
        let full = match r.name {
            Some(n) => n@,
            None => Seq::empty(),
        };
        match split_once(full, '/') {
            Some((remote, short)) => if full.len() == 0 {
                None
            } else {
                Some((full, remote, short, locals.contains(short)))
            },
            None => None,
        }
    }
}

pub open spec fn remote_entries(rs: Seq<RemoteBranchRaw>, locals: Seq<Seq<char>>) -> Seq<
    (Seq<char>, Seq<char>, Seq<char>, bool),
>
    decreases rs.len(),
{
    if rs.len() == 0 {
        Seq::empty()
    } else {
        match remote_entry(rs.last(), locals) {
            Some(e) => remote_entries(rs.drop_last(), locals).push(e),
            None => remote_entries(rs.drop_last(), locals),
        }
    }
}

pub open spec fn remote_model(b: RemoteBranchInfo) -> (Seq<char>, Seq<char>, Seq<char>, bool) {
    (b.name@, b.remote@, b.branch@, b.has_local)
}

pub open spec fn names(v: Seq<String>) -> Seq<Seq<char>> {
    v.map_values(|s: String| s@)
}

fn contains_name(v: &Vec<String>, x: &[char]) -> (b: bool)
    ensures
        b == names(v@).contains(x@),
{
    let mut i: usize = 0;
    while i < v.len()
        invariant
            i <= v@.len(),
            forall|j: int| 0 <= j < i ==> names(v@)[j] != x@,
        decreases v@.len() - i,
    {
        if crate::text::eq_str(x, v[i].as_str()) {
            assert(names(v@)[i as int] == x@);
            return true;
        }
        i += 1;
    }
    false
}

/// Listed remote-tracking branches as plain values.
pub open spec fn remote_models(s: Seq<RemoteBranchInfo>) -> Seq<(Seq<char>, Seq<char>, Seq<char>, bool)> {
    s.map_values(|b: RemoteBranchInfo| remote_model(b))
}

/// The remote-tracking branches, ordered by full name (entries of equal
/// names keeping their order), each marked with whether a local branch of
/// the same short name exists.
pub fn list_remote_branches(remotes: &Vec<RemoteBranchRaw>, local_names: &Vec<String>) -> (r: Vec<
    RemoteBranchInfo,
>)
    ensures
        sorted_by_key(r@),
        r@.map_values(|b: RemoteBranchInfo| remote_model(b)).to_multiset() == remote_entries(
            remotes@,
            names(local_names@),
        ).to_multiset(),
        forall|name: Seq<char>|
            #[trigger] remote_models(r@).filter(named_remote(name)) == remote_entries(
                remotes@,
                names(local_names@),
            ).filter(named_remote(name)),
{
    let ghost locals = names(local_names@);
    let mut built: Vec<RemoteBranchInfo> = Vec::new();
    let mut i: usize = 0;
    while i < remotes.len()
        invariant
            i <= remotes@.len(),
            locals == names(local_names@),
            built@.map_values(|b: RemoteBranchInfo| remote_model(b)) == remote_entries(
                remotes@.take(i as int),
                locals,
            ),
        decreases remotes@.len() - i,
    {
        assert(remotes@.take(i + 1).drop_last() =~= remotes@.take(i as int));
        let r = &remotes[i];
        if !r.symbolic {
            let full = match &r.name {
                Some(n) => to_chars(n.as_str()),
                None => Vec::new(),
            };
            if let Some((remote, short)) = split_once_chars(&full, '/') {
                if full.len() > 0 {
                    let has_local = contains_name(local_names, &short);
                    let ghost prev = built@.map_values(|b: RemoteBranchInfo| remote_model(b));
                    let info = RemoteBranchInfo {
                        name: from_chars(&full),
                        remote: from_chars(&remote),
                        branch: from_chars(&short),
                        has_local,
                    };
                    built.push(info);
                    assert(built@.map_values(|b: RemoteBranchInfo| remote_model(b)) =~= prev.push(
                        (full@, remote@, short@, has_local),
                    ));
                }
            }
        }
        i += 1;
    }
    assert(remotes@.take(remotes@.len() as int) =~= remotes@);
    let sorted = sort_by_key(built);
    proof {
        lemma_multiset_map(sorted@, built@, |b: RemoteBranchInfo| remote_model(b));
        assert forall|name: Seq<char>|
            #[trigger] remote_models(sorted@).filter(named_remote(name)) == remote_entries(
                remotes@,
                locals,
            ).filter(named_remote(name)) by {
            lemma_with_key_map(sorted@, name, |b: RemoteBranchInfo| remote_model(b), named_remote(name));
            lemma_with_key_map(built@, name, |b: RemoteBranchInfo| remote_model(b), named_remote(name));
            assert(with_key(sorted@, name) == with_key(built@, name));
        }
    }
    sorted
}

/// The full reference name of a local branch.
pub fn local_branch_ref(name: &str) -> (r: String)
    ensures
        r@ == "refs/heads/"@ + name@,
{
    concat_str("refs/heads/", name)
}

/// Whether a branch may be deleted: never the current branch; without
/// `force`, only when fully merged into `HEAD` (its tip is `HEAD`'s or an
/// ancestor of it), which is only judged when both tips are known.
pub fn delete_check(
    name: &str,
    is_head: bool,
    force: bool,
    head_tip: Option<String>,
    branch_tip: Option<String>,
    head_descends_from_branch: bool,
) -> (r: Result<(), String>)
    ensures
        is_head ==> (r matches Err(e) && e@ == "No puedes eliminar la rama actual"@),
        !is_head && force ==> r is Ok,
        !is_head && !force ==> match (head_tip, branch_tip) {
            (Some(h), Some(b)) => if h@ == b@ || head_descends_from_branch {
                r is Ok
            } else {
                r matches Err(e) && e@ == "La rama '"@ + name@
                    + "' tiene cambios sin fusionar. Usa 'force' para eliminarla de todos modos."@
            },
            _ => r is Ok,
        },
{
    if is_head {
        return Err(string_of("No puedes eliminar la rama actual"));
    }
    if !force {
        match (head_tip, branch_tip) {
            (Some(h), Some(b)) => {
                let merged = h == b || head_descends_from_branch;
                if !merged {
                    let a = concat_str("La rama '", name);
                    return Err(
                        concat_str(
                            a.as_str(),
                            "' tiene cambios sin fusionar. Usa 'force' para eliminarla de todos modos.",
                        ),
                    );
                }
            },
            _ => {},
        }
    }
    Ok(())
}

/// Law: how a remote-tracking branch's name is read. A symbolic pointer
/// gives no entry. A name `remote/branch`, whose remote holds no `/`, gives
/// the full name, that remote and that branch (which may itself hold `/`),
/// marked as having a local branch exactly when one of that name exists; a
/// name without `/` gives none. Every entry is read this way.
pub proof fn lemma_remote_entry_split(
    r: RemoteBranchRaw,
    locals: Seq<Seq<char>>,
    remote: Seq<char>,
    branch: Seq<char>,
)
    ensures
        r.symbolic ==> remote_entry(r, locals) is None,
        (!r.symbolic && !remote.contains('/') && (r.name matches Some(n) && n@ == remote
            + seq!['/'] + branch)) ==> remote_entry(r, locals) == Some(
            (remote + seq!['/'] + branch, remote, branch, locals.contains(branch)),
        ),
        (r.name matches Some(n) && !n@.contains('/')) ==> remote_entry(r, locals) is None,
        r.name is None ==> remote_entry(r, locals) is None,
        remote_entry(r, locals) matches Some((full, rm, br, has_local)) ==> {
            &&& !r.symbolic
            &&& r.name matches Some(n) && n@ == full
            &&& full == rm + seq!['/'] + br
            &&& !rm.contains('/')
            &&& has_local == locals.contains(br)
        },
{
    let full = match r.name {
        Some(n) => n@,
        None => Seq::<char>::empty(),
    };
    lemma_split_once_rejoin(full, '/');
    if !remote.contains('/') {
        lemma_split_once_concat(remote, '/', branch);
    }
    if full.len() > 0 && !full.contains('/') {
        if let Some((a, b)) = split_once(full, '/') {
            assert(full[a.len() as int] == '/');
        }
    }
}

} // verus!
