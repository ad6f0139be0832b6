//! File-system path model: components and file names of Windows paths,
//! where both `/` and `\` separate components, empty and `.` components
//! vanish, and a leading drive (`C:`) or UNC share (`\\server\share`) is
//! a prefix rather than a component.
use vstd::prelude::*;
use crate::text::{
    eq_str, find_in, first_in, from_chars, in_class, lemma_pieces_free_of, pieces, slice_of,
    split_pieces, to_chars, views, CharClass,
};

verus! {

/// A component that counts: neither empty (from repeated separators) nor `.`.
pub open spec fn keep_component(seg: Seq<char>) -> bool {
    seg.len() > 0 && seg != "."@
}

pub open spec fn is_separator(c: char) -> bool {
    in_class(CharClass::PathSeparator, c)
}

pub open spec fn is_ascii_letter(c: char) -> bool {
    ('a' <= c && c <= 'z') || ('A' <= c && c <= 'Z')
}

/// Where the segment starting at `from` ends: at the next separator, or at
/// the end of the path.
pub open spec fn segment_end(path: Seq<char>, from: int) -> int {
    match first_in(path.skip(from), CharClass::PathSeparator) {
        Some(i) => from + i,
        None => path.len() as int,
    }
}

/// The length of a UNC prefix: two separators, a non-empty server name, a
/// separator and a non-empty share name.
pub open spec fn unc_prefix_len(path: Seq<char>) -> Option<int> {
    if path.len() >= 2 && is_separator(path[0]) && is_separator(path[1]) {
        let server_end = segment_end(path, 2);
        if server_end == 2 || server_end >= path.len() {
            None
        } else {
            let share_end = segment_end(path, server_end + 1);
            if share_end == server_end + 1 {
                None
            } else {
                Some(share_end)
            }
        }
    } else {
        None
    }
}

/// The length of the path's prefix: a UNC share, else a drive letter and
/// colon (`C:`, which need not be followed by a separator), else nothing.
pub open spec fn prefix_len(path: Seq<char>) -> int {
    match unc_prefix_len(path) {
        Some(n) => n,
        None => if path.len() >= 2 && is_ascii_letter(path[0]) && path[1] == ':' {
            2
        } else {
            0
        },
    }
}

/// The components of a path after its prefix, in order.
pub open spec fn components(path: Seq<char>) -> Seq<Seq<char>> {
    pieces(path.skip(prefix_len(path)), CharClass::PathSeparator).filter(
        |seg: Seq<char>| keep_component(seg),
    )
}

/// `Path::file_name`: the last component, unless there is none or it is `..`.
pub open spec fn file_name(path: Seq<char>) -> Option<Seq<char>> {
    let c = components(path);
    if c.len() == 0 {
        None
    } else if c.last() == ".."@ {
        None
    } else {
        Some(c.last())
    }
}

fn keep_component_exec(seg: &[char]) -> (b: bool)
    ensures
        b == keep_component(seg@),
{
    seg.len() > 0 && !eq_str(seg, ".")
}

fn segment_end_of(path: &[char], from: usize) -> (e: usize)
    requires
        from <= path@.len(),
    ensures
        e == segment_end(path@, from as int),
        from <= e <= path@.len(),
{
    match find_in(path, CharClass::PathSeparator, from) {
        Some(i) => i,
        None => path.len(),
    }
}

fn prefix_len_of(path: &[char]) -> (n: usize)
    ensures
        n == prefix_len(path@),
        n <= path@.len(),
{
    let sep = CharClass::PathSeparator;
    if path.len() >= 2 && crate::text::in_class_exec(sep, path[0]) && crate::text::in_class_exec(
        sep,
        path[1],
    ) {
        let server_end = segment_end_of(path, 2);
        if server_end != 2 && server_end < path.len() {
            let share_end = segment_end_of(path, server_end + 1);
            if share_end != server_end + 1 {
                return share_end;
            }
        }
        return 0;
    }
    if path.len() >= 2 && (('a' <= path[0] && path[0] <= 'z') || ('A' <= path[0] && path[0] <= 'Z'))
        && path[1] == ':' {
        2
    } else {
        0
    }
}

/// The components of a path.
pub fn components_of(path: &[char]) -> (out: Vec<Vec<char>>)
    ensures
        views(out@) == components(path@),
{
    let start = prefix_len_of(path);
    let rest = slice_of(path, start, path.len());
    assert(rest@ =~= path@.skip(start as int));
    let p = split_pieces(&rest, CharClass::PathSeparator);
    let ghost pv = pieces(path@.skip(start as int), CharClass::PathSeparator);
    let mut out: Vec<Vec<char>> = Vec::new();
    let mut i: usize = 0;
    while i < p.len()
        invariant
            views(p@) == pv,
            i <= p@.len(),
            views(out@) == pv.take(i as int).filter(|seg: Seq<char>| keep_component(seg)),
        decreases p@.len() - i,
    {
        assert(pv.take(i + 1) =~= pv.take(i as int).push(pv[i as int]));
        proof {
            pv.take(i as int).lemma_filter_push(pv[i as int], |seg: Seq<char>| keep_component(seg));
        }
        assert(p@[i as int]@ == pv[i as int]);
        if keep_component_exec(&p[i]) {
            let ghost prev = views(out@);
            out.push(p[i].clone());
            assert(views(out@) =~= prev.push(pv[i as int]));
        }
        i += 1;
    }
    assert(pv.take(p@.len() as int) =~= pv);
    out
}

/// `Path::file_name` over characters.
pub fn file_name_of(path: &[char]) -> (r: Option<Vec<char>>)
    ensures
        r matches Some(n) ==> file_name(path@) == Some(n@),
        r is None ==> file_name(path@) is None,
{
    let c = components_of(path);
    let n = c.len();
    if n == 0 {
        return None;
    }
    assert(c@[n - 1]@ == components(path@).last());
    let last = &c[n - 1];
    if eq_str(last, "..") {
        return None;
    }
    Some(last.clone())
}

/// The name a repository is shown under: the last component of its path,
/// or the whole path when that has no file name.
pub open spec fn spec_repo_name(path: Seq<char>) -> Seq<char> {
    match file_name(path) {
        Some(n) => n,
        None => path,
    }
}

pub fn repo_name(path: &str) -> (r: String)
    ensures
        r@ == spec_repo_name(path@),
{
    let p = to_chars(path);
    match file_name_of(&p) {
        Some(n) => from_chars(&n),
        None => from_chars(&p),
    }
}

/// Law: what a component and a file name can be. Every component is a
/// non-empty name, not `.`, holding no separator; a file name is the last
/// component and never `..`; the repository name is the file name, or the
/// path itself when it has none.
pub proof fn lemma_components_are_names(path: Seq<char>)
    ensures
        forall|i: int|
            0 <= i < components(path).len() ==> {
                &&& (#[trigger] components(path)[i]).len() > 0
                &&& components(path)[i] != "."@
                &&& forall|j: int|
                    0 <= j < components(path)[i].len() ==> !is_separator(
                        #[trigger] components(path)[i][j],
                    )
            },
        file_name(path) matches Some(n) ==> {
            &&& n.len() > 0
            &&& n != "."@
            &&& n != ".."@
            &&& forall|j: int| 0 <= j < n.len() ==> !is_separator(#[trigger] n[j])
            &&& components(path).len() > 0
            &&& n == components(path).last()
        },
        file_name(path) matches Some(n) ==> spec_repo_name(path) == n,
        file_name(path) is None ==> spec_repo_name(path) == path,
{
    broadcast use vstd::seq_lib::group_filter_ensures;

    let rest = path.skip(prefix_len(path));
    let ps = pieces(rest, CharClass::PathSeparator);
    let pred = |seg: Seq<char>| keep_component(seg);
    lemma_pieces_free_of(rest, CharClass::PathSeparator);
    assert(components(path) == ps.filter(pred));
    assert forall|i: int| 0 <= i < components(path).len() implies {
        &&& (#[trigger] components(path)[i]).len() > 0
        &&& components(path)[i] != "."@
        &&& forall|j: int|
            0 <= j < components(path)[i].len() ==> !is_separator(
                #[trigger] components(path)[i][j],
            )
    } by {
        let c = components(path)[i];
        assert(pred(c));
        assert(ps.filter(pred).contains(c));
        ps.lemma_filter_contains_rev(pred, c);
        let k = choose|k: int| 0 <= k < ps.len() && ps[k] == c;
        assert forall|j: int| 0 <= j < c.len() implies !is_separator(#[trigger] c[j]) by {
            assert(c[j] == ps[k][j]);
        }
    }
    if components(path).len() > 0 {
        let l = components(path).len() - 1;
        assert(components(path)[l] == components(path).last());
    }
}

} // verus!
