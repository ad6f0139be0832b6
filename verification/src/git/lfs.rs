//! Git LFS: which patterns `.gitattributes` routes through LFS, and the
//! parsing of `git lfs ls-files -l`.
use vstd::prelude::*;
use crate::text::{
    contains_char, eq_str, from_chars, in_class, lemma_pieces_free_of, lines, lines_of, pieces,
    split_once, split_once_chars, string_of, to_chars, trim, trim_chars, views, words, words_of,
    CharClass,
};

verus! {

pub struct LfsStatus {
    pub available: bool,
    pub tracked_patterns: Vec<String>,
}

pub struct LfsFileInfo {
    pub path: String,
    pub oid: String,
    pub fetched: bool,
}

/// The pattern a `.gitattributes` line sends through LFS: a line that is
/// neither blank nor a comment, whose attributes after the pattern include
/// `filter=lfs`.
pub open spec fn lfs_pattern(line: Seq<char>) -> Option<Seq<char>> {
    let t = trim(line);
    let w = words(t);
    if t.len() == 0 || t[0] == '#' || w.len() == 0 {
        None
    } else if exists|j: int| 1 <= j < w.len() && #[trigger] w[j] == "filter=lfs"@ {
        Some(w[0])
    } else {
        None
    }
}

/// The LFS patterns of a sequence of lines, in order.
pub open spec fn patterns_in(ls: Seq<Seq<char>>) -> Seq<Seq<char>>
    decreases ls.len(),
{
    if ls.len() == 0 {
        Seq::empty()
    } else {
        match lfs_pattern(ls.last()) {
            Some(p) => patterns_in(ls.drop_last()).push(p),
            None => patterns_in(ls.drop_last()),
        }
    }
}

pub open spec fn string_views(v: Seq<String>) -> Seq<Seq<char>> {
    v.map_values(|s: String| s@)
}

fn lfs_pattern_of(line: &[char]) -> (r: Option<Vec<char>>)
    ensures
        r matches Some(p) ==> lfs_pattern(line@) == Some(p@),
        r is None ==> lfs_pattern(line@) is None,
{
    let t = trim_chars(line);
    if t.len() == 0 || t[0] == '#' {
        return None;
    }
    let w = words_of(&t);
    let ghost wv = words(t@);
    if w.len() == 0 {
        return None;
    }
    let mut j: usize = 1;
    while j < w.len()
        invariant
            views(w@) == wv,
            wv == words(t@),
            t@ == trim(line@),
            t@.len() > 0,
            t@[0] != '#',
            1 <= j <= w@.len(),
            forall|k: int| 1 <= k < j ==> #[trigger] wv[k] != "filter=lfs"@,
        decreases w@.len() - j,
    {
        assert(w@[j as int]@ == wv[j as int]);
        if eq_str(&w[j], "filter=lfs") {
            assert(w@[0]@ == wv[0]);
            assert(wv[j as int] == "filter=lfs"@);
            let r = w[0].clone();
            assert(r@ == wv[0]);
            return Some(r);
        }
        j += 1;
    }
    None
}

/// The patterns `.gitattributes` routes through LFS, in file order.
pub fn tracked_patterns(content: &str) -> (r: Vec<String>)
    ensures
        string_views(r@) == patterns_in(lines(content@)),
{
    let text = to_chars(content);
    let ls = lines_of(&text);
    let ghost lv = lines(content@);
    let mut out: Vec<String> = Vec::new();
    let mut i: usize = 0;
    while i < ls.len()
        invariant
            views(ls@) == lv,
            i <= ls@.len(),
            string_views(out@) == patterns_in(lv.take(i as int)),
        decreases ls@.len() - i,
    {
        assert(lv.take(i + 1).drop_last() =~= lv.take(i as int));
        assert(ls@[i as int]@ == lv[i as int]);
        match lfs_pattern_of(&ls[i]) {
            Some(p) => {
                let ghost prev = string_views(out@);
                out.push(from_chars(&p));
                assert(string_views(out@) =~= prev.push(p@));
            },
            None => {},
        }
        i += 1;
    }
    assert(lv.take(ls@.len() as int) =~= lv);
    out
}

/// What LFS reports: whether the extension is installed, and the patterns
/// of the repository's `.gitattributes` (none when it has no such file).
pub fn lfs_status(available: bool, gitattributes: Option<String>) -> (st: LfsStatus)
    ensures
        st.available == available,
        string_views(st.tracked_patterns@) == match gitattributes {
            Some(c) => patterns_in(lines(c@)),
            None => Seq::empty(),
        },
{
    let tracked_patterns = match gitattributes {
        Some(c) => tracked_patterns(c.as_str()),
        None => Vec::new(),
    };
    proof {
        if gitattributes is None {
            assert(string_views(tracked_patterns@) =~= Seq::<Seq<char>>::empty());
        }
    }
    LfsStatus { available, tracked_patterns }
}

/// One entry of `git lfs ls-files -l`, `<oid> <status> <path>`: the status
/// holds `*` once the content has been fetched, `-` when only the pointer
/// is present. Lines without both separators are skipped.
pub open spec fn ls_files_entry(line: Seq<char>) -> Option<(Seq<char>, bool, Seq<char>)> {
    match split_once(line, ' ') {
        Some((oid, rest)) => match split_once(rest, ' ') {
            Some((status, path)) => Some((oid, status.contains('*'), path)),
            None => None,
        },
        None => None,
    }
}

pub open spec fn entries_in(ls: Seq<Seq<char>>) -> Seq<(Seq<char>, bool, Seq<char>)>
    decreases ls.len(),
{
    if ls.len() == 0 {
        Seq::empty()
    } else {
        match ls_files_entry(ls.last()) {
            Some(e) => entries_in(ls.drop_last()).push(e),
            None => entries_in(ls.drop_last()),
        }
    }
}

pub open spec fn file_views(v: Seq<LfsFileInfo>) -> Seq<(Seq<char>, bool, Seq<char>)> {
    v.map_values(|f: LfsFileInfo| (f.oid@, f.fetched, f.path@))
}

/// Parses `git lfs ls-files -l`.
pub fn parse_ls_files(output: &str) -> (r: Vec<LfsFileInfo>)
    ensures
        file_views(r@) == entries_in(lines(output@)),
{
    let text = to_chars(output);
    let ls = lines_of(&text);
    let ghost lv = lines(output@);
    let mut out: Vec<LfsFileInfo> = Vec::new();
    let mut i: usize = 0;
    while i < ls.len()
        invariant
            views(ls@) == lv,
            i <= ls@.len(),
            file_views(out@) == entries_in(lv.take(i as int)),
        decreases ls@.len() - i,
    {
        assert(lv.take(i + 1).drop_last() =~= lv.take(i as int));
        assert(ls@[i as int]@ == lv[i as int]);
        if let Some((oid, rest)) = split_once_chars(&ls[i], ' ') {
            if let Some((status, path)) = split_once_chars(&rest, ' ') {
                let fetched = contains_char(&status, '*');
                let ghost prev = file_views(out@);
                out.push(LfsFileInfo { path: from_chars(&path), oid: from_chars(&oid), fetched });
                assert(file_views(out@) =~= prev.push((oid@, fetched, path@)));
            }
        }
        i += 1;
    }
    assert(lv.take(ls@.len() as int) =~= lv);
    out
}

/// The mutating LFS commands refuse clearly when the extension is missing.
pub fn require_lfs(available: bool) -> (r: Result<(), String>)
    ensures
        available ==> r is Ok,
        !available ==> (r matches Err(e) && e@
            == "Git LFS no está instalado. Instálalo desde git-lfs.com y vuelve a intentar"@),
{
    if available {
        Ok(())
    } else {
        Err(string_of("Git LFS no está instalado. Instálalo desde git-lfs.com y vuelve a intentar"))
    }
}

/// Law: a line `<oid> <status> <path>`, with no space in the id or the
/// status, is read as that id and path, fetched exactly when the status
/// holds `*`; the path keeps any spaces it has.
pub proof fn lemma_ls_files_line(oid: Seq<char>, status: Seq<char>, path: Seq<char>)
    requires
        !oid.contains(' '),
        !status.contains(' '),
    ensures
        ls_files_entry(oid + seq![' '] + status + seq![' '] + path) == Some(
            (oid, status.contains('*'), path),
        ),
{
    let rest = status + seq![' '] + path;
    crate::text::lemma_split_once_concat(oid, ' ', rest);
    assert(oid + seq![' '] + status + seq![' '] + path =~= oid + seq![' '] + rest);
    crate::text::lemma_split_once_concat(status, ' ', path);
}

/// Law: what `.gitattributes` sends through LFS. A blank line or a
/// comment sends nothing; a pattern that is sent is a single non-empty
/// word with no whitespace, the first of its line, and `filter=lfs` stands
/// among the attributes after it.
pub proof fn lemma_lfs_pattern_shape(line: Seq<char>)
    ensures
        trim(line).len() == 0 ==> lfs_pattern(line) is None,
        (trim(line).len() > 0 && trim(line)[0] == '#') ==> lfs_pattern(line) is None,
        lfs_pattern(line) matches Some(p) ==> {
            &&& p.len() > 0
            &&& forall|j: int| 0 <= j < p.len() ==> !in_class(CharClass::Whitespace, #[trigger] p[j])
            &&& p == words(trim(line))[0]
            &&& words(trim(line)).subrange(1, words(trim(line)).len() as int).contains("filter=lfs"@)
        },
{
    broadcast use vstd::seq_lib::group_filter_ensures;

    let t = trim(line);
    let w = words(t);
    if let Some(p) = lfs_pattern(line) {
        let ps = pieces(t, CharClass::Whitespace);
        let pred = |x: Seq<char>| x.len() > 0;
        lemma_pieces_free_of(t, CharClass::Whitespace);
        assert(w == ps.filter(pred));
        assert(pred(w[0]));
        assert(ps.filter(pred).contains(w[0]));
        ps.lemma_filter_contains_rev(pred, w[0]);
        let k = choose|k: int| 0 <= k < ps.len() && ps[k] == w[0];
        assert forall|j: int| 0 <= j < p.len() implies !in_class(CharClass::Whitespace, #[trigger] p[j]) by {
            assert(p[j] == ps[k][j]);
        }
        let i = choose|i: int| 1 <= i < w.len() && #[trigger] w[i] == "filter=lfs"@;
        assert(w.subrange(1, w.len() as int)[i - 1] == "filter=lfs"@);
    }
}

} // verus!
