//! File diffs: the status label of a change, and the cleanup of hunk
//! headers and line contents.
use vstd::prelude::*;
use crate::text::{
    from_chars, string_of, to_chars, trim_end_class, trim_end_in, CharClass,
};

verus! {

pub struct DiffLine {
    pub origin: char,
    pub content: String,
    pub old_lineno: Option<u32>,
    pub new_lineno: Option<u32>,
}

pub struct DiffHunk {
    pub header: String,
    pub lines: Vec<DiffLine>,
}

pub struct FileDiff {
    pub path: String,
    pub old_path: Option<String>,
    pub status: String,
    pub is_binary: bool,
    pub hunks: Vec<DiffHunk>,
}

/// The kinds of change libgit2 reports for a file.
#[derive(Clone, Copy, PartialEq, Eq, Structural)]
pub enum DeltaKind {
    Unmodified,
    Added,
    Deleted,
    Modified,
    Renamed,
    Copied,
    Ignored,
    Untracked,
    Typechange,
    Unreadable,
    Conflicted,
}

pub open spec fn spec_status_label(d: DeltaKind) -> Seq<char> {
    match d {
        DeltaKind::Added => "added"@,
        DeltaKind::Deleted => "deleted"@,
        DeltaKind::Renamed => "renamed"@,
        DeltaKind::Copied => "copied"@,
        DeltaKind::Typechange => "typechange"@,
        DeltaKind::Untracked => "untracked"@,
        _ => "modified"@,
    }
}

pub fn status_label(d: DeltaKind) -> (r: &'static str)
    ensures
        r@ == spec_status_label(d),
{
    match d {
        DeltaKind::Added => "added",
        DeltaKind::Deleted => "deleted",
        DeltaKind::Renamed => "renamed",
        DeltaKind::Copied => "copied",
        DeltaKind::Typechange => "typechange",
        DeltaKind::Untracked => "untracked",
        _ => "modified",
    }
}

/// A diff line with its line ending(s) removed.
pub fn diff_line(origin: char, content: &str, old_lineno: Option<u32>, new_lineno: Option<u32>) -> (l:
    DiffLine)
    ensures
        l.origin == origin,
        l.content@ == trim_end_in(content@, CharClass::LineBreak),
        l.old_lineno == old_lineno,
        l.new_lineno == new_lineno,
{
    let c = trim_end_class(&to_chars(content), CharClass::LineBreak);
    DiffLine { origin, content: from_chars(&c), old_lineno, new_lineno }
}

/// A hunk with trailing whitespace removed from its header.
pub fn diff_hunk(header: &str, lines: Vec<DiffLine>) -> (h: DiffHunk)
    ensures
        h.header@ == trim_end_in(header@, CharClass::Whitespace),
        h.lines@ == lines@,
{
    let c = trim_end_class(&to_chars(header), CharClass::Whitespace);
    DiffHunk { header: from_chars(&c), lines }
}

pub open spec fn opt_text(o: Option<String>) -> Option<Seq<char>> {
    match o {
        Some(s) => Some(s@),
        None => None,
    }
}

/// A file's diff: shown under its new path (else its old one, else
/// nothing); the old path only when it differs (a rename); binary when
/// either side is, in which case there are no hunks.
pub fn file_diff(
    new_path: Option<String>,
    old_path: Option<String>,
    status: DeltaKind,
    new_binary: bool,
    old_binary: bool,
    hunks: Vec<DiffHunk>,
) -> (d: FileDiff)
    ensures
        d.path@ == match (new_path, old_path) {
            (Some(n), _) => n@,
            (None, Some(o)) => o@,
            (None, None) => Seq::<char>::empty(),
        },
        d.old_path == (if opt_text(old_path) != opt_text(new_path) {
            old_path
        } else {
            None
        }),
        d.status@ == spec_status_label(status),
        d.is_binary == (new_binary || old_binary),
        d.is_binary ==> d.hunks@.len() == 0,
        !d.is_binary ==> d.hunks@ == hunks@,
{
    let path = match &new_path {
        Some(n) => n.clone(),
        None => match &old_path {
            Some(o) => o.clone(),
            None => String::new(),
        },
    };
    let same = match (&old_path, &new_path) {
        (Some(o), Some(n)) => *o == *n,
        (None, None) => true,
        _ => false,
    };
    let is_binary = new_binary || old_binary;
    FileDiff {
        path,
        old_path: if !same {
            old_path
        } else {
            None
        },
        status: string_of(status_label(status)),
        is_binary,
        hunks: if is_binary {
            Vec::new()
        } else {
            hunks
        },
    }
}

/// The diff of a single working-tree file: the first file diff, or an
/// error when the file has no changes.
pub fn first_file_diff(diffs: Vec<FileDiff>) -> (r: Result<FileDiff, String>)
    ensures
        diffs@.len() > 0 ==> r == Ok::<FileDiff, String>(diffs@[0]),
        diffs@.len() == 0 ==> (r matches Err(e) && e@ == "Sin cambios para este archivo"@),
{
    let mut diffs = diffs;
    if diffs.len() == 0 {
        Err(string_of("Sin cambios para este archivo"))
    } else {
        Ok(diffs.remove(0))
    }
}

/// Law: the status each kind of change is shown with: added, deleted,
/// renamed, copied, type changes and untracked files under their own names,
/// every other kind as `modified`.
pub proof fn lemma_status_labels(d: DeltaKind)
    ensures
        d == DeltaKind::Added ==> spec_status_label(d) == "added"@,
        d == DeltaKind::Deleted ==> spec_status_label(d) == "deleted"@,
        d == DeltaKind::Renamed ==> spec_status_label(d) == "renamed"@,
        d == DeltaKind::Copied ==> spec_status_label(d) == "copied"@,
        d == DeltaKind::Typechange ==> spec_status_label(d) == "typechange"@,
        d == DeltaKind::Untracked ==> spec_status_label(d) == "untracked"@,
        (d == DeltaKind::Modified || d == DeltaKind::Unmodified || d == DeltaKind::Ignored || d
            == DeltaKind::Unreadable || d == DeltaKind::Conflicted) ==> spec_status_label(d)
            == "modified"@,
{
}

} // verus!
