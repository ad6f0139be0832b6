//! Opening a repository and summarizing its working-tree status.
use vstd::prelude::*;
use crate::paths::{repo_name, spec_repo_name};
use crate::text::string_of;

verus! {

pub struct RepoInfo {
    pub path: String,
    pub name: String,
    pub current_branch: String,
}

pub struct FileChange {
    pub path: String,
    pub staged: bool,
    pub status: String,
}

pub struct RepoStatus {
    pub is_clean: bool,
    pub ahead: usize,
    pub behind: usize,
    pub changes: Vec<FileChange>,
}

/// What `HEAD` is.
pub enum HeadState {
    /// A branch, with its short name when that is valid UTF-8.
    Branch(Option<String>),
    /// A commit, not a branch.
    Detached,
    /// No `HEAD` to read (an unborn branch: no commits yet).
    Missing,
}

pub open spec fn spec_branch_label(head: HeadState) -> Seq<char> {
    match head {
        HeadState::Branch(Some(s)) => s@,
        HeadState::Branch(None) => "(unknown)"@,
        HeadState::Detached => "(detached HEAD)"@,
        HeadState::Missing => "(no commits yet)"@,
    }
}

/// The name shown for the current branch.
pub fn current_branch_name(head: HeadState) -> (r: String)
    ensures
        r@ == spec_branch_label(head),
{
    match head {
        HeadState::Branch(Some(s)) => s,
        HeadState::Branch(None) => string_of("(unknown)"),
        HeadState::Detached => string_of("(detached HEAD)"),
        HeadState::Missing => string_of("(no commits yet)"),
    }
}

/// What opening a repository reports: its path, the name it is shown under
/// and its current branch.
pub fn repo_info(path: String, head: HeadState) -> (info: RepoInfo)
    ensures
        info.path == path,
        info.name@ == spec_repo_name(path@),
        info.current_branch@ == spec_branch_label(head),
{
    let name = repo_name(path.as_str());
    RepoInfo { current_branch: current_branch_name(head), path, name }
}

/// The status bits libgit2 reports for one path.
#[derive(Clone, Copy)]
pub struct StatusFlags {
    pub index_new: bool,
    pub index_modified: bool,
    pub index_deleted: bool,
    pub index_renamed: bool,
    pub wt_new: bool,
    pub wt_modified: bool,
    pub wt_deleted: bool,
    pub wt_renamed: bool,
    pub conflicted: bool,
}

/// One status entry: the path (absent when not valid UTF-8) and its bits.
pub struct StatusEntry {
    pub path: Option<String>,
    pub flags: StatusFlags,
}

pub open spec fn has_staged_change(s: StatusFlags) -> bool {
    s.index_new || s.index_modified || s.index_deleted || s.index_renamed
}

pub open spec fn has_unstaged_change(s: StatusFlags) -> bool {
    s.wt_new || s.wt_modified || s.wt_deleted || s.wt_renamed || s.conflicted
}

pub open spec fn spec_index_label(s: StatusFlags) -> Seq<char> {
    if s.index_new {
        "added"@
    } else if s.index_deleted {
        "deleted"@
    } else if s.index_renamed {
        "renamed"@
    } else {
        "modified"@
    }
}

pub open spec fn spec_worktree_label(s: StatusFlags) -> Seq<char> {
    if s.conflicted {
        "conflicted"@
    } else if s.wt_new {
        "untracked"@
    } else if s.wt_deleted {
        "deleted"@
    } else if s.wt_renamed {
        "renamed"@
    } else {
        "modified"@
    }
}

pub fn index_status_label(s: StatusFlags) -> (r: &'static str)
    ensures
        r@ == spec_index_label(s),
{
    if s.index_new {
        "added"
    } else if s.index_deleted {
        "deleted"
    } else if s.index_renamed {
        "renamed"
    } else {
        "modified"
    }
}

pub fn worktree_status_label(s: StatusFlags) -> (r: &'static str)
    ensures
        r@ == spec_worktree_label(s),
{
    if s.conflicted {
        "conflicted"
    } else if s.wt_new {
        "untracked"
    } else if s.wt_deleted {
        "deleted"
    } else if s.wt_renamed {
        "renamed"
    } else {
        "modified"
    }
}

pub open spec fn path_text(p: Option<String>) -> Seq<char> {
    match p {
        Some(s) => s@,
        None => Seq::empty(),
    }
}

/// A change as plain values: path, staged, status label.
pub open spec fn change_view(c: FileChange) -> (Seq<char>, bool, Seq<char>) {
    (c.path@, c.staged, c.status@)
}

/// The changes one entry contributes: its staged change, then its unstaged
/// one, each when present.
pub open spec fn entry_changes(e: StatusEntry) -> Seq<(Seq<char>, bool, Seq<char>)> {
    let p = path_text(e.path);
    let staged: Seq<(Seq<char>, bool, Seq<char>)> = if has_staged_change(e.flags) {
        seq![(p, true, spec_index_label(e.flags))]
    } else {
        seq![]
    };
    let unstaged: Seq<(Seq<char>, bool, Seq<char>)> = if has_unstaged_change(e.flags) {
        seq![(p, false, spec_worktree_label(e.flags))]
    } else {
        seq![]
    };
    staged + unstaged
}

pub open spec fn all_changes(es: Seq<StatusEntry>) -> Seq<(Seq<char>, bool, Seq<char>)>
    decreases es.len(),
{
    if es.len() == 0 {
        Seq::empty()
    } else {
        all_changes(es.drop_last()) + entry_changes(es.last())
    }
}

pub open spec fn change_views(v: Seq<FileChange>) -> Seq<(Seq<char>, bool, Seq<char>)> {
    v.map_values(|c: FileChange| change_view(c))
}

/// The repository status: every staged and unstaged change in entry order,
/// clean exactly when there is none, and the distance to the upstream
/// (zero when there is no upstream to compare with).
pub fn repo_status(entries: Vec<StatusEntry>, ahead_behind: Option<(usize, usize)>) -> (st:
    RepoStatus)
    ensures
        change_views(st.changes@) == all_changes(entries@),
        st.is_clean == (all_changes(entries@).len() == 0),
        match ahead_behind {
            Some((a, b)) => st.ahead == a && st.behind == b,
            None => st.ahead == 0 && st.behind == 0,
        },
{
    let mut changes: Vec<FileChange> = Vec::new();
    let mut i: usize = 0;
    while i < entries.len()
        invariant
            i <= entries@.len(),
            change_views(changes@) == all_changes(entries@.take(i as int)),
        decreases entries@.len() - i,
    {
        assert(entries@.take(i + 1).drop_last() =~= entries@.take(i as int));
        let e = &entries[i];
        let path = match &e.path {
            Some(p) => p.clone(),
            None => String::new(),
        };
        let s = e.flags;
        let ghost before = change_views(changes@);
        if s.index_new || s.index_modified || s.index_deleted || s.index_renamed {
            changes.push(
                FileChange {
                    path: path.clone(),
                    staged: true,
                    status: string_of(index_status_label(s)),
                },
            );
        }
        let ghost mid = change_views(changes@);
        if s.wt_new || s.wt_modified || s.wt_deleted || s.wt_renamed || s.conflicted {
            changes.push(
                FileChange { path, staged: false, status: string_of(worktree_status_label(s)) },
            );
        }
        assert(change_views(changes@) =~= before + entry_changes(entries@[i as int]));
        i += 1;
    }
    assert(entries@.take(entries@.len() as int) =~= entries@);
    let (ahead, behind) = match ahead_behind {
        Some((a, b)) => (a, b),
        None => (0, 0),
    };
    let is_clean = changes.len() == 0;
    RepoStatus { is_clean, ahead, behind, changes }
}

/// Law: what each staged or unstaged change is labelled. A staged change is
/// `added` when the path is new in the index, else `deleted`, `renamed` or
/// `modified` in that order; an unstaged change is `conflicted` first, then
/// `untracked` for a new file, `deleted`, `renamed`, else `modified`. An
/// entry with a staged change lists it first, labelled so and marked
/// staged; its unstaged change follows, marked unstaged.
pub proof fn lemma_change_labels(e: StatusEntry)
    ensures
        e.flags.index_new ==> spec_index_label(e.flags) == "added"@,
        !e.flags.index_new && e.flags.index_deleted ==> spec_index_label(e.flags) == "deleted"@,
        !e.flags.index_new && !e.flags.index_deleted && e.flags.index_renamed ==> spec_index_label(
            e.flags,
        ) == "renamed"@,
        !e.flags.index_new && !e.flags.index_deleted && !e.flags.index_renamed ==> spec_index_label(
            e.flags,
        ) == "modified"@,
        e.flags.conflicted ==> spec_worktree_label(e.flags) == "conflicted"@,
        !e.flags.conflicted && e.flags.wt_new ==> spec_worktree_label(e.flags) == "untracked"@,
        !e.flags.conflicted && !e.flags.wt_new && e.flags.wt_deleted ==> spec_worktree_label(e.flags)
            == "deleted"@,
        !e.flags.conflicted && !e.flags.wt_new && !e.flags.wt_deleted && e.flags.wt_renamed
            ==> spec_worktree_label(e.flags) == "renamed"@,
        !e.flags.conflicted && !e.flags.wt_new && !e.flags.wt_deleted && !e.flags.wt_renamed
            ==> spec_worktree_label(e.flags) == "modified"@,
        entry_changes(e).len() == (if has_staged_change(e.flags) { 1int } else { 0int }) + (if has_unstaged_change(e.flags) { 1int } else { 0int }),
        has_staged_change(e.flags) ==> entry_changes(e)[0] == (path_text(e.path), true, spec_index_label(e.flags)),
        has_unstaged_change(e.flags) ==> entry_changes(e).last() == (path_text(e.path), false, spec_worktree_label(e.flags)),
        e.flags.index_new ==> entry_changes(e)[0] == (path_text(e.path), true, "added"@),
{
}

/// Law: the name shown for the current branch: the branch's own name, or
/// `(unknown)` when it cannot be read, `(detached HEAD)` off any branch, and
/// `(no commits yet)` before the first commit.
pub proof fn lemma_branch_labels(head: HeadState)
    ensures
        head matches HeadState::Branch(Some(s)) ==> spec_branch_label(head) == s@,
        head matches HeadState::Branch(None) ==> spec_branch_label(head) == "(unknown)"@,
        head matches HeadState::Detached ==> spec_branch_label(head) == "(detached HEAD)"@,
        head matches HeadState::Missing ==> spec_branch_label(head) == "(no commits yet)"@,
{
}

} // verus!
