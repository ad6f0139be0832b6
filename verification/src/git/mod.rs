//! Decision logic of the repository commands: everything they compute from
//! what libgit2 or the `git` binary report, and what they hand back.
pub mod branches;
pub mod changes;
pub mod conflicts;
pub mod diff;
pub mod history_ops;
pub mod interactive_rebase;
pub mod lfs;
pub mod log;
pub mod remotes;
pub mod repo;
pub mod stash;
pub mod submodules;
pub mod undo;
pub mod worktrees;

use vstd::prelude::*;
use self::repo::{has_staged_change, StatusFlags};
use crate::text::string_of;

verus! {

/// A working-tree entry that blocks operations rewriting the tree: any
/// staged change, or an unstaged change to a tracked file (untracked files
/// do not block).
pub open spec fn blocks(s: StatusFlags) -> bool {
    has_staged_change(s) || s.wt_modified || s.wt_deleted || s.wt_renamed || s.conflicted
}

/// Checkout, merge, rebase and undo refuse to run over uncommitted changes.
pub fn ensure_clean_workdir(entries: &Vec<StatusFlags>) -> (r: Result<(), String>)
    ensures
        r is Ok <==> forall|i: int| 0 <= i < entries@.len() ==> !blocks(#[trigger] entries@[i]),
        r matches Err(e) ==> e@
            == "Tienes cambios sin commitear; haz commit o stash antes de continuar"@,
{
    let mut i: usize = 0;
    while i < entries.len()
        invariant
            i <= entries@.len(),
            forall|j: int| 0 <= j < i ==> !blocks(#[trigger] entries@[j]),
        decreases entries@.len() - i,
    {
        let s = entries[i];
        if s.index_new || s.index_modified || s.index_deleted || s.index_renamed || s.wt_modified
            || s.wt_deleted || s.wt_renamed || s.conflicted {
            assert(blocks(entries@[i as int]));
            return Err(string_of("Tienes cambios sin commitear; haz commit o stash antes de continuar"));
        }
        i += 1;
    }
    Ok(())
}

} // verus!
