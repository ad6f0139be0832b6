//! Staging and committing.
use vstd::prelude::*;
use crate::text::string_of;

verus! {

/// A commit is refused when it would record nothing: the staged tree is the
/// parent's tree, or (before the first commit) nothing is staged.
pub fn commit_check(parent_tree: Option<String>, staged_tree: &String, index_empty: bool) -> (r: Result<
    (),
    String,
>)
    ensures
        match parent_tree {
            Some(p) => if p@ == staged_tree@ {
                r matches Err(e) && e@ == "No hay cambios en stage para commitear"@
            } else {
                r is Ok
            },
            None => if index_empty {
                r matches Err(e) && e@ == "El área de stage está vacía"@
            } else {
                r is Ok
            },
        },
{
    match parent_tree {
        Some(p) => if p == *staged_tree {
            Err(string_of("No hay cambios en stage para commitear"))
        } else {
            Ok(())
        },
        None => if index_empty {
            Err(string_of("El área de stage está vacía"))
        } else {
            Ok(())
        },
    }
}

/// How a file is staged: added when it exists in the working tree, removed
/// from the index when it was deleted.
#[derive(Clone, Copy, PartialEq, Eq, Structural)]
pub enum StageAction {
    Add,
    Remove,
}

pub fn stage_action(exists_in_workdir: bool) -> (a: StageAction)
    ensures
        exists_in_workdir ==> a == StageAction::Add,
        !exists_in_workdir ==> a == StageAction::Remove,
{
    if exists_in_workdir {
        StageAction::Add
    } else {
        StageAction::Remove
    }
}

/// How a file is unstaged: reset to its `HEAD` version, or, before the
/// first commit, dropped from the index.
#[derive(Clone, Copy, PartialEq, Eq, Structural)]
pub enum UnstageAction {
    ResetToHead,
    RemoveFromIndex,
}

pub fn unstage_action(has_head: bool) -> (a: UnstageAction)
    ensures
        has_head ==> a == UnstageAction::ResetToHead,
        !has_head ==> a == UnstageAction::RemoveFromIndex,
{
    if has_head {
        UnstageAction::ResetToHead
    } else {
        UnstageAction::RemoveFromIndex
    }
}

} // verus!
