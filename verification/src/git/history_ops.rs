//! Merge, cherry-pick, revert and rebase of the current branch: the
//! outcomes they report, the messages of the commits they make, and the
//! rebase loop's decisions.
use vstd::prelude::*;
use crate::text::{concat_str, string_of};

verus! {

/// What libgit2's merge analysis says about merging a branch in.
#[derive(Clone, Copy)]
pub struct MergeAnalysis {
    pub up_to_date: bool,
    pub fast_forward: bool,
}

/// How a merge proceeds.
#[derive(Clone, Copy, PartialEq, Eq, Structural)]
pub enum MergeRoute {
    /// Nothing to do.
    UpToDate,
    /// Move the branch to the other branch's commit.
    FastForward,
    /// Merge the trees and make a merge commit.
    MergeCommit,
}

/// Up to date wins over fast-forward, which wins over a real merge.
pub fn merge_route(a: MergeAnalysis) -> (r: MergeRoute)
    ensures
        a.up_to_date ==> r == MergeRoute::UpToDate,
        !a.up_to_date && a.fast_forward ==> r == MergeRoute::FastForward,
        !a.up_to_date && !a.fast_forward ==> r == MergeRoute::MergeCommit,
{
    if a.up_to_date {
        MergeRoute::UpToDate
    } else if a.fast_forward {
        MergeRoute::FastForward
    } else {
        MergeRoute::MergeCommit
    }
}

pub open spec fn spec_route_label(r: MergeRoute) -> Seq<char> {
    match r {
        MergeRoute::UpToDate => "up-to-date"@,
        MergeRoute::FastForward => "fast-forward"@,
        MergeRoute::MergeCommit => "merge-commit"@,
    }
}

/// What `merge_branch` reports once done.
pub fn route_label(r: MergeRoute) -> (s: String)
    ensures
        s@ == spec_route_label(r),
{
    match r {
        MergeRoute::UpToDate => string_of("up-to-date"),
        MergeRoute::FastForward => string_of("fast-forward"),
        MergeRoute::MergeCommit => string_of("merge-commit"),
    }
}

/// After merging the trees: stop on conflicts, else the merge commit's
/// message.
pub fn merge_commit_message(branch: &str, into: &str, has_conflicts: bool) -> (r: Result<
    String,
    String,
>)
    ensures
        has_conflicts ==> (r matches Err(e) && e@ == "El merge de '"@ + branch@
            + "' tiene conflictos que resolver manualmente"@),
        !has_conflicts ==> (r matches Ok(m) && m@ == "Merge branch '"@ + branch@ + "' into "@
            + into@),
{
    if has_conflicts {
        let a = concat_str("El merge de '", branch);
        Err(concat_str(a.as_str(), "' tiene conflictos que resolver manualmente"))
    } else {
        let a = concat_str("Merge branch '", branch);
        let b = concat_str(a.as_str(), "' into ");
        Ok(concat_str(b.as_str(), into))
    }
}

/// A branch with no commit cannot be merged or rebased onto.
pub fn branch_target(target: Option<String>, rebase: bool) -> (r: Result<String, String>)
    ensures
        target matches Some(t) ==> r == Ok::<String, String>(t),
        target is None && !rebase ==> (r matches Err(e) && e@ == "La rama no tiene commits"@),
        target is None && rebase ==> (r matches Err(e) && e@
            == "La rama destino no tiene commits"@),
{
    match target {
        Some(t) => Ok(t),
        None => if rebase {
            Err(string_of("La rama destino no tiene commits"))
        } else {
            Err(string_of("La rama no tiene commits"))
        },
    }
}

/// A cherry-pick: stop on conflicts, else commit with the picked commit's
/// own message (`cherry-pick` when it has none).
pub fn cherry_pick_message(picked_message: Option<String>, has_conflicts: bool) -> (r: Result<
    String,
    String,
>)
    ensures
        has_conflicts ==> (r matches Err(e) && e@
            == "El cherry-pick tiene conflictos que resolver manualmente"@),
        !has_conflicts ==> (r matches Ok(m) && m@ == match picked_message {
            Some(p) => p@,
            None => "cherry-pick"@,
        }),
{
    if has_conflicts {
        Err(string_of("El cherry-pick tiene conflictos que resolver manualmente"))
    } else {
        match picked_message {
            Some(p) => Ok(p),
            None => Ok(string_of("cherry-pick")),
        }
    }
}

/// A revert: stop on conflicts, else commit `Revert "<summary>"`.
pub fn revert_message(summary: Option<String>, has_conflicts: bool) -> (r: Result<String, String>)
    ensures
        has_conflicts ==> (r matches Err(e) && e@
            == "El revert tiene conflictos que resolver manualmente"@),
        !has_conflicts ==> (r matches Ok(m) && m@ == "Revert \""@ + match summary {
            Some(s) => s@,
            None => Seq::<char>::empty(),
        } + "\""@),
{
    if has_conflicts {
        Err(string_of("El revert tiene conflictos que resolver manualmente"))
    } else {
        let s = match summary {
            Some(s) => s,
            None => String::new(),
        };
        let a = concat_str("Revert \"", s.as_str());
        Ok(concat_str(a.as_str(), "\""))
    }
}

/// What the rebase loop learns at each point.
pub enum RebaseLoopEvent {
    /// The next operation: none left, applied, or failed with a message.
    NextOp(Option<Result<(), String>>),
    /// After applying: whether the index has conflicts.
    IndexChecked { has_conflicts: bool },
    /// The operation's commit: made, already applied upstream, or failed.
    Committed(CommitOutcome),
}

pub enum CommitOutcome {
    Made,
    AlreadyApplied,
    Failed(String),
}

/// What the rebase loop does next.
pub enum RebaseLoopAction {
    /// Look at the index for conflicts.
    CheckIndex,
    /// Commit the applied operation.
    Commit,
    /// Fetch the next operation.
    NextOp,
    /// Finish the rebase.
    Finish,
    /// Abort the rebase and fail with this message (never leaving the
    /// repository half rebased).
    AbortWith(String),
}

pub open spec fn spec_loop_step(ev: RebaseLoopEvent) -> RebaseLoopModel {
    match ev {
        RebaseLoopEvent::NextOp(None) => RebaseLoopModel::Finish,
        RebaseLoopEvent::NextOp(Some(Ok(()))) => RebaseLoopModel::CheckIndex,
        RebaseLoopEvent::NextOp(Some(Err(m))) => RebaseLoopModel::AbortWith(m@),
        RebaseLoopEvent::IndexChecked { has_conflicts } => if has_conflicts {
            RebaseLoopModel::AbortWith(
                "El rebase tiene conflictos; se abortó para no dejar el repo a medio resolver"@,
            )
        } else {
            RebaseLoopModel::Commit
        },
        RebaseLoopEvent::Committed(CommitOutcome::Made) => RebaseLoopModel::NextOp,
        RebaseLoopEvent::Committed(CommitOutcome::AlreadyApplied) => RebaseLoopModel::NextOp,
        RebaseLoopEvent::Committed(CommitOutcome::Failed(m)) => RebaseLoopModel::AbortWith(m@),
    }
}

pub enum RebaseLoopModel {
    CheckIndex,
    Commit,
    NextOp,
    Finish,
    AbortWith(Seq<char>),
}

pub open spec fn loop_model(a: RebaseLoopAction) -> RebaseLoopModel {
    match a {
        RebaseLoopAction::CheckIndex => RebaseLoopModel::CheckIndex,
        RebaseLoopAction::Commit => RebaseLoopModel::Commit,
        RebaseLoopAction::NextOp => RebaseLoopModel::NextOp,
        RebaseLoopAction::Finish => RebaseLoopModel::Finish,
        RebaseLoopAction::AbortWith(m) => RebaseLoopModel::AbortWith(m@),
    }
}

/// One decision of the rebase loop: a failed or conflicting operation
/// aborts the whole rebase; a commit that was already applied upstream is
/// skipped; when no operation is left the rebase finishes.
pub fn rebase_loop_step(ev: RebaseLoopEvent) -> (a: RebaseLoopAction)
    ensures
        loop_model(a) == spec_loop_step(ev),
{
    match ev {
        RebaseLoopEvent::NextOp(None) => RebaseLoopAction::Finish,
        RebaseLoopEvent::NextOp(Some(Ok(()))) => RebaseLoopAction::CheckIndex,
        RebaseLoopEvent::NextOp(Some(Err(m))) => RebaseLoopAction::AbortWith(m),
        RebaseLoopEvent::IndexChecked { has_conflicts } => if has_conflicts {
            RebaseLoopAction::AbortWith(
                string_of(
                    "El rebase tiene conflictos; se abortó para no dejar el repo a medio resolver",
                ),
            )
        } else {
            RebaseLoopAction::Commit
        },
        RebaseLoopEvent::Committed(CommitOutcome::Made) => RebaseLoopAction::NextOp,
        RebaseLoopEvent::Committed(CommitOutcome::AlreadyApplied) => RebaseLoopAction::NextOp,
        RebaseLoopEvent::Committed(CommitOutcome::Failed(m)) => RebaseLoopAction::AbortWith(m),
    }
}

/// Law: the rebase loop goes on until no operation is left. A made or an
/// already-applied commit always fetches the next operation; the rebase
/// finishes exactly when no operation is left; an applied operation is
/// checked for conflicts and committed only when it has none; and it is
/// aborted exactly on a failed operation, a conflict or a failed commit.
pub proof fn lemma_rebase_loop_progress(ev: RebaseLoopEvent)
    ensures
        ev matches RebaseLoopEvent::Committed(CommitOutcome::Made) ==> spec_loop_step(ev)
            == RebaseLoopModel::NextOp,
        ev matches RebaseLoopEvent::Committed(CommitOutcome::AlreadyApplied) ==> spec_loop_step(ev)
            == RebaseLoopModel::NextOp,
        spec_loop_step(ev) == RebaseLoopModel::Finish <==> ev matches RebaseLoopEvent::NextOp(None),
        spec_loop_step(ev) == RebaseLoopModel::CheckIndex <==> ev matches RebaseLoopEvent::NextOp(
            Some(Ok(())),
        ),
        spec_loop_step(ev) == RebaseLoopModel::Commit <==> ev matches RebaseLoopEvent::IndexChecked {
            has_conflicts: false,
        },
        spec_loop_step(ev) is AbortWith <==> (ev matches RebaseLoopEvent::NextOp(Some(Err(_)))
            || ev matches RebaseLoopEvent::IndexChecked { has_conflicts: true }
            || ev matches RebaseLoopEvent::Committed(CommitOutcome::Failed(_))),
        ev matches RebaseLoopEvent::NextOp(Some(Err(m))) ==> spec_loop_step(ev)
            == RebaseLoopModel::AbortWith(m@),
{
}

/// Law: what a merge reports: `up-to-date` when nothing had to be done,
/// `fast-forward` when the branch only moved, `merge-commit` when a merge
/// commit was made; up to date wins over fast-forward.
pub proof fn lemma_merge_outcomes(a: MergeAnalysis)
    ensures
        a.up_to_date ==> spec_route_label(MergeRoute::UpToDate) == "up-to-date"@,
        spec_route_label(MergeRoute::UpToDate) == "up-to-date"@,
        spec_route_label(MergeRoute::FastForward) == "fast-forward"@,
        spec_route_label(MergeRoute::MergeCommit) == "merge-commit"@,
{
}

} // verus!
