//! Interactive rebase: a plan of steps (pick, reword, edit, squash, fixup,
//! drop) over the commits between `onto` and the current branch, replayed
//! one commit at a time onto `onto`. A step that conflicts, or an `edit`,
//! pauses the run with its state saved; `continue` resumes it and `abort`
//! restores the branch. This module decides every move; the caller does the
//! checkouts, cherry-picks and commits it asks for and reports back.
use vstd::prelude::*;
use crate::text::{
    concat_str, from_chars, str_eq, string_of, to_chars, trim, trim_chars,
};

verus! {

/// The file, inside the repository's git directory, that holds a saved run.
pub const STATE_FILE: &'static str = "STASH_REBASE_TODO.json";

pub struct RebaseCommitInfo {
    pub oid: String,
    pub short_sha: String,
    pub summary: String,
    pub author: String,
}

pub struct RebaseStep {
    pub oid: String,
    pub action: String,
    pub message: Option<String>,
}

impl RebaseStep {
    pub fn duplicate(&self) -> (r: RebaseStep)
        ensures
            r.oid@ == self.oid@,
            r.action@ == self.action@,
            r.message == self.message,
    {
        RebaseStep {
            oid: self.oid.clone(),
            action: self.action.clone(),
            message: match &self.message {
                Some(m) => Some(m.clone()),
                None => None,
            },
        }
    }
}

/// The saved state of a run: where the branch was, what it is replayed
/// onto, the head built so far, the plan and the step reached, and why the
/// run is paused (empty while running).
pub struct RebaseState {
    pub original_branch_ref: String,
    pub original_tip_oid: String,
    pub onto_oid: String,
    pub current_head_oid: String,
    pub steps: Vec<RebaseStep>,
    pub current_index: usize,
    pub paused_reason: String,
}

/// The first seven characters of an object id.
pub fn short_sha(sha: &str) -> (r: String)
    ensures
        r@ == sha@.take(if sha@.len() < 7 { sha@.len() as int } else { 7 }),
{
    let cs = to_chars(sha);
    let n = if cs.len() < 7 {
        cs.len()
    } else {
        7
    };
    from_chars(&crate::text::slice_of(&cs, 0, n))
}

/// A commit offered for the plan: its id, short id, summary and author name
/// (empty when absent).
pub fn rebase_commit_info(oid: String, summary: Option<String>, author: Option<String>) -> (c:
    RebaseCommitInfo)
    ensures
        c.oid == oid,
        c.short_sha@ == oid@.take(if oid@.len() < 7 { oid@.len() as int } else { 7 }),
        c.summary@ == match summary {
            Some(s) => s@,
            None => Seq::<char>::empty(),
        },
        c.author@ == match author {
            Some(s) => s@,
            None => Seq::<char>::empty(),
        },
{
    let short = short_sha(oid.as_str());
    RebaseCommitInfo {
        short_sha: short,
        oid,
        summary: match summary {
            Some(s) => s,
            None => String::new(),
        },
        author: match author {
            Some(s) => s,
            None => String::new(),
        },
    }
}

/// The checks made before a run starts, in order: no run already saved,
/// no other operation in progress, a non-empty plan.
pub fn start_checks(has_saved_run: bool, repo_clean: bool, plan_len: usize) -> (r: Result<(), String>)
    ensures
        has_saved_run ==> (r matches Err(e) && e@ == "Ya hay un rebase interactivo en curso"@),
        !has_saved_run && !repo_clean ==> (r matches Err(e) && e@
            == "El repositorio tiene otra operación en curso"@),
        !has_saved_run && repo_clean && plan_len == 0 ==> (r matches Err(e) && e@
            == "El plan de rebase está vacío"@),
        !has_saved_run && repo_clean && plan_len > 0 ==> r is Ok,
{
    if has_saved_run {
        Err(string_of("Ya hay un rebase interactivo en curso"))
    } else if !repo_clean {
        Err(string_of("El repositorio tiene otra operación en curso"))
    } else if plan_len == 0 {
        Err(string_of("El plan de rebase está vacío"))
    } else {
        Ok(())
    }
}

/// A run starts from a branch, not a detached `HEAD`.
pub fn require_branch(head_is_branch: bool) -> (r: Result<(), String>)
    ensures
        head_is_branch ==> r is Ok,
        !head_is_branch ==> (r matches Err(e) && e@
            == "Necesitás estar en una rama (no HEAD desacoplado) para iniciar un rebase interactivo"@),
{
    if head_is_branch {
        Ok(())
    } else {
        Err(
            string_of(
                "Necesitás estar en una rama (no HEAD desacoplado) para iniciar un rebase interactivo",
            ),
        )
    }
}

pub open spec fn step_oid_seq(steps: Seq<RebaseStep>) -> Seq<Seq<char>> {
    steps.map_values(|s: RebaseStep| s.oid@)
}

pub open spec fn oid_seq(oids: Seq<String>) -> Seq<Seq<char>> {
    oids.map_values(|s: String| s@)
}

pub open spec fn step_oids(steps: Seq<RebaseStep>) -> Set<Seq<char>> {
    step_oid_seq(steps).to_set()
}

pub open spec fn oid_set(oids: Seq<String>) -> Set<Seq<char>> {
    oid_seq(oids).to_set()
}

fn has_oid(oids: &Vec<String>, x: &String) -> (b: bool)
    ensures
        b == oid_set(oids@).contains(x@),
{
    let mut i: usize = 0;
    while i < oids.len()
        invariant
            i <= oids@.len(),
            forall|j: int| 0 <= j < i ==> oids@[j]@ != x@,
        decreases oids@.len() - i,
    {
        if oids[i] == *x {
            assert(oid_seq(oids@)[i as int] == x@);
            return true;
        }
        i += 1;
    }
    assert forall|j: int| 0 <= j < oids@.len() implies #[trigger] oid_seq(oids@)[j] != x@ by {
        assert(oid_seq(oids@)[j] == oids@[j]@);
    }
    false
}

fn step_has_oid(steps: &Vec<RebaseStep>, x: &String) -> (b: bool)
    ensures
        b == step_oids(steps@).contains(x@),
{
    let mut i: usize = 0;
    while i < steps.len()
        invariant
            i <= steps@.len(),
            forall|j: int| 0 <= j < i ==> steps@[j].oid@ != x@,
        decreases steps@.len() - i,
    {
        if steps[i].oid == *x {
            assert(step_oid_seq(steps@)[i as int] == x@);
            return true;
        }
        i += 1;
    }
    assert forall|j: int| 0 <= j < steps@.len() implies #[trigger] step_oid_seq(steps@)[j]
        != x@ by {
        assert(step_oid_seq(steps@)[j] == steps@[j].oid@);
    }
    false
}

/// Whether the plan names exactly the commits waiting to be replayed (as
/// sets: order and repetition aside).
pub fn plan_matches(pending: &Vec<String>, steps: &Vec<RebaseStep>) -> (r: Result<(), String>)
    ensures
        r is Ok <==> oid_set(pending@) == step_oids(steps@),
        r matches Err(e) ==> e@ == "El plan no coincide con los commits pendientes de rebase"@,
{
    let mut i: usize = 0;
    while i < pending.len()
        invariant
            i <= pending@.len(),
            forall|j: int| 0 <= j < i ==> step_oids(steps@).contains(#[trigger] pending@[j]@),
        decreases pending@.len() - i,
    {
        if !step_has_oid(steps, &pending[i]) {
            proof {
                assert(oid_set(pending@).contains(pending@[i as int]@)) by {
                    assert(oid_seq(pending@)[i as int] == pending@[i as int]@);
                }
            }
            return Err(string_of("El plan no coincide con los commits pendientes de rebase"));
        }
        i += 1;
    }
    let mut k: usize = 0;
    while k < steps.len()
        invariant
            k <= steps@.len(),
            forall|j: int| 0 <= j < k ==> oid_set(pending@).contains(#[trigger] steps@[j].oid@),
        decreases steps@.len() - k,
    {
        if !has_oid(pending, &steps[k].oid) {
            proof {
                assert(step_oids(steps@).contains(steps@[k as int].oid@)) by {
                    assert(step_oid_seq(steps@)[k as int] == steps@[k as int].oid@);
                }
            }
            return Err(string_of("El plan no coincide con los commits pendientes de rebase"));
        }
        k += 1;
    }
    proof {
        assert forall|x: Seq<char>| oid_set(pending@).contains(x) implies step_oids(steps@).contains(
            x,
        ) by {
            let j = choose|j: int|
                0 <= j < pending@.len() && oid_seq(pending@)[j] == x;
            assert(step_oids(steps@).contains(pending@[j]@));
        }
        assert forall|x: Seq<char>| step_oids(steps@).contains(x) implies oid_set(pending@).contains(
            x,
        ) by {
            let j = choose|j: int|
                0 <= j < steps@.len() && step_oid_seq(steps@)[j] == x;
            assert(oid_set(pending@).contains(steps@[j].oid@));
        }
        assert(oid_set(pending@) =~= step_oids(steps@));
    }
    Ok(())
}

/// The state a run starts in: the head is `onto`, the first step is next.
pub fn initial_state(
    original_branch_ref: String,
    original_tip_oid: String,
    onto_oid: String,
    steps: Vec<RebaseStep>,
) -> (st: RebaseState)
    ensures
        st.original_branch_ref == original_branch_ref,
        st.original_tip_oid == original_tip_oid,
        st.onto_oid == onto_oid,
        st.current_head_oid@ == onto_oid@,
        st.steps@ == steps@,
        st.current_index == 0,
        st.paused_reason@ == Seq::<char>::empty(),
{
    let head = onto_oid.clone();
    RebaseState {
        original_branch_ref,
        original_tip_oid,
        onto_oid,
        current_head_oid: head,
        steps,
        current_index: 0,
        paused_reason: String::new(),
    }
}

/// What the caller reports back to the run.
pub enum RebaseEvent {
    /// Go on with the next step.
    Next,
    /// The step's commit was cherry-picked onto the head; whether the index
    /// now has conflicts.
    Picked { has_conflicts: bool },
    /// The step's commit was made.
    Committed { new_head: String },
}

/// What the run asks the caller to do next.
pub enum RebaseAction {
    /// Check out `head` (detached) and cherry-pick `commit` onto it.
    CherryPick { head: String, commit: String },
    /// Save the state (paused on a conflict) and stop.
    PauseConflict,
    /// Write the index as a tree and commit the current step as
    /// `plan_step_commit` says.
    CommitStep,
    /// Save the state (paused for editing), check out `head` and stop.
    PauseEdit { head: String },
    /// Move the original branch to `head`, check it out and clear the state.
    Complete { head: String },
    /// Stop with this error.
    Fail(String),
}

pub open spec fn is_action(s: RebaseStep, a: Seq<char>) -> bool {
    s.action@ == a
}

/// The first step at or after `i` that is not a `drop`.
pub open spec fn next_kept(steps: Seq<RebaseStep>, i: int) -> int
    decreases steps.len() - i,
{
    if i < steps.len() && is_action(steps[i], "drop"@) {
        next_kept(steps, i + 1)
    } else {
        i
    }
}

pub proof fn lemma_next_kept(steps: Seq<RebaseStep>, i: int)
    requires
        0 <= i,
    ensures
        i <= next_kept(steps, i),
        i <= steps.len() ==> next_kept(steps, i) <= steps.len(),
        i > steps.len() ==> next_kept(steps, i) == i,
        next_kept(steps, i) < steps.len() ==> !is_action(steps[next_kept(steps, i)], "drop"@),
        forall|j: int| i <= j < next_kept(steps, i) ==> is_action(#[trigger] steps[j], "drop"@),
    decreases steps.len() - i,
{
    if i < steps.len() && is_action(steps[i], "drop"@) {
        lemma_next_kept(steps, i + 1);
    }
}

/// The move for going on from the state's step: dropped steps are skipped;
/// at the end the run completes on the head built; a squash or fixup with
/// nothing before it (the head is still `onto`) fails; otherwise the step's
/// commit is cherry-picked onto the head.
pub open spec fn spec_next(st: RebaseState) -> (int, RebaseActionModel) {
    let k = next_kept(st.steps@, st.current_index as int);
    if k >= st.steps@.len() {
        (k, RebaseActionModel::Complete(st.current_head_oid@))
    } else if (is_action(st.steps@[k], "squash"@) || is_action(st.steps@[k], "fixup"@))
        && st.current_head_oid@ == st.onto_oid@ {
        (k, RebaseActionModel::Fail("No se puede combinar el primer commit del plan: no hay un commit anterior"@))
    } else {
        (k, RebaseActionModel::CherryPick(st.current_head_oid@, st.steps@[k].oid@))
    }
}

/// A move as plain values.
pub enum RebaseActionModel {
    CherryPick(Seq<char>, Seq<char>),
    PauseConflict,
    CommitStep,
    PauseEdit(Seq<char>),
    Complete(Seq<char>),
    Fail(Seq<char>),
}

pub open spec fn action_model(a: RebaseAction) -> RebaseActionModel {
    match a {
        RebaseAction::CherryPick { head, commit } => RebaseActionModel::CherryPick(head@, commit@),
        RebaseAction::PauseConflict => RebaseActionModel::PauseConflict,
        RebaseAction::CommitStep => RebaseActionModel::CommitStep,
        RebaseAction::PauseEdit { head } => RebaseActionModel::PauseEdit(head@),
        RebaseAction::Complete { head } => RebaseActionModel::Complete(head@),
        RebaseAction::Fail(m) => RebaseActionModel::Fail(m@),
    }
}

/// The parts of the state a run never changes.
pub open spec fn same_plan(a: RebaseState, b: RebaseState) -> bool {
    &&& a.original_branch_ref == b.original_branch_ref
    &&& a.original_tip_oid == b.original_tip_oid
    &&& a.onto_oid == b.onto_oid
    &&& a.steps@ == b.steps@
}

fn next_move(st: &mut RebaseState) -> (a: RebaseAction)
    ensures
        same_plan(*final(st), *old(st)),
        final(st).current_index as int == spec_next(*old(st)).0,
        final(st).current_head_oid == old(st).current_head_oid,
        final(st).paused_reason == old(st).paused_reason,
        action_model(a) == spec_next(*old(st)).1,
{
    proof {
        lemma_next_kept(st.steps@, st.current_index as int);
    }
    if st.current_index >= st.steps.len() {
        return RebaseAction::Complete { head: st.current_head_oid.clone() };
    }
    let ghost start = *st;
    while st.current_index < st.steps.len() && str_eq(
        st.steps[st.current_index].action.as_str(),
        "drop",
    )
        invariant
            same_plan(*st, start),
            st.current_head_oid == start.current_head_oid,
            st.paused_reason == start.paused_reason,
            start.current_index <= st.current_index <= st.steps@.len(),
            next_kept(st.steps@, st.current_index as int) == next_kept(
                start.steps@,
                start.current_index as int,
            ),
        decreases st.steps@.len() - st.current_index,
    {
        st.current_index = st.current_index + 1;
    }
    if st.current_index >= st.steps.len() {
        return RebaseAction::Complete { head: st.current_head_oid.clone() };
    }
    let i = st.current_index;
    let combine = str_eq(st.steps[i].action.as_str(), "squash") || str_eq(
        st.steps[i].action.as_str(),
        "fixup",
    );
    if combine && st.current_head_oid == st.onto_oid {
        return RebaseAction::Fail(
            string_of("No se puede combinar el primer commit del plan: no hay un commit anterior"),
        );
    }
    RebaseAction::CherryPick { head: st.current_head_oid.clone(), commit: st.steps[i].oid.clone() }
}

/// One move of the run. `Next` goes on from the current step; `Picked`
/// pauses on a conflict (the step stays current) or asks for the step's
/// commit; `Committed` moves past the step, pausing after an `edit` with
/// the new commit as head, else going on from there.
pub fn advance(st: &mut RebaseState, ev: RebaseEvent) -> (a: RebaseAction)
    requires
        ev is Committed ==> old(st).current_index < old(st).steps@.len(),
    ensures
        same_plan(*final(st), *old(st)),
        old(st).current_index <= old(st).steps@.len() ==> final(st).current_index
            <= final(st).steps@.len(),
        match ev {
            RebaseEvent::Next => {
                &&& final(st).current_index as int == spec_next(*old(st)).0
                &&& final(st).current_head_oid == old(st).current_head_oid
                &&& final(st).paused_reason == old(st).paused_reason
                &&& action_model(a) == spec_next(*old(st)).1
            },
            RebaseEvent::Picked { has_conflicts } => {
                &&& final(st).current_index == old(st).current_index
                &&& final(st).current_head_oid == old(st).current_head_oid
                &&& if has_conflicts {
                    final(st).paused_reason@ == "conflict"@ && a is PauseConflict
                } else {
                    final(st).paused_reason == old(st).paused_reason && a is CommitStep
                }
            },
            RebaseEvent::Committed { new_head } => {
                let moved = RebaseState {
                    current_index: (old(st).current_index + 1) as usize,
                    current_head_oid: new_head,
                    ..*old(st)
                };
                if is_action(old(st).steps@[old(st).current_index as int], "edit"@) {
                    &&& final(st).current_index == old(st).current_index + 1
                    &&& final(st).current_head_oid@ == new_head@
                    &&& final(st).paused_reason@ == "edit"@
                    &&& action_model(a) == RebaseActionModel::PauseEdit(new_head@)
                } else {
                    &&& final(st).current_index as int == spec_next(moved).0
                    &&& final(st).current_head_oid@ == new_head@
                    &&& final(st).paused_reason == old(st).paused_reason
                    &&& action_model(a) == spec_next(moved).1
                }
            },
        },
{
    match ev {
        RebaseEvent::Next => {
            proof {
                lemma_next_kept(st.steps@, st.current_index as int);
            }
            next_move(st)
        },
        RebaseEvent::Picked { has_conflicts } => {
            if has_conflicts {
                st.paused_reason = string_of("conflict");
                RebaseAction::PauseConflict
            } else {
                RebaseAction::CommitStep
            }
        },
        RebaseEvent::Committed { new_head } => {
            let is_edit = str_eq(st.steps[st.current_index].action.as_str(), "edit");
            let n = st.steps.len();
            assert(st.current_index < n);
            st.current_index = st.current_index + 1;
            st.current_head_oid = new_head;
            if is_edit {
                st.paused_reason = string_of("edit");
                RebaseAction::PauseEdit { head: st.current_head_oid.clone() }
            } else {
                proof {
                    lemma_next_kept(st.steps@, st.current_index as int);
                }
                next_move(st)
            }
        },
    }
}

/// Law: a dropped step's commit is never replayed — whatever the run
/// cherry-picks is the commit of the step it stands at, and that step is
/// not a `drop`; steps it passed over were all drops.
pub proof fn lemma_dropped_commits_never_picked(st: RebaseState)
    ensures
        spec_next(st).1 matches RebaseActionModel::CherryPick(h, c) ==> {
            let k = spec_next(st).0;
            &&& 0 <= k < st.steps@.len()
            &&& c == st.steps@[k].oid@
            &&& !is_action(st.steps@[k], "drop"@)
        },
        forall|j: int|
            st.current_index <= j < spec_next(st).0 ==> is_action(#[trigger] st.steps@[j], "drop"@),
        spec_next(st).1 is Complete ==> spec_next(st).0 >= st.steps@.len(),
{
    lemma_next_kept(st.steps@, st.current_index as int);
}

/// How the commit for a step is made: its message, and whether it is laid
/// on the head (pick, edit, reword) or replaces the head by taking the
/// head's parents (squash, fixup).
pub struct StepCommit {
    pub message: String,
    pub replaces_head: bool,
}

/// The commit a step makes: pick and edit keep the commit's message;
/// reword uses the plan's message (else the commit's); fixup keeps the
/// head's message; squash uses the plan's message, else the head's and the
/// commit's messages, each trimmed, separated by a blank line. Any other
/// action is unknown.
pub open spec fn spec_step_commit(
    action: Seq<char>,
    step_message: Option<Seq<char>>,
    commit_message: Seq<char>,
    head_message: Seq<char>,
) -> Result<(Seq<char>, bool), Seq<char>> {
    if action == "pick"@ || action == "edit"@ {
        Ok((commit_message, false))
    } else if action == "reword"@ {
        Ok(
            (
                match step_message {
                    Some(m) => m,
                    None => commit_message,
                },
                false,
            ),
        )
    } else if action == "squash"@ || action == "fixup"@ {
        Ok(
            (
                if action == "fixup"@ {
                    head_message
                } else {
                    match step_message {
                        Some(m) => m,
                        None => trim(head_message) + "\n\n"@ + trim(commit_message),
                    }
                },
                true,
            ),
        )
    } else {
        Err("Acción de rebase desconocida: "@ + action)
    }
}

pub fn plan_step_commit(
    action: &str,
    step_message: Option<String>,
    commit_message: &str,
    head_message: &str,
) -> (r: Result<StepCommit, String>)
    ensures
        match r {
            Ok(c) => spec_step_commit(
                action@,
                match step_message {
                    Some(m) => Some(m@),
                    None => None,
                },
                commit_message@,
                head_message@,
            ) == Ok::<(Seq<char>, bool), Seq<char>>((c.message@, c.replaces_head)),
            Err(e) => spec_step_commit(
                action@,
                match step_message {
                    Some(m) => Some(m@),
                    None => None,
                },
                commit_message@,
                head_message@,
            ) == Err::<(Seq<char>, bool), Seq<char>>(e@),
        },
{
    if str_eq(action, "pick") || str_eq(action, "edit") {
        Ok(StepCommit { message: string_of(commit_message), replaces_head: false })
    } else if str_eq(action, "reword") {
        let message = match step_message {
            Some(m) => m,
            None => string_of(commit_message),
        };
        Ok(StepCommit { message, replaces_head: false })
    } else if str_eq(action, "squash") || str_eq(action, "fixup") {
        let message = if str_eq(action, "fixup") {
            string_of(head_message)
        } else {
            match step_message {
                Some(m) => m,
                None => {
                    let h = from_chars(&trim_chars(&to_chars(head_message)));
                    let c = from_chars(&trim_chars(&to_chars(commit_message)));
                    let a = concat_str(h.as_str(), "\n\n");
                    concat_str(a.as_str(), c.as_str())
                },
            }
        };
        Ok(StepCommit { message, replaces_head: true })
    } else {
        Err(concat_str("Acción de rebase desconocida: ", action))
    }
}

/// How `continue` resumes a paused run.
pub enum ResumeKind {
    /// Commit the step that conflicted (its conflicts now resolved), then
    /// report `Committed`.
    FinishPausedStep,
    /// Amend the paused `edit` commit with what is staged, if anything
    /// changed, then report `Next`.
    AmendEdit,
}

/// Whether and how a saved run resumes: not while conflicts remain; a run
/// paused on a conflict finishes that step; one paused for editing amends;
/// any other pause reason is unknown.
pub fn resume_kind(st: &RebaseState, has_conflicts: bool) -> (r: Result<ResumeKind, String>)
    ensures
        has_conflicts ==> (r matches Err(e) && e@ == "Todavía hay conflictos sin resolver"@),
        !has_conflicts && st.paused_reason@ == "conflict"@ ==> r matches Ok(
            ResumeKind::FinishPausedStep,
        ),
        !has_conflicts && st.paused_reason@ == "edit"@ ==> r matches Ok(ResumeKind::AmendEdit),
        !has_conflicts && st.paused_reason@ != "conflict"@ && st.paused_reason@ != "edit"@ ==> (
        r matches Err(e) && e@ == "Estado de pausa desconocido: "@ + st.paused_reason@),
{
    proof {
        reveal_strlit("edit");
        reveal_strlit("conflict");
        assert("edit"@.len() != "conflict"@.len());
    }
    if has_conflicts {
        Err(string_of("Todavía hay conflictos sin resolver"))
    } else if str_eq(st.paused_reason.as_str(), "conflict") {
        Ok(ResumeKind::FinishPausedStep)
    } else if str_eq(st.paused_reason.as_str(), "edit") {
        Ok(ResumeKind::AmendEdit)
    } else {
        Err(concat_str("Estado de pausa desconocido: ", st.paused_reason.as_str()))
    }
}

/// Records the amended `edit` commit as the head the run goes on from.
pub fn record_amend(st: &mut RebaseState, new_head: String)
    ensures
        same_plan(*final(st), *old(st)),
        final(st).current_index == old(st).current_index,
        final(st).paused_reason == old(st).paused_reason,
        final(st).current_head_oid == new_head,
{
    st.current_head_oid = new_head;
}

/// The error when `continue` or `abort` finds no saved run.
pub fn no_run_error() -> (e: String)
    ensures
        e@ == "No hay un rebase interactivo en curso"@,
{
    string_of("No hay un rebase interactivo en curso")
}

/// What `abort` restores: the original branch at its original tip.
pub fn abort_target(st: &RebaseState) -> (r: (String, String))
    ensures
        r.0 == st.original_branch_ref,
        r.1 == st.original_tip_oid,
{
    (st.original_branch_ref.clone(), st.original_tip_oid.clone())
}

/// Law: the commit each kind of step makes. `edit` commits exactly as `pick`
/// does: the replayed commit's own message, laid on the head. `reword`
/// takes the plan's message when there is one. `fixup` keeps the head's
/// message and `squash` the plan's message when given; both replace the
/// head. Only the six plan actions are accepted.
pub proof fn lemma_step_commit_kinds(
    action: Seq<char>,
    m: Option<Seq<char>>,
    c: Seq<char>,
    h: Seq<char>,
)
    ensures
        spec_step_commit("edit"@, m, c, h) == spec_step_commit("pick"@, m, c, h),
        spec_step_commit("pick"@, m, c, h) == Ok::<(Seq<char>, bool), Seq<char>>((c, false)),
        spec_step_commit("reword"@, m, c, h) == Ok::<(Seq<char>, bool), Seq<char>>(
            (
                match m {
                    Some(x) => x,
                    None => c,
                },
                false,
            ),
        ),
        spec_step_commit("fixup"@, m, c, h) == Ok::<(Seq<char>, bool), Seq<char>>((h, true)),
        m matches Some(x) ==> spec_step_commit("squash"@, m, c, h) == Ok::<
            (Seq<char>, bool),
            Seq<char>,
        >((x, true)),
        spec_step_commit(action, m, c, h) is Ok <==> (action == "pick"@ || action == "edit"@
            || action == "reword"@ || action == "squash"@ || action == "fixup"@),
        spec_step_commit(action, m, c, h) matches Ok((_, replaces)) ==> (replaces <==> (action
            == "squash"@ || action == "fixup"@)),
{
    reveal_strlit("pick");
    reveal_strlit("edit");
    reveal_strlit("reword");
    reveal_strlit("squash");
    reveal_strlit("fixup");
    assert("edit"@ != "pick"@) by {
        assert("edit"@[0] != "pick"@[0]);
    }
    assert("reword"@ != "pick"@ && "reword"@ != "edit"@) by {
        assert("reword"@.len() != "pick"@.len());
    }
    assert("fixup"@ != "pick"@ && "fixup"@ != "edit"@ && "fixup"@ != "reword"@) by {
        assert("fixup"@.len() != "pick"@.len());
        assert("fixup"@.len() != "reword"@.len());
    }
    assert("squash"@ != "pick"@ && "squash"@ != "edit"@ && "squash"@ != "reword"@ && "squash"@
        != "fixup"@) by {
        assert("squash"@.len() != "pick"@.len());
        assert("squash"@[0] != "reword"@[0]);
        assert("squash"@.len() != "fixup"@.len());
    }
}

} // verus!
