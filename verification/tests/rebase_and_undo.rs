use stash_core::git::interactive_rebase::{
    abort_target, advance, initial_state, no_run_error, plan_matches, plan_step_commit, rebase_commit_info,
    record_amend, require_branch, resume_kind, short_sha, start_checks, RebaseAction, RebaseEvent, RebaseState,
    RebaseStep, ResumeKind,
};
use stash_core::git::undo::{clean_label, redo_check, undo_plan, undo_preview, ReflogTop, UndoState};

fn s(x: &str) -> String {
    x.to_string()
}

fn step(oid: &str, action: &str) -> RebaseStep {
    RebaseStep { oid: s(oid), action: s(action), message: None }
}

fn state(steps: Vec<RebaseStep>) -> RebaseState {
    initial_state(s("refs/heads/main"), s("tip"), s("onto"), steps)
}

fn cherry_pick(a: RebaseAction) -> (String, String) {
    match a {
        RebaseAction::CherryPick { head, commit } => (head, commit),
        _ => panic!("expected a cherry-pick"),
    }
}

#[test]
fn start_checks_in_order() {
    assert_eq!(start_checks(true, false, 0), Err(s("Ya hay un rebase interactivo en curso")));
    assert_eq!(start_checks(false, false, 0), Err(s("El repositorio tiene otra operación en curso")));
    assert_eq!(start_checks(false, true, 0), Err(s("El plan de rebase está vacío")));
    assert_eq!(start_checks(false, true, 2), Ok(()));
    assert!(require_branch(false).unwrap_err().contains("HEAD desacoplado"));
    assert_eq!(require_branch(true), Ok(()));
}

#[test]
fn plan_must_name_exactly_the_pending_commits() {
    let pending = vec![s("a"), s("b")];
    assert_eq!(plan_matches(&pending, &vec![step("b", "pick"), step("a", "drop")]), Ok(()));
    assert!(plan_matches(&pending, &vec![step("a", "pick")]).is_err());
    assert!(plan_matches(&pending, &vec![step("a", "pick"), step("b", "pick"), step("c", "pick")]).is_err());
}

#[test]
fn commit_info_for_the_plan() {
    let c = rebase_commit_info(s("0123456789"), Some(s("first")), None);
    assert_eq!(c.short_sha, "0123456");
    assert_eq!(c.summary, "first");
    assert_eq!(c.author, "");
    assert_eq!(short_sha("abc"), "abc");
}

#[test]
fn pick_reword_and_drop_run_in_order() {
    let mut st = state(vec![step("a", "pick"), step("b", "drop"), step("c", "reword")]);
    assert_eq!(st.current_head_oid, "onto");
    assert_eq!(cherry_pick(advance(&mut st, RebaseEvent::Next)), (s("onto"), s("a")));
    assert!(matches!(advance(&mut st, RebaseEvent::Picked { has_conflicts: false }), RebaseAction::CommitStep));
    let a = advance(&mut st, RebaseEvent::Committed { new_head: s("a2") });
    assert_eq!(cherry_pick(a), (s("a2"), s("c")));
    assert_eq!(st.current_index, 2);
    assert!(matches!(advance(&mut st, RebaseEvent::Picked { has_conflicts: false }), RebaseAction::CommitStep));
    match advance(&mut st, RebaseEvent::Committed { new_head: s("c2") }) {
        RebaseAction::Complete { head } => assert_eq!(head, "c2"),
        _ => panic!("expected completion"),
    }
}

#[test]
fn a_dropped_commit_is_never_cherry_picked() {
    let mut st = state(vec![step("a", "drop"), step("b", "drop")]);
    match advance(&mut st, RebaseEvent::Next) {
        RebaseAction::Complete { head } => assert_eq!(head, "onto"),
        _ => panic!("all steps were dropped"),
    }
}

#[test]
fn squash_first_in_plan_fails() {
    let mut st = state(vec![step("a", "squash")]);
    match advance(&mut st, RebaseEvent::Next) {
        RebaseAction::Fail(m) => assert!(m.contains("primer commit")),
        _ => panic!("expected failure"),
    }
}

#[test]
fn conflicting_pick_pauses_then_resumes() {
    let mut st = state(vec![step("a", "pick"), step("b", "pick")]);
    cherry_pick(advance(&mut st, RebaseEvent::Next));
    assert!(matches!(advance(&mut st, RebaseEvent::Picked { has_conflicts: true }), RebaseAction::PauseConflict));
    assert_eq!(st.paused_reason, "conflict");
    assert_eq!(st.current_index, 0);
    assert_eq!(resume_kind(&st, true).err(), Some(s("Todavía hay conflictos sin resolver")));
    assert!(matches!(resume_kind(&st, false), Ok(ResumeKind::FinishPausedStep)));
    let a = advance(&mut st, RebaseEvent::Committed { new_head: s("a2") });
    assert_eq!(cherry_pick(a), (s("a2"), s("b")));
}

#[test]
fn edit_pauses_after_applying_then_amends_on_continue() {
    let mut st = state(vec![step("a", "edit"), step("b", "pick")]);
    cherry_pick(advance(&mut st, RebaseEvent::Next));
    advance(&mut st, RebaseEvent::Picked { has_conflicts: false });
    match advance(&mut st, RebaseEvent::Committed { new_head: s("a2") }) {
        RebaseAction::PauseEdit { head } => assert_eq!(head, "a2"),
        _ => panic!("expected an edit pause"),
    }
    assert_eq!(st.paused_reason, "edit");
    assert!(matches!(resume_kind(&st, false), Ok(ResumeKind::AmendEdit)));
    record_amend(&mut st, s("a3"));
    assert_eq!(cherry_pick(advance(&mut st, RebaseEvent::Next)), (s("a3"), s("b")));
    let (branch, tip) = abort_target(&st);
    assert_eq!(branch, "refs/heads/main");
    assert_eq!(tip, "tip");
    assert_eq!(no_run_error(), "No hay un rebase interactivo en curso");
}

#[test]
fn unknown_pause_reason_is_reported() {
    let mut st = state(vec![step("a", "pick")]);
    st.paused_reason = s("weird");
    assert_eq!(resume_kind(&st, false).err(), Some(s("Estado de pausa desconocido: weird")));
}

#[test]
fn step_commit_messages() {
    let c = plan_step_commit("pick", None, "orig", "head").unwrap();
    assert_eq!(c.message, "orig");
    assert!(!c.replaces_head);
    let c = plan_step_commit("reword", Some(s("new words")), "orig", "head").unwrap();
    assert_eq!(c.message, "new words");
    let c = plan_step_commit("squash", None, " second \n", "first\n").unwrap();
    assert_eq!(c.message, "first\n\nsecond");
    assert!(c.replaces_head);
    let c = plan_step_commit("fixup", Some(s("ignored")), "second", "first").unwrap();
    assert_eq!(c.message, "first");
    assert!(c.replaces_head);
    assert_eq!(plan_step_commit("yolo", None, "", "").err(), Some(s("Acción de rebase desconocida: yolo")));
}

fn top(old: &str, new: &str, msg: Option<&str>) -> ReflogTop {
    ReflogTop { id_old: s(old), id_new: s(new), message: msg.map(s) }
}

#[test]
fn undo_refuses_when_nothing_to_undo() {
    assert_eq!(undo_plan(s("main"), None).err(), Some(s("No hay nada que deshacer en esta rama")));
    let created = top("0000000000", "abc", Some("branch: Created from HEAD"));
    assert!(undo_plan(s("main"), Some(created)).is_err());
    assert!(undo_preview(Some(top("0000", "abc", None))).label.is_none());
    assert!(undo_preview(None).label.is_none());
}

#[test]
fn undo_then_redo_restores_the_commit() {
    let (target, entry) = undo_plan(s("main"), Some(top("c1", "c2", Some("commit: second\n")))).unwrap();
    assert_eq!(target, "c1");
    assert_eq!(entry.label, "commit: second");
    assert_eq!(redo_check(&entry, "main", Some(target)), Ok(s("c2")));
    assert_eq!(
        undo_preview(Some(top("c1", "c2", Some("  commit: second  ")))).label,
        Some(s("commit: second"))
    );
    assert_eq!(clean_label("\tx \n"), "x");
}

#[test]
fn redo_refuses_after_switching_branch() {
    let (_, entry) = undo_plan(s("main"), Some(top("c1", "c2", None))).unwrap();
    assert_eq!(entry.label, "(sin mensaje)");
    assert_eq!(
        redo_check(&entry, "feature", Some(s("c1"))),
        Err(s("Cambiaste de rama desde el último undo; no se puede rehacer"))
    );
}

#[test]
fn redo_refuses_if_state_moved_on() {
    let (_, entry) = undo_plan(s("main"), Some(top("c1", "c2", None))).unwrap();
    assert_eq!(
        redo_check(&entry, "main", Some(s("c9"))),
        Err(s("El estado del repositorio cambió desde el último undo; no se puede rehacer"))
    );
    assert!(redo_check(&entry, "main", None).is_err());
}

#[test]
fn redo_stacks_are_kept_per_repository() {
    let mut undo = UndoState::new();
    assert!(undo.peek("/a").is_none());
    let (_, e1) = undo_plan(s("main"), Some(top("c1", "c2", Some("one")))).unwrap();
    let (_, e2) = undo_plan(s("main"), Some(top("c0", "c1", Some("two")))).unwrap();
    let (_, other) = undo_plan(s("dev"), Some(top("x1", "x2", Some("other")))).unwrap();
    undo.push(s("/a"), e1);
    undo.push(s("/b"), other);
    undo.push(s("/a"), e2);
    assert_eq!(undo.redo_preview("/a").label, Some(s("two")));
    undo.pop("/a");
    assert_eq!(undo.peek("/a").unwrap().to, "c2");
    assert_eq!(undo.redo_preview("/b").label, Some(s("other")));
    undo.pop("/a");
    assert!(undo.peek("/a").is_none());
    undo.pop("/a");
    assert!(undo.redo_preview("/a").label.is_none());
    assert_eq!(undo.peek("/b").unwrap().branch, "dev");
}

#[test]
fn redo_reports_when_there_is_nothing_to_redo() {
    let mut undo = UndoState::new();
    assert_eq!(undo.next_redo("/a").err(), Some(s("Nada para rehacer")));
    let (_, e) = undo_plan(s("main"), Some(top("c1", "c2", Some("one")))).unwrap();
    undo.push(s("/a"), e);
    assert_eq!(undo.next_redo("/a").unwrap().from, "c1");
}

#[test]
fn a_saved_run_whose_step_index_is_past_the_plan_completes() {
    let mut st = state(vec![step("a", "pick")]);
    st.current_index = 5;
    st.current_head_oid = s("h");
    match advance(&mut st, RebaseEvent::Next) {
        RebaseAction::Complete { head } => assert_eq!(head, "h"),
        _ => panic!("expected completion"),
    }
    assert_eq!(st.current_index, 5);
}

#[test]
fn undo_reverts_last_commit_and_redo_restores_it() {
    let mut undo = UndoState::new();
    let (target, entry) =
        undo_plan(s("main"), Some(top("c1", "c2", Some("commit: second commit")))).unwrap();
    assert_eq!(target, "c1");
    assert!(entry.label.contains("second commit"));
    undo.push(s("/repo"), entry);
    let next = undo.next_redo("/repo").unwrap();
    assert_eq!(redo_check(&next, "main", Some(target)), Ok(s("c2")));
    undo.pop("/repo");
    assert!(undo.peek("/repo").is_none());
}
