use stash_core::git::branches::{
    delete_check, list_branches, list_remote_branches, local_branch_ref, LocalBranch, RemoteBranchRaw,
};
use stash_core::git::changes::{commit_check, stage_action, unstage_action, StageAction, UnstageAction};
use stash_core::git::conflicts::{
    cleaned_message, collect_conflicts, continue_gate, finish_kind, finish_message, operation_kind,
    operation_status, ConflictSides, FinishKind, RepoState,
};
use stash_core::git::diff::{diff_hunk, diff_line, file_diff, first_file_diff, status_label, DeltaKind};
use stash_core::git::ensure_clean_workdir;
use stash_core::git::history_ops::{
    branch_target, cherry_pick_message, merge_commit_message, merge_route, rebase_loop_step, revert_message,
    route_label, CommitOutcome, MergeAnalysis, MergeRoute, RebaseLoopAction, RebaseLoopEvent,
};
use stash_core::git::lfs::{lfs_status, parse_ls_files, require_lfs, tracked_patterns};
use stash_core::git::log::{commit_info, refs_at, RefRecord};
use stash_core::git::remotes::{fetch_args, git_failure_message, pull_args, push_args, remote_info};
use stash_core::git::repo::{
    current_branch_name, index_status_label, repo_info, repo_status, worktree_status_label, HeadState,
    StatusEntry, StatusFlags,
};
use stash_core::git::stash::stash_message;
use stash_core::git::submodules::{self, deinit_args, submodule_info, sync_args, update_args};
use stash_core::git::worktrees::{self, lock_args, parse_worktree_list, remove_args};

fn s(x: &str) -> String {
    x.to_string()
}

fn strings(v: &[&str]) -> Vec<String> {
    v.iter().map(|x| x.to_string()).collect()
}

fn no_flags() -> StatusFlags {
    StatusFlags {
        index_new: false,
        index_modified: false,
        index_deleted: false,
        index_renamed: false,
        wt_new: false,
        wt_modified: false,
        wt_deleted: false,
        wt_renamed: false,
        conflicted: false,
    }
}

#[test]
fn parses_ls_files_output_into_oid_status_and_path() {
    let output = "4d7a2146b2 * data/large.bin\nabc123 - data/pointer-only.bin\n";
    let files = parse_ls_files(output);
    assert_eq!(files.len(), 2);
    assert_eq!(files[0].path, "data/large.bin");
    assert!(files[0].fetched);
    assert!(!files[1].fetched);
}

#[test]
fn ls_files_keeps_spaces_in_paths_and_skips_malformed_lines() {
    let files = parse_ls_files("aa * dir/with space.bin\nmalformed\r\nbb -\n");
    assert_eq!(files.len(), 1);
    assert_eq!(files[0].oid, "aa");
    assert_eq!(files[0].path, "dir/with space.bin");
}

#[test]
fn tracked_patterns_reads_filter_lfs_lines_from_gitattributes() {
    let status = lfs_status(
        true,
        Some(s("*.psd filter=lfs diff=lfs merge=lfs -text\n*.txt text\n# a comment\ndata/*.bin filter=lfs\n")),
    );
    assert_eq!(status.tracked_patterns, vec!["*.psd".to_string(), "data/*.bin".to_string()]);
    assert!(status.available);
}

#[test]
fn status_has_no_tracked_patterns_without_a_gitattributes_file() {
    let status = lfs_status(false, None);
    assert!(status.tracked_patterns.is_empty());
    assert!(!status.available);
}

#[test]
fn tracked_patterns_ignores_lines_without_a_filter_attribute() {
    assert!(tracked_patterns("*.md text\n\n").is_empty());
    assert_eq!(tracked_patterns("  *.zip   filter=lfs  \n"), vec![s("*.zip")]);
}

#[test]
fn mutating_lfs_commands_refuse_clearly_when_the_extension_is_missing() {
    let err = require_lfs(false).unwrap_err();
    assert!(err.contains("no está instalado"));
    assert!(require_lfs(true).is_ok());
}

#[test]
fn lists_only_the_main_worktree_initially() {
    let out = "worktree /home/me/repo\nHEAD 0123456789abcdef\nbranch refs/heads/main\n\n";
    let list = parse_worktree_list(out);
    assert_eq!(list.len(), 1);
    assert!(list[0].is_main);
    assert_eq!(list[0].name, "repo");
    assert_eq!(list[0].path, "/home/me/repo");
    assert_eq!(list[0].branch, Some(s("main")));
    assert!(!list[0].is_locked);
}

#[test]
fn worktree_list_reads_detached_locked_prunable_and_bare_entries() {
    let out = "worktree /r/main\nHEAD aaa\nbranch refs/heads/main\n\n\
               worktree /r/wt-a\nHEAD bbb\ndetached\nlocked reason here\n\n\
               worktree /r/wt-b\nHEAD ccc\nbranch refs/heads/feature/x\nprunable gitdir file points to non-existent location\n\n\
               worktree /r/bare\nbare\n";
    let list = parse_worktree_list(out);
    assert_eq!(list.len(), 4);
    assert!(list[0].is_main && !list[1].is_main && !list[3].is_main);
    assert_eq!(list[1].branch, None);
    assert_eq!(list[1].head, "bbb");
    assert!(list[1].is_locked);
    assert!(!list[1].is_prunable);
    assert_eq!(list[2].branch, Some(s("feature/x")));
    assert!(list[2].is_prunable);
    assert!(!list[2].is_locked);
    assert!(list[3].is_bare);
    assert_eq!(list[3].head, "");
    assert_eq!(list[3].name, "bare");
}

#[test]
fn worktree_command_arguments() {
    assert_eq!(worktrees::add_args("../wt", "feat", true), strings(&["worktree", "add", "-b", "feat", "../wt"]));
    assert_eq!(worktrees::add_args("../wt", "feat", false), strings(&["worktree", "add", "../wt", "feat"]));
    assert_eq!(remove_args("../wt", true), strings(&["worktree", "remove", "--force", "../wt"]));
    assert_eq!(remove_args("../wt", false), strings(&["worktree", "remove", "../wt"]));
    assert_eq!(lock_args("../wt", Some(s("usb"))), strings(&["worktree", "lock", "--reason", "usb", "../wt"]));
    assert_eq!(lock_args("../wt", None), strings(&["worktree", "lock", "../wt"]));
}

#[test]
fn submodule_status_and_arguments() {
    let up = submodule_info(s("lib"), s("vendor/lib"), None, Some(s("abc")), Some(s("abc")), true);
    assert!(up.is_up_to_date);
    let behind = submodule_info(s("lib"), s("vendor/lib"), None, Some(s("abc")), Some(s("def")), true);
    assert!(!behind.is_up_to_date);
    let fresh = submodule_info(s("lib"), s("vendor/lib"), None, Some(s("abc")), Some(s("abc")), false);
    assert!(!fresh.is_up_to_date);
    assert_eq!(submodules::add_args("https://x/y.git", "vendor/y"), strings(&["submodule", "add", "https://x/y.git", "vendor/y"]));
    assert_eq!(update_args(true, true), strings(&["submodule", "update", "--init", "--recursive"]));
    assert_eq!(update_args(false, false), strings(&["submodule", "update"]));
    assert_eq!(sync_args(), strings(&["submodule", "sync", "--recursive"]));
    assert_eq!(deinit_args("vendor/y", true), strings(&["submodule", "deinit", "--force", "vendor/y"]));
}

#[test]
fn remote_commands_and_failure_messages() {
    assert_eq!(fetch_args("origin"), strings(&["fetch", "origin"]));
    assert_eq!(pull_args("origin"), strings(&["pull", "--ff-only", "origin"]));
    assert_eq!(push_args("origin", "main"), strings(&["push", "-u", "origin", "main"]));
    assert_eq!(git_failure_message(&strings(&["pull", "--ff-only", "origin"]), "  \n"), "git pull --ff-only origin falló");
    assert_eq!(
        git_failure_message(&strings(&["push"]), "fatal: not possible to fast-forward\n"),
        "fatal: not possible to fast-forward"
    );
    let r = remote_info(s("origin"), None);
    assert_eq!(r.name, "origin");
    assert_eq!(r.url, "");
}

#[test]
fn stash_message_defaults_to_wip() {
    assert_eq!(stash_message(None), "WIP");
    assert_eq!(stash_message(Some(s("half done"))), "half done");
}

#[test]
fn commit_is_refused_when_nothing_is_staged() {
    assert_eq!(commit_check(Some(s("t1")), &s("t1"), false), Err(s("No hay cambios en stage para commitear")));
    assert_eq!(commit_check(Some(s("t1")), &s("t2"), false), Ok(()));
    assert_eq!(commit_check(None, &s("t"), true), Err(s("El área de stage está vacía")));
    assert_eq!(commit_check(None, &s("t"), false), Ok(()));
    assert!(stage_action(true) == StageAction::Add);
    assert!(stage_action(false) == StageAction::Remove);
    assert!(unstage_action(true) == UnstageAction::ResetToHead);
    assert!(unstage_action(false) == UnstageAction::RemoveFromIndex);
}

#[test]
fn repository_info_and_status() {
    let info = repo_info(s("/work/my-repo"), HeadState::Branch(Some(s("main"))));
    assert_eq!(info.name, "my-repo");
    assert_eq!(info.current_branch, "main");
    assert_eq!(current_branch_name(HeadState::Detached), "(detached HEAD)");
    assert_eq!(current_branch_name(HeadState::Missing), "(no commits yet)");
    assert_eq!(current_branch_name(HeadState::Branch(None)), "(unknown)");

    let mut both = no_flags();
    both.index_modified = true;
    both.wt_modified = true;
    let mut untracked = no_flags();
    untracked.wt_new = true;
    assert_eq!(index_status_label(both), "modified");
    assert_eq!(worktree_status_label(untracked), "untracked");
    let st = repo_status(
        vec![
            StatusEntry { path: Some(s("a.txt")), flags: both },
            StatusEntry { path: Some(s("new.txt")), flags: untracked },
        ],
        Some((2, 1)),
    );
    assert!(!st.is_clean);
    assert_eq!(st.ahead, 2);
    assert_eq!(st.behind, 1);
    assert_eq!(st.changes.len(), 3);
    assert_eq!(st.changes[0].path, "a.txt");
    assert!(st.changes[0].staged);
    assert!(!st.changes[1].staged);
    assert_eq!(st.changes[2].status, "untracked");
    let clean = repo_status(vec![], None);
    assert!(clean.is_clean);
    assert_eq!(clean.ahead, 0);
}

#[test]
fn uncommitted_changes_block_but_untracked_files_do_not() {
    let mut untracked = no_flags();
    untracked.wt_new = true;
    assert_eq!(ensure_clean_workdir(&vec![untracked]), Ok(()));
    let mut modified = no_flags();
    modified.wt_modified = true;
    let err = ensure_clean_workdir(&vec![untracked, modified]).unwrap_err();
    assert!(err.contains("sin commitear"));
    let mut staged = no_flags();
    staged.index_new = true;
    assert!(ensure_clean_workdir(&vec![staged]).is_err());
}

#[test]
fn branches_are_sorted_and_remote_branches_marked_when_tracked_locally() {
    let list = list_branches(vec![
        LocalBranch { name: Some(s("zeta")), is_head: false, upstream: None },
        LocalBranch { name: Some(s("main")), is_head: true, upstream: Some(s("origin/main")) },
        LocalBranch { name: Some(s("feature-x")), is_head: false, upstream: None },
    ]);
    let names: Vec<&str> = list.iter().map(|b| b.name.as_str()).collect();
    assert_eq!(names, vec!["feature-x", "main", "zeta"]);
    assert!(list[1].is_head);
    assert_eq!(list[1].upstream, Some(s("origin/main")));

    let remotes = list_remote_branches(
        &vec![
            RemoteBranchRaw { symbolic: true, name: Some(s("origin/HEAD")) },
            RemoteBranchRaw { symbolic: false, name: Some(s("origin/main")) },
            RemoteBranchRaw { symbolic: false, name: Some(s("origin/feature/deep")) },
            RemoteBranchRaw { symbolic: false, name: Some(s("noslash")) },
        ],
        &strings(&["main"]),
    );
    assert_eq!(remotes.len(), 2);
    assert_eq!(remotes[0].name, "origin/feature/deep");
    assert_eq!(remotes[0].remote, "origin");
    assert_eq!(remotes[0].branch, "feature/deep");
    assert!(!remotes[0].has_local);
    assert_eq!(remotes[1].branch, "main");
    assert!(remotes[1].has_local);
    assert_eq!(local_branch_ref("main"), "refs/heads/main");
}

#[test]
fn branch_deletion_rules() {
    assert_eq!(delete_check("main", true, true, None, None, false), Err(s("No puedes eliminar la rama actual")));
    let err = delete_check("feature-x", false, false, Some(s("h")), Some(s("b")), false).unwrap_err();
    assert!(err.contains("sin fusionar"));
    assert_eq!(delete_check("feature-x", false, true, Some(s("h")), Some(s("b")), false), Ok(()));
    assert_eq!(delete_check("feature-x", false, false, Some(s("h")), Some(s("b")), true), Ok(()));
    assert_eq!(delete_check("feature-x", false, false, Some(s("h")), Some(s("h")), false), Ok(()));
}

#[test]
fn log_entries_carry_short_sha_and_refs_pointing_at_them() {
    let refs = vec![
        RefRecord { listed: true, target: Some(s("0123456789abc")), shorthand: Some(s("main")) },
        RefRecord { listed: true, target: Some(s("fff")), shorthand: Some(s("other")) },
        RefRecord { listed: false, target: Some(s("0123456789abc")), shorthand: Some(s("notes")) },
        RefRecord { listed: true, target: Some(s("0123456789abc")), shorthand: Some(s("v1.0")) },
    ];
    assert_eq!(refs_at("0123456789abc", &refs), strings(&["main", "v1.0"]));
    let c = commit_info(s("0123456789abc"), Some(s("init")), None, Some(s("a@b")), 42, strings(&["p1"]), &refs);
    assert_eq!(c.short_sha, "0123456");
    assert_eq!(c.summary, "init");
    assert_eq!(c.author_name, "");
    assert_eq!(c.author_email, "a@b");
    assert_eq!(c.timestamp, 42);
    assert_eq!(c.parents, strings(&["p1"]));
    assert_eq!(c.refs, strings(&["main", "v1.0"]));
}

#[test]
fn diff_lines_hunks_and_files() {
    let l = diff_line('+', "added line\r\n", None, Some(3));
    assert_eq!(l.content, "added line");
    assert_eq!(l.new_lineno, Some(3));
    let h = diff_hunk("@@ -1,2 +1,3 @@\n", vec![l]);
    assert_eq!(h.header, "@@ -1,2 +1,3 @@");
    let renamed = file_diff(Some(s("new.rs")), Some(s("old.rs")), DeltaKind::Renamed, false, false, vec![h]);
    assert_eq!(renamed.path, "new.rs");
    assert_eq!(renamed.old_path, Some(s("old.rs")));
    assert_eq!(renamed.status, "renamed");
    assert_eq!(renamed.hunks.len(), 1);
    let same = file_diff(Some(s("a")), Some(s("a")), DeltaKind::Modified, false, true, vec![]);
    assert_eq!(same.old_path, None);
    assert!(same.is_binary);
    let deleted = file_diff(None, Some(s("gone")), DeltaKind::Deleted, false, false, vec![]);
    assert_eq!(deleted.path, "gone");
    assert_eq!(status_label(DeltaKind::Untracked), "untracked");
    assert_eq!(status_label(DeltaKind::Conflicted), "modified");
    assert_eq!(first_file_diff(vec![]).err(), Some(s("Sin cambios para este archivo")));
    assert_eq!(first_file_diff(vec![deleted]).unwrap().path, "gone");
}

#[test]
fn conflicts_are_listed_once_in_first_seen_order() {
    let side = |p: &str| Some(Some(s(p)));
    let list = collect_conflicts(&vec![
        ConflictSides { our: side("a.txt"), their: side("a.txt"), ancestor: None },
        ConflictSides { our: None, their: side("b.txt"), ancestor: side("b.txt") },
        ConflictSides { our: side("a.txt"), their: None, ancestor: None },
        ConflictSides { our: None, their: None, ancestor: side("c.txt") },
        ConflictSides { our: Some(None), their: side("d.txt"), ancestor: None },
    ]);
    assert_eq!(list, strings(&["a.txt", "b.txt", "c.txt"]));
}

#[test]
fn operation_status_prefers_a_paused_interactive_rebase() {
    let st = operation_status(Some(s("conflict")), RepoState::Clean, None, strings(&["x"]));
    assert_eq!(st.kind, "rebase");
    assert_eq!(st.paused_reason, Some(s("conflict")));
    assert_eq!(st.conflicts, strings(&["x"]));
    let st = operation_status(None, RepoState::CherryPick, Some(s("msg")), vec![]);
    assert_eq!(st.kind, "cherrypick");
    assert_eq!(st.message, "msg");
    assert_eq!(operation_kind(RepoState::RebaseInteractive), "rebase");
    assert_eq!(operation_kind(RepoState::Clean), "none");
    assert_eq!(operation_kind(RepoState::Bisect), "other");
}

#[test]
fn continuing_an_operation() {
    assert_eq!(continue_gate(true, true), Ok(true));
    assert_eq!(continue_gate(false, true), Err(s("Todavía hay conflictos sin resolver")));
    assert_eq!(continue_gate(false, false), Ok(false));
    assert!(finish_kind(RepoState::Merge) == Ok(FinishKind::Merge));
    assert!(finish_kind(RepoState::Revert) == Ok(FinishKind::Revert));
    assert!(finish_kind(RepoState::Rebase).is_err());
    assert_eq!(cleaned_message("Merge branch 'x'\n\n#Conflicts:\n#\ta.txt\n"), "Merge branch 'x'");
    assert_eq!(cleaned_message("# only comments\n"), "");
    assert_eq!(finish_message(FinishKind::Merge, "", None), "Merge");
    assert_eq!(finish_message(FinishKind::CherryPick, "", Some(s("picked"))), "picked");
    assert_eq!(finish_message(FinishKind::CherryPick, "", None), "cherry-pick");
    assert_eq!(finish_message(FinishKind::Revert, "kept", None), "kept");
}

#[test]
fn merge_routes_and_messages() {
    assert!(merge_route(MergeAnalysis { up_to_date: true, fast_forward: true }) == MergeRoute::UpToDate);
    assert!(merge_route(MergeAnalysis { up_to_date: false, fast_forward: true }) == MergeRoute::FastForward);
    assert!(merge_route(MergeAnalysis { up_to_date: false, fast_forward: false }) == MergeRoute::MergeCommit);
    assert_eq!(route_label(MergeRoute::FastForward), "fast-forward");
    assert_eq!(route_label(MergeRoute::MergeCommit), "merge-commit");
    assert_eq!(merge_commit_message("feature", "main", false), Ok(s("Merge branch 'feature' into main")));
    assert_eq!(
        merge_commit_message("feature", "main", true),
        Err(s("El merge de 'feature' tiene conflictos que resolver manualmente"))
    );
    assert_eq!(branch_target(None, false), Err(s("La rama no tiene commits")));
    assert_eq!(branch_target(None, true), Err(s("La rama destino no tiene commits")));
    assert_eq!(branch_target(Some(s("abc")), true), Ok(s("abc")));
    assert_eq!(cherry_pick_message(None, false), Ok(s("cherry-pick")));
    assert!(cherry_pick_message(Some(s("m")), true).is_err());
    assert_eq!(revert_message(Some(s("add a")), false), Ok(s("Revert \"add a\"")));
    assert!(revert_message(None, true).is_err());
}

#[test]
fn rebase_loop_aborts_on_failure_or_conflict_and_skips_applied_commits() {
    assert!(matches!(rebase_loop_step(RebaseLoopEvent::NextOp(None)), RebaseLoopAction::Finish));
    assert!(matches!(rebase_loop_step(RebaseLoopEvent::NextOp(Some(Ok(())))), RebaseLoopAction::CheckIndex));
    assert!(matches!(
        rebase_loop_step(RebaseLoopEvent::NextOp(Some(Err(s("bad"))))),
        RebaseLoopAction::AbortWith(m) if m == "bad"
    ));
    assert!(matches!(
        rebase_loop_step(RebaseLoopEvent::IndexChecked { has_conflicts: true }),
        RebaseLoopAction::AbortWith(m) if m.contains("conflictos")
    ));
    assert!(matches!(
        rebase_loop_step(RebaseLoopEvent::IndexChecked { has_conflicts: false }),
        RebaseLoopAction::Commit
    ));
    assert!(matches!(
        rebase_loop_step(RebaseLoopEvent::Committed(CommitOutcome::AlreadyApplied)),
        RebaseLoopAction::NextOp
    ));
    assert!(matches!(
        rebase_loop_step(RebaseLoopEvent::Committed(CommitOutcome::Failed(s("x")))),
        RebaseLoopAction::AbortWith(_)
    ));
}

#[test]
fn undo_refuses_with_uncommitted_changes() {
    let mut dirty = no_flags();
    dirty.wt_modified = true;
    let err = ensure_clean_workdir(&vec![dirty]).unwrap_err();
    assert!(err.contains("sin commitear"));
}

#[test]
fn worktree_flags_before_any_worktree_line_carry_into_the_next_entry() {
    let list = parse_worktree_list("locked\n\nworktree /r/a\nHEAD abc\n");
    assert_eq!(list.len(), 1);
    assert!(list[0].is_locked);
    assert_eq!(list[0].head, "abc");
    assert_eq!(list[0].branch, None);
}

#[test]
fn worktree_blocks_may_be_separated_by_several_blank_lines() {
    let list = parse_worktree_list("worktree /r/a\nHEAD 1\n\n\n\nworktree /r/b\nHEAD 2\nbranch refs/heads/x\ndetached\n");
    assert_eq!(list.len(), 2);
    assert_eq!(list[1].path, "/r/b");
    assert_eq!(list[1].branch, None);
    assert!(list[0].is_main && !list[1].is_main);
}

#[test]
fn branches_of_equal_names_keep_their_listed_order() {
    let list = list_branches(vec![
        LocalBranch { name: Some(s("b")), is_head: false, upstream: None },
        LocalBranch { name: None, is_head: false, upstream: Some(s("first")) },
        LocalBranch { name: Some(s("a")), is_head: true, upstream: None },
        LocalBranch { name: None, is_head: false, upstream: Some(s("second")) },
    ]);
    let names: Vec<&str> = list.iter().map(|b| b.name.as_str()).collect();
    assert_eq!(names, vec!["", "", "a", "b"]);
    assert_eq!(list[0].upstream, Some(s("first")));
    assert_eq!(list[1].upstream, Some(s("second")));
}
