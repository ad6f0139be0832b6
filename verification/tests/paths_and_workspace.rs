use stash_core::paths::repo_name;
use stash_core::watcher::{is_relevant, should_refresh, ChangeKind};
use stash_core::workspace::{add_repo_entry, remove_repo_entry, RepoEntry};

#[test]
fn head_and_packed_refs_are_relevant() {
    assert!(is_relevant("/repo/.git/HEAD"));
    assert!(is_relevant("/repo/.git/packed-refs"));
}

#[test]
fn branch_and_remote_refs_are_relevant() {
    assert!(is_relevant("/repo/.git/refs/heads/feature-x"));
    assert!(is_relevant("/repo/.git/refs/remotes/origin/feature-x"));
}

#[test]
fn index_and_object_churn_is_not_relevant() {
    assert!(!is_relevant("/repo/.git/index"));
    assert!(!is_relevant("/repo/.git/index.lock"));
    assert!(!is_relevant("/repo/.git/objects/ab/cdef1234"));
    assert!(!is_relevant("/repo/.git/refs/tags/v1.0.0"));
}

#[test]
fn windows_separators_count_for_relevance() {
    assert!(is_relevant("C:\\repo\\.git\\refs\\heads\\main"));
    assert!(is_relevant("C:\\repo\\.git\\HEAD"));
}

#[test]
fn add_repo_entry_dedupes_by_path() {
    let mut repos = Vec::new();
    add_repo_entry(&mut repos, "C:\\repos\\one".to_string());
    add_repo_entry(&mut repos, "C:\\repos\\one".to_string());
    add_repo_entry(&mut repos, "C:\\repos\\two".to_string());

    assert_eq!(repos.len(), 2);
    assert_eq!(repos[0].name, "one");
    assert_eq!(repos[1].name, "two");
}

#[test]
fn remove_repo_entry_removes_only_the_matching_path() {
    let mut repos = vec![
        RepoEntry { path: "C:\\repos\\one".to_string(), name: "one".to_string() },
        RepoEntry { path: "C:\\repos\\two".to_string(), name: "two".to_string() },
    ];
    remove_repo_entry(&mut repos, "C:\\repos\\one");

    assert_eq!(repos.len(), 1);
    assert_eq!(repos[0].path, "C:\\repos\\two");
}

#[test]
fn remove_after_add_restores_the_list() {
    let mut repos = vec![RepoEntry { path: "/a".to_string(), name: "a".to_string() }];
    add_repo_entry(&mut repos, "/b".to_string());
    remove_repo_entry(&mut repos, "/b");
    assert_eq!(repos.len(), 1);
    assert_eq!(repos[0].path, "/a");
}

#[test]
fn repo_name_edge_cases() {
    assert_eq!(repo_name("/home/me/project/"), "project");
    assert_eq!(repo_name("C:"), "C:");
    assert_eq!(repo_name("C:\\"), "C:\\");
    assert_eq!(repo_name("C:foo"), "foo");
    assert_eq!(repo_name("C:foo\\bar"), "bar");
    assert_eq!(repo_name("\\\\server\\share"), "\\\\server\\share");
    assert_eq!(repo_name("//server/share/"), "//server/share/");
    assert_eq!(repo_name("\\\\server\\share\\repo"), "repo");
    assert_eq!(repo_name("\\\\server"), "server");
    assert_eq!(repo_name("x/C:"), "C:");
    assert_eq!(repo_name("a/.."), "a/..");
    assert_eq!(repo_name("a/./b/."), "b");
    assert_eq!(repo_name(""), "");
}

#[test]
fn only_creations_changes_and_removals_of_relevant_paths_refresh() {
    let paths = vec!["/repo/.git/index".to_string(), "/repo/.git/refs/heads/main".to_string()];
    assert!(should_refresh(ChangeKind::Modify, &paths));
    assert!(should_refresh(ChangeKind::Create, &paths));
    assert!(should_refresh(ChangeKind::Remove, &paths));
    assert!(!should_refresh(ChangeKind::Other, &paths));
    assert!(!should_refresh(ChangeKind::Modify, &vec!["/repo/.git/index".to_string()]));
    assert!(!should_refresh(ChangeKind::Modify, &vec![]));
}
