# stash_core

The verified core of Stash, a desktop git client: everything the client
decides, parses or computes, written in Verus with contracts that state what
each function returns and laws that relate the functions to each other.

## Layout

- `src/text.rs`, `src/sort.rs`, `src/paths.rs`: the string, ordering and path
  operations the rest is specified with (`str::trim`, `str::lines`,
  `split_whitespace`, `parse::<i64>`, `Path::file_name`, ...).
- `src/remote.rs`: recognition of hosted remote URLs (scp-like, `ssh://`,
  `https://`, `http://`, with or without `.git`).
- `src/providers/`: GitHub, GitLab and Bitbucket pull requests — which
  provider a remote belongs to, credentials, endpoints, the normalization of
  each API's objects, and the errors shown for failed calls.
- `src/github.rs`: the repository view's GitHub status.
- `src/git/`: the decisions behind the repository commands — status,
  branches, log, diffs, conflicts, merge/cherry-pick/revert/rebase, the
  interactive rebase state machine, undo/redo, stashes, remotes, submodules,
  worktrees and Git LFS.
- `src/workspace.rs`, `src/watcher.rs`, `src/terminal.rs`: the list of known
  repositories, which `.git` changes call for a refresh, and the embedded
  terminal's framing of shell output.
- `app/`: the commands around the core — libgit2, the `git` binary, the OS
  credential store, HTTP, the pseudo-terminal and the file watcher.
- `tests/`: tests of the library on concrete values.
