//! Verified core of the Stash git client: remote-URL recognition, credential
//! packing, provider response normalization, repository-list bookkeeping,
//! parsers for git's porcelain outputs and the decision logic behind the
//! repository commands. The I/O around them (libgit2, the `git` binary, the
//! OS credential store, HTTP, the terminal) lives in the application crate.
pub mod text;
pub mod sort;
pub mod remote;
pub mod providers;
pub mod paths;
pub mod workspace;
pub mod watcher;
pub mod github;
pub mod git;
pub mod terminal;
