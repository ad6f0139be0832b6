//! Submodules: their status and the arguments of the submodule commands.
use vstd::prelude::*;
use crate::git::remotes::arg_views;
use crate::text::string_of;

verus! {

pub struct SubmoduleInfo {
    pub name: String,
    pub path: String,
    pub url: Option<String>,
    pub pinned_id: Option<String>,
    pub workdir_id: Option<String>,
    pub is_initialized: bool,
    pub is_up_to_date: bool,
}

/// A submodule's status: up to date when it is initialized, the parent
/// pins a commit, and the checked-out commit is that one.
pub fn submodule_info(
    name: String,
    path: String,
    url: Option<String>,
    pinned_id: Option<String>,
    workdir_id: Option<String>,
    is_initialized: bool,
) -> (s: SubmoduleInfo)
    ensures
        s.name == name,
        s.path == path,
        s.url == url,
        s.pinned_id == pinned_id,
        s.workdir_id == workdir_id,
        s.is_initialized == is_initialized,
        s.is_up_to_date == (is_initialized && match (pinned_id, workdir_id) {
            (Some(p), Some(w)) => p@ == w@,
            _ => false,
        }),
{
    let up_to_date = is_initialized && match (&pinned_id, &workdir_id) {
        (Some(p), Some(w)) => *p == *w,
        _ => false,
    };
    SubmoduleInfo {
        name,
        path,
        url,
        pinned_id,
        workdir_id,
        is_initialized,
        is_up_to_date: up_to_date,
    }
}

/// `git submodule add <url> <path>`.
pub fn add_args(url: &str, submodule_path: &str) -> (r: Vec<String>)
    ensures
        arg_views(r@) == seq!["submodule"@, "add"@, url@, submodule_path@],
{
    let mut v: Vec<String> = Vec::new();
    v.push(string_of("submodule"));
    v.push(string_of("add"));
    v.push(string_of(url));
    v.push(string_of(submodule_path));
    assert(arg_views(v@) =~= seq!["submodule"@, "add"@, url@, submodule_path@]);
    v
}

/// `git submodule update [--init] [--recursive]`.
pub fn update_args(init: bool, recursive: bool) -> (r: Vec<String>)
    ensures
        arg_views(r@) == seq!["submodule"@, "update"@] + (if init {
            seq!["--init"@]
        } else {
            seq![]
        }) + (if recursive {
            seq!["--recursive"@]
        } else {
            seq![]
        }),
{
    let mut v: Vec<String> = Vec::new();
    v.push(string_of("submodule"));
    v.push(string_of("update"));
    if init {
        v.push(string_of("--init"));
    }
    if recursive {
        v.push(string_of("--recursive"));
    }
    assert(arg_views(v@) =~= seq!["submodule"@, "update"@] + (if init {
        seq!["--init"@]
    } else {
        seq![]
    }) + (if recursive {
        seq!["--recursive"@]
    } else {
        seq![]
    }));
    v
}

/// `git submodule sync --recursive`.
pub fn sync_args() -> (r: Vec<String>)
    ensures
        arg_views(r@) == seq!["submodule"@, "sync"@, "--recursive"@],
{
    let mut v: Vec<String> = Vec::new();
    v.push(string_of("submodule"));
    v.push(string_of("sync"));
    v.push(string_of("--recursive"));
    assert(arg_views(v@) =~= seq!["submodule"@, "sync"@, "--recursive"@]);
    v
}

/// `git submodule deinit [--force] <path>`.
pub fn deinit_args(submodule_path: &str, force: bool) -> (r: Vec<String>)
    ensures
        arg_views(r@) == seq!["submodule"@, "deinit"@] + (if force {
            seq!["--force"@]
        } else {
            seq![]
        }) + seq![submodule_path@],
{
    let mut v: Vec<String> = Vec::new();
    v.push(string_of("submodule"));
    v.push(string_of("deinit"));
    if force {
        v.push(string_of("--force"));
    }
    v.push(string_of(submodule_path));
    assert(arg_views(v@) =~= seq!["submodule"@, "deinit"@] + (if force {
        seq!["--force"@]
    } else {
        seq![]
    }) + seq![submodule_path@]);
    v
}

} // verus!
