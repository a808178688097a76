//! Builders for the argument lists of the git subprocess boundary: every
//! git interaction is one invocation of the form `git -C <path> <args..>`,
//! and under dry run the same argument lists are printed instead of run.

use vstd::prelude::*;
use crate::strutil::{str_to_string, strings_view};

verus! {

/// The invocation prefix that scopes git to one repository's path.
pub fn create_git_cmd(repo_path: &str) -> (r: Vec<String>)
    ensures
        strings_view(r@) == seq!["git"@, "-C"@, repo_path@],
{
    let mut r: Vec<String> = Vec::new();
    r.push(str_to_string("git"));
    r.push(str_to_string("-C"));
    r.push(str_to_string(repo_path));
    proof {
        assert(strings_view(r@) =~= seq!["git"@, "-C"@, repo_path@]);
    }
    r
}

/// The query for uncommitted changes: its output is empty exactly when the
/// working tree is clean.
pub fn status_porcelain_args() -> (r: Vec<String>)
    ensures
        strings_view(r@) == seq!["status"@, "--porcelain"@],
{
    let mut r: Vec<String> = Vec::new();
    r.push(str_to_string("status"));
    r.push(str_to_string("--porcelain"));
    proof {
        assert(strings_view(r@) =~= seq!["status"@, "--porcelain"@]);
    }
    r
}

/// The query for the URL of the `origin` remote.
pub fn get_remote_url_args() -> (r: Vec<String>)
    ensures
        strings_view(r@) == seq!["config"@, "--get"@, "remote.origin.url"@],
{
    let mut r: Vec<String> = Vec::new();
    r.push(str_to_string("config"));
    r.push(str_to_string("--get"));
    r.push(str_to_string("remote.origin.url"));
    proof {
        assert(strings_view(r@) =~= seq!["config"@, "--get"@, "remote.origin.url"@]);
    }
    r
}

/// The query for the branch the working tree stands on.
pub fn get_current_branch_args() -> (r: Vec<String>)
    ensures
        strings_view(r@) == seq!["branch"@, "--show-current"@],
{
    let mut r: Vec<String> = Vec::new();
    r.push(str_to_string("branch"));
    r.push(str_to_string("--show-current"));
    proof {
        assert(strings_view(r@) =~= seq!["branch"@, "--show-current"@]);
    }
    r
}

/// The query for the remote's symbolic HEAD reference.
pub fn symbolic_ref_args() -> (r: Vec<String>)
    ensures
        strings_view(r@) == seq!["symbolic-ref"@, "refs/remotes/origin/HEAD"@, "--short"@],
{
    let mut r: Vec<String> = Vec::new();
    r.push(str_to_string("symbolic-ref"));
    r.push(str_to_string("refs/remotes/origin/HEAD"));
    r.push(str_to_string("--short"));
    proof {
        assert(strings_view(r@) =~= seq![
            "symbolic-ref"@,
            "refs/remotes/origin/HEAD"@,
            "--short"@,
        ]);
    }
    r
}

/// The query for whether `branch` exists on the `origin` remote: its output
/// is empty exactly when the branch is absent there.
pub fn ls_remote_heads_args(branch: &str) -> (r: Vec<String>)
    ensures
        strings_view(r@) == seq!["ls-remote"@, "--heads"@, "origin"@, branch@],
{
    let mut r: Vec<String> = Vec::new();
    r.push(str_to_string("ls-remote"));
    r.push(str_to_string("--heads"));
    r.push(str_to_string("origin"));
    r.push(str_to_string(branch));
    proof {
        assert(strings_view(r@) =~= seq!["ls-remote"@, "--heads"@, "origin"@, branch@]);
    }
    r
}

} // verus!
