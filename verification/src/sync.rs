//! Clone/sync decision logic: for one repository, decide between cloning a
//! missing checkout, pulling an existing one, and leaving it alone, and lay
//! out the exact git invocations each choice runs.

use vstd::prelude::*;
use vstd::string::StrSliceExecFns;
use crate::repo::{RemoteRepository, RemoteRepositoryView};
use crate::strutil::{join_path, str_eq, str_to_string, strings_view, to_chars};

verus! {

/// The terminal outcome of one repository's clone-or-sync workflow.
#[derive(Clone, Copy, Debug, PartialEq, Eq, Structural)]
pub enum SyncOutcome {
    /// The target path was absent: the repository was cloned.
    Cloned,
    /// The target path existed and the resolved branch exists on the remote:
    /// it was checked out and pulled.
    Pulled,
    /// No branch was requested and the remote defines no HEAD branch: the
    /// repository was abandoned silently.
    SkippedNoHead,
    /// The resolved branch does not exist on the remote: the repository was
    /// left as it stands.
    SkippedNoRemoteBranch,
}

/// The URL a repository is cloned or pulled from: the ssh URL under the
/// `ssh` pull option, the http URL under any other.
pub open spec fn clone_url_of(pulloption: Seq<char>, r: RemoteRepositoryView) -> Seq<char> {
    if pulloption == "ssh"@ {
        r.ssh_url
    } else {
        r.http_url
    }
}

/// Picks the clone URL a profile's pull option selects.
pub fn get_clone_url<'a>(pulloption: &str, repo: &'a RemoteRepository) -> (r: &'a str)
    ensures
        r@ == clone_url_of(pulloption@, repo@),
{
    if str_eq(pulloption, "ssh") {
        repo.ssh_url.as_str()
    } else {
        repo.http_url.as_str()
    }
}

/// The path a repository is cloned to: the profile's target base path with
/// the repository's full path below it.
pub fn destination_path(target_basepath: &str, full_path: &str) -> (r: String)
    ensures
        r@ == target_basepath@ + "/"@ + full_path@,
{
    join_path(target_basepath, full_path)
}

/// The arguments of the clone invocation: `clone <url> <basepath>/<dir>`,
/// with `-b <branch>` inserted immediately after `clone` exactly when a
/// branch was requested.
pub fn create_pull_request_args(
    branch: &str,
    clone_url: &str,
    target_basepath: &str,
    directory: &str,
) -> (r: Vec<String>)
    ensures
        branch@.len() == 0 ==> strings_view(r@) == seq![
            "clone"@,
            clone_url@,
            target_basepath@ + "/"@ + directory@,
        ],
        branch@.len() > 0 ==> strings_view(r@) == seq![
            "clone"@,
            "-b"@,
            branch@,
            clone_url@,
            target_basepath@ + "/"@ + directory@,
        ],
{
    let mut args: Vec<String> = Vec::new();
    args.push(str_to_string("clone"));
    if !branch.is_empty() {
        args.push(str_to_string("-b"));
        args.push(str_to_string(branch));
    }
    args.push(str_to_string(clone_url));
    args.push(join_path(target_basepath, directory));
    proof {
        if branch@.len() == 0 {
            assert(strings_view(args@) =~= seq![
                "clone"@,
                clone_url@,
                target_basepath@ + "/"@ + directory@,
            ]);
        } else {
            assert(strings_view(args@) =~= seq![
                "clone"@,
                "-b"@,
                branch@,
                clone_url@,
                target_basepath@ + "/"@ + directory@,
            ]);
        }
    }
    args
}

/// The branch acted on when syncing an existing checkout: the requested
/// branch when one was named; otherwise the remote's symbolic HEAD reference
/// with its `origin/` prefix stripped. `None` when no branch was requested
/// and no usable reference came back: the repository is then abandoned
/// silently.
pub fn get_current_pull_branch(branch: &str, symbolic_ref: Option<&str>) -> (r: Option<String>)
    ensures
        branch@.len() > 0 ==> (r matches Some(b) && b@ == branch@),
        branch@.len() == 0 ==> (match symbolic_ref {
            None => r is None,
            Some(s) => (usable_head_ref(s@) ==> (r matches Some(b) && b@ == s@.skip(7)))
                && (!usable_head_ref(s@) ==> r is None),
        }),
{
    if !branch.is_empty() {
        return Some(str_to_string(branch));
    }
    match symbolic_ref {
        None => None,
        Some(s) => strip_origin_prefix(s),
    }
}

/// The text after the `origin/` prefix, `None` when the prefix is absent.
fn strip_origin_prefix(s: &str) -> (r: Option<String>)
    ensures
        s@.len() >= 7 && s@.take(7) == "origin/"@ ==> (r matches Some(b) && b@ == s@.skip(7)),
        !(s@.len() >= 7 && s@.take(7) == "origin/"@) ==> r is None,
{
    proof {
        reveal_strlit("origin/");
    }
    let cs = to_chars(s);
    if cs.len() < 7 {
        return None;
    }
    let matched = cs[0] == 'o' && cs[1] == 'r' && cs[2] == 'i' && cs[3] == 'g' && cs[4] == 'i'
        && cs[5] == 'n' && cs[6] == '/';
    proof {
        if matched {
            assert(s@.take(7) =~= "origin/"@);
        }
        if s@.take(7) == "origin/"@ {
            assert(s@.take(7)[0] == s@[0] && "origin/"@[0] == 'o');
            assert(s@.take(7)[1] == s@[1] && "origin/"@[1] == 'r');
            assert(s@.take(7)[2] == s@[2] && "origin/"@[2] == 'i');
            assert(s@.take(7)[3] == s@[3] && "origin/"@[3] == 'g');
            assert(s@.take(7)[4] == s@[4] && "origin/"@[4] == 'i');
            assert(s@.take(7)[5] == s@[5] && "origin/"@[5] == 'n');
            assert(s@.take(7)[6] == s@[6] && "origin/"@[6] == '/');
        }
    }
    if matched {
        let n = s.unicode_len();
        let rest = s.substring_char(7, n);
        Some(str_to_string(rest))
    } else {
        None
    }
}

/// The git invocations that sync an existing checkout once its branch is
/// known to exist on the remote: a checkout of that branch, then a plain
/// pull. `None` when the remote-heads query came back empty: the branch is
/// local-only and the repository is left as it stands.
pub fn pull(branch: &str, ls_remote_output: &str) -> (r: Option<(Vec<String>, Vec<String>)>)
    ensures
        ls_remote_output@.len() == 0 ==> r is None,
        ls_remote_output@.len() > 0 ==> (r matches Some(cmds) && strings_view(cmds.0@) == seq![
            "checkout"@,
            branch@,
        ] && strings_view(cmds.1@) == seq!["pull"@]),
{
    if ls_remote_output.is_empty() {
        return None;
    }
    let mut checkout: Vec<String> = Vec::new();
    checkout.push(str_to_string("checkout"));
    checkout.push(str_to_string(branch));
    let mut plain_pull: Vec<String> = Vec::new();
    plain_pull.push(str_to_string("pull"));
    proof {
        assert(strings_view(checkout@) =~= seq!["checkout"@, branch@]);
        assert(strings_view(plain_pull@) =~= seq!["pull"@]);
    }
    Some((checkout, plain_pull))
}

/// Whether a symbolic HEAD reference yields a branch: it must carry the
/// `origin/` prefix.
pub open spec fn usable_head_ref(s: Seq<char>) -> bool {
    s.len() >= 7 && s.take(7) == "origin/"@
}

/// The terminal outcome one repository's clone-or-sync workflow reaches,
/// given what the filesystem and git would answer: an absent target is
/// always cloned; an existing one is pulled on the resolved branch, skipped
/// when no branch resolves, and skipped when the branch is absent from the
/// remote.
pub fn sync_outcome(
    target_exists: bool,
    requested_branch: &str,
    symbolic_ref: Option<&str>,
    remote_branch_exists: bool,
) -> (r: SyncOutcome)
    ensures
        !target_exists ==> r == SyncOutcome::Cloned,
        target_exists && requested_branch@.len() == 0 && (match symbolic_ref {
            None => true,
            Some(s) => !usable_head_ref(s@),
        }) ==> r == SyncOutcome::SkippedNoHead,
        target_exists && (requested_branch@.len() > 0 || (symbolic_ref matches Some(s)
            && usable_head_ref(s@))) ==> (if remote_branch_exists {
            r == SyncOutcome::Pulled
        } else {
            r == SyncOutcome::SkippedNoRemoteBranch
        }),
{
    if !target_exists {
        return SyncOutcome::Cloned;
    }
    match get_current_pull_branch(requested_branch, symbolic_ref) {
        None => SyncOutcome::SkippedNoHead,
        Some(_) => {
            if remote_branch_exists {
                SyncOutcome::Pulled
            } else {
                SyncOutcome::SkippedNoRemoteBranch
            }
        },
    }
}

} // verus!
