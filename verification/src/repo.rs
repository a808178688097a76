//! The repository data model: the normalized record every provider kind
//! produces, the two provider-shaped decode records, and the regex filter
//! that picks the repositories an operation acts on.

use vstd::prelude::*;
use crate::pattern::{regex_accepts, regex_compiles, regex_is_match};

verus! {

/// A repository as reported by a hosted provider, normalized to the shape
/// every provider kind shares. Its identity is `full_path`.
#[derive(Clone, Debug)]
pub struct RemoteRepository {
    pub ssh_url: String,
    pub http_url: String,
    pub full_path: String,
}

/// The mathematical value of a `RemoteRepository`: its three texts.
pub struct RemoteRepositoryView {
    pub ssh_url: Seq<char>,
    pub http_url: Seq<char>,
    pub full_path: Seq<char>,
}

impl View for RemoteRepository {
    type V = RemoteRepositoryView;

    open spec fn view(&self) -> RemoteRepositoryView {
        RemoteRepositoryView {
            ssh_url: self.ssh_url@,
            http_url: self.http_url@,
            full_path: self.full_path@,
        }
    }
}

impl RemoteRepository {
    pub fn new(ssh_url: String, http_url: String, full_path: String) -> (r: RemoteRepository)
        ensures
            r@.ssh_url == ssh_url@,
            r@.http_url == http_url@,
            r@.full_path == full_path@,
    {
        RemoteRepository { ssh_url, http_url, full_path }
    }

    /// A copy equal to this record.
    pub fn duplicate(&self) -> (r: RemoteRepository)
        ensures
            r == *self,
    {
        RemoteRepository {
            ssh_url: self.ssh_url.clone(),
            http_url: self.http_url.clone(),
            full_path: self.full_path.clone(),
        }
    }
}

/// A repository record as a GitHub-shaped response names its fields.
pub struct GithubRepo {
    pub ssh_url: String,
    pub clone_url: String,
    pub full_name: String,
}

impl GithubRepo {
    pub fn ssh_url(&self) -> (r: &str)
        ensures
            r@ == self.ssh_url@,
    {
        self.ssh_url.as_str()
    }

    pub fn http_url(&self) -> (r: &str)
        ensures
            r@ == self.clone_url@,
    {
        self.clone_url.as_str()
    }

    pub fn full_path(&self) -> (r: &str)
        ensures
            r@ == self.full_name@,
    {
        self.full_name.as_str()
    }

    /// The normalized record this response record stands for.
    pub fn into_remote(self) -> (r: RemoteRepository)
        ensures
            r@.ssh_url == self.ssh_url@,
            r@.http_url == self.clone_url@,
            r@.full_path == self.full_name@,
    {
        RemoteRepository {
            ssh_url: self.ssh_url,
            http_url: self.clone_url,
            full_path: self.full_name,
        }
    }
}

/// A repository record as a GitLab-shaped response names its fields.
pub struct GitlabRepo {
    pub ssh_url_to_repo: String,
    pub http_url_to_repo: String,
    pub path_with_namespace: String,
}

impl GitlabRepo {
    pub fn ssh_url(&self) -> (r: &str)
        ensures
            r@ == self.ssh_url_to_repo@,
    {
        self.ssh_url_to_repo.as_str()
    }

    pub fn http_url(&self) -> (r: &str)
        ensures
            r@ == self.http_url_to_repo@,
    {
        self.http_url_to_repo.as_str()
    }

    pub fn full_path(&self) -> (r: &str)
        ensures
            r@ == self.path_with_namespace@,
    {
        self.path_with_namespace.as_str()
    }

    /// The normalized record this response record stands for.
    pub fn into_remote(self) -> (r: RemoteRepository)
        ensures
            r@.ssh_url == self.ssh_url_to_repo@,
            r@.http_url == self.http_url_to_repo@,
            r@.full_path == self.path_with_namespace@,
    {
        RemoteRepository {
            ssh_url: self.ssh_url_to_repo,
            http_url: self.http_url_to_repo,
            full_path: self.path_with_namespace,
        }
    }
}

/// A repository is selected when the pattern matches its http or ssh URL,
/// flipped by `reverse`.
pub open spec fn repo_selected(
    pattern: Seq<char>,
    reverse: bool,
    r: RemoteRepositoryView,
) -> bool {
    (regex_accepts(pattern, r.http_url) || regex_accepts(pattern, r.ssh_url)) ^ reverse
}

/// The subsequence of `rs`, in order, whose members are selected by
/// `pattern` and `reverse`.
pub open spec fn selected_repos(
    pattern: Seq<char>,
    reverse: bool,
    rs: Seq<RemoteRepository>,
) -> Seq<RemoteRepository>
    decreases rs.len(),
{
    if rs.len() == 0 {
        Seq::empty()
    } else {
        let rest = selected_repos(pattern, reverse, rs.drop_last());
        if repo_selected(pattern, reverse, rs.last()@) {
            rest.push(rs.last())
        } else {
            rest
        }
    }
}

/// A repository is in the selection exactly when it is in the input and the
/// pattern matches one of its URLs, flipped by `reverse`.
pub proof fn lemma_selected_repos_iff(
    pattern: Seq<char>,
    reverse: bool,
    rs: Seq<RemoteRepository>,
    x: RemoteRepository,
)
    ensures
        selected_repos(pattern, reverse, rs).contains(x) <==> rs.contains(x) && repo_selected(
            pattern,
            reverse,
            x@,
        ),
    decreases rs.len(),
{
    if rs.len() > 0 {
        lemma_selected_repos_iff(pattern, reverse, rs.drop_last(), x);
        let sel = selected_repos(pattern, reverse, rs);
        let rest = selected_repos(pattern, reverse, rs.drop_last());
        if rs.contains(x) && repo_selected(pattern, reverse, x@) {
            if x == rs.last() {
                assert(sel[sel.len() - 1] == x);
            } else {
                let i = choose|i: int| 0 <= i < rs.len() && rs[i] == x;
                assert(rs.drop_last()[i] == x);
                assert(rest.contains(x));
                let j = choose|j: int| 0 <= j < rest.len() && rest[j] == x;
                assert(sel[j] == x);
            }
        }
        if sel.contains(x) {
            let j = choose|j: int| 0 <= j < sel.len() && sel[j] == x;
            if j < rest.len() {
                assert(rest[j] == x);
                assert(rs.drop_last().contains(x) ==> rs.contains(x)) by {
                    if rs.drop_last().contains(x) {
                        let i = choose|i: int|
                            0 <= i < rs.drop_last().len() && rs.drop_last()[i] == x;
                        assert(rs[i] == x);
                    }
                }
            } else {
                assert(rs.contains(x)) by {
                    assert(rs[rs.len() - 1] == rs.last());
                }
            }
        }
    }
}

/// Keeps, in order, exactly the repositories selected by `pattern` and
/// `reverse`. `None` exactly when the pattern does not compile; the original
/// treats that as a fatal input error.
pub fn filter_repos(pattern: &str, reverse: bool, repos: Vec<RemoteRepository>) -> (r: Option<
    Vec<RemoteRepository>,
>)
    ensures
        r is Some <==> regex_compiles(pattern@),
        r matches Some(out) ==> out@ == selected_repos(pattern@, reverse, repos@),
{
    if !crate::pattern::pattern_compiles(pattern) {
        return None;
    }
    let mut out: Vec<RemoteRepository> = Vec::new();
    let mut i: usize = 0;
    while i < repos.len()
        invariant
            regex_compiles(pattern@),
            i <= repos@.len(),
            out@ == selected_repos(pattern@, reverse, repos@.take(i as int)),
        decreases repos@.len() - i,
    {
        let matches_http = regex_is_match(pattern, repos[i].http_url.as_str()).unwrap();
        let matches_ssh = regex_is_match(pattern, repos[i].ssh_url.as_str()).unwrap();
        let selected = (matches_http || matches_ssh) ^ reverse;
        proof {
            let x = repos@[i as int];
            assert(repos@.take(i + 1 as int).drop_last() =~= repos@.take(i as int));
            assert(repos@.take(i + 1 as int).last() == x);
            assert(selected == repo_selected(pattern@, reverse, x@));
        }
        if selected {
            out.push(repos[i].duplicate());
        }
        i += 1;
    }
    assert(repos@.take(repos@.len() as int) =~= repos@);
    Some(out)
}

} // verus!
