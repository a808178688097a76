//! The local repository locator: walking a directory tree for repository
//! roots, pruning descent below any directory that is itself a repository
//! root, and filtering the found roots by a pattern.

use vstd::prelude::*;
use crate::pattern::{pattern_compiles, regex_accepts, regex_compiles, regex_is_match};
use crate::strutil::{str_eq, str_to_string, strings_view};

verus! {

/// A directory as the walk sees it: its path, whether it holds a `.git`
/// directory as a direct child, and its subdirectories.
pub struct DirTree {
    pub path: String,
    pub has_git: bool,
    pub children: Vec<DirTree>,
}

/// The repository roots the walk reports from this subtree, in depth-first
/// order: a directory holding `.git` is reported and its subtree is pruned;
/// any other directory is descended into.
pub open spec fn repo_roots(t: DirTree) -> Seq<Seq<char>>
    decreases t,
{
    if t.has_git {
        seq![t.path@]
    } else {
        forest_roots(t.children@)
    }
}

/// The repository roots of a sequence of sibling subtrees, in order.
pub open spec fn forest_roots(ts: Seq<DirTree>) -> Seq<Seq<char>>
    decreases ts,
{
    if ts.len() == 0 {
        Seq::empty()
    } else {
        repo_roots(ts.first()) + forest_roots(ts.drop_first())
    }
}

/// A path is a top-level repository root of `t`: it names a directory that
/// holds `.git` and stands above every other `.git` directory on its branch.
pub open spec fn is_top_repo_path(t: DirTree, p: Seq<char>) -> bool
    decreases t,
{
    if t.has_git {
        p == t.path@
    } else {
        exists|i: int| 0 <= i < t.children@.len() && is_top_repo_path(#[trigger] t.children@[i], p)
    }
}

/// The same, over sibling subtrees.
pub open spec fn is_forest_repo_path(ts: Seq<DirTree>, p: Seq<char>) -> bool {
    exists|i: int| 0 <= i < ts.len() && is_top_repo_path(#[trigger] ts[i], p)
}

/// Membership in the forest's roots is membership in one subtree's roots.
proof fn lemma_forest_roots_membership(ts: Seq<DirTree>, p: Seq<char>)
    ensures
        forest_roots(ts).contains(p) <==> is_forest_repo_path(ts, p),
    decreases ts,
{
    if ts.len() > 0 {
        lemma_repo_roots_membership(ts.first(), p);
        lemma_forest_roots_membership(ts.drop_first(), p);
        let head = repo_roots(ts.first());
        let tail = forest_roots(ts.drop_first());
        if forest_roots(ts).contains(p) {
            let i = choose|i: int| 0 <= i < forest_roots(ts).len() && forest_roots(ts)[i] == p;
            if i < head.len() {
                assert(head[i] == p);
                assert(is_top_repo_path(ts[0], p));
            } else {
                assert(tail[i - head.len()] == p);
                assert(tail.contains(p));
                let j = choose|j: int|
                    0 <= j < ts.drop_first().len() && is_top_repo_path(
                        #[trigger] ts.drop_first()[j],
                        p,
                    );
                assert(is_top_repo_path(ts[j + 1], p));
            }
        }
        if is_forest_repo_path(ts, p) {
            let i = choose|i: int| 0 <= i < ts.len() && is_top_repo_path(#[trigger] ts[i], p);
            if i == 0 {
                assert(head.contains(p));
                let l = choose|l: int| 0 <= l < head.len() && head[l] == p;
                assert(forest_roots(ts)[l] == p);
            } else {
                assert(is_top_repo_path(ts.drop_first()[i - 1], p));
                assert(is_forest_repo_path(ts.drop_first(), p));
                assert(tail.contains(p));
                let l = choose|l: int| 0 <= l < tail.len() && tail[l] == p;
                assert(forest_roots(ts)[head.len() + l] == p);
            }
        }
    }
}

/// Prune invariant: the walk reports a path exactly when it names a
/// repository root none of whose ancestors is itself a repository root. In
/// particular, a repository nested inside another repository is never
/// reported: below a directory that holds `.git`, no further path is looked
/// at.
pub proof fn lemma_repo_roots_membership(t: DirTree, p: Seq<char>)
    ensures
        repo_roots(t).contains(p) <==> is_top_repo_path(t, p),
    decreases t,
{
    if t.has_git {
        if p == t.path@ {
            assert(repo_roots(t)[0] == p);
        }
    } else {
        lemma_forest_roots_membership(t.children@, p);
    }
}

/// The roots of `ps` whose text is matched by the pattern, flipped by
/// `reverse`, in order.
pub open spec fn matching_paths(pattern: Seq<char>, reverse: bool, ps: Seq<Seq<char>>) -> Seq<
    Seq<char>,
>
    decreases ps.len(),
{
    if ps.len() == 0 {
        Seq::empty()
    } else {
        let rest = matching_paths(pattern, reverse, ps.drop_last());
        if regex_accepts(pattern, ps.last()) ^ reverse {
            rest.push(ps.last())
        } else {
            rest
        }
    }
}

/// Splitting the roots splits their matches.
proof fn lemma_matching_paths_concat(pattern: Seq<char>, reverse: bool, a: Seq<Seq<char>>, b: Seq<
    Seq<char>,
>)
    ensures
        matching_paths(pattern, reverse, a + b) == matching_paths(pattern, reverse, a)
            + matching_paths(pattern, reverse, b),
    decreases b.len(),
{
    if b.len() == 0 {
        assert(a + b =~= a);
        assert(matching_paths(pattern, reverse, a) + matching_paths(pattern, reverse, b)
            =~= matching_paths(pattern, reverse, a));
    } else {
        lemma_matching_paths_concat(pattern, reverse, a, b.drop_last());
        assert((a + b).drop_last() =~= a + b.drop_last());
        assert((a + b).last() == b.last());
    }
}

/// A path is among the matches exactly when it is among the roots and the
/// pattern accepts it, flipped by `reverse`.
pub proof fn lemma_matching_paths_iff(
    pattern: Seq<char>,
    reverse: bool,
    ps: Seq<Seq<char>>,
    p: Seq<char>,
)
    ensures
        matching_paths(pattern, reverse, ps).contains(p) <==> ps.contains(p) && (regex_accepts(
            pattern,
            p,
        ) ^ reverse),
    decreases ps.len(),
{
    if ps.len() > 0 {
        lemma_matching_paths_iff(pattern, reverse, ps.drop_last(), p);
        let sel = matching_paths(pattern, reverse, ps);
        let rest = matching_paths(pattern, reverse, ps.drop_last());
        if ps.contains(p) && (regex_accepts(pattern, p) ^ reverse) {
            if p == ps.last() {
                assert(sel[sel.len() - 1] == p);
            } else {
                let i = choose|i: int| 0 <= i < ps.len() && ps[i] == p;
                assert(ps.drop_last()[i] == p);
                assert(rest.contains(p));
                let j = choose|j: int| 0 <= j < rest.len() && rest[j] == p;
                assert(sel[j] == p);
            }
        }
        if sel.contains(p) {
            let j = choose|j: int| 0 <= j < sel.len() && sel[j] == p;
            if j < rest.len() {
                assert(rest[j] == p);
                if ps.drop_last().contains(p) {
                    let i = choose|i: int|
                        0 <= i < ps.drop_last().len() && ps.drop_last()[i] == p;
                    assert(ps[i] == p);
                }
            } else {
                assert(ps[ps.len() - 1] == ps.last());
            }
        }
    }
}

/// The locator's whole answer, by membership: a path is reported exactly
/// when it names a repository root standing above every other `.git`
/// directory on its branch and the pattern accepts it, flipped by `reverse`.
/// A root nested inside another repository is never reported.
pub proof fn lemma_located_membership(pattern: Seq<char>, reverse: bool, t: DirTree, p: Seq<char>)
    ensures
        matching_paths(pattern, reverse, repo_roots(t)).contains(p) <==> is_top_repo_path(t, p)
            && (regex_accepts(pattern, p) ^ reverse),
{
    lemma_matching_paths_iff(pattern, reverse, repo_roots(t), p);
    lemma_repo_roots_membership(t, p);
}

/// The literal pattern that turns recursive search off: the locator then
/// reports the root directory itself and walks nothing.
pub fn no_recurse_pattern() -> (r: &'static str)
    ensures
        r@ == "."@,
{
    "."
}

/// Walks the tree for repository roots matched by `pattern` (flipped by
/// `reverse`), pruning below every root found. The literal pattern `.`
/// reports the root directory alone, without a walk. `None` exactly when a
/// walk is wanted but the pattern does not compile; the original treats that
/// as a fatal input error.
pub fn find_git_repos(root: &DirTree, pattern: &str, reverse: bool) -> (r: Option<Vec<String>>)
    ensures
        pattern@ == "."@ ==> (r matches Some(out) && strings_view(out@) == seq![root.path@]),
        pattern@ != "."@ ==> {
            &&& r is Some <==> regex_compiles(pattern@)
            &&& (r matches Some(out) ==> strings_view(out@) == matching_paths(
                pattern@,
                reverse,
                repo_roots(*root),
            ))
        },
{
    if str_eq(pattern, no_recurse_pattern()) {
        let mut out: Vec<String> = Vec::new();
        out.push(str_to_string(root.path.as_str()));
        proof {
            assert(strings_view(out@) =~= seq![root.path@]);
        }
        return Some(out);
    }
    if !pattern_compiles(pattern) {
        return None;
    }
    let mut out: Vec<String> = Vec::new();
    proof {
        assert(strings_view(out@) =~= Seq::<Seq<char>>::empty());
    }
    locate_into(root, pattern, reverse, &mut out);
    proof {
        assert(Seq::<Seq<char>>::empty() + matching_paths(pattern@, reverse, repo_roots(*root))
            =~= matching_paths(pattern@, reverse, repo_roots(*root)));
    }
    Some(out)
}

/// Appends to `out` the matching repository roots of `t`, in walk order.
fn locate_into(t: &DirTree, pattern: &str, reverse: bool, out: &mut Vec<String>)
    requires
        regex_compiles(pattern@),
    ensures
        strings_view(final (out)@) == strings_view(old(out)@) + matching_paths(
            pattern@,
            reverse,
            repo_roots(*t),
        ),
    decreases *t,
{
    if t.has_git {
        let selected = regex_is_match(pattern, t.path.as_str()).unwrap() ^ reverse;
        proof {
            let e = Seq::<Seq<char>>::empty();
            assert(seq![t.path@].drop_last() =~= e);
            assert(seq![t.path@].last() == t.path@);
            assert(matching_paths(pattern@, reverse, e) =~= e);
            assert(repo_roots(*t) == seq![t.path@]);
            if regex_accepts(pattern@, t.path@) ^ reverse {
                assert(matching_paths(pattern@, reverse, seq![t.path@]) =~= e.push(t.path@));
            } else {
                assert(matching_paths(pattern@, reverse, seq![t.path@]) =~= e);
            }
        }
        if selected {
            out.push(str_to_string(t.path.as_str()));
            proof {
                assert(strings_view(out@) =~= strings_view(old(out)@) + matching_paths(
                    pattern@,
                    reverse,
                    repo_roots(*t),
                ));
            }
        } else {
            proof {
                assert(strings_view(out@) =~= strings_view(old(out)@) + matching_paths(
                    pattern@,
                    reverse,
                    repo_roots(*t),
                ));
            }
        }
    } else {
        let ghost entry = out@;
        let n = t.children.len();
        let mut i: usize = 0;
        proof {
            assert(t.children@.take(0) =~= Seq::<DirTree>::empty());
            assert(strings_view(out@) =~= strings_view(entry) + matching_paths(
                pattern@,
                reverse,
                forest_roots(t.children@.take(0)),
            ));
        }
        while i < n
            invariant
                regex_compiles(pattern@),
                n == t.children@.len(),
                i <= n,
                strings_view(out@) == strings_view(entry) + matching_paths(
                    pattern@,
                    reverse,
                    forest_roots(t.children@.take(i as int)),
                ),
            decreases n - i,
        {
            locate_into(&t.children[i], pattern, reverse, out);
            proof {
                lemma_forest_roots_push(t.children@.take(i as int), t.children@[i as int]);
                assert(t.children@.take(i + 1 as int) =~= t.children@.take(i as int).push(
                    t.children@[i as int],
                ));
                lemma_matching_paths_concat(
                    pattern@,
                    reverse,
                    forest_roots(t.children@.take(i as int)),
                    repo_roots(t.children@[i as int]),
                );
            }
            i += 1;
        }
        proof {
            assert(t.children@.take(n as int) =~= t.children@);
        }
    }
}

/// Walking one more sibling appends its roots.
proof fn lemma_forest_roots_push(ts: Seq<DirTree>, t: DirTree)
    ensures
        forest_roots(ts.push(t)) == forest_roots(ts) + repo_roots(t),
    decreases ts,
{
    if ts.len() == 0 {
        assert(ts.push(t).first() == t);
        assert(ts.push(t).drop_first() =~= Seq::<DirTree>::empty());
        assert(forest_roots(Seq::<DirTree>::empty()) =~= Seq::<Seq<char>>::empty());
        assert(forest_roots(ts.push(t)) == repo_roots(ts.push(t).first()) + forest_roots(
            ts.push(t).drop_first(),
        ));
        assert(forest_roots(ts.push(t)) =~~= repo_roots(t));
        assert(forest_roots(ts) + repo_roots(t) =~~= repo_roots(t));
    } else {
        lemma_forest_roots_push(ts.drop_first(), t);
        assert(ts.push(t).drop_first() =~= ts.drop_first().push(t));
        assert(ts.push(t).first() == ts.first());
        assert(forest_roots(ts) + repo_roots(t) =~~= repo_roots(ts.first()) + (forest_roots(
            ts.drop_first(),
        ) + repo_roots(t)));
    }
}

} // verus!
