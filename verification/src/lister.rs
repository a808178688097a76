//! The paginated remote lister's plan and merge steps: every page of a
//! collection is fetched concurrently, so the requests are laid out ahead of
//! time and the page results are concatenated afterwards.

use vstd::prelude::*;
use crate::repo::RemoteRepository;
use crate::strutil::str_to_string;

verus! {

broadcast use vstd::prelude::Seq::lemma_flatten_push;

/// One outstanding page fetch: where to ask, with what query and headers,
/// and for which page.
pub struct PageRequest {
    pub endpoint: String,
    pub parameters: Vec<(String, String)>,
    pub headers: Vec<(String, String)>,
    pub page_number: u32,
}

/// One request per page number `1..=pages`, all sharing the endpoint, base
/// query parameters and headers. Every request is laid out before any is
/// issued; the caller fans them out concurrently.
pub fn plan_page_requests(
    pages: u32,
    endpoint: &str,
    parameters: &Vec<(String, String)>,
    headers: &Vec<(String, String)>,
) -> (r: Vec<PageRequest>)
    ensures
        r@.len() == pages as nat,
        forall|k: int|
            0 <= k < pages as int ==> {
                &&& (#[trigger] r@[k]).endpoint@ == endpoint@
                &&& r@[k].parameters@ == parameters@
                &&& r@[k].headers@ == headers@
                &&& r@[k].page_number == k + 1
            },
{
    let mut r: Vec<PageRequest> = Vec::new();
    let mut page: u32 = 0;
    while page < pages
        invariant
            page <= pages,
            r@.len() == page as nat,
            forall|k: int|
                0 <= k < page as int ==> {
                    &&& (#[trigger] r@[k]).endpoint@ == endpoint@
                    &&& r@[k].parameters@ == parameters@
                    &&& r@[k].headers@ == headers@
                    &&& r@[k].page_number == k + 1
                },
        decreases pages - page,
    {
        let req = PageRequest {
            endpoint: str_to_string(endpoint),
            parameters: dup_pairs(parameters),
            headers: dup_pairs(headers),
            page_number: page + 1,
        };
        r.push(req);
        page += 1;
    }
    r
}

/// A copy of a list of header or query pairs.
pub fn dup_pairs(v: &Vec<(String, String)>) -> (r: Vec<(String, String)>)
    ensures
        r@ == v@,
{
    let mut r: Vec<(String, String)> = Vec::new();
    let mut i: usize = 0;
    while i < v.len()
        invariant
            i <= v@.len(),
            r@ == v@.take(i as int),
        decreases v@.len() - i,
    {
        r.push((v[i].0.clone(), v[i].1.clone()));
        proof {
            assert(r@ =~= v@.take(i + 1 as int));
        }
        i += 1;
    }
    assert(v@.take(v@.len() as int) =~= v@);
    r
}

/// The page results as mathematical sequences.
pub open spec fn page_views(s: Seq<Vec<RemoteRepository>>) -> Seq<Seq<RemoteRepository>> {
    s.map_values(|v: Vec<RemoteRepository>| v@)
}

/// The sum of the page sizes.
pub open spec fn sum_page_lens(pv: Seq<Seq<RemoteRepository>>) -> nat
    decreases pv.len(),
{
    if pv.len() == 0 {
        0
    } else {
        pv.first().len() + sum_page_lens(pv.drop_first())
    }
}

/// No two members of `rs` share a `full_path`.
pub open spec fn distinct_full_paths(rs: Seq<RemoteRepository>) -> bool {
    forall|i: int, j: int|
        0 <= i < rs.len() && 0 <= j < rs.len() && i != j ==> (#[trigger] rs[i])@.full_path != (
        #[trigger] rs[j])@.full_path
}

/// No member of `a` shares a `full_path` with a member of `b`.
pub open spec fn pages_path_disjoint(a: Seq<RemoteRepository>, b: Seq<RemoteRepository>) -> bool {
    forall|i: int, j: int|
        0 <= i < a.len() && 0 <= j < b.len() ==> (#[trigger] a[i])@.full_path != (
        #[trigger] b[j])@.full_path
}

/// Concatenates the page results, in the order the pages arrived.
pub fn merge_pages(pages: Vec<Vec<RemoteRepository>>) -> (r: Vec<RemoteRepository>)
    ensures
        r@ == page_views(pages@).flatten(),
{
    let mut r: Vec<RemoteRepository> = Vec::new();
    let mut i: usize = 0;
    while i < pages.len()
        invariant
            i <= pages@.len(),
            r@ == page_views(pages@.take(i as int)).flatten(),
        decreases pages@.len() - i,
    {
        let page = &pages[i];
        let mut j: usize = 0;
        while j < page.len()
            invariant
                i < pages@.len(),
                page == &pages@[i as int],
                j <= page@.len(),
                r@ == page_views(pages@.take(i as int)).flatten() + page@.take(j as int),
            decreases page@.len() - j,
        {
            r.push(page[j].duplicate());
            proof {
                assert(page@.take(j + 1 as int) =~= page@.take(j as int).push(page@[j as int]));
                assert(r@ =~= page_views(pages@.take(i as int)).flatten() + page@.take(
                    j + 1 as int,
                ));
            }
            j += 1;
        }
        proof {
            assert(page@.take(page@.len() as int) =~= page@);
            assert(page_views(pages@.take(i + 1 as int)) =~= page_views(pages@.take(i as int)).push(
                pages@[i as int]@,
            ));
            assert(page_views(pages@.take(i as int)).push(pages@[i as int]@).flatten()
                == page_views(pages@.take(i as int)).flatten() + pages@[i as int]@);
        }
        i += 1;
    }
    proof {
        assert(pages@.take(pages@.len() as int) =~= pages@);
    }
    r
}

/// The merged listing holds as many entries as the pages hold together.
pub proof fn lemma_flatten_len(pv: Seq<Seq<RemoteRepository>>)
    ensures
        pv.flatten().len() == sum_page_lens(pv),
    decreases pv.len(),
{
    if pv.len() == 0 {
    } else {
        lemma_flatten_len(pv.drop_first());
    }
}

/// Pagination completeness: however the concurrently fetched pages arrive,
/// the merged listing holds exactly as many entries as the pages hold
/// together, and, when the provider hands out each repository on exactly one
/// page, no `full_path` appears twice in the merge. The hypotheses and the
/// conclusion are invariant under reordering the pages, so the conclusion
/// holds for every arrival order.
pub proof fn lemma_pagination_complete(pv: Seq<Seq<RemoteRepository>>)
    requires
        forall|k: int| 0 <= k < pv.len() ==> distinct_full_paths(#[trigger] pv[k]),
        forall|a: int, b: int|
            0 <= a < pv.len() && 0 <= b < pv.len() && a != b ==> pages_path_disjoint(
                #[trigger] pv[a],
                #[trigger] pv[b],
            ),
    ensures
        pv.flatten().len() == sum_page_lens(pv),
        distinct_full_paths(pv.flatten()),
    decreases pv.len(),
{
    lemma_flatten_len(pv);
    let merged = pv.flatten();
    assert forall|i: int, j: int|
        0 <= i < merged.len() && 0 <= j < merged.len() && i != j implies (
    #[trigger] merged[i])@.full_path != (#[trigger] merged[j])@.full_path by {
        lemma_flatten_source_position(pv, i);
        lemma_flatten_source_position(pv, j);
        let (ki, li) = choose|k: int, l: int|
            0 <= k < pv.len() && 0 <= l < pv[k].len() && merged[i] == #[trigger] pv[k][l]
                && flatten_prefix_len(pv, k) + l == i;
        let (kj, lj) = choose|k: int, l: int|
            0 <= k < pv.len() && 0 <= l < pv[k].len() && merged[j] == #[trigger] pv[k][l]
                && flatten_prefix_len(pv, k) + l == j;
        if ki == kj {
            assert(li != lj);
            assert(pv[ki][li]@.full_path != pv[kj][lj]@.full_path);
        } else {
            assert(pages_path_disjoint(pv[ki], pv[kj]) || pages_path_disjoint(pv[kj], pv[ki]));
            assert(pv[ki][li]@.full_path != pv[kj][lj]@.full_path);
        }
    }
}

/// The number of merged entries contributed by the pages before page `k`.
pub open spec fn flatten_prefix_len(pv: Seq<Seq<RemoteRepository>>, k: int) -> nat {
    sum_page_lens(pv.take(k))
}

/// A member of the merged listing comes from one page, at a position that
/// determines its merged index.
proof fn lemma_flatten_source_position(pv: Seq<Seq<RemoteRepository>>, i: int)
    requires
        0 <= i < pv.flatten().len(),
    ensures
        exists|k: int, l: int|
            0 <= k < pv.len() && 0 <= l < pv[k].len() && pv.flatten()[i] == #[trigger] pv[k][l]
                && flatten_prefix_len(pv, k) + l == i,
    decreases pv.len(),
{
    lemma_flatten_len(pv);
    if pv.len() == 0 {
    } else {
        let first = pv.first();
        if i < first.len() {
            assert(pv.take(0) =~= Seq::empty());
            assert(pv.flatten()[i] == pv[0][i] && flatten_prefix_len(pv, 0) + i == i);
        } else {
            let rest = pv.drop_first();
            lemma_flatten_source_position(rest, i - first.len());
            let (k, l) = choose|k: int, l: int|
                0 <= k < rest.len() && 0 <= l < rest[k].len() && rest.flatten()[i - first.len()]
                    == #[trigger] rest[k][l] && flatten_prefix_len(rest, k) + l == i - first.len();
            assert(pv.take(k + 1).drop_first() =~= rest.take(k));
            assert(flatten_prefix_len(pv, k + 1) == first.len() + flatten_prefix_len(rest, k));
            assert(pv.flatten()[i] == pv[k + 1][l] && flatten_prefix_len(pv, k + 1) + l == i);
        }
    }
}

} // verus!
