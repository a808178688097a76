//! The work distribution engine's assignment rule: items are dealt to a
//! fixed set of workers by static round robin, each worker owning the item
//! indices congruent to its id. The caller runs one worker per slice and
//! gathers results as they arrive; arrival order carries no meaning.

use vstd::prelude::*;

verus! {

/// The item indices worker `thread_id` owns out of `len` items dealt to
/// `num_threads` workers: exactly those congruent to `thread_id`, in
/// increasing order.
pub fn worker_slice(thread_id: usize, num_threads: usize, len: usize) -> (r: Vec<usize>)
    requires
        0 < num_threads,
        thread_id < num_threads,
    ensures
        forall|j: int|
            0 <= j < r@.len() ==> (#[trigger] r@[j]) < len && r@[j] % num_threads == thread_id,
        forall|j: int| 0 <= j && j + 1 < r@.len() ==> #[trigger] r@[j] < r@[j + 1],
        forall|idx: usize| (r@.contains(idx) <==> idx < len && idx % num_threads == thread_id),
{
    let mut r: Vec<usize> = Vec::new();
    let mut i: usize = 0;
    while i < len
        invariant
            0 < num_threads,
            thread_id < num_threads,
            i <= len,
            forall|j: int|
                0 <= j < r@.len() ==> (#[trigger] r@[j]) < i && r@[j] % num_threads == thread_id,
            forall|j: int| 0 <= j && j + 1 < r@.len() ==> #[trigger] r@[j] < r@[j + 1],
            forall|idx: usize| (r@.contains(idx) <==> idx < i && idx % num_threads == thread_id),
        decreases len - i,
    {
        if i % num_threads == thread_id {
            let ghost pre = r@;
            r.push(i);
            proof {
                assert forall|j: int| 0 <= j && j + 1 < r@.len() implies #[trigger] r@[j] < r@[j
                    + 1] by {
                    if j + 1 < pre.len() {
                        assert(pre[j] < pre[j + 1]);
                    } else {
                        assert(r@[j] == pre[j]);
                        assert(pre[j] < i);
                    }
                }
                assert forall|idx: usize| r@.contains(idx) implies idx < i + 1 && idx
                    % num_threads == thread_id by {
                    let j = choose|j: int| 0 <= j < r@.len() && r@[j] == idx;
                    if j < pre.len() {
                        assert(pre[j] == idx);
                        assert(pre.contains(idx));
                    }
                }
                assert forall|idx: usize| idx < i + 1 && idx % num_threads == thread_id implies r@
                    .contains(idx) by {
                    if idx < i {
                        assert(pre.contains(idx));
                        let j = choose|j: int| 0 <= j < pre.len() && pre[j] == idx;
                        assert(r@[j] == idx);
                    } else {
                        assert(r@[r@.len() - 1] == idx);
                    }
                }
            }
        } else {
            proof {
                assert forall|idx: usize| idx < i + 1 && idx % num_threads == thread_id implies r@
                    .contains(idx) by {
                    assert(idx != i);
                }
            }
        }
        i += 1;
    }
    r
}

} // verus!
