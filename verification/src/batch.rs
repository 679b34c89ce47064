//! Partitions a work list into contiguous batches: full parallelism inside
//! a batch, strict sequence across batches.

use vstd::prelude::*;

verus! {

/// The index ranges `[start, end)` of the batches of a list of `n` items
/// under batch size `size`: contiguous from `0` to `n`, every batch full
/// except possibly the last, none empty.
pub fn batch_ranges(n: usize, size: usize) -> (r: Vec<(usize, usize)>)
    requires
        size >= 1,
    ensures
        n == 0 ==> r@.len() == 0,
        n > 0 ==> r@.len() >= 1 && r@[0].0 == 0 && r@[r@.len() - 1].1 == n,
        forall|k: int| 0 <= k < r@.len() ==> (#[trigger] r@[k]).0 < r@[k].1 <= n,
        forall|k: int| 0 <= k < r@.len() - 1 ==> (#[trigger] r@[k]).1 == r@[k + 1].0,
        forall|k: int| 0 <= k < r@.len() - 1 ==> (#[trigger] r@[k]).1 - r@[k].0 == size,
        forall|k: int| 0 <= k < r@.len() ==> (#[trigger] r@[k]).1 - r@[k].0 <= size,
{
    let mut r: Vec<(usize, usize)> = Vec::new();
    let mut start: usize = 0;
    while start < n
        invariant
            size >= 1,
            start <= n,
            r@.len() == 0 ==> start == 0,
            r@.len() > 0 ==> r@[0].0 == 0 && r@[r@.len() - 1].1 == start,
            forall|k: int| 0 <= k < r@.len() ==> (#[trigger] r@[k]).0 < r@[k].1 <= n,
            forall|k: int| 0 <= k < r@.len() - 1 ==> (#[trigger] r@[k]).1 == r@[k + 1].0,
            forall|k: int| 0 <= k < r@.len() ==> (#[trigger] r@[k]).1 - r@[k].0 <= size,
            forall|k: int|
                0 <= k < r@.len() ==> ((#[trigger] r@[k]).1 - r@[k].0 == size || r@[k].1 == n),
        decreases n - start,
    {
        let end = if n - start > size {
            start + size
        } else {
            n
        };
        r.push((start, end));
        start = end;
    }
    proof {
        assert forall|k: int| 0 <= k < r@.len() - 1 implies (#[trigger] r@[k]).1 - r@[k].0
            == size by {
            if r@[k].1 == n {
                assert(r@[k].1 == r@[k + 1].0);
                assert(r@[k + 1].0 < r@[k + 1].1 <= n);
            }
        }
    }
    r
}

} // verus!
