//! Cutting a training set into consecutive mini-batches.
//!
//! A set of `n` samples is cut into batches of `batch_size` positions each,
//! in order; when `batch_size` does not divide `n` the last batch is shorter
//! and still trained on.

use vstd::prelude::*;

verus! {

/// Where the batch that begins at position `start` ends: `batch_size`
/// positions on, or at the end of the set if that comes first.
pub open spec fn batch_end_of(start: int, batch_size: int, n: int) -> int {
    if start + batch_size < n {
        start + batch_size
    } else {
        n
    }
}

/// The batches that cover positions `start..n`, in order, each as the pair
/// of its first position and the position after its last.
pub open spec fn batches_from(start: int, batch_size: int, n: int) -> Seq<(int, int)>
    decreases n - start,
    when batch_size > 0
{
    if start >= n {
        Seq::empty()
    } else {
        seq![(start, batch_end_of(start, batch_size, n))] + batches_from(
            batch_end_of(start, batch_size, n),
            batch_size,
            n,
        )
    }
}

/// Computes where the batch that begins at `start` ends.
pub fn batch_end(start: usize, batch_size: usize, n: usize) -> (end: usize)
    ensures
        end == batch_end_of(start as int, batch_size as int, n as int),
{
    if start < n && batch_size < n - start {
        start + batch_size
    } else {
        n
    }
}

/// Lists the batches of a set of `n` samples.
pub fn partition(n: usize, batch_size: usize) -> (batches: Vec<(usize, usize)>)
    requires
        batch_size > 0,
    ensures
        batches@.len() == batches_from(0, batch_size as int, n as int).len(),
        forall|k: int|
            0 <= k < batches@.len() ==> ((#[trigger] batches@[k]).0 as int, batches@[k].1 as int)
                == batches_from(0, batch_size as int, n as int)[k],
{
    let mut batches: Vec<(usize, usize)> = Vec::new();
    let mut start: usize = 0;
    let ghost all = batches_from(0, batch_size as int, n as int);
    while start < n
        invariant
            batch_size > 0,
            start <= n,
            all == batches_from(0, batch_size as int, n as int),
            all =~= Seq::new(batches@.len(), |k: int| (batches@[k].0 as int, batches@[k].1 as int))
                + batches_from(start as int, batch_size as int, n as int),
        decreases n - start,
    {
        let end = batch_end(start, batch_size, n);
        let ghost before = Seq::new(
            batches@.len(),
            |k: int| (batches@[k].0 as int, batches@[k].1 as int),
        );
        batches.push((start, end));
        proof {
            let after = Seq::new(
                batches@.len(),
                |k: int| (batches@[k].0 as int, batches@[k].1 as int),
            );
            assert(after =~= before + seq![(start as int, end as int)]);
            assert(all =~= after + batches_from(end as int, batch_size as int, n as int));
        }
        start = end;
    }
    proof {
        assert(batches_from(start as int, batch_size as int, n as int) =~= Seq::empty());
    }
    batches
}

/// The batches partition the set. They begin where asked and end at the end
/// of the set, so no remainder is dropped; each begins where the one before
/// ended; none is empty and none exceeds `batch_size`; and every batch but
/// the last holds exactly `batch_size` positions.
pub proof fn lemma_batches_partition(start: int, batch_size: int, n: int)
    requires
        batch_size > 0,
        0 <= start <= n,
    ensures
        ({
            let b = batches_from(start, batch_size, n);
            &&& (start < n <==> b.len() > 0)
            &&& b.len() > 0 ==> b[0].0 == start && b.last().1 == n
            &&& forall|k: int| 0 <= k < b.len() ==> 0 < #[trigger] b[k].1 - b[k].0 <= batch_size
            &&& forall|k: int| 0 <= k < b.len() ==> start <= (#[trigger] b[k]).0 && b[k].1 <= n
            &&& forall|k: int| 0 <= k < b.len() - 1 ==> #[trigger] b[k].1 == b[k + 1].0
            &&& forall|k: int| 0 <= k < b.len() - 1 ==> #[trigger] b[k].1 - b[k].0 == batch_size
        }),
    decreases n - start,
{
    if start < n {
        let end = batch_end_of(start, batch_size, n);
        let rest = batches_from(end, batch_size, n);
        let b = batches_from(start, batch_size, n);
        lemma_batches_partition(end, batch_size, n);
        assert(b =~= seq![(start, end)] + rest);
        assert(b[0] == (start, end));
        assert(forall|k: int| 1 <= k < b.len() ==> b[k] == rest[k - 1]);
        if rest.len() > 0 {
            assert(b.last() == rest.last());
            assert(end < n);
        }
        assert forall|k: int| 0 <= k < b.len() - 1 implies #[trigger] b[k].1 == b[k + 1].0 by {
            if k > 0 {
                assert(rest[k - 1].1 == rest[k].0);
            }
        }
        assert forall|k: int| 0 <= k < b.len() - 1 implies #[trigger] b[k].1 - b[k].0
            == batch_size by {
            if k > 0 {
                assert(rest[k - 1].1 - rest[k - 1].0 == batch_size);
            }
        }
        assert forall|k: int| 0 <= k < b.len() implies 0 < #[trigger] b[k].1 - b[k].0
            <= batch_size by {
            if k > 0 {
                assert(0 < rest[k - 1].1 - rest[k - 1].0 <= batch_size);
            }
        }
        assert forall|k: int| 0 <= k < b.len() implies start <= (#[trigger] b[k]).0 && b[k].1
            <= n by {
            if k > 0 {
                assert(end <= rest[k - 1].0 && rest[k - 1].1 <= n);
            }
        }
    }
}

/// Whether position `pos` lies in batch `k` of `batches`.
pub open spec fn in_batch(batches: Seq<(int, int)>, k: int, pos: int) -> bool {
    0 <= k < batches.len() && batches[k].0 <= pos < batches[k].1
}

/// Every position of the set lies in exactly one batch: an epoch trains on
/// each position once.
pub proof fn lemma_position_in_one_batch(start: int, batch_size: int, n: int, pos: int)
    requires
        batch_size > 0,
        0 <= start <= pos < n,
    ensures
        exists|k: int| #[trigger] in_batch(batches_from(start, batch_size, n), k, pos),
        forall|j: int, k: int|
            #[trigger] in_batch(batches_from(start, batch_size, n), j, pos) && #[trigger] in_batch(
                batches_from(start, batch_size, n),
                k,
                pos,
            ) ==> j == k,
    decreases n - start,
{
    let end = batch_end_of(start, batch_size, n);
    let rest = batches_from(end, batch_size, n);
    let b = batches_from(start, batch_size, n);
    assert(b =~= seq![(start, end)] + rest);
    assert(b[0] == (start, end));
    assert(forall|k: int| 1 <= k < b.len() ==> b[k] == rest[k - 1]);
    lemma_batches_partition(end, batch_size, n);
    if pos < end {
        assert(in_batch(b, 0, pos));
        assert forall|j: int, k: int| #[trigger]
            in_batch(b, j, pos) && #[trigger] in_batch(b, k, pos) implies j == k by {
            if j > 0 {
                assert(end <= rest[j - 1].0);
            }
            if k > 0 {
                assert(end <= rest[k - 1].0);
            }
        }
    } else {
        lemma_position_in_one_batch(end, batch_size, n, pos);
        let k = choose|k: int| #[trigger] in_batch(rest, k, pos);
        assert(in_batch(b, k + 1, pos));
        assert forall|i: int, j: int| #[trigger]
            in_batch(b, i, pos) && #[trigger] in_batch(b, j, pos) implies i == j by {
            assert(in_batch(rest, i - 1, pos));
            assert(in_batch(rest, j - 1, pos));
        }
    }
}

} // verus!
