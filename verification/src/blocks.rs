//! Sample-accurate event batching: a block of audio is cut at the sample
//! positions of its event batches, and each batch renders the event-free
//! stretch up to the next one.

use vstd::prelude::*;

verus! {

pub open spec fn min_of(a: usize, b: usize) -> usize {
    if a < b {
        a
    } else {
        b
    }
}

/// The half-open sample range a batch renders: from its first sample to the
/// next batch's first sample (the end of the block for the last batch),
/// both held inside the block; nothing when that range is empty.
pub open spec fn subblock(first: usize, next: Option<usize>, frames: usize) -> Option<(usize, usize)> {
    let start = min_of(first, frames);
    let end = match next {
        Some(n) => min_of(n, frames),
        None => frames,
    };
    if end <= start {
        None
    } else {
        Some((start, end))
    }
}

pub fn subblock_range(first: usize, next: Option<usize>, frames: usize) -> (r: Option<(usize, usize)>)
    ensures
        r == subblock(first, next, frames),
{
    let start = if first < frames {
        first
    } else {
        frames
    };
    let end = match next {
        Some(n) => if n < frames {
            n
        } else {
            frames
        },
        None => frames,
    };
    if end <= start {
        None
    } else {
        Some((start, end))
    }
}

/// The range batch `k` renders, the batches starting at `starts`.
pub open spec fn batch_range(starts: Seq<usize>, k: int, frames: usize) -> Option<(usize, usize)> {
    subblock(starts[k], if k + 1 < starts.len() {
        Some(starts[k + 1])
    } else {
        None
    }, frames)
}

/// Batch `k` renders sample `j`.
pub open spec fn renders(starts: Seq<usize>, k: int, frames: usize, j: int) -> bool {
    match batch_range(starts, k, frames) {
        Some((s, e)) => s <= j < e,
        None => false,
    }
}

/// With batches starting at sample 0 in nondecreasing order, every sample
/// of the block is rendered by exactly one batch: the last one that starts
/// at or before it.
pub proof fn lemma_batches_tile_the_block(starts: Seq<usize>, frames: usize, j: int)
    requires
        starts.len() > 0,
        starts[0] == 0,
        forall|a: int, b: int| 0 <= a <= b < starts.len() ==> starts[a] <= starts[b],
        0 <= j < frames,
    ensures
        exists|k: int| 0 <= k < starts.len() && renders(starts, k, frames, j),
        forall|k1: int, k2: int|
            0 <= k1 < starts.len() && 0 <= k2 < starts.len() && renders(starts, k1, frames, j) && renders(
                starts,
                k2,
                frames,
                j,
            ) ==> k1 == k2,
{
    let n = starts.len() as int;
    // The last batch starting at or before j.
    let k = last_start_at_or_before(starts, j, n);
    assert(renders(starts, k, frames, j));
    assert forall|k1: int, k2: int|
        0 <= k1 < n && 0 <= k2 < n && renders(starts, k1, frames, j) && renders(starts, k2, frames, j) implies k1
        == k2 by {
        if k1 < k2 {
            assert(starts[k1 + 1] <= starts[k2]);
        } else if k2 < k1 {
            assert(starts[k2 + 1] <= starts[k1]);
        }
    }
}

/// The last index below `bound` whose start is at or before `j`.
proof fn last_start_at_or_before(starts: Seq<usize>, j: int, bound: int) -> (k: int)
    requires
        0 < bound <= starts.len(),
        starts[0] <= j,
        bound < starts.len() ==> starts[bound] > j,
    ensures
        0 <= k < bound,
        starts[k] <= j,
        k + 1 < starts.len() ==> starts[k + 1] > j,
    decreases bound,
{
    if starts[bound - 1] <= j {
        bound - 1
    } else {
        last_start_at_or_before(starts, j, bound - 1)
    }
}

} // verus!
