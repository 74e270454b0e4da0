//! How the client batches bankruptcy instructions into transactions.
use vstd::prelude::*;

verus! {

/// The most bankruptcy instructions sent in one transaction.
pub const BANKRUPTCY_CHUNKS: usize = 4;

/// The end of the batch that starts at `start` in a list of `len` instructions.
pub open spec fn batch_end(start: int, len: int) -> int {
    if start + 4 <= len {
        start + 4
    } else {
        len
    }
}

/// The instructions in transaction order: consecutive batches of four, the last one shorter
/// when the count is not a multiple of four.
pub fn bankruptcy_batches<T: Copy>(ixs: &Vec<T>) -> (r: Vec<Vec<T>>)
    ensures
        r.len() == (ixs.len() + 3) / 4,
        forall|k: int|
            0 <= k < r.len() ==> (#[trigger] r@[k])@ == ixs@.subrange(
                4 * k,
                batch_end(4 * k, ixs.len() as int),
            ),
{
    let mut out: Vec<Vec<T>> = Vec::new();
    let mut start: usize = 0;
    while start < ixs.len()
        invariant
            start <= ixs.len(),
            out.len() == (start + 3) / 4,
            start < ixs.len() ==> start == 4 * out.len(),
            forall|k: int|
                0 <= k < out.len() ==> (#[trigger] out@[k])@ == ixs@.subrange(
                    4 * k,
                    batch_end(4 * k, ixs.len() as int),
                ),
        decreases ixs.len() - start,
    {
        let end: usize = if ixs.len() - start >= BANKRUPTCY_CHUNKS {
            start + BANKRUPTCY_CHUNKS
        } else {
            ixs.len()
        };
        let mut chunk: Vec<T> = Vec::new();
        let mut i: usize = start;
        while i < end
            invariant
                start <= i <= end <= ixs.len(),
                chunk@ == ixs@.subrange(start as int, i as int),
            decreases end - i,
        {
            chunk.push(ixs[i]);
            proof {
                assert(chunk@ =~= ixs@.subrange(start as int, i + 1));
            }
            i = i + 1;
        }
        let ghost old_out = out@;
        out.push(chunk);
        proof {
            assert forall|k: int| 0 <= k < out.len() implies (#[trigger] out@[k])@ == ixs@.subrange(
                4 * k,
                batch_end(4 * k, ixs.len() as int),
            ) by {
                if k < old_out.len() {
                    assert(out@[k] == old_out[k]);
                }
            }
        }
        start = end;
    }
    out
}

} // verus!
