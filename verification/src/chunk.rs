//! Splitting the range `[0, end)` into chunks of a fixed size.
//!
//! Chunk `i` starts at `i * size`. Every chunk holds `size` bytes but the
//! last, which holds what is left: between one byte and `size` bytes.

use vstd::prelude::*;

verus! {

/// The chunk size of the copy: one mebibyte.
pub const CHUNK_SIZE: usize = 1048576;

/// A range of the input: `len` bytes starting at offset `start`.
#[derive(Clone, Copy, Debug, PartialEq, Eq)]
pub struct Chunk {
    pub start: usize,
    pub len: usize,
}

/// How many chunks of `size` bytes cover `[0, end)`: `end / size`, rounded up.
pub open spec fn chunk_total(end: int, size: int) -> int {
    if end <= 0 {
        0
    } else {
        (end - 1) / size + 1
    }
}

/// Where chunk `i` starts.
pub open spec fn chunk_start(size: int, i: int) -> int {
    i * size
}

/// How many bytes chunk `i` holds.
pub open spec fn chunk_len(end: int, size: int, i: int) -> int {
    if end - i * size < size {
        end - i * size
    } else {
        size
    }
}

/// Chunk `i` of the plan for `[0, end)`, for `0 <= i < chunk_total(end, size)`.
pub open spec fn planned(end: int, size: int, i: int) -> Chunk {
    Chunk { start: chunk_start(size, i) as usize, len: chunk_len(end, size, i) as usize }
}

/// How far the first `n` chunks of the plan reach into `[0, end)`.
pub open spec fn reach(end: int, size: int, n: int) -> int {
    if n >= chunk_total(end, size) {
        end
    } else {
        n * size
    }
}

/// A range that is not empty has a chunk, and an empty one has none.
pub proof fn lemma_chunk_total_sign(end: int, size: int)
    requires
        size > 0,
    ensures
        end > 0 ==> chunk_total(end, size) > 0,
        end <= 0 ==> chunk_total(end, size) == 0,
{
    if end > 0 {
        assert((end - 1) / size >= 0) by (nonlinear_arith)
            requires
                size > 0,
                end >= 1,
        ;
    }
}

/// Every chunk of the plan is non-empty, at most `size` long and inside `[0, end)`.
pub proof fn lemma_chunk_bounds(end: int, size: int, i: int)
    requires
        size > 0,
        0 <= i < chunk_total(end, size),
    ensures
        0 <= chunk_start(size, i) < end,
        1 <= chunk_len(end, size, i) <= size,
        chunk_start(size, i) + chunk_len(end, size, i) <= end,
{
    let q = (end - 1) / size;
    assert(q * size <= end - 1 && i * size <= q * size && 0 <= i * size) by (nonlinear_arith)
        requires
            size > 0,
            end >= 1,
            q == (end - 1) / size,
            0 <= i <= q,
    ;
}

/// Each chunk begins where the one before it stops; every chunk but the last
/// is full, and the last one stops at `end`.
pub proof fn lemma_chunks_are_contiguous(end: int, size: int, i: int)
    requires
        size > 0,
        0 <= i < chunk_total(end, size),
    ensures
        chunk_start(size, i + 1) == chunk_start(size, i) + size,
        i + 1 < chunk_total(end, size) ==> chunk_len(end, size, i) == size,
        i + 1 == chunk_total(end, size) ==> chunk_start(size, i) + chunk_len(end, size, i) == end,
{
    let q = (end - 1) / size;
    assert((i + 1) * size == i * size + size) by (nonlinear_arith);
    assert(q * size <= end - 1 < q * size + size) by (nonlinear_arith)
        requires
            size > 0,
            end >= 1,
            q == (end - 1) / size,
    ;
    if i + 1 <= q {
        assert((i + 1) * size <= q * size) by (nonlinear_arith)
            requires
                size > 0,
                i + 1 <= q,
        ;
    }
}

/// The chunk that holds offset `k`.
pub proof fn lemma_chunk_of_offset(end: int, size: int, k: int) -> (i: int)
    requires
        size > 0,
        0 <= k < end,
    ensures
        0 <= i < chunk_total(end, size),
        chunk_start(size, i) <= k < chunk_start(size, i) + chunk_len(end, size, i),
{
    let i = k / size;
    let q = (end - 1) / size;
    assert(i * size <= k < i * size + size && 0 <= i && i <= q) by (nonlinear_arith)
        requires
            size > 0,
            0 <= k <= end - 1,
            i == k / size,
            q == (end - 1) / size,
    ;
    i
}

/// The number of chunks that cover `[0, end)`.
pub fn chunk_count(end: usize, chunk_size: usize) -> (n: usize)
    requires
        chunk_size > 0,
    ensures
        n == chunk_total(end as int, chunk_size as int),
{
    if end == 0 {
        0
    } else {
        assert((end - 1) / (chunk_size as int) <= end - 1) by (nonlinear_arith)
            requires
                chunk_size > 0,
                end >= 1,
        ;
        (end - 1) / chunk_size + 1
    }
}

/// Chunk `index` of the plan for `[0, end)`.
pub fn chunk_at(end: usize, chunk_size: usize, index: usize) -> (c: Chunk)
    requires
        chunk_size > 0,
        index < chunk_total(end as int, chunk_size as int),
    ensures
        c == planned(end as int, chunk_size as int, index as int),
        c.start == index * chunk_size,
        1 <= c.len <= chunk_size,
        c.start + c.len <= end,
{
    proof {
        lemma_chunk_bounds(end as int, chunk_size as int, index as int);
    }
    let start: usize = index * chunk_size;
    let rest: usize = end - start;
    let len: usize = if rest < chunk_size {
        rest
    } else {
        chunk_size
    };
    Chunk { start, len }
}

/// The whole plan for `[0, end)`, in file order.
pub fn plan_chunks(end: usize, chunk_size: usize) -> (plan: Vec<Chunk>)
    requires
        chunk_size > 0,
    ensures
        plan@.len() == chunk_total(end as int, chunk_size as int),
        forall|i: int|
            0 <= i < plan@.len() ==> #[trigger] plan@[i] == planned(
                end as int,
                chunk_size as int,
                i,
            ),
{
    let count = chunk_count(end, chunk_size);
    let mut plan: Vec<Chunk> = Vec::new();
    let mut index: usize = 0;
    while index < count
        invariant
            chunk_size > 0,
            count == chunk_total(end as int, chunk_size as int),
            index <= count,
            plan@.len() == index,
            forall|i: int|
                0 <= i < index ==> #[trigger] plan@[i] == planned(
                    end as int,
                    chunk_size as int,
                    i,
                ),
        decreases count - index,
    {
        let c = chunk_at(end, chunk_size, index);
        plan.push(c);
        index = index + 1;
    }
    plan
}

} // verus!
