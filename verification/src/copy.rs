//! What the copy produces: the prefix `raw[0..end)`, whatever the chunk size
//! and in whatever order the chunks reach their places.

use vstd::prelude::*;
use vstd::slice::slice_subrange;
use rayon::iter::ParallelIterator;
use rayon::slice::ParallelSlice;
use crate::chunk::{
    chunk_at, chunk_count, chunk_len, chunk_start, chunk_total, lemma_chunk_bounds,
    lemma_chunk_of_offset, lemma_chunk_total_sign, lemma_chunks_are_contiguous, reach,
};

verus! {

/// The content that is kept: the first `end` bytes of `raw`.
pub open spec fn kept(raw: Seq<u8>, end: int) -> Seq<u8> {
    raw.subrange(0, end)
}

/// The bytes of chunk `i` of the plan for `[0, end)`.
pub open spec fn chunk_bytes(raw: Seq<u8>, end: int, size: int, i: int) -> Seq<u8> {
    raw.subrange(chunk_start(size, i), chunk_start(size, i) + chunk_len(end, size, i))
}

/// The first `n` chunks written one behind the other.
pub open spec fn joined(raw: Seq<u8>, end: int, size: int, n: int) -> Seq<u8>
    decreases n,
{
    if n <= 0 {
        Seq::empty()
    } else {
        joined(raw, end, size, n - 1) + chunk_bytes(raw, end, size, n - 1)
    }
}

/// `out` with `data` written over it at offset `at`. The length stays.
pub open spec fn overwritten(out: Seq<u8>, at: int, data: Seq<u8>) -> Seq<u8> {
    Seq::new(
        out.len(),
        |k: int|
            if at <= k < at + data.len() {
                data[k - at]
            } else {
                out[k]
            },
    )
}

/// `out` after the chunks named by `order` were written to their own
/// offsets, one after the other, `order[0]` first.
pub open spec fn placed(out: Seq<u8>, raw: Seq<u8>, end: int, size: int, order: Seq<int>) -> Seq<
    u8,
>
    decreases order.len(),
{
    if order.len() == 0 {
        out
    } else {
        overwritten(
            placed(out, raw, end, size, order.drop_last()),
            chunk_start(size, order.last()),
            chunk_bytes(raw, end, size, order.last()),
        )
    }
}

/// Written in file order, the first `n` chunks are a prefix of the input.
pub proof fn lemma_joined_is_prefix(raw: Seq<u8>, end: int, size: int, n: int)
    requires
        size > 0,
        0 <= end <= raw.len(),
        0 <= n <= chunk_total(end, size),
    ensures
        joined(raw, end, size, n) == kept(raw, reach(end, size, n)),
        0 <= reach(end, size, n) <= end,
    decreases n,
{
    if n == 0 {
        assert(joined(raw, end, size, 0) =~= kept(raw, reach(end, size, 0)));
    } else {
        lemma_joined_is_prefix(raw, end, size, n - 1);
        lemma_chunk_bounds(end, size, n - 1);
        lemma_chunks_are_contiguous(end, size, n - 1);
        assert(reach(end, size, n - 1) == chunk_start(size, n - 1));
        assert(reach(end, size, n) == chunk_start(size, n - 1) + chunk_len(end, size, n - 1));
        assert(joined(raw, end, size, n) =~= kept(raw, reach(end, size, n)));
    }
}

/// The chunked copy yields the kept content for every chunk size: all the
/// chunks of a plan, written in file order, are exactly `raw[0..end)`.
pub proof fn lemma_chunked_copy_is_plain_copy(raw: Seq<u8>, end: int, size: int)
    requires
        size > 0,
        0 <= end <= raw.len(),
    ensures
        joined(raw, end, size, chunk_total(end, size)) == kept(raw, end),
{
    lemma_chunk_total_sign(end, size);
    lemma_joined_is_prefix(raw, end, size, chunk_total(end, size));
}

/// Two chunk sizes give the same output.
pub proof fn lemma_chunk_size_does_not_matter(raw: Seq<u8>, end: int, size_a: int, size_b: int)
    requires
        size_a > 0,
        size_b > 0,
        0 <= end <= raw.len(),
    ensures
        joined(raw, end, size_a, chunk_total(end, size_a)) == joined(
            raw,
            end,
            size_b,
            chunk_total(end, size_b),
        ),
{
    lemma_chunked_copy_is_plain_copy(raw, end, size_a);
    lemma_chunked_copy_is_plain_copy(raw, end, size_b);
}

/// Positioned writes keep the length of the output, and every offset that
/// lies in a chunk written so far holds the input's byte.
pub proof fn lemma_placed_chunks_hold_input(
    out: Seq<u8>,
    raw: Seq<u8>,
    end: int,
    size: int,
    order: Seq<int>,
)
    requires
        size > 0,
        0 <= end <= raw.len(),
        out.len() == end,
        forall|j: int| 0 <= j < order.len() ==> 0 <= #[trigger] order[j] < chunk_total(end, size),
    ensures
        placed(out, raw, end, size, order).len() == end,
        forall|j: int, k: int|
            0 <= j < order.len() && chunk_start(size, #[trigger] order[j]) <= k < chunk_start(
                size,
                order[j],
            ) + chunk_len(end, size, order[j]) ==> #[trigger] placed(out, raw, end, size, order)[k]
                == raw[k],
    decreases order.len(),
{
    if order.len() > 0 {
        let before = order.drop_last();
        let last = order.last();
        lemma_placed_chunks_hold_input(out, raw, end, size, before);
        lemma_chunk_bounds(end, size, last);
        let earlier = placed(out, raw, end, size, before);
        let now = placed(out, raw, end, size, order);
        assert forall|j: int, k: int|
            0 <= j < order.len() && chunk_start(size, #[trigger] order[j]) <= k < chunk_start(
                size,
                order[j],
            ) + chunk_len(end, size, order[j]) implies #[trigger] now[k] == raw[k] by {
            lemma_chunk_bounds(end, size, order[j]);
            if chunk_start(size, last) <= k < chunk_start(size, last) + chunk_len(end, size, last) {
            } else {
                assert(j < before.len());
                assert(before[j] == order[j]);
                assert(earlier[k] == raw[k]);
            }
        }
    }
}

/// Order does not matter: once every chunk of the plan was written to its
/// own offset, in any order and however often, an output of `end` bytes
/// holds the kept content, whatever it held before.
pub proof fn lemma_any_order_gives_kept(
    out: Seq<u8>,
    raw: Seq<u8>,
    end: int,
    size: int,
    order: Seq<int>,
)
    requires
        size > 0,
        0 <= end <= raw.len(),
        out.len() == end,
        forall|j: int| 0 <= j < order.len() ==> 0 <= #[trigger] order[j] < chunk_total(end, size),
        forall|i: int| 0 <= i < chunk_total(end, size) ==> order.contains(i),
    ensures
        placed(out, raw, end, size, order) == kept(raw, end),
{
    lemma_placed_chunks_hold_input(out, raw, end, size, order);
    let result = placed(out, raw, end, size, order);
    assert forall|k: int| 0 <= k < end implies result[k] == raw[k] by {
        let i = lemma_chunk_of_offset(end, size, k);
        assert(order.contains(i));
        let j = choose|j: int| 0 <= j < order.len() && order[j] == i;
        assert(chunk_start(size, order[j]) <= k < chunk_start(size, order[j]) + chunk_len(
            end,
            size,
            order[j],
        ));
    }
    assert(result =~= kept(raw, end));
}

/// Running the copy again gives the same bytes: whatever the output of
/// `end` bytes held before each run, and in whatever order each run placed
/// the chunks, two complete runs leave the same output.
pub proof fn lemma_copy_is_repeatable(
    raw: Seq<u8>,
    end: int,
    size: int,
    first_out: Seq<u8>,
    first_order: Seq<int>,
    second_out: Seq<u8>,
    second_order: Seq<int>,
)
    requires
        size > 0,
        0 <= end <= raw.len(),
        first_out.len() == end,
        second_out.len() == end,
        forall|j: int|
            0 <= j < first_order.len() ==> 0 <= #[trigger] first_order[j] < chunk_total(end, size),
        forall|j: int|
            0 <= j < second_order.len() ==> 0 <= #[trigger] second_order[j] < chunk_total(
                end,
                size,
            ),
        forall|i: int| 0 <= i < chunk_total(end, size) ==> first_order.contains(i),
        forall|i: int| 0 <= i < chunk_total(end, size) ==> second_order.contains(i),
    ensures
        placed(first_out, raw, end, size, first_order) == placed(
            second_out,
            raw,
            end,
            size,
            second_order,
        ),
{
    lemma_any_order_gives_kept(first_out, raw, end, size, first_order);
    lemma_any_order_gives_kept(second_out, raw, end, size, second_order);
}

/// Copies the kept content in one piece.
pub fn copy_prefix(raw: &[u8], end: usize) -> (out: Vec<u8>)
    requires
        end <= raw@.len(),
    ensures
        out@ == kept(raw@, end as int),
        out@.len() == end,
{
    let mut out: Vec<u8> = Vec::new();
    out.extend_from_slice(slice_subrange(raw, 0, end));
    assert(out@ =~= kept(raw@, end as int));
    out
}

/// Copies the kept content chunk by chunk, in file order.
pub fn copy_chunked(raw: &[u8], end: usize, chunk_size: usize) -> (out: Vec<u8>)
    requires
        end <= raw@.len(),
        chunk_size > 0,
    ensures
        out@ == kept(raw@, end as int),
        out@.len() == end,
        out@ == joined(
            raw@,
            end as int,
            chunk_size as int,
            chunk_total(end as int, chunk_size as int),
        ),
{
    let count = chunk_count(end, chunk_size);
    let mut out: Vec<u8> = Vec::new();
    let mut index: usize = 0;
    while index < count
        invariant
            chunk_size > 0,
            end <= raw@.len(),
            count == chunk_total(end as int, chunk_size as int),
            index <= count,
            out@ == joined(raw@, end as int, chunk_size as int, index as int),
        decreases count - index,
    {
        let c = chunk_at(end, chunk_size, index);
        let ghost before = out@;
        out.extend_from_slice(slice_subrange(raw, c.start, c.start + c.len));
        assert(out@ =~= before + chunk_bytes(raw@, end as int, chunk_size as int, index as int));
        index = index + 1;
    }
    proof {
        lemma_chunked_copy_is_plain_copy(raw@, end as int, chunk_size as int);
    }
    out
}

/// Copies of the chunks of `content`, made by the threads of `rayon`.
///
/// Calls `par_chunks(..).map(..).collect()` of `rayon`. `par_chunks` is
/// documented to yield the slice in pieces of `chunk_size` elements that do
/// not overlap, all of that exact length but the last, which may be
/// shorter; it panics on a chunk size of 0, which `requires` leaves out.
/// `map` applies [`copy_prefix`] to each piece with the piece's own length,
/// and `collect` fills a `Vec` with the results in the order of the pieces.
/// This contract is taken on trust. Like an allocation, the start of
/// `rayon`'s pool can fail where the system gives it no thread; nothing is
/// said of that.
#[verifier::external_body]
fn par_chunk_copies(content: &[u8], chunk_size: usize) -> (copies: Vec<Vec<u8>>)
    requires
        chunk_size > 0,
    ensures
        copies@.len() == chunk_total(content@.len() as int, chunk_size as int),
        forall|i: int|
            0 <= i < copies@.len() ==> (#[trigger] copies@[i])@ == chunk_bytes(
                content@,
                content@.len() as int,
                chunk_size as int,
                i,
            ),
{
    content.par_chunks(chunk_size).map(|piece| copy_prefix(piece, piece.len())).collect()
}

/// Copies the kept content with the chunks copied side by side by a pool
/// of threads and then joined in file order. The output does not depend on
/// the chunk size, nor on how the threads were scheduled.
pub fn copy_concurrent(raw: &[u8], end: usize, chunk_size: usize) -> (out: Vec<u8>)
    requires
        end <= raw@.len(),
        chunk_size > 0,
    ensures
        out@ == kept(raw@, end as int),
        out@.len() == end,
{
    let content = slice_subrange(raw, 0, end);
    let copies = par_chunk_copies(content, chunk_size);
    let mut out: Vec<u8> = Vec::new();
    let mut index: usize = 0;
    while index < copies.len()
        invariant
            chunk_size > 0,
            content@.len() == end,
            copies@.len() == chunk_total(end as int, chunk_size as int),
            forall|i: int|
                0 <= i < copies@.len() ==> (#[trigger] copies@[i])@ == chunk_bytes(
                    content@,
                    end as int,
                    chunk_size as int,
                    i,
                ),
            index <= copies@.len(),
            out@ == joined(content@, end as int, chunk_size as int, index as int),
        decreases copies@.len() - index,
    {
        let ghost before = out@;
        out.extend_from_slice(copies[index].as_slice());
        assert(out@ =~= before + copies@[index as int]@);
        index = index + 1;
    }
    proof {
        lemma_chunked_copy_is_plain_copy(content@, end as int, chunk_size as int);
        assert(kept(content@, end as int) =~= kept(raw@, end as int));
    }
    out
}

/// Writes chunk `index` of the plan for `[0, end)` to its own offset in `out`.
pub fn place_chunk(out: &mut Vec<u8>, raw: &[u8], end: usize, chunk_size: usize, index: usize)
    requires
        end <= raw@.len(),
        old(out)@.len() == end,
        chunk_size > 0,
        index < chunk_total(end as int, chunk_size as int),
    ensures
        final(out)@ == overwritten(
            old(out)@,
            chunk_start(chunk_size as int, index as int),
            chunk_bytes(raw@, end as int, chunk_size as int, index as int),
        ),
{
    let c = chunk_at(end, chunk_size, index);
    let mut k: usize = 0;
    while k < c.len
        invariant
            end <= raw@.len(),
            c.start + c.len <= end,
            k <= c.len,
            out@.len() == end,
            forall|p: int| 0 <= p < end && !(c.start <= p < c.start + k) ==> out@[p] == old(out)@[p],
            forall|p: int| c.start <= p < c.start + k ==> out@[p] == raw@[p],
        decreases c.len - k,
    {
        out.set(c.start + k, raw[c.start + k]);
        k = k + 1;
    }
    assert(out@ =~= overwritten(
        old(out)@,
        chunk_start(chunk_size as int, index as int),
        chunk_bytes(raw@, end as int, chunk_size as int, index as int),
    ));
}

} // verus!
