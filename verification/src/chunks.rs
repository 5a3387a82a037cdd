//! Block helpers for the compression benchmark pipelines: a buffer is cut
//! into fixed-size blocks before entering the pipeline, and the ordered sink
//! hands each drained unit back unchanged.

use vstd::prelude::*;

verus! {

/// Size of one compression block, in bytes.
pub const BLOCK_SIZE: usize = 900000;

/// The sequence of blocks that cutting `s` into pieces of at most `b` bytes
/// produces: every block but the last has exactly `b` bytes, and the blocks
/// concatenate back to `s`.
pub open spec fn chunked(s: Seq<u8>, b: nat) -> Seq<Seq<u8>>
    decreases s.len(),
    when b > 0
{
    if s.len() == 0 {
        Seq::empty()
    } else if s.len() <= b {
        seq![s]
    } else {
        seq![s.take(b as int)] + chunked(s.skip(b as int), b)
    }
}

/// Concatenating the blocks of `chunked` restores the original buffer.
pub proof fn lemma_chunked_flatten(s: Seq<u8>, b: nat)
    requires
        b > 0,
    ensures
        chunked(s, b).flatten() == s,
    decreases s.len(),
{
    if s.len() == 0 {
        assert(chunked(s, b).flatten() =~= s);
    } else if s.len() <= b {
        chunked(s, b).lemma_flatten_one_element();
        assert(chunked(s, b).flatten() =~= s);
    } else {
        lemma_chunked_flatten(s.skip(b as int), b);
        let c = chunked(s, b);
        assert(c.first() == s.take(b as int));
        assert(c.drop_first() =~= chunked(s.skip(b as int), b));
        assert(c.flatten() == c.first().add(c.drop_first().flatten()));
        assert(c.flatten() =~= s);
    }
}

/// Cuts the input buffer into `BLOCK_SIZE`-byte blocks, the last block
/// holding whatever remains.  This is the source of the in-memory
/// compression pipeline: blocks enter the pipeline in buffer order.
pub fn in_mem_compress_source(buffer_input: Vec<u8>) -> (r: Vec<Vec<u8>>)
    ensures
        r.deep_view() == chunked(buffer_input@, BLOCK_SIZE as nat),
{
    let mut r: Vec<Vec<u8>> = Vec::new();
    let mut i: usize = 0;
    proof {
        assert(buffer_input@.skip(0) =~= buffer_input@);
        assert(r.deep_view() =~~= Seq::<Seq<u8>>::empty());
        assert(r.deep_view() + chunked(buffer_input@, BLOCK_SIZE as nat) =~= chunked(
            buffer_input@,
            BLOCK_SIZE as nat,
        ));
    }
    while i < buffer_input.len()
        invariant
            i <= buffer_input.len(),
            chunked(buffer_input@, BLOCK_SIZE as nat) == r.deep_view() + chunked(
                buffer_input@.skip(i as int),
                BLOCK_SIZE as nat,
            ),
        decreases buffer_input.len() - i,
    {
        let remaining = buffer_input.len() - i;
        let end = if remaining <= BLOCK_SIZE {
            buffer_input.len()
        } else {
            i + BLOCK_SIZE
        };
        let block = vstd::slice::slice_to_vec(vstd::slice::slice_subrange(
            buffer_input.as_slice(),
            i,
            end,
        ));
        let ghost prev = r.deep_view();
        r.push(block);
        proof {
            let rest = buffer_input@.skip(i as int);
            assert(r.deep_view() =~~= prev.push(block@));
            assert(block@ =~= rest.take(end - i));
            if remaining > BLOCK_SIZE {
                assert(rest.skip(BLOCK_SIZE as int) =~= buffer_input@.skip(end as int));
            }
            assert(r.deep_view() + chunked(buffer_input@.skip(end as int), BLOCK_SIZE as nat)
                =~~= prev + chunked(rest, BLOCK_SIZE as nat));
        }
        i = end;
    }
    proof {
        assert(chunked(buffer_input@.skip(i as int), BLOCK_SIZE as nat) =~= Seq::empty());
        assert(r.deep_view() =~~= r.deep_view() + Seq::<Seq<u8>>::empty());
    }
    r
}

/// Cuts the input buffer along the given `(start, end)` block boundaries.
/// This is the source of the in-memory decompression pipeline: the caller
/// has already located the block headers.
pub fn in_mem_decompress_source(buffer_input: Vec<u8>, queue_blocks: Vec<(usize, usize)>) -> (r:
    Vec<Vec<u8>>)
    requires
        forall|k: int|
            0 <= k < queue_blocks@.len() ==> (#[trigger] queue_blocks@[k]).0
                <= queue_blocks@[k].1 <= buffer_input@.len(),
    ensures
        r.deep_view().len() == queue_blocks@.len(),
        forall|k: int|
            0 <= k < queue_blocks@.len() ==> #[trigger] r.deep_view()[k] == buffer_input@.subrange(
                queue_blocks@[k].0 as int,
                queue_blocks@[k].1 as int,
            ),
{
    let mut r: Vec<Vec<u8>> = Vec::new();
    let mut k: usize = 0;
    while k < queue_blocks.len()
        invariant
            k <= queue_blocks.len(),
            r.deep_view().len() == k,
            forall|j: int|
                0 <= j < queue_blocks@.len() ==> (#[trigger] queue_blocks@[j]).0
                    <= queue_blocks@[j].1 <= buffer_input@.len(),
            forall|j: int|
                0 <= j < k ==> #[trigger] r.deep_view()[j] == buffer_input@.subrange(
                    queue_blocks@[j].0 as int,
                    queue_blocks@[j].1 as int,
                ),
        decreases queue_blocks.len() - k,
    {
        let (start, end) = queue_blocks[k];
        let block = vstd::slice::slice_to_vec(vstd::slice::slice_subrange(
            buffer_input.as_slice(),
            start,
            end,
        ));
        let ghost prev = r.deep_view();
        r.push(block);
        proof {
            assert(r.deep_view() =~~= prev.push(block@));
        }
        k = k + 1;
    }
    r
}

/// Ordered sink of the compression pipelines: hands each `(block, size)`
/// unit back unchanged, in submission order.
pub fn bzip_sink(output: Vec<u8>, size: usize) -> (r: (Vec<u8>, usize))
    ensures
        r.0@ == output@,
        r.1 == size,
{
    (output, size)
}

/// Ordered sink of the fractal pipeline: hands each rendered line back
/// unchanged, in submission order.
pub fn sink(line_buffer: Vec<u8>) -> (r: Vec<u8>)
    ensures
        r@ == line_buffer@,
{
    line_buffer
}

} // verus!
