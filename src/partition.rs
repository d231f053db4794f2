use vstd::prelude::*;

verus! {

/// A contiguous run of pixels handed to one worker: pixels
/// `start .. start + len` of the frame.
#[derive(Debug, Clone, Copy, PartialEq, Eq, Structural)]
pub struct PixelChunk {
    pub start: usize,
    pub len: usize,
}

/// First pixel of chunk `k` when `n` pixels are split over `workers` chunks
/// whose sizes differ by at most one, the larger ones first.
pub open spec fn chunk_start(n: nat, workers: nat, k: nat) -> nat {
    k * (n / workers) + if k < n % workers {
        k
    } else {
        n % workers
    }
}

/// Size of chunk `k` of that split.
pub open spec fn chunk_len(n: nat, workers: nat, k: nat) -> nat {
    n / workers + if k < n % workers {
        1nat
    } else {
        0
    }
}

/// The chunks follow one another with no gap or overlap, from pixel 0 to
/// pixel `n`.
pub open spec fn tiles(chunks: Seq<PixelChunk>, n: nat) -> bool {
    &&& chunks.len() > 0 ==> chunks[0].start == 0
    &&& forall|k: int|
        0 <= k < chunks.len() - 1 ==> #[trigger] chunks[k + 1].start == chunks[k].start
            + chunks[k].len
    &&& chunks.len() > 0 ==> chunks.last().start + chunks.last().len == n
    &&& chunks.len() == 0 ==> n == 0
}

/// Pixel `i` lies in chunk `k`.
pub open spec fn in_chunk(chunks: Seq<PixelChunk>, k: int, i: nat) -> bool {
    chunks[k].start <= i < chunks[k].start + chunks[k].len
}

proof fn lemma_chunk_step(n: nat, workers: nat, k: nat)
    requires
        workers > 0,
    ensures
        chunk_start(n, workers, k + 1) == chunk_start(n, workers, k) + chunk_len(n, workers, k),
{
    let q = n / workers;
    assert((k + 1) * q == k * q + q) by (nonlinear_arith);
}

proof fn lemma_chunks_end(n: nat, workers: nat)
    requires
        workers > 0,
    ensures
        chunk_start(n, workers, workers) == n,
{
    vstd::arithmetic::div_mod::lemma_fundamental_div_mod(n as int, workers as int);
    vstd::arithmetic::div_mod::lemma_mod_pos_bound(n as int, workers as int);
    assert(workers * (n / workers) == (n / workers) * workers) by (nonlinear_arith);
}

/// Split `pixel_count` pixels into `workers` contiguous chunks whose sizes
/// differ by at most one, so that each worker can write its own part of the
/// frame with the global index of each of its pixels.
pub fn chunk_plan(pixel_count: usize, workers: usize) -> (chunks: Vec<PixelChunk>)
    requires
        workers > 0,
    ensures
        chunks@.len() == workers,
        forall|k: int|
            0 <= k < workers ==> (#[trigger] chunks@[k]).start == chunk_start(
                pixel_count as nat,
                workers as nat,
                k as nat,
            ) && chunks@[k].len == chunk_len(pixel_count as nat, workers as nat, k as nat),
        tiles(chunks@, pixel_count as nat),
{
    let q = pixel_count / workers;
    let rem = pixel_count % workers;
    let ghost n = pixel_count as nat;
    let ghost w = workers as nat;
    let mut chunks: Vec<PixelChunk> = Vec::new();
    let mut start: usize = 0;
    let mut k: usize = 0;
    proof {
        lemma_chunks_end(n, w);
    }
    while k < workers
        invariant
            k <= workers,
            q == n / w,
            rem == n % w,
            w == workers,
            n == pixel_count,
            workers > 0,
            chunk_start(n, w, w) == n,
            chunks@.len() == k,
            start == chunk_start(n, w, k as nat),
            forall|j: int|
                0 <= j < k ==> (#[trigger] chunks@[j]).start == chunk_start(n, w, j as nat)
                    && chunks@[j].len == chunk_len(n, w, j as nat),
        decreases workers - k,
    {
        proof {
            lemma_chunk_step(n, w, k as nat);
            lemma_start_monotone(n, w, (k + 1) as nat, w);
        }
        let len: usize = if k < rem {
            q + 1
        } else {
            q
        };
        chunks.push(PixelChunk { start, len });
        start = start + len;
        k += 1;
    }
    proof {
        assert forall|j: int| 0 <= j < chunks@.len() - 1 implies #[trigger] chunks@[j + 1].start
            == chunks@[j].start + chunks@[j].len by {
            lemma_chunk_step(n, w, j as nat);
        }
        lemma_chunk_step(n, w, (w - 1) as nat);
    }
    chunks
}

proof fn lemma_start_monotone(n: nat, workers: nat, a: nat, b: nat)
    requires
        workers > 0,
        a <= b,
    ensures
        chunk_start(n, workers, a) <= chunk_start(n, workers, b),
    decreases b - a,
{
    if a < b {
        lemma_chunk_step(n, workers, a);
        lemma_start_monotone(n, workers, a + 1, b);
    }
}

/// Every pixel of a tiled frame lies in exactly one chunk, and its index within
/// that chunk plus the chunk's start is its index in the frame. This is what
/// makes a frame rendered chunk by chunk, by any number of workers, equal to
/// one rendered pixel by pixel.
pub proof fn lemma_tiles_partition(chunks: Seq<PixelChunk>, n: nat, i: nat)
    requires
        tiles(chunks, n),
        i < n,
    ensures
        exists|k: int| 0 <= k < chunks.len() && in_chunk(chunks, k, i),
        forall|k1: int, k2: int|
            0 <= k1 < chunks.len() && 0 <= k2 < chunks.len() && in_chunk(chunks, k1, i)
                && in_chunk(chunks, k2, i) ==> k1 == k2,
{
    let k = choose_chunk(chunks, n, i, (chunks.len() - 1) as int);
    assert(in_chunk(chunks, k, i));
    assert forall|k1: int, k2: int|
        0 <= k1 < chunks.len() && 0 <= k2 < chunks.len() && in_chunk(chunks, k1, i) && in_chunk(
            chunks,
            k2,
            i,
        ) implies k1 == k2 by {
        if k1 < k2 {
            lemma_tile_ordered(chunks, n, k1 + 1, k2);
        } else if k2 < k1 {
            lemma_tile_ordered(chunks, n, k2 + 1, k1);
        }
    }
}

/// Chunk `b` starts no earlier than chunk `a - 1` ends.
proof fn lemma_tile_ordered(chunks: Seq<PixelChunk>, n: nat, a: int, b: int)
    requires
        tiles(chunks, n),
        1 <= a <= b < chunks.len(),
    ensures
        chunks[b].start >= chunks[a - 1].start + chunks[a - 1].len,
    decreases b - a,
{
    assert(chunks[(a - 1) + 1].start == chunks[a - 1].start + chunks[a - 1].len);
    if a < b {
        lemma_tile_ordered(chunks, n, a + 1, b);
    }
}

/// The last chunk among `0 ..= top` that starts at or before pixel `i`.
proof fn choose_chunk(chunks: Seq<PixelChunk>, n: nat, i: nat, top: int) -> (k: int)
    requires
        tiles(chunks, n),
        i < n,
        0 <= top < chunks.len(),
        i < chunks[top].start + chunks[top].len,
    ensures
        0 <= k <= top,
        in_chunk(chunks, k, i),
    decreases top,
{
    if chunks[top].start <= i {
        top
    } else {
        assert(top > 0);
        assert(chunks[(top - 1) + 1].start == chunks[top - 1].start + chunks[top - 1].len);
        choose_chunk(chunks, n, i, top - 1)
    }
}

} // verus!
