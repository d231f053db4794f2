use vstd::prelude::*;

use crate::color::{gray, Rgba};
use crate::partition::{
    chunk_len, chunk_plan, chunk_start, in_chunk, lemma_tiles_partition, tiles, PixelChunk,
};

verus! {

/// How the pixels of a frame are distributed over threads.
#[derive(Debug, Clone, Copy, PartialEq, Eq, Structural)]
pub enum MultithreadingMethod {
    /// One pixel after another on the calling thread.
    Sequential,
    /// A work-stealing parallel map over single pixels.
    Rayon,
    /// One contiguous chunk of pixels per hardware thread.
    Crossbeam,
}

/// Rendering settings that stay fixed during a frame.
#[derive(Debug, Clone, Copy, PartialEq, Eq, Structural)]
pub struct Renderer {
    pub grayscale: bool,
    pub multithreading_method: MultithreadingMethod,
}

/// The four bytes of pixel `j` of `frame` hold colour `c`.
pub open spec fn pixel_holds(frame: Seq<u8>, j: int, c: Rgba) -> bool {
    &&& frame[4 * j] == c.r
    &&& frame[4 * j + 1] == c.g
    &&& frame[4 * j + 2] == c.b
    &&& frame[4 * j + 3] == c.a
}

/// Relies on num_cpus::get: the number of hardware threads that this process
/// may use, documented to be at least one.
#[verifier::external_body]
fn available_threads() -> (r: usize)
    ensures
        r >= 1,
{
    num_cpus::get()
}

impl Renderer {
    /// The colour after the enabled filters.
    pub open spec fn filtered(&self, c: Rgba) -> Rgba {
        if self.grayscale {
            gray(c)
        } else {
            c
        }
    }

    /// Pixel `j` of `frame` holds the filtered colour of one of the results
    /// that `shade_pixel` may give for pixel `first + j` of the full frame.
    pub open spec fn pixel_rendered<F: Fn(usize) -> Rgba>(
        &self,
        frame: Seq<u8>,
        first: int,
        j: int,
        shade_pixel: F,
    ) -> bool {
        exists|c: Rgba|
            #[trigger] shade_pixel.ensures(((first + j) as usize,), c) && pixel_holds(
                frame,
                j,
                self.filtered(c),
            )
    }

    /// Apply the enabled filters to a shaded colour.
    pub fn apply_filters(&self, c: Rgba) -> (r: Rgba)
        ensures
            r == self.filtered(c),
    {
        if self.grayscale {
            c.grayscale()
        } else {
            c
        }
    }

    /// Render the pixels of `frame`, a run of whole RGBA pixels whose first one
    /// is pixel `first_pixel` of the full frame: pixel `j` of the run gets the
    /// filtered colour that `shade_pixel` gives for pixel `first_pixel + j`.
    /// Bytes after the last whole pixel are left as they are. Every strategy
    /// writes its pixels through this function, so for a shading function that
    /// gives one colour per pixel they all produce the same bytes.
    pub fn render_span<F: Fn(usize) -> Rgba>(&self, frame: &mut [u8], first_pixel: usize, shade_pixel: F)
        requires
            first_pixel + old(frame)@.len() / 4 <= usize::MAX,
            forall|i: usize|
                first_pixel <= i < first_pixel + old(frame)@.len() / 4 ==> shade_pixel.requires((i,)),
        ensures
            final(frame)@.len() == old(frame)@.len(),
            forall|j: int|
                0 <= j < old(frame)@.len() / 4 ==> #[trigger] self.pixel_rendered(
                    final(frame)@,
                    first_pixel as int,
                    j,
                    shade_pixel,
                ),
            forall|k: int|
                4 * (old(frame)@.len() / 4) <= k < old(frame)@.len() ==> final(frame)@[k] == old(
                    frame,
                )@[k],
    {
        let len = frame.len();
        let count = len / 4;
        let mut j: usize = 0;
        while j < count
            invariant
                len == old(frame)@.len(),
                count == len / 4,
                frame@.len() == len,
                j <= count,
                first_pixel + count <= usize::MAX,
                forall|i: usize|
                    first_pixel <= i < first_pixel + count ==> shade_pixel.requires((i,)),
                forall|p: int|
                    0 <= p < j ==> #[trigger] self.pixel_rendered(
                        frame@,
                        first_pixel as int,
                        p,
                        shade_pixel,
                    ),
                forall|k: int| 4 * j <= k < frame@.len() ==> frame@[k] == old(frame)@[k],
            decreases count - j,
        {
            let c = shade_pixel(first_pixel + j);
            let out = self.apply_filters(c);
            assert(4 * j + 3 < frame@.len());
            let ghost before = frame@;
            let base = 4 * j;
            frame[base] = out.r;
            frame[base + 1] = out.g;
            frame[base + 2] = out.b;
            frame[base + 3] = out.a;
            assert(pixel_holds(frame@, j as int, self.filtered(c)));
            assert(self.pixel_rendered(frame@, first_pixel as int, j as int, shade_pixel));
            assert forall|p: int| 0 <= p < j implies #[trigger] self.pixel_rendered(
                frame@,
                first_pixel as int,
                p,
                shade_pixel,
            ) by {
                assert(self.pixel_rendered(before, first_pixel as int, p, shade_pixel));
                let d = choose|d: Rgba|
                    #[trigger] shade_pixel.ensures(((first_pixel + p) as usize,), d) && pixel_holds(
                        before,
                        p,
                        self.filtered(d),
                    );
                assert(pixel_holds(frame@, p, self.filtered(d)));
            }
            j += 1;
        }
    }

    /// The chunks that the thread-per-chunk strategy hands out: one per
    /// available hardware thread, together covering all `pixel_count` pixels.
    pub fn worker_plan(&self, pixel_count: usize) -> (chunks: Vec<PixelChunk>)
        ensures
            chunks@.len() >= 1,
            forall|k: int|
                0 <= k < chunks@.len() ==> (#[trigger] chunks@[k]).start == chunk_start(
                    pixel_count as nat,
                    chunks@.len(),
                    k as nat,
                ) && chunks@[k].len == chunk_len(pixel_count as nat, chunks@.len(), k as nat),
            tiles(chunks@, pixel_count as nat),
    {
        let workers = available_threads();
        chunk_plan(pixel_count, workers)
    }
}

/// The bytes of chunk `c` of a frame.
pub open spec fn chunk_bytes(frame: Seq<u8>, c: PixelChunk) -> Seq<u8> {
    frame.subrange(4 * c.start, 4 * (c.start + c.len))
}

/// A frame of `n` pixels rendered chunk by chunk over any tiling, each chunk
/// holding the colours of its own pixels by their index in the whole frame,
/// equals the frame rendered pixel by pixel with the same per-pixel colours.
/// Work stealing over single pixels is the tiling into chunks of one pixel,
/// and one chunk per thread is the tiling of `worker_plan`, so with a shading
/// function that gives one colour per pixel all strategies give the same bytes.
pub proof fn lemma_chunked_frame_matches_sequential(
    chunks: Seq<PixelChunk>,
    n: nat,
    sequential: Seq<u8>,
    chunked: Seq<u8>,
    color_of: spec_fn(nat) -> Rgba,
)
    requires
        tiles(chunks, n),
        sequential.len() == 4 * n,
        chunked.len() == 4 * n,
        forall|i: int| 0 <= i < n ==> #[trigger] pixel_holds(sequential, i, color_of(i as nat)),
        forall|k: int, j: int|
            0 <= k < chunks.len() && 0 <= j < chunks[k].len ==> #[trigger] pixel_holds(
                chunk_bytes(chunked, chunks[k]),
                j,
                color_of((chunks[k].start + j) as nat),
            ),
    ensures
        sequential == chunked,
{
    assert forall|b: int| 0 <= b < 4 * n implies sequential[b] == chunked[b] by {
        let i = b / 4;
        lemma_tiles_partition(chunks, n, i as nat);
        let k = choose|k: int| 0 <= k < chunks.len() && #[trigger] in_chunk(chunks, k, i as nat);
        lemma_chunk_inside(chunks, n, k);
        let c = chunks[k];
        let j = i - c.start;
        assert(pixel_holds(sequential, i, color_of(i as nat)));
        assert(pixel_holds(chunk_bytes(chunked, c), j, color_of((c.start + j) as nat)));
        assert(chunk_bytes(chunked, c)[4 * j + (b - 4 * i)] == chunked[b]);
    }
    assert(sequential =~= chunked);
}

proof fn lemma_chunk_inside(chunks: Seq<PixelChunk>, n: nat, k: int)
    requires
        tiles(chunks, n),
        0 <= k < chunks.len(),
    ensures
        chunks[k].start + chunks[k].len <= n,
    decreases chunks.len() - k,
{
    if k < chunks.len() - 1 {
        assert(chunks[k + 1].start == chunks[k].start + chunks[k].len);
        lemma_chunk_inside(chunks, n, k + 1);
    }
}

} // verus!
