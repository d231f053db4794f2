use vstd::prelude::*;

verus! {

/// A resolution given by a width and a height, in pixels.
#[derive(Debug, Clone, Copy, PartialEq, Eq, Structural)]
pub struct Resolution {
    pub w: u32,
    pub h: u32,
}

/// Why a resolution was rejected.
#[derive(Debug, Clone, Copy, PartialEq, Eq, Structural)]
pub enum ResolutionError {
    ZeroWidth,
    ZeroHeight,
}

/// Column and row of a pixel, counted from the top-left corner.
#[derive(Debug, Clone, Copy, PartialEq, Eq, Structural)]
pub struct PixelPosition {
    pub column: u32,
    pub row: u32,
}

impl Resolution {
    /// Both dimensions are positive.
    pub open spec fn valid(&self) -> bool {
        self.w > 0 && self.h > 0
    }

    pub open spec fn spec_pixel_count(&self) -> nat {
        self.w as nat * self.h as nat
    }

    /// Column of pixel `i` in row-major order.
    pub open spec fn column_of(&self, i: nat) -> nat {
        i % (self.w as nat)
    }

    /// Row of pixel `i` in row-major order.
    pub open spec fn row_of(&self, i: nat) -> nat {
        i / (self.w as nat)
    }

    /// Build a resolution, rejecting a zero width or height.
    pub fn new(w: u32, h: u32) -> (r: Result<Resolution, ResolutionError>)
        ensures
            w > 0 && h > 0 <==> r is Ok,
            r is Ok ==> r->Ok_0 == (Resolution { w, h }),
            r == Err::<Resolution, ResolutionError>(ResolutionError::ZeroWidth) <==> w == 0,
            r == Err::<Resolution, ResolutionError>(ResolutionError::ZeroHeight) <==> w > 0 && h == 0,
    {
        if w == 0 {
            Err(ResolutionError::ZeroWidth)
        } else if h == 0 {
            Err(ResolutionError::ZeroHeight)
        } else {
            Ok(Resolution { w, h })
        }
    }

    /// Number of pixels covered by this resolution.
    pub fn pixel_count(&self) -> (r: u64)
        ensures
            r == self.spec_pixel_count(),
    {
        proof {
            assert(self.w as int * self.h as int <= 0xffff_ffff * 0xffff_ffff) by (nonlinear_arith);
        }
        self.w as u64 * self.h as u64
    }

    /// Column and row of pixel `i` of a row-major frame. The ray of that pixel
    /// passes through the image plane at horizontal fraction `column / w` and
    /// vertical fraction `row / h`.
    pub fn pixel_position(&self, i: usize) -> (r: PixelPosition)
        requires
            self.valid(),
            i < self.spec_pixel_count(),
        ensures
            r.column == self.column_of(i as nat),
            r.row == self.row_of(i as nat),
            r.column < self.w,
            r.row < self.h,
    {
        let w = self.w as usize;
        proof {
            lemma_row_below_height(self.w as nat, self.h as nat, i as nat);
        }
        PixelPosition { column: (i % w) as u32, row: (i / w) as u32 }
    }
}

proof fn lemma_row_below_height(w: nat, h: nat, i: nat)
    requires
        w > 0,
        i < w * h,
    ensures
        i / w < h,
        i % w < w,
{
    vstd::arithmetic::div_mod::lemma_multiply_divide_lt(i as int, w as int, h as int);
}

/// Pixel 0 sits in the top-left corner (fractions 0 and 0, so its ray meets the
/// image plane's top-left corner exactly), and the last pixel in the last
/// column of the last row, the one next to the bottom-right corner.
pub proof fn lemma_corner_pixels(res: Resolution)
    requires
        res.valid(),
    ensures
        res.column_of(0) == 0,
        res.row_of(0) == 0,
        res.column_of((res.spec_pixel_count() - 1) as nat) == res.w - 1,
        res.row_of((res.spec_pixel_count() - 1) as nat) == res.h - 1,
{
    let w = res.w as int;
    let h = res.h as int;
    let last = w * h - 1;
    assert(w * h >= 1) by (nonlinear_arith)
        requires
            w > 0,
            h > 0,
    ;
    assert(last == (h - 1) * w + (w - 1)) by (nonlinear_arith)
        requires
            last == w * h - 1,
    ;
    vstd::arithmetic::div_mod::lemma_fundamental_div_mod_converse(last, w, h - 1, w - 1);
}

} // verus!
