use vstd::arithmetic::div_mod::lemma_fundamental_div_mod;
use vstd::arithmetic::div_mod::lemma_fundamental_div_mod_converse;
use vstd::arithmetic::div_mod::lemma_mod_bound;
use vstd::arithmetic::div_mod::lemma_multiply_divide_lt;
use vstd::arithmetic::mul::lemma_mul_is_commutative;
use vstd::prelude::*;

verus! {

/// Mathematical model of an RGBA image: a width, a height, and the flat
/// row-major byte sequence holding four channels (red, green, blue, alpha)
/// per pixel.
#[verifier::ext_equal]
pub ghost struct ImageModel {
    pub width: nat,
    pub height: nat,
    pub data: Seq<u8>,
}

impl ImageModel {
    /// A model is well formed when the byte sequence holds exactly four
    /// bytes for every pixel of the grid.
    pub open spec fn wf(self) -> bool {
        self.data.len() == 4 * (self.width * self.height)
    }

    /// Channel `c` (0 red, 1 green, 2 blue, 3 alpha) of the pixel in
    /// column `x` of row `y`.
    pub open spec fn chan(self, x: int, y: int, c: int) -> u8 {
        self.data[4 * (y * self.width + x) + c]
    }
}

/// An RGBA image held as plain values: a width, a height, and the flat
/// row-major byte vector holding four channels per pixel.
pub struct Image {
    pub width: u32,
    pub height: u32,
    pub data: Vec<u8>,
}

impl View for Image {
    type V = ImageModel;

    open spec fn view(&self) -> ImageModel {
        ImageModel {
            width: self.width as nat,
            height: self.height as nat,
            data: self.data@,
        }
    }
}

impl Image {
    /// The byte vector holds exactly four bytes per pixel.
    pub open spec fn wf(self) -> bool {
        self@.wf()
    }

    /// Read channel `c` of the pixel in column `x` of row `y`.
    pub fn get(&self, x: u32, y: u32, c: u32) -> (r: u8)
        requires
            self.wf(),
            x < self.width,
            y < self.height,
            c < 4,
        ensures
            r == self@.chan(x as int, y as int, c as int),
    {
        proof {
            assert(self.data@.len() <= usize::MAX) by {
                assert(self.data.len() == self.data@.len());
            }
            lemma_chan_index_bounds(x as int, y as int, c as int, self.width as int, self.height as int);
        }
        let row: usize = (y as usize) * (self.width as usize);
        let idx: usize = 4 * (row + (x as usize)) + (c as usize);
        self.data[idx]
    }
}

/// In a `width` by `height` grid the flat index of channel `c` of the pixel
/// in column `x` of row `y` lies inside the byte sequence.
pub proof fn lemma_chan_index_bounds(x: int, y: int, c: int, w: int, h: int)
    by (nonlinear_arith)
    requires
        0 <= x < w,
        0 <= y < h,
        0 <= c < 4,
    ensures
        0 <= y * w + x < w * h,
        0 <= 4 * (y * w + x) + c < 4 * (w * h),
{
}

/// Composing a column, a row and a channel into a flat index and taking it
/// apart again by division and remainder gives the same triple back.
pub proof fn lemma_flat_compose(x: int, y: int, c: int, w: int, h: int)
    requires
        0 <= x < w,
        0 <= y < h,
        0 <= c < 4,
    ensures
        (4 * (y * w + x) + c) % 4 == c,
        (4 * (y * w + x) + c) / 4 == y * w + x,
        (y * w + x) % w == x,
        (y * w + x) / w == y,
{
    let p = y * w + x;
    lemma_fundamental_div_mod_converse(4 * p + c, 4, p, c);
    lemma_fundamental_div_mod_converse(p, w, y, x);
}

/// Any flat index of a `width` by `height` grid's byte sequence takes
/// apart into a column, a row and a channel that lie in range and compose
/// back to the same index.
pub proof fn lemma_flat_decompose(i: int, w: int, h: int)
    requires
        1 <= w,
        1 <= h,
        0 <= i < 4 * (w * h),
    ensures
        0 <= (i / 4) % w < w,
        0 <= (i / 4) / w < h,
        0 <= i % 4 < 4,
        i == 4 * ((((i / 4) / w) * w + (i / 4) % w)) + i % 4,
{
    let q = i / 4;
    lemma_fundamental_div_mod(i, 4);
    lemma_mod_bound(i, 4);
    lemma_multiply_divide_lt(i, 4, w * h);
    lemma_fundamental_div_mod(q, w);
    lemma_mod_bound(q, w);
    lemma_mul_is_commutative(w, h);
    lemma_multiply_divide_lt(q, w, h);
    lemma_mul_is_commutative(w, q / w);
}

/// The model of a `width` by `height` grid whose channel values are given
/// by a function of column, row and channel.
pub open spec fn grid_model(w: int, h: int, f: spec_fn(int, int, int) -> u8) -> ImageModel {
    ImageModel {
        width: w as nat,
        height: h as nat,
        data: Seq::new((4 * (w * h)) as nat, |i: int| f((i / 4) % w, (i / 4) / w, i % 4)),
    }
}

} // verus!
