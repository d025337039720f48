//! The output image: RGBA bytes, row-major, top row first.
//!
//! Pixels are produced in output order. The image plane's row coordinate
//! grows upwards, so the k-th pixel written lies in column `k % width` of
//! plane row `height - 1 - k / width`.
use vstd::prelude::*;
use vstd::arithmetic::div_mod::lemma_fundamental_div_mod;

verus! {

/// Plane coordinates `(column, row)` of the `k`-th pixel in output order.
pub open spec fn pixel_coords(width: int, height: int, k: int) -> (int, int) {
    (k % width, height - 1 - k / width)
}

/// An image being filled pixel by pixel.
pub struct Frame {
    pub width: u32,
    pub height: u32,
    pub data: Vec<u8>,
}

impl Frame {
    /// Number of bytes of the finished image.
    pub open spec fn size(self) -> int {
        self.width as int * self.height as int * 4
    }

    /// Whole pixels only, no more than the image holds, each fully opaque.
    pub open spec fn wf(self) -> bool {
        &&& self.size() <= usize::MAX
        &&& self.data@.len() % 4 == 0
        &&& self.data@.len() <= self.size()
        &&& forall|i: int| 0 <= i < self.data@.len() && i % 4 == 3 ==> #[trigger] self.data@[i] == 255
    }

    /// An empty image of the given size; its bytes must be addressable.
    pub fn new(width: u32, height: u32) -> (r: Frame)
        requires
            width as int * height as int * 4 <= usize::MAX,
        ensures
            r.wf(),
            r.width == width,
            r.height == height,
            r.data@.len() == 0,
    {
        Frame { width, height, data: Vec::new() }
    }

    /// Every pixel has been written.
    pub fn is_complete(&self) -> (r: bool)
        requires
            self.wf(),
        ensures
            r == (self.data@.len() == self.size()),
    {
        let w = self.width as usize;
        let h = self.height as usize;
        assert(w as int * h as int * 4 <= usize::MAX);
        assert(w * h <= usize::MAX) by (nonlinear_arith)
            requires w as int * h as int * 4 <= usize::MAX;
        self.data.len() == w * h * 4
    }

    /// Plane coordinates of the next pixel to write.
    pub fn next_pixel(&self) -> (r: (u32, u32))
        requires
            self.wf(),
            self.data@.len() < self.size(),
        ensures
            (r.0 as int, r.1 as int) == pixel_coords(self.width as int, self.height as int, (self.data@.len() / 4) as int),
    {
        let k = self.data.len() / 4;
        let w = self.width as usize;
        proof {
            let wi = self.width as int;
            let hi = self.height as int;
            assert(wi > 0) by (nonlinear_arith)
                requires k >= 0, 4 * k <= self.data@.len(), self.data@.len() < wi * hi * 4, wi >= 0, hi >= 0;
            lemma_fundamental_div_mod(k as int, wi);
            assert(k as int / wi < hi) by (nonlinear_arith)
                requires
                    wi > 0,
                    k as int == wi * (k as int / wi) + (k as int % wi),
                    0 <= k as int % wi,
                    4 * (k as int) <= self.data@.len(),
                    self.data@.len() < wi * hi * 4,
            ;
        }
        let column = (k % w) as u32;
        let row = self.height - 1 - (k / w) as u32;
        (column, row)
    }

    /// Appends the next pixel, fully opaque.
    pub fn push(&mut self, r: u8, g: u8, b: u8)
        requires
            old(self).wf(),
            old(self).data@.len() < old(self).size(),
        ensures
            final(self).wf(),
            final(self).width == old(self).width,
            final(self).height == old(self).height,
            final(self).data@ == old(self).data@ + seq![r, g, b, 255u8],
    {
        proof {
            let n = self.data@.len();
            let s = self.size();
            assert(n + 4 <= s) by (nonlinear_arith)
                requires n % 4 == 0, n < s, s == self.width as int * self.height as int * 4;
        }
        self.data.push(r);
        self.data.push(g);
        self.data.push(b);
        self.data.push(255);
    }

    /// The bytes of the image.
    pub fn into_bytes(self) -> (r: Vec<u8>)
        ensures
            r@ == self.data@,
    {
        self.data
    }
}

} // verus!
