//! An RGBA raster held as one flat row-major pixel vector, and its
//! flattening to the raw byte layout that the PNG codec works on.

use crate::color::Rgba;
use vstd::arithmetic::div_mod::{
    lemma_basic_div, lemma_hoist_over_denominator, lemma_mod_add_multiples_vanish,
    lemma_small_mod,
};
use vstd::prelude::*;

verus! {

/// An image: `width * height` RGBA samples in row-major order.
pub struct ImageBuf {
    pub width: u32,
    pub height: u32,
    pub pixels: Vec<Rgba>,
}

impl ImageBuf {
    /// Well-formed: nonempty, one sample per coordinate, and small enough
    /// that its raw byte form stays within what the codec accepts.
    pub open spec fn wf(&self) -> bool {
        &&& 1 <= self.width
        &&& 1 <= self.height
        &&& self.pixels@.len() == self.width * self.height
        &&& 4 * self.width * self.height < 0x1000_0000
    }

    /// The flat index of the sample at column `x`, row `y`.
    pub open spec fn index_of(&self, x: int, y: int) -> int {
        y * self.width + x
    }

    /// The sample at column `x`, row `y`.
    pub open spec fn pixel_at(&self, x: int, y: int) -> Rgba {
        self.pixels@[self.index_of(x, y)]
    }

    /// A fully transparent image of the given size.
    pub fn new(width: u32, height: u32) -> (r: ImageBuf)
        requires
            1 <= width,
            1 <= height,
            4 * width * height < 0x1000_0000,
        ensures
            r.wf(),
            r.width == width,
            r.height == height,
            forall|i: int| 0 <= i < r.pixels@.len() ==> r.pixels@[i] == Rgba::transparent(),
    {
        proof {
            lemma_flat_bound(width as int, height as int);
        }
        let n: usize = width as usize * height as usize;
        let mut pixels: Vec<Rgba> = Vec::new();
        let mut k: usize = 0;
        while k < n
            invariant
                k <= n,
                pixels@.len() == k,
                forall|i: int| 0 <= i < k ==> pixels@[i] == Rgba::transparent(),
            decreases n - k,
        {
            pixels.push(Rgba { r: 0, g: 0, b: 0, a: 0 });
            k = k + 1;
        }
        ImageBuf { width, height, pixels }
    }

    /// Read the sample at `(x, y)`.
    pub fn get_pixel(&self, x: u32, y: u32) -> (r: Rgba)
        requires
            self.wf(),
            x < self.width,
            y < self.height,
        ensures
            r == self.pixel_at(x as int, y as int),
    {
        proof {
            lemma_index_in_range(x as int, y as int, self.width as int, self.height as int);
            lemma_flat_bound(self.width as int, self.height as int);
        }
        let idx: usize = y as usize * self.width as usize + x as usize;
        self.pixels[idx]
    }

    /// Write the sample at `(x, y)`; every other sample is kept.
    pub fn set_pixel(&mut self, x: u32, y: u32, p: Rgba)
        requires
            old(self).wf(),
            x < old(self).width,
            y < old(self).height,
        ensures
            final(self).wf(),
            final(self).width == old(self).width,
            final(self).height == old(self).height,
            final(self).pixels@ == old(self).pixels@.update(old(self).index_of(x as int, y as int), p),
    {
        proof {
            lemma_index_in_range(x as int, y as int, self.width as int, self.height as int);
            lemma_flat_bound(self.width as int, self.height as int);
        }
        let idx: usize = y as usize * self.width as usize + x as usize;
        self.pixels.set(idx, p);
    }

    /// The image's raw byte form: R, G, B, A of each sample in order.
    pub fn to_bytes(&self) -> (r: Vec<u8>)
        ensures
            r@ == bytes_of(self.pixels@),
    {
        let mut out: Vec<u8> = Vec::new();
        let n: usize = self.pixels.len();
        let mut k: usize = 0;
        while k < n
            invariant
                k <= n,
                n == self.pixels@.len(),
                out@.len() == 4 * k,
                forall|i: int| 0 <= i < out@.len() ==> out@[i] == bytes_of(self.pixels@)[i],
            decreases n - k,
        {
            let p = self.pixels[k];
            out.push(p.r);
            out.push(p.g);
            out.push(p.b);
            out.push(p.a);
            proof {
                lemma_byte_group(self.pixels@, k as int);
            }
            k = k + 1;
        }
        proof {
            assert(out@ =~= bytes_of(self.pixels@));
        }
        out
    }
}

/// The raw RGBA byte sequence of a pixel sequence.
pub open spec fn bytes_of(ps: Seq<Rgba>) -> Seq<u8> {
    Seq::new(4 * ps.len(), |i: int| channel_of(ps[i / 4], i % 4))
}

/// Channel `j` of a sample, in byte order R, G, B, A.
pub open spec fn channel_of(p: Rgba, j: int) -> u8 {
    if j == 0 {
        p.r
    } else if j == 1 {
        p.g
    } else if j == 2 {
        p.b
    } else {
        p.a
    }
}

/// How the four bytes of pixel `k` sit inside `bytes_of`.
pub proof fn lemma_byte_group(ps: Seq<Rgba>, k: int)
    requires
        0 <= k < ps.len(),
    ensures
        bytes_of(ps)[4 * k] == ps[k].r,
        bytes_of(ps)[4 * k + 1] == ps[k].g,
        bytes_of(ps)[4 * k + 2] == ps[k].b,
        bytes_of(ps)[4 * k + 3] == ps[k].a,
{
    lemma_quarter(k, 0);
    lemma_quarter(k, 1);
    lemma_quarter(k, 2);
    lemma_quarter(k, 3);
}

/// Division and remainder by four around the byte offsets of pixel `k`.
proof fn lemma_quarter(k: int, j: int)
    requires
        0 <= k,
        0 <= j < 4,
    ensures
        (4 * k + j) / 4 == k,
        (4 * k + j) % 4 == j,
{
    lemma_hoist_over_denominator(j, k, 4nat);
    lemma_basic_div(j, 4);
    lemma_mod_add_multiples_vanish(j, 4);
    lemma_small_mod(j as nat, 4nat);
}

/// Equal byte forms come only from equal pixel sequences.
pub proof fn lemma_bytes_of_injective(ps: Seq<Rgba>, qs: Seq<Rgba>)
    requires
        bytes_of(ps) == bytes_of(qs),
    ensures
        ps =~= qs,
{
    assert(bytes_of(ps).len() == 4 * ps.len());
    assert(bytes_of(qs).len() == 4 * qs.len());
    assert forall|i: int| 0 <= i < ps.len() implies ps[i] == qs[i] by {
        lemma_byte_group(ps, i);
        lemma_byte_group(qs, i);
        assert(ps[i] == Rgba {
            r: bytes_of(ps)[4 * i],
            g: bytes_of(ps)[4 * i + 1],
            b: bytes_of(ps)[4 * i + 2],
            a: bytes_of(ps)[4 * i + 3],
        });
    }
}

/// A flat index built from in-range coordinates is in range.
#[verifier::nonlinear]
pub proof fn lemma_index_in_range(x: int, y: int, w: int, h: int)
    requires
        0 <= x < w,
        0 <= y < h,
    ensures
        0 <= y * w + x < w * h,
{
}

/// The pixel count of a well-formed image fits comfortably in a machine word.
#[verifier::nonlinear]
pub proof fn lemma_flat_bound(w: int, h: int)
    requires
        1 <= w,
        1 <= h,
        4 * w * h < 0x1000_0000,
    ensures
        w * h < 0x1000_0000,
        w < 0x1000_0000,
        h < 0x1000_0000,
{
}

} // verus!
