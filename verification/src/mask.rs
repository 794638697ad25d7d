//! A mask set: the three equal-dimension channel masks of one directory, and
//! the blend that turns them into one generated image.

use crate::color::{mixed_rgb, mix_pixel, Rgba, Weights};
use crate::image_buf::ImageBuf;
use crate::Error;
use vstd::prelude::*;

verus! {

/// A blended image ready for export: the 8-bit raster a mask set generates.
pub struct GeneratedImage {
    pub img: ImageBuf,
}

impl GeneratedImage {
    /// Wrap a blended raster for export.
    pub fn new(img: ImageBuf) -> (r: GeneratedImage)
        ensures
            r.img == img,
    {
        GeneratedImage { img }
    }

    /// The 8-bit raster itself.
    pub fn get_rgba(&self) -> (r: &ImageBuf)
        ensures
            r == &self.img,
    {
        &self.img
    }

    /// Width and height of the blend.
    pub fn dimensions(&self) -> (r: (u32, u32))
        ensures
            r.0 == self.img.width,
            r.1 == self.img.height,
    {
        (self.img.width, self.img.height)
    }
}

/// The three masks (red, green, blue) of one blending unit. All three share
/// one width and height; `new` refuses anything else.
pub struct Mask {
    pub red: ImageBuf,
    pub green: ImageBuf,
    pub blue: ImageBuf,
}

/// One blended output sample: fully transparent where the red mask's alpha is
/// zero, otherwise the mixed RGB under the red mask's alpha.
pub open spec fn blend_pixel(w: Weights, p0: Rgba, p1: Rgba, p2: Rgba) -> Rgba {
    if p0.a == 0 {
        Rgba::transparent()
    } else {
        mixed_rgb(p0, w, p0, p1, p2)
    }
}

/// Alpha pass-through: the blend takes its alpha from the red mask verbatim;
/// in particular a sample with zero alpha in the red mask comes out fully
/// transparent, whatever the weights.
pub proof fn lemma_alpha_passthrough(w: Weights, p0: Rgba, p1: Rgba, p2: Rgba)
    ensures
        blend_pixel(w, p0, p1, p2).a == p0.a,
        p0.a == 0 ==> blend_pixel(w, p0, p1, p2) == Rgba::transparent(),
{
}

impl Mask {
    /// Well-formed: three well-formed images of one shared dimension.
    pub open spec fn wf(&self) -> bool {
        &&& self.red.wf()
        &&& self.green.wf()
        &&& self.blue.wf()
        &&& self.green.width == self.red.width
        &&& self.green.height == self.red.height
        &&& self.blue.width == self.red.width
        &&& self.blue.height == self.red.height
    }

    /// The shared width of the set.
    pub open spec fn spec_width(&self) -> u32 {
        self.red.width
    }

    /// The shared height of the set.
    pub open spec fn spec_height(&self) -> u32 {
        self.red.height
    }

    /// Assemble a mask set from three decoded images. Succeeds exactly when
    /// the three share one width and height; a mismatch aborts the set with
    /// `Error::DimensionMismatch`, never truncates or stretches.
    pub fn new(red: ImageBuf, green: ImageBuf, blue: ImageBuf) -> (r: Result<Mask, Error>)
        requires
            red.wf(),
            green.wf(),
            blue.wf(),
        ensures
            r matches Ok(m) <==> (green.width == red.width && green.height == red.height
                && blue.width == red.width && blue.height == red.height),
            r matches Ok(m) ==> m.wf() && m.red == red && m.green == green && m.blue == blue,
            r matches Err(e) ==> e == Error::DimensionMismatch,
    {
        if green.width == red.width && green.height == red.height && blue.width == red.width
            && blue.height == red.height {
            Ok(Mask { red, green, blue })
        } else {
            Err(Error::DimensionMismatch)
        }
    }

    /// Blend the set under the given weights: every output sample is
    /// `blend_pixel` of the three masks' samples at the same coordinate.
    pub fn generate(&self, weight: &Weights) -> (r: GeneratedImage)
        requires
            self.wf(),
        ensures
            r.img.wf(),
            r.img.width == self.spec_width(),
            r.img.height == self.spec_height(),
            r.img.pixels@.len() == self.red.pixels@.len(),
            forall|k: int|
                0 <= k < r.img.pixels@.len() ==> r.img.pixels@[k] == blend_pixel(
                    *weight,
                    self.red.pixels@[k],
                    self.green.pixels@[k],
                    self.blue.pixels@[k],
                ),
    {
        let n: usize = self.red.pixels.len();
        let mut pixels: Vec<Rgba> = Vec::new();
        let mut k: usize = 0;
        while k < n
            invariant
                k <= n,
                n == self.red.pixels@.len(),
                n == self.green.pixels@.len(),
                n == self.blue.pixels@.len(),
                pixels@.len() == k,
                forall|i: int|
                    0 <= i < k ==> pixels@[i] == blend_pixel(
                        *weight,
                        self.red.pixels@[i],
                        self.green.pixels@[i],
                        self.blue.pixels@[i],
                    ),
            decreases n - k,
        {
            let p0 = self.red.pixels[k];
            let alpha = p0.a;
            if alpha == 0 {
                pixels.push(Rgba { r: 0, g: 0, b: 0, a: 0 });
            } else {
                let mut px = p0;
                mix_pixel(&mut px, weight, &p0, &self.green.pixels[k], &self.blue.pixels[k]);
                pixels.push(px);
            }
            k = k + 1;
        }
        GeneratedImage::new(ImageBuf { width: self.red.width, height: self.red.height, pixels })
    }
}

} // verus!
