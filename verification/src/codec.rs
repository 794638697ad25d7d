//! The boundary to the image codec: PNG encoding and decoding and
//! resampling, each behind a trusted wrapper, and the verified conversions
//! between raw RGBA bytes and `ImageBuf`.

use crate::color::Rgba;
use crate::image_buf::{bytes_of, lemma_bytes_of_injective, lemma_byte_group, lemma_flat_bound, ImageBuf};
use crate::{Channel, Error};
use vstd::arithmetic::div_mod::{lemma_fundamental_div_mod, lemma_mod_bound, lemma_multiply_divide_lt};
use vstd::arithmetic::mul::lemma_mul_is_associative;
use vstd::prelude::*;

verus! {

/// The resampling kernel applied when an export's scale is not 1.0.
/// The semantics of each kernel belong to the resampling library.
#[derive(Clone, Copy, PartialEq, Eq, Structural, Debug)]
pub enum Filter {
    /// Nearest-neighbor
    Nearest,
    /// Linear interpolation
    Bilinear,
    /// Cubic interpolation
    CatmullRom,
    /// Gaussian blur
    Gaussian,
    /// Lanczos with window 3
    Lanczos3,
}

impl Filter {
    /// A numeric tag for each kernel, used to index the named resampling
    /// result in specifications.
    pub open spec fn code(self) -> u8 {
        match self {
            Filter::Nearest => 0,
            Filter::Bilinear => 1,
            Filter::CatmullRom => 2,
            Filter::Gaussian => 3,
            Filter::Lanczos3 => 4,
        }
    }
}

/// The PNG encoding of a raw RGBA byte sequence with the given dimensions.
/// Encoding is deterministic, so the bytes are a function of the arguments.
pub uninterp spec fn png_data_of(pixels: Seq<u8>, width: u32, height: u32) -> Seq<u8>;

/// What the resampling library returns for a raw RGBA byte sequence scaled
/// from `width * height` to `nwidth * nheight` with the kernel tagged `filter`.
pub uninterp spec fn resized_pixels(
    pixels: Seq<u8>,
    width: u32,
    height: u32,
    nwidth: u32,
    nheight: u32,
    filter: u8,
) -> Seq<u8>;

/// Relies on image::RgbaImage::from_raw and ImageBuffer::write_to with
/// ImageFormat::Png: encoding RGBA8 samples as PNG is a deterministic
/// function of the samples and dimensions, and writing a nonempty image of
/// bounded size to an in-memory buffer cannot fail.
#[verifier::external_body]
fn png_encode_rgba(data: &Vec<u8>, width: u32, height: u32) -> (r: Vec<u8>)
    requires
        1 <= width,
        1 <= height,
        data@.len() == 4 * width * height,
        4 * width * height < 0x1000_0000,
    ensures
        r@ == png_data_of(data@, width, height),
{
    let img: image::RgbaImage = image::RgbaImage::from_raw(width, height, data.clone()).unwrap();
    let mut out: Vec<u8> = Vec::new();
    img.write_to(&mut std::io::Cursor::new(&mut out), image::ImageFormat::Png).unwrap();
    out
}

/// The view of a raw decode result: the byte sequence and the dimensions.
pub open spec fn raw_view(r: Option<(Vec<u8>, u32, u32)>) -> Option<(Seq<u8>, u32, u32)> {
    match r {
        Some(t) => Some((t.0@, t.1, t.2)),
        None => None,
    }
}

/// Decoding `data` inverts PNG encoding: whenever `data` is the encoding of
/// some nonempty, bounded RGBA image, the decode returns exactly that image.
pub open spec fn decode_inverts_encode(data: Seq<u8>, r: Option<(Seq<u8>, u32, u32)>) -> bool {
    forall|p: Seq<u8>, w: u32, h: u32|
        1 <= w && 1 <= h && p.len() == 4 * w * h && 4 * w * h < 0x1000_0000 && data
            == #[trigger] png_data_of(p, w, h) ==> r == Some((p, w, h))
}

/// Relies on image::load_from_memory and DynamicImage::into_rgba8: a decoded
/// image's raw buffer holds exactly 4 bytes per pixel, and decoding inverts
/// PNG encoding of RGBA8 data within the decoder's default size limits.
#[verifier::external_body]
fn png_decode_rgba(data: &Vec<u8>) -> (r: Option<(Vec<u8>, u32, u32)>)
    ensures
        r matches Some(t) ==> t.0@.len() == 4 * t.1 * t.2,
        decode_inverts_encode(data@, raw_view(r)),
{
    match image::load_from_memory(data.as_slice()) {
        Ok(decoded) => {
            let img = decoded.into_rgba8();
            let (w, h) = img.dimensions();
            Some((img.into_raw(), w, h))
        },
        Err(_) => None,
    }
}

/// Relies on image::imageops::resize: resampling returns an image of exactly
/// the requested dimensions, and its samples are a deterministic function of
/// the input samples, the dimensions, and the kernel.
#[verifier::external_body]
fn resize_rgba(data: &Vec<u8>, width: u32, height: u32, nwidth: u32, nheight: u32, filter: Filter) -> (r: Vec<u8>)
    requires
        1 <= width,
        1 <= height,
        data@.len() == 4 * width * height,
        1 <= nwidth,
        1 <= nheight,
    ensures
        r@ == resized_pixels(data@, width, height, nwidth, nheight, filter.code()),
        r@.len() == 4 * nwidth * nheight,
{
    let img: image::RgbaImage = image::RgbaImage::from_raw(width, height, data.clone()).unwrap();
    let kernel = match filter {
        Filter::Nearest => image::imageops::FilterType::Nearest,
        Filter::Bilinear => image::imageops::FilterType::Triangle,
        Filter::CatmullRom => image::imageops::FilterType::CatmullRom,
        Filter::Gaussian => image::imageops::FilterType::Gaussian,
        Filter::Lanczos3 => image::imageops::FilterType::Lanczos3,
    };
    image::imageops::resize(&img, nwidth, nheight, kernel).into_raw()
}

/// Group a raw RGBA byte vector of `4 * n` bytes into `n` samples.
pub(crate) fn pixels_from_bytes(bytes: &Vec<u8>, n: usize) -> (r: Vec<Rgba>)
    requires
        bytes@.len() == 4 * n,
    ensures
        r@.len() == n,
        bytes_of(r@) == bytes@,
{
    let mut out: Vec<Rgba> = Vec::new();
    let total: usize = bytes.len();
    let mut k: usize = 0;
    while k < n
        invariant
            k <= n,
            bytes@.len() == 4 * n,
            total == 4 * n,
            out@.len() == k,
            forall|i: int|
                0 <= i < k ==> out@[i] == (Rgba {
                    r: bytes@[4 * i],
                    g: bytes@[4 * i + 1],
                    b: bytes@[4 * i + 2],
                    a: bytes@[4 * i + 3],
                }),
        decreases n - k,
    {
        proof {
            assert(4 * k + 3 < 4 * n);
        }
        let p = Rgba {
            r: bytes[4 * k],
            g: bytes[4 * k + 1],
            b: bytes[4 * k + 2],
            a: bytes[4 * k + 3],
        };
        out.push(p);
        k = k + 1;
    }
    proof {
        assert forall|i: int| 0 <= i < 4 * n implies bytes_of(out@)[i] == bytes@[i] by {
            let q = i / 4;
            lemma_fundamental_div_mod(i, 4);
            lemma_mod_bound(i, 4);
            lemma_multiply_divide_lt(i, 4, n as int);
            lemma_byte_group(out@, q);
        }
        assert(bytes_of(out@) =~= bytes@);
    }
    out
}

/// Decode one mask file's PNG bytes into an image. Returns
/// `Error::Decode(channel)` when the bytes are not a decodable image of a
/// nonzero, bounded size; decoding what `encode_image` produced always
/// succeeds and reproduces its input samples exactly.
pub fn decode_image(channel: Channel, data: &Vec<u8>) -> (r: Result<ImageBuf, Error>)
    ensures
        r matches Ok(img) ==> img.wf(),
        r matches Err(e) ==> e == Error::Decode(channel),
        forall|p: Seq<u8>, w: u32, h: u32|
            1 <= w && 1 <= h && p.len() == 4 * w * h && 4 * w * h < 0x1000_0000
                && data@ == #[trigger] png_data_of(p, w, h) ==> (r matches Ok(img) && img.width == w
                && img.height == h && bytes_of(img.pixels@) == p),
{
    match png_decode_rgba(data) {
        Some((raw, w, h)) => {
            if w == 0 || h == 0 {
                return Err(Error::Decode(channel));
            }
            proof {
                assert((4 * w) * h <= (4 * 0xFFFF_FFFF) * 0xFFFF_FFFF) by (nonlinear_arith)
                    requires
                        w <= 0xFFFF_FFFF,
                        h <= 0xFFFF_FFFF,
                ;
            }
            let size: u128 = 4u128 * w as u128 * h as u128;
            if size >= 0x1000_0000 {
                return Err(Error::Decode(channel));
            }
            proof {
                lemma_mul_is_associative(4, w as int, h as int);
                lemma_flat_bound(w as int, h as int);
            }
            let n: usize = w as usize * h as usize;
            let pixels = pixels_from_bytes(&raw, n);
            Ok(ImageBuf { width: w, height: h, pixels })
        },
        None => Err(Error::Decode(channel)),
    }
}

/// Encode an image as PNG bytes.
pub fn encode_image(img: &ImageBuf) -> (r: Vec<u8>)
    requires
        img.wf(),
    ensures
        r@ == png_data_of(bytes_of(img.pixels@), img.width, img.height),
{
    let data = img.to_bytes();
    proof {
        lemma_mul_is_associative(4, img.width as int, img.height as int);
    }
    png_encode_rgba(&data, img.width, img.height)
}

/// Resample an image to new dimensions with the chosen kernel.
pub fn resized(img: &ImageBuf, nwidth: u32, nheight: u32, filter: Filter) -> (r: ImageBuf)
    requires
        img.wf(),
        1 <= nwidth,
        1 <= nheight,
        4 * nwidth * nheight < 0x1000_0000,
    ensures
        r.wf(),
        r.width == nwidth,
        r.height == nheight,
        bytes_of(r.pixels@) == resized_pixels(
            bytes_of(img.pixels@),
            img.width,
            img.height,
            nwidth,
            nheight,
            filter.code(),
        ),
{
    let data = img.to_bytes();
    proof {
        lemma_mul_is_associative(4, img.width as int, img.height as int);
        lemma_mul_is_associative(4, nwidth as int, nheight as int);
        lemma_flat_bound(nwidth as int, nheight as int);
    }
    let raw = resize_rgba(&data, img.width, img.height, nwidth, nheight, filter);
    let n: usize = nwidth as usize * nheight as usize;
    let pixels = pixels_from_bytes(&raw, n);
    ImageBuf { width: nwidth, height: nheight, pixels }
}

/// Encoding an image as PNG and decoding it again reproduces the image byte
/// for byte: the only lossy step in an export at scale 1.0 is the blend
/// itself, never the save and reload.
pub fn png_round_trip(img: &ImageBuf) -> (r: Result<ImageBuf, Error>)
    requires
        img.wf(),
    ensures
        r matches Ok(out) && out.width == img.width && out.height == img.height
            && out.pixels@ == img.pixels@,
{
    let data = encode_image(img);
    proof {
        lemma_mul_is_associative(4, img.width as int, img.height as int);
    }
    let r = decode_image(Channel::Red, &data);
    match r {
        Ok(out) => {
            proof {
                lemma_bytes_of_injective(out.pixels@, img.pixels@);
                assert(out.pixels@ =~= img.pixels@);
            }
            Ok(out)
        },
        Err(_) => {
            proof {
                assert(false);
            }
            Err(Error::DimensionMismatch)
        },
    }
}

} // verus!
