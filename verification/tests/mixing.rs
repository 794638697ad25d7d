use smix::color::{apply_weight, mix_pixel, Rgba, Weights};
use smix::image_buf::ImageBuf;
use smix::mask::Mask;
use smix::Error;

fn px(r: u8, g: u8, b: u8, a: u8) -> Rgba {
    Rgba { r, g, b, a }
}

fn solid(width: u32, height: u32, p: Rgba) -> ImageBuf {
    let n = (width as usize) * (height as usize);
    ImageBuf { width, height, pixels: vec![p; n] }
}

#[test]
fn mixer_weighted_average_on_unit_masks() {
    // Weights 0.8 / 0.15 / 0.05 against pure red, green and blue unit masks
    // yield exactly those proportions of full intensity, rounded to bytes.
    let w = Weights { r: 800, g: 150, b: 50 };
    let mut p = px(0, 0, 0, 255);
    mix_pixel(
        &mut p,
        &w,
        &px(255, 0, 0, 255),
        &px(0, 255, 0, 255),
        &px(0, 0, 255, 255),
    );
    assert_eq!(p, px(204, 38, 13, 255));
}

#[test]
fn mixer_normalizes_by_weight_sum() {
    // An unbalanced triple acts as proportions: (3, 1, 0) of 255, 51, 102.
    let w = Weights { r: 3000, g: 1000, b: 0 };
    let v = apply_weight(&w, 255, 51, 102);
    // (3 * 255 + 1 * 51) / 4 = 204
    assert_eq!(v, 204);
}

#[test]
fn mixer_invariant_under_uniform_weight_scaling() {
    let small = Weights { r: 1, g: 2, b: 3 };
    let large = Weights { r: 250, g: 500, b: 750 };
    for m0 in [0u8, 7, 128, 255] {
        for m1 in [0u8, 33, 200] {
            for m2 in [0u8, 99, 255] {
                assert_eq!(apply_weight(&small, m0, m1, m2), apply_weight(&large, m0, m1, m2));
            }
        }
    }
}

#[test]
fn mixer_zero_weights_give_zero() {
    let w = Weights { r: 0, g: 0, b: 0 };
    assert_eq!(apply_weight(&w, 200, 100, 50), 0);
}

#[test]
fn mixer_rounds_to_nearest() {
    // 1:1 weights on 0 and 1 give 0.5, which rounds up to 1.
    let w = Weights { r: 1000, g: 1000, b: 0 };
    assert_eq!(apply_weight(&w, 0, 1, 0), 1);
    // 1:3 weights on 0 and 1 give 0.75 -> 1; 3:1 give 0.25 -> 0.
    let w13 = Weights { r: 1000, g: 3000, b: 0 };
    assert_eq!(apply_weight(&w13, 0, 1, 0), 1);
    let w31 = Weights { r: 3000, g: 1000, b: 0 };
    assert_eq!(apply_weight(&w31, 0, 1, 0), 0);
}

#[test]
fn mix_pixel_preserves_alpha() {
    let w = Weights { r: 500, g: 500, b: 500 };
    let mut p = px(9, 9, 9, 77);
    mix_pixel(&mut p, &w, &px(30, 0, 0, 0), &px(0, 60, 0, 0), &px(0, 0, 90, 0));
    assert_eq!(p.a, 77);
    assert_eq!((p.r, p.g, p.b), (10, 20, 30));
}

#[test]
fn blend_zero_alpha_pixels_are_fully_transparent() {
    // Wherever the red mask's alpha is 0, the output pixel is (0,0,0,0),
    // whatever the weights and the other masks hold.
    let red = ImageBuf {
        width: 2,
        height: 1,
        pixels: vec![px(255, 255, 255, 0), px(100, 100, 100, 200)],
    };
    let green = solid(2, 1, px(50, 60, 70, 255));
    let blue = solid(2, 1, px(5, 6, 7, 255));
    let mask = Mask::new(red, green, blue).unwrap();
    let out = mask.generate(&Weights { r: 999, g: 999, b: 999 }).img;
    assert_eq!(out.pixels[0], px(0, 0, 0, 0));
    assert_eq!(out.pixels[1].a, 200);
}

#[test]
fn mask_new_accepts_equal_dimensions() {
    let m = Mask::new(
        solid(3, 2, px(1, 2, 3, 4)),
        solid(3, 2, px(5, 6, 7, 8)),
        solid(3, 2, px(9, 10, 11, 12)),
    );
    assert!(m.is_ok());
}

#[test]
fn mask_new_rejects_any_dimension_mismatch() {
    // A mismatch between any two of the three masks aborts the set.
    let cases = [(3u32, 2u32, 3u32, 2u32, 2u32, 2u32), (2, 2, 3, 2, 2, 2), (2, 2, 2, 2, 2, 3)];
    for (gw, gh, bw, bh, rw, rh) in cases {
        let r = solid(rw, rh, px(0, 0, 0, 255));
        let g = solid(gw, gh, px(0, 0, 0, 255));
        let b = solid(bw, bh, px(0, 0, 0, 255));
        match Mask::new(r, g, b) {
            Err(Error::DimensionMismatch) => {},
            other => panic!("expected a dimension mismatch, got {:?}", other.is_ok()),
        }
    }
}

#[test]
fn generate_applies_mixer_per_pixel() {
    // Weights (1, 0, 0): the blend reproduces the red mask exactly.
    let red_pixels = vec![px(1, 2, 3, 10), px(4, 5, 6, 20), px(7, 8, 9, 30), px(10, 11, 12, 40)];
    let red = ImageBuf { width: 2, height: 2, pixels: red_pixels.clone() };
    let green = solid(2, 2, px(200, 200, 200, 255));
    let blue = solid(2, 2, px(100, 100, 100, 255));
    let mask = Mask::new(red, green, blue).unwrap();
    let out = mask.generate(&Weights { r: 1000, g: 0, b: 0 }).img;
    assert_eq!(out.pixels, red_pixels);
}
