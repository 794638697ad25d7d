use smix::codec::{decode_image, png_round_trip, Filter};
use smix::color::{Rgba, Weights};
use smix::env::{Args, Env};
use smix::image_buf::ImageBuf;
use smix::preview::PreView;
use smix::mask::Mask;
use smix::scale::{normalize_scales, scale_dim, SCALE_ONE};
use smix::text::{path_basename, render_export_name};
use smix::{Channel, Error};

fn px(r: u8, g: u8, b: u8, a: u8) -> Rgba {
    Rgba { r, g, b, a }
}

fn solid(width: u32, height: u32, p: Rgba) -> ImageBuf {
    let n = (width as usize) * (height as usize);
    ImageBuf { width, height, pixels: vec![p; n] }
}

fn args(r: u32, g: u32, b: u32, dirs: Vec<String>, scale: Vec<i64>) -> Args {
    Args {
        r,
        g,
        b,
        output: String::from("output"),
        mask_directories: dirs,
        scale,
        filter: Filter::Lanczos3,
        preview: false,
    }
}

#[test]
fn normalized_scales_always_contain_one() {
    let out = normalize_scales(&vec![]);
    assert_eq!(out, vec![SCALE_ONE]);
    let out = normalize_scales(&vec![2000, 500]);
    assert_eq!(out, vec![500, 1000, 2000]);
}

#[test]
fn normalized_scales_collapse_duplicates() {
    let out = normalize_scales(&vec![2000, 500, 2000, 1000, 500]);
    assert_eq!(out, vec![500, 1000, 2000]);
}

#[test]
fn normalized_scales_keep_negative_factors_for_later_skipping() {
    // Non-positive factors are not rejected at parse time; they are skipped
    // one by one at generation time.
    let out = normalize_scales(&vec![-300, 500]);
    assert_eq!(out, vec![-300, 500, 1000]);
}

#[test]
fn scale_dim_truncates_toward_zero() {
    assert_eq!(scale_dim(100, 2500), 250);
    assert_eq!(scale_dim(3, 500), 1);
    assert_eq!(scale_dim(3, 1500), 4);
    assert_eq!(scale_dim(2, 400), 0);
}

#[test]
fn export_names_spell_out_dimensions() {
    assert_eq!(render_export_name(&String::from("m"), 2, 2), "m_2x2.png");
    assert_eq!(render_export_name(&String::from("tiles"), 1234, 987), "tiles_1234x987.png");
    assert_eq!(render_export_name(&String::from("z"), 0, 10), "z_0x10.png");
}

#[test]
fn basename_takes_the_final_path_component() {
    assert_eq!(path_basename(&String::from("a/b/c")), "c");
    assert_eq!(path_basename(&String::from("masks")), "masks");
    assert_eq!(path_basename(&String::from("masks/")), "");
    assert_eq!(path_basename(&String::from("")), "");
}

#[test]
fn png_survives_a_round_trip() {
    let img = ImageBuf {
        width: 2,
        height: 2,
        pixels: vec![px(1, 2, 3, 255), px(200, 100, 50, 128), px(0, 0, 0, 0), px(255, 255, 255, 9)],
    };
    let back = png_round_trip(&img).unwrap();
    assert_eq!(back.width, 2);
    assert_eq!(back.height, 2);
    assert_eq!(back.pixels, img.pixels);
}

#[test]
fn decoding_garbage_reports_the_channel() {
    let junk = vec![1u8, 2, 3, 4, 5];
    match decode_image(Channel::Green, &junk) {
        Err(Error::Decode(Channel::Green)) => {},
        _ => panic!("expected a decode error naming the green channel"),
    }
}

#[test]
fn weight_validation_names_the_offending_channel() {
    let mut env = Env::new(args(1500, 0, 0, vec![], vec![]));
    assert_eq!(env.ensure_args(), Err(Error::Validation(Channel::Red)));
    let mut env = Env::new(args(1000, 1001, 0, vec![], vec![]));
    assert_eq!(env.ensure_args(), Err(Error::Validation(Channel::Green)));
    let mut env = Env::new(args(0, 0, 9999, vec![], vec![]));
    assert_eq!(env.ensure_args(), Err(Error::Validation(Channel::Blue)));
    assert_eq!(
        Error::Validation(Channel::Red).message(),
        "Red weight must be in [0, 1]"
    );
}

#[test]
fn negative_scale_factors_skip_without_aborting_siblings() {
    let mut env = Env::new(args(1000, 0, 0, vec![], vec![-500]));
    env.ensure_args().unwrap();
    assert_eq!(env.args.scale, vec![-500, 1000]);
    let r = solid(2, 2, px(10, 20, 30, 255));
    let g = solid(2, 2, px(0, 0, 0, 255));
    let b = solid(2, 2, px(0, 0, 0, 255));
    env.load_mask(&String::from("dir/m"), r, g, b).unwrap();
    let files = env.generate().unwrap();
    // The -0.5 factor is skipped; the 1.0 factor still produces its file.
    assert_eq!(files.len(), 1);
    assert_eq!(files[0].name, "m_2x2.png");
}

#[test]
fn end_to_end_scenario_reproduces_the_red_mask() {
    // Masks all 2x2, weights (1, 0, 0), scale [1.0]: one file, named
    // <dirname>_2x2.png, holding the red mask's RGB and alpha unchanged.
    let red_pixels = vec![px(1, 2, 3, 255), px(4, 5, 6, 200), px(7, 8, 9, 100), px(10, 11, 12, 50)];
    let red = ImageBuf { width: 2, height: 2, pixels: red_pixels.clone() };
    let green = solid(2, 2, px(123, 231, 132, 255));
    let blue = solid(2, 2, px(222, 111, 99, 255));

    let mut env = Env::new(args(1000, 0, 0, vec![String::from("masks/m")], vec![1000]));
    env.ensure_args().unwrap();
    env.load_mask(&String::from("masks/m"), red, green, blue).unwrap();
    let files = env.generate().unwrap();
    assert_eq!(files.len(), 1);
    assert_eq!(files[0].name, "m_2x2.png");

    let out = decode_image(Channel::Red, &files[0].data).unwrap();
    assert_eq!((out.width, out.height), (2, 2));
    assert_eq!(out.pixels, red_pixels);
}

#[test]
fn dimension_mismatch_aborts_loading_the_set() {
    let mut env = Env::new(args(500, 500, 500, vec![], vec![]));
    let r = solid(2, 2, px(0, 0, 0, 255));
    let g = solid(2, 3, px(0, 0, 0, 255));
    let b = solid(2, 2, px(0, 0, 0, 255));
    assert_eq!(env.load_mask(&String::from("m"), r, g, b), Err(Error::DimensionMismatch));
    assert_eq!(env.masks.len(), 0);
}

#[test]
fn reloading_a_label_replaces_its_mask_set() {
    let mut env = Env::new(args(0, 0, 0, vec![], vec![]));
    let mk = |v: u8| {
        (
            solid(1, 1, px(v, 0, 0, 255)),
            solid(1, 1, px(0, v, 0, 255)),
            solid(1, 1, px(0, 0, v, 255)),
        )
    };
    let (r, g, b) = mk(1);
    env.load_mask(&String::from("a/m"), r, g, b).unwrap();
    let (r, g, b) = mk(2);
    env.load_mask(&String::from("b/m"), r, g, b).unwrap();
    assert_eq!(env.masks.len(), 1);
    assert_eq!(env.masks[0].1.red.pixels[0].r, 2);
}

#[test]
fn preview_dirty_flag_follows_edits_and_renders() {
    let masks = vec![
        (
            String::from("m"),
            Mask::new(
                solid(1, 1, px(40, 50, 60, 255)),
                solid(1, 1, px(0, 0, 0, 255)),
                solid(1, 1, px(0, 0, 0, 255)),
            )
            .unwrap(),
        ),
    ];
    let mut view = PreView::new(Weights { r: 1000, g: 0, b: 0 }, masks);
    // Fresh view: the last rendered state is a sentinel, so a render is due.
    assert!(view.is_dirty());
    view.mark_rendered();
    assert!(!view.is_dirty());
    view.set_weight(Channel::Green, 250);
    assert!(view.is_dirty());
    view.mark_rendered();
    assert!(!view.is_dirty());
    view.set_scale(2000);
    assert!(view.is_dirty());
    view.mark_rendered();
    view.select_mask(String::from("m2"));
    assert!(view.is_dirty());
}

#[test]
fn preview_renders_a_256_by_256_image() {
    // A 1x1 source upsampled with the nearest kernel: every sample equal.
    let masks = vec![
        (
            String::from("m"),
            Mask::new(
                solid(1, 1, px(40, 50, 60, 255)),
                solid(1, 1, px(0, 0, 0, 255)),
                solid(1, 1, px(0, 0, 0, 255)),
            )
            .unwrap(),
        ),
    ];
    let view = PreView::new(Weights { r: 1000, g: 0, b: 0 }, masks);
    let img = view.preview_256x();
    assert_eq!((img.width, img.height), (256, 256));
    assert_eq!(img.pixels.len(), 256 * 256);
    for p in &img.pixels {
        assert_eq!(*p, px(40, 50, 60, 255));
    }
}

#[test]
fn preview_save_uses_the_current_scale_and_label() {
    let masks = vec![
        (
            String::from("m"),
            Mask::new(
                solid(2, 2, px(9, 9, 9, 255)),
                solid(2, 2, px(0, 0, 0, 255)),
                solid(2, 2, px(0, 0, 0, 255)),
            )
            .unwrap(),
        ),
    ];
    let mut view = PreView::new(Weights { r: 1000, g: 0, b: 0 }, masks);
    view.set_scale(2000);
    let file = view.render_save().unwrap().unwrap();
    assert_eq!(file.name, "m_4x4.png");
    let out = decode_image(Channel::Red, &file.data).unwrap();
    assert_eq!((out.width, out.height), (4, 4));
    // A non-positive display scale is skipped, not an error.
    view.set_scale(0);
    assert!(view.render_save().unwrap().is_none());
}

#[test]
fn tiny_scale_on_a_small_mask_is_a_size_error() {
    // 0.1 of a 2x2 mask would be a 0x0 output: the run aborts with a size
    // error rather than writing an empty file.
    let mut env = Env::new(args(1000, 0, 0, vec![], vec![100]));
    env.ensure_args().unwrap();
    let r = solid(2, 2, px(1, 1, 1, 255));
    let g = solid(2, 2, px(1, 1, 1, 255));
    let b = solid(2, 2, px(1, 1, 1, 255));
    env.load_mask(&String::from("m"), r, g, b).unwrap();
    match env.generate() {
        Err(Error::BadSize) => {},
        _ => panic!("expected a size error"),
    }
    assert_eq!(Error::BadSize.message(), "Scaled output size is not supported");
}

#[test]
fn ensure_args_sorts_and_dedups_and_adds_one() {
    let mut env = Env::new(args(0, 0, 0, vec![], vec![3000, 500, 3000]));
    env.ensure_args().unwrap();
    assert_eq!(env.args.scale, vec![500, 1000, 3000]);
}
