//! The export pipeline: one PNG per mask set and scale factor, with the
//! file's name and bytes pinned down, and non-positive factors skipped
//! without aborting the rest of the run.

use crate::codec::{encode_image, png_data_of, resized, resized_pixels, Filter};
use crate::color::Weights;
use crate::image_buf::bytes_of;
use crate::mask::{blend_pixel, GeneratedImage, Mask};
use crate::scale::{scale_dim, scaled_dim, SCALE_ONE};
use crate::text::{export_name_spec, render_export_name};
use crate::Error;
use vstd::arithmetic::div_mod::lemma_div_by_multiple;
use vstd::prelude::*;

verus! {

impl GeneratedImage {
    /// The name an export of the given dimensions takes.
    pub fn export_name(&self, basename: &String, width: u32, height: u32) -> (r: String)
        ensures
            r@ == export_name_spec(basename@, width, height),
    {
        render_export_name(basename, width, height)
    }

    /// The PNG bytes of the blend at scale 1.0; the caller writes them out.
    pub fn png_bytes(&self) -> (r: Vec<u8>)
        requires
            self.img.wf(),
        ensures
            r@ == png_data_of(bytes_of(self.img.pixels@), self.img.width, self.img.height),
    {
        encode_image(&self.img)
    }

    /// The PNG bytes of the blend resampled to new dimensions.
    pub fn png_bytes_scaled(&self, nwidth: u32, nheight: u32, filter: Filter) -> (r: Vec<u8>)
        requires
            self.img.wf(),
            1 <= nwidth,
            1 <= nheight,
            4 * nwidth * nheight < 0x1000_0000,
        ensures
            r@ == png_data_of(
                resized_pixels(
                    bytes_of(self.img.pixels@),
                    self.img.width,
                    self.img.height,
                    nwidth,
                    nheight,
                    filter.code(),
                ),
                nwidth,
                nheight,
            ),
    {
        let scaled = resized(&self.img, nwidth, nheight, filter);
        encode_image(&scaled)
    }
}

/// One file produced by a run: its name and its PNG bytes.
pub struct ExportFile {
    pub name: String,
    pub data: Vec<u8>,
}

/// The mathematical view of a file list: each file's name and bytes.
pub open spec fn files_view(files: Seq<ExportFile>) -> Seq<(Seq<char>, Seq<u8>)> {
    Seq::new(files.len(), |i: int| (files[i].name@, files[i].data@))
}

/// The blend of a mask set under given weights, pixel by pixel.
pub open spec fn blended_pixels(m: Mask, w: Weights) -> Seq<crate::color::Rgba> {
    Seq::new(
        m.red.pixels@.len(),
        |k: int| blend_pixel(w, m.red.pixels@[k], m.green.pixels@[k], m.blue.pixels@[k]),
    )
}

/// Whether exporting this mask set at this factor yields a supported size.
pub open spec fn size_ok(m: Mask, s: i64) -> bool {
    let nw = scaled_dim(m.spec_width(), s);
    let nh = scaled_dim(m.spec_height(), s);
    &&& 1 <= nw
    &&& 1 <= nh
    &&& 4 * nw * nh < 0x1000_0000
}

/// Every positive factor yields a supported size for every mask set.
pub open spec fn sizes_ok(masks: Seq<(String, Mask)>, scales: Seq<i64>) -> bool {
    forall|i: int, j: int|
        0 <= i < masks.len() && 0 <= j < scales.len() && scales[j] > 0 ==> size_ok(
            masks[i].1,
            scales[j],
        )
}

/// The one file an export of mask set `m`, labelled `label`, produces at
/// factor `s`: its name and its PNG bytes. At factor 1.0 the blend is encoded
/// as it is; at any other factor it is resampled first.
pub open spec fn one_export(
    label: Seq<char>,
    m: Mask,
    w: Weights,
    s: i64,
    f: Filter,
) -> (Seq<char>, Seq<u8>) {
    let nw = scaled_dim(m.spec_width(), s);
    let nh = scaled_dim(m.spec_height(), s);
    let blend = bytes_of(blended_pixels(m, w));
    (
        export_name_spec(label, nw, nh),
        if s == SCALE_ONE {
            png_data_of(blend, m.spec_width(), m.spec_height())
        } else {
            png_data_of(
                resized_pixels(blend, m.spec_width(), m.spec_height(), nw, nh, f.code()),
                nw,
                nh,
            )
        },
    )
}

/// The files one factor produces across the mask sets, in their order;
/// a non-positive factor produces none.
pub open spec fn expected_for_scale(
    masks: Seq<(String, Mask)>,
    w: Weights,
    s: i64,
    f: Filter,
) -> Seq<(Seq<char>, Seq<u8>)>
    decreases masks.len(),
{
    if s <= 0 {
        Seq::empty()
    } else if masks.len() == 0 {
        Seq::empty()
    } else {
        expected_for_scale(masks.drop_last(), w, s, f) + seq![
            one_export(masks.last().0@, masks.last().1, w, s, f),
        ]
    }
}

/// Every file a run produces, factor by factor, mask set by mask set.
pub open spec fn expected_files(
    masks: Seq<(String, Mask)>,
    w: Weights,
    scales: Seq<i64>,
    f: Filter,
) -> Seq<(Seq<char>, Seq<u8>)>
    decreases scales.len(),
{
    if scales.len() == 0 {
        Seq::empty()
    } else {
        expected_files(masks, w, scales.drop_last(), f) + expected_for_scale(
            masks,
            w,
            scales.last(),
            f,
        )
    }
}

/// Export one mask set at one factor. A non-positive factor is skipped
/// (`None`) and never aborts the run; an unsupported output size aborts with
/// `Error::BadSize`; otherwise the produced file is exactly `one_export`.
pub fn export_scaled(mask: &Mask, weight: &Weights, label: &String, s: i64, filter: Filter) -> (r:
    Result<Option<ExportFile>, Error>)
    requires
        mask.wf(),
    ensures
        s <= 0 ==> (r matches Ok(o) && o is None),
        s > 0 && size_ok(*mask, s) ==> (r matches Ok(o) && o matches Some(file) && (
        file.name@,
        file.data@,
        ) == one_export(label@, *mask, *weight, s, filter)),
        s > 0 && !size_ok(*mask, s) ==> (r matches Err(e) && e == Error::BadSize),
    {
    if s <= 0 {
        return Ok(None);
    }
    let generated = mask.generate(weight);
    proof {
        assert(generated.img.pixels@ =~= blended_pixels(*mask, *weight));
    }
    let nw = scale_dim(generated.img.width, s);
    let nh = scale_dim(generated.img.height, s);
    if nw == 0 || nh == 0 {
        return Err(Error::BadSize);
    }
    proof {
        assert((4 * nw) * nh <= (4 * 0xFFFF_FFFF) * 0xFFFF_FFFF) by (nonlinear_arith)
            requires
                nw <= 0xFFFF_FFFF,
                nh <= 0xFFFF_FFFF,
        ;
    }
    let size: u128 = 4u128 * nw as u128 * nh as u128;
    if size >= 0x1000_0000 {
        return Err(Error::BadSize);
    }
    let name = render_export_name(label, nw, nh);
    let data = if s == SCALE_ONE {
        proof {
            lemma_div_by_multiple(generated.img.width as int, SCALE_ONE as int);
            lemma_div_by_multiple(generated.img.height as int, SCALE_ONE as int);
            assert(nw == generated.img.width);
            assert(nh == generated.img.height);
        }
        generated.png_bytes()
    } else {
        generated.png_bytes_scaled(nw, nh, filter)
    };
    Ok(Some(ExportFile { name, data }))
}

/// Run the whole batch: every mask set at every factor, factors in list
/// order, mask sets in list order. Non-positive factors are skipped one by
/// one; they never abort sibling factors or sibling mask sets. The run aborts
/// only when a positive factor yields an unsupported size.
pub fn generate_all(
    masks: &Vec<(String, Mask)>,
    weight: &Weights,
    scales: &Vec<i64>,
    filter: Filter,
) -> (r: Result<Vec<ExportFile>, Error>)
    requires
        forall|i: int| 0 <= i < masks@.len() ==> (#[trigger] masks@[i]).1.wf(),
    ensures
        r matches Ok(files) ==> files_view(files@) == expected_files(
            masks@,
            *weight,
            scales@,
            filter,
        ),
        r matches Err(e) ==> e == Error::BadSize && !sizes_ok(masks@, scales@),
        sizes_ok(masks@, scales@) ==> r is Ok,
{
    let mut files: Vec<ExportFile> = Vec::new();
    let ns: usize = scales.len();
    let mut si: usize = 0;
    while si < ns
        invariant
            si <= ns,
            ns == scales@.len(),
            forall|i: int| 0 <= i < masks@.len() ==> (#[trigger] masks@[i]).1.wf(),
            files_view(files@) == expected_files(masks@, *weight, scales@.subrange(0, si as int), filter),
        decreases ns - si,
    {
        let s = scales[si];
        let nm: usize = masks.len();
        let mut mi: usize = 0;
        while mi < nm
            invariant
                mi <= nm,
                si < ns,
                nm == masks@.len(),
                ns == scales@.len(),
                s == scales@[si as int],
                forall|i: int| 0 <= i < masks@.len() ==> (#[trigger] masks@[i]).1.wf(),
                files_view(files@) == expected_files(masks@, *weight, scales@.subrange(0, si as int), filter)
                    + expected_for_scale(masks@.subrange(0, mi as int), *weight, s, filter),
            decreases nm - mi,
        {
            let ghost mask_prefix = masks@.subrange(0, mi as int);
            match export_scaled(&masks[mi].1, weight, &masks[mi].0, s, filter) {
                Ok(Some(file)) => {
                    let ghost old_files = files@;
                    proof {
                        assert(s > 0);
                    }
                    files.push(file);
                    proof {
                        let next = masks@.subrange(0, mi as int + 1);
                        assert(next.drop_last() =~= mask_prefix);
                        assert(next.last() == masks@[mi as int]);
                        assert(files_view(files@) =~= files_view(old_files) + seq![
                            (files@.last().name@, files@.last().data@),
                        ]);
                        assert(expected_for_scale(next, *weight, s, filter)
                            == expected_for_scale(mask_prefix, *weight, s, filter) + seq![
                            one_export(masks@[mi as int].0@, masks@[mi as int].1, *weight, s, filter),
                        ]);
                    }
                },
                Ok(None) => {
                    proof {
                        assert(s <= 0);
                        let next = masks@.subrange(0, mi as int + 1);
                        assert(expected_for_scale(next, *weight, s, filter) =~= expected_for_scale(
                            mask_prefix,
                            *weight,
                            s,
                            filter,
                        ));
                    }
                },
                Err(e) => {
                    proof {
                        assert(s > 0 && !size_ok(masks@[mi as int].1, s));
                        assert(!sizes_ok(masks@, scales@));
                    }
                    return Err(e);
                },
            }
            mi = mi + 1;
        }
        proof {
            assert(masks@.subrange(0, nm as int) =~= masks@);
            let next = scales@.subrange(0, si as int + 1);
            assert(next.drop_last() =~= scales@.subrange(0, si as int));
            assert(next.last() == scales@[si as int]);
            assert(expected_files(masks@, *weight, next, filter) == expected_files(
                masks@,
                *weight,
                scales@.subrange(0, si as int),
                filter,
            ) + expected_for_scale(masks@, *weight, s, filter));
        }
        si = si + 1;
    }
    proof {
        assert(scales@.subrange(0, ns as int) =~= scales@);
    }
    Ok(files)
}

} // verus!
