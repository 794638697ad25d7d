//! The interactive preview's state: the selected mask set, the weight triple
//! and display scale being edited, and the dirty flag that gates re-rendering.
//! The window itself belongs to a UI runtime; this is what it re-renders and
//! saves, and when.

use crate::codec::{resized, resized_pixels, Filter};
use crate::color::Weights;
use crate::env::{has_key, key_index, mask_at};
use crate::export::{blended_pixels, export_scaled, one_export, size_ok, ExportFile};
use crate::image_buf::{bytes_of, ImageBuf};
use crate::mask::Mask;
use crate::scale::SCALE_ONE;
use crate::{Channel, Error};
use vstd::prelude::*;

verus! {

/// What the preview is showing or about to show: the weights and display
/// scale being edited and the label of the selected mask set.
pub struct PreviewArgs {
    pub weight: Weights,
    pub scale: i64,
    pub key: String,
}

/// Two preview states show the same thing: same weights, same scale, same
/// selected label.
pub open spec fn args_eq(a: PreviewArgs, b: PreviewArgs) -> bool {
    &&& a.weight == b.weight
    &&& a.scale == b.scale
    &&& a.key@ == b.key@
}

impl PreviewArgs {
    /// A fresh edit state: the given weights, display scale 1.0, the given
    /// selected label.
    pub fn new(weight: Weights, default_key: String) -> (r: PreviewArgs)
        ensures
            r.weight == weight,
            r.scale == SCALE_ONE,
            r.key == default_key,
    {
        PreviewArgs { weight, scale: SCALE_ONE, key: default_key }
    }

    /// A copy that shows the same thing.
    pub fn duplicate(&self) -> (r: PreviewArgs)
        ensures
            args_eq(*self, r),
    {
        PreviewArgs { weight: self.weight, scale: self.scale, key: self.key.clone() }
    }
}

/// The preview's state machine: clean while the last rendered state equals
/// the current one, dirty as soon as an edit changes the current one, clean
/// again once a render pass records it.
pub struct PreView {
    pub masks: Vec<(String, Mask)>,
    pub current: PreviewArgs,
    pub last: PreviewArgs,
}

impl PreView {
    /// Well-formed: at least one mask set, all well-formed, labels unique.
    pub open spec fn wf(&self) -> bool {
        &&& self.masks@.len() >= 1
        &&& forall|i: int| 0 <= i < self.masks@.len() ==> (#[trigger] self.masks@[i]).1.wf()
        &&& forall|i: int, j: int|
            0 <= i < j < self.masks@.len() ==> self.masks@[i].0@ != self.masks@[j].0@
    }

    /// Clean: the last render still shows the current state.
    pub open spec fn is_clean(&self) -> bool {
        args_eq(self.current, self.last)
    }

    /// Open the preview on the first loaded mask set with the run's weights.
    /// The last rendered state starts out as zero weights and an empty label,
    /// so the first frame normally finds the view dirty and renders.
    pub fn new(weight: Weights, masks: Vec<(String, Mask)>) -> (r: PreView)
        requires
            masks@.len() >= 1,
            forall|i: int| 0 <= i < masks@.len() ==> (#[trigger] masks@[i]).1.wf(),
            forall|i: int, j: int| 0 <= i < j < masks@.len() ==> masks@[i].0@ != masks@[j].0@,
        ensures
            r.wf(),
            r.masks == masks,
            r.current.weight == weight,
            r.current.scale == SCALE_ONE,
            r.current.key@ == masks@[0].0@,
            r.last.weight == (Weights { r: 0, g: 0, b: 0 }),
            r.last.scale == SCALE_ONE,
            r.last.key@ == Seq::<char>::empty(),
    {
        let first = masks[0].0.clone();
        let current = PreviewArgs::new(weight, first);
        let last = PreviewArgs::new(Weights { r: 0, g: 0, b: 0 }, String::new());
        PreView { masks, current, last }
    }

    /// Whether a render pass is due: the current state differs from the last
    /// rendered one.
    pub fn is_dirty(&self) -> (r: bool)
        ensures
            r == !self.is_clean(),
    {
        !(self.current.weight == self.last.weight && self.current.scale == self.last.scale
            && self.current.key == self.last.key)
    }

    /// Edit one weight. Only the current state moves; the view turns dirty
    /// whenever the new value shows something else.
    pub fn set_weight(&mut self, channel: Channel, v: u32)
        ensures
            final(self).masks == old(self).masks,
            final(self).last == old(self).last,
            final(self).current.scale == old(self).current.scale,
            final(self).current.key == old(self).current.key,
            channel == Channel::Red ==> final(self).current.weight == (Weights {
                r: v,
                ..old(self).current.weight
            }),
            channel == Channel::Green ==> final(self).current.weight == (Weights {
                g: v,
                ..old(self).current.weight
            }),
            channel == Channel::Blue ==> final(self).current.weight == (Weights {
                b: v,
                ..old(self).current.weight
            }),
    {
        match channel {
            Channel::Red => {
                self.current.weight.r = v;
            },
            Channel::Green => {
                self.current.weight.g = v;
            },
            Channel::Blue => {
                self.current.weight.b = v;
            },
        }
    }

    /// Edit the display scale. Only the current state moves.
    pub fn set_scale(&mut self, s: i64)
        ensures
            final(self).masks == old(self).masks,
            final(self).last == old(self).last,
            final(self).current.weight == old(self).current.weight,
            final(self).current.key == old(self).current.key,
            final(self).current.scale == s,
    {
        self.current.scale = s;
    }

    /// Select another mask set. Only the current state moves.
    pub fn select_mask(&mut self, key: String)
        ensures
            final(self).masks == old(self).masks,
            final(self).last == old(self).last,
            final(self).current.weight == old(self).current.weight,
            final(self).current.scale == old(self).current.scale,
            final(self).current.key == key,
    {
        self.current.key = key;
    }

    /// Record that a render pass has shown the current state: the view is
    /// clean until the next edit.
    pub fn mark_rendered(&mut self)
        ensures
            final(self).masks == old(self).masks,
            final(self).current == old(self).current,
            final(self).is_clean(),
    {
        self.last = self.current.duplicate();
    }

    /// The index the selected mask set sits at.
    fn find_mask(&self) -> (j: usize)
        requires
            self.wf(),
            has_key(self.masks@, self.current.key@),
        ensures
            j < self.masks@.len(),
            self.masks@[j as int].0@ == self.current.key@,
            self.masks@[j as int].1 == mask_at(self.masks@, self.current.key@),
    {
        let n: usize = self.masks.len();
        let mut j: usize = 0;
        while j < n
            invariant
                j <= n,
                n == self.masks@.len(),
                self.wf(),
                has_key(self.masks@, self.current.key@),
                forall|k: int| 0 <= k < j ==> (#[trigger] self.masks@[k]).0@ != self.current.key@,
            decreases n - j,
        {
            if self.masks[j].0 == self.current.key {
                proof {
                    let idx = key_index(self.masks@, self.current.key@);
                    assert(self.masks@[j as int].0@ == self.current.key@);
                    assert(has_key(self.masks@, self.current.key@));
                    assert(0 <= idx < self.masks@.len() && self.masks@[idx].0@
                        == self.current.key@);
                    if idx < j as int {
                        assert(self.masks@[idx].0@ != self.current.key@);
                    }
                    if idx > j as int {
                        assert(self.masks@[j as int].0@ != self.masks@[idx].0@);
                    }
                }
                return j;
            }
            j = j + 1;
        }
        proof {
            let idx = key_index(self.masks@, self.current.key@);
            assert(0 <= idx < self.masks@.len() && self.masks@[idx].0@ == self.current.key@);
            assert(false);
        }
        0
    }

    /// The fixed small preview: the current blend, downsampled to 256 x 256
    /// with the nearest-neighbor kernel.
    pub fn preview_256x(&self) -> (r: ImageBuf)
        requires
            self.wf(),
            has_key(self.masks@, self.current.key@),
        ensures
            r.wf(),
            r.width == 256,
            r.height == 256,
            bytes_of(r.pixels@) == resized_pixels(
                bytes_of(
                    blended_pixels(mask_at(self.masks@, self.current.key@), self.current.weight),
                ),
                mask_at(self.masks@, self.current.key@).spec_width(),
                mask_at(self.masks@, self.current.key@).spec_height(),
                256,
                256,
                Filter::Nearest.code(),
            ),
    {
        let j = self.find_mask();
        let img = self.masks[j].1.generate(&self.current.weight).img;
        proof {
            assert(img.pixels@ =~= blended_pixels(
                mask_at(self.masks@, self.current.key@),
                self.current.weight,
            ));
        }
        resized(&img, 256, 256, Filter::Nearest)
    }

    /// The save action: export the current blend at the current display
    /// scale with the Lanczos kernel, named after the selected label. The
    /// caller takes the file to wherever the user chose.
    pub fn render_save(&self) -> (r: Result<Option<ExportFile>, Error>)
        requires
            self.wf(),
            has_key(self.masks@, self.current.key@),
        ensures
            self.current.scale <= 0 ==> (r matches Ok(o) && o is None),
            self.current.scale > 0 && size_ok(
                mask_at(self.masks@, self.current.key@),
                self.current.scale,
            ) ==> (r matches Ok(o) && o matches Some(file) && (file.name@, file.data@)
                == one_export(
                self.current.key@,
                mask_at(self.masks@, self.current.key@),
                self.current.weight,
                self.current.scale,
                Filter::Lanczos3,
            )),
            self.current.scale > 0 && !size_ok(
                mask_at(self.masks@, self.current.key@),
                self.current.scale,
            ) ==> (r matches Err(e) && e == Error::BadSize),
    {
        let j = self.find_mask();
        export_scaled(
            &self.masks[j].1,
            &self.current.weight,
            &self.current.key,
            self.current.scale,
            Filter::Lanczos3,
        )
    }
}

} // verus!
