//! The run's configuration and state: the parsed arguments, the loaded mask
//! sets, weight validation, scale-list normalization, and the batch export.

use crate::codec::Filter;
use crate::color::{Weights, WEIGHT_ONE};
use crate::export::{expected_files, generate_all, sizes_ok, ExportFile};
use crate::image_buf::ImageBuf;
use crate::mask::Mask;
use crate::scale::{normalize_scales, strictly_sorted, SCALE_ONE};
use crate::text::{basename_of, path_basename};
use crate::{Channel, Error};
use vstd::prelude::*;

verus! {

/// The run's arguments, as the command line supplies them: three channel
/// weights in fixed point, an output directory, the mask directories, the
/// requested scale factors in fixed point, the resampling kernel, and
/// whether to open the preview instead of batch-exporting.
pub struct Args {
    pub r: u32,
    pub g: u32,
    pub b: u32,
    pub output: String,
    pub mask_directories: Vec<String>,
    pub scale: Vec<i64>,
    pub filter: Filter,
    pub preview: bool,
}

impl Args {
    /// The weight triple the arguments carry.
    pub open spec fn spec_weights(&self) -> Weights {
        Weights { r: self.r, g: self.g, b: self.b }
    }

    /// The weight triple the arguments carry.
    pub fn weights(&self) -> (r: Weights)
        ensures
            r == self.spec_weights(),
    {
        Weights { r: self.r, g: self.g, b: self.b }
    }
}

/// Whether a label is already present in a mask store.
pub open spec fn has_key(ms: Seq<(String, Mask)>, key: Seq<char>) -> bool {
    exists|j: int| 0 <= j < ms.len() && (#[trigger] ms[j]).0@ == key
}

/// The index a label sits at in a mask store.
pub open spec fn key_index(ms: Seq<(String, Mask)>, key: Seq<char>) -> int {
    choose|j: int| 0 <= j < ms.len() && (#[trigger] ms[j]).0@ == key
}

/// The mask set stored under a label.
pub open spec fn mask_at(ms: Seq<(String, Mask)>, key: Seq<char>) -> Mask {
    ms[key_index(ms, key)].1
}

/// The run's state: its arguments and the mask sets loaded so far, each under
/// the label derived from its directory, labels unique, in load order.
pub struct Env {
    pub args: Args,
    pub masks: Vec<(String, Mask)>,
}

impl Env {
    /// Well-formed: every stored mask set is well-formed and no label repeats.
    pub open spec fn wf(&self) -> bool {
        &&& forall|i: int| 0 <= i < self.masks@.len() ==> (#[trigger] self.masks@[i]).1.wf()
        &&& forall|i: int, j: int|
            0 <= i < j < self.masks@.len() ==> self.masks@[i].0@ != self.masks@[j].0@
    }

    /// A fresh run: the given arguments and no mask set loaded yet.
    pub fn new(args: Args) -> (r: Env)
        ensures
            r.args == args,
            r.masks@.len() == 0,
            r.wf(),
    {
        Env { args, masks: Vec::new() }
    }

    /// Validate the weights and normalize the scale list. Each weight must
    /// lie in [0, 1]; the first offender aborts, named, before anything else
    /// happens. On success the scale list is strictly increasing, holds 1.0
    /// even when it was not supplied, holds each requested factor once, and
    /// nothing else changes.
    pub fn ensure_args(&mut self) -> (res: Result<(), Error>)
        ensures
            final(self).masks == old(self).masks,
            final(self).args.r == old(self).args.r,
            final(self).args.g == old(self).args.g,
            final(self).args.b == old(self).args.b,
            final(self).args.output == old(self).args.output,
            final(self).args.mask_directories == old(self).args.mask_directories,
            final(self).args.filter == old(self).args.filter,
            final(self).args.preview == old(self).args.preview,
            res is Ok <==> (old(self).args.r <= WEIGHT_ONE && old(self).args.g <= WEIGHT_ONE && old(self).args.b <= WEIGHT_ONE),
            res is Err ==> final(self).args.scale == old(self).args.scale,
            old(self).args.r > WEIGHT_ONE ==> res == Result::<(), Error>::Err(
                Error::Validation(Channel::Red),
            ),
            old(self).args.r <= WEIGHT_ONE && old(self).args.g > WEIGHT_ONE ==> res == Result::<
                (),
                Error,
            >::Err(Error::Validation(Channel::Green)),
            old(self).args.r <= WEIGHT_ONE && old(self).args.g <= WEIGHT_ONE && old(self).args.b
                > WEIGHT_ONE ==> res == Result::<(), Error>::Err(Error::Validation(Channel::Blue)),
            res is Ok ==> strictly_sorted(final(self).args.scale@),
            res is Ok ==> forall|y: i64|
                final(self).args.scale@.contains(y) <==> (old(self).args.scale@.contains(y) || y
                    == SCALE_ONE),
            res is Ok ==> final(self).args.scale@.contains(SCALE_ONE),
    {
        if self.args.r > WEIGHT_ONE {
            return Err(Error::Validation(Channel::Red));
        }
        if self.args.g > WEIGHT_ONE {
            return Err(Error::Validation(Channel::Green));
        }
        if self.args.b > WEIGHT_ONE {
            return Err(Error::Validation(Channel::Blue));
        }
        let normalized = normalize_scales(&self.args.scale);
        self.args.scale = normalized;
        Ok(())
    }

    /// Store one mask set under the label derived from its directory path.
    /// The three images must share one dimension, or the set is refused with
    /// `Error::DimensionMismatch` and nothing changes. A reloaded label
    /// replaces its mask set in place; a new one is appended.
    pub fn load_mask(&mut self, path: &String, red: ImageBuf, green: ImageBuf, blue: ImageBuf) -> (res:
        Result<(), Error>)
        requires
            old(self).wf(),
            red.wf(),
            green.wf(),
            blue.wf(),
        ensures
            final(self).wf(),
            final(self).args == old(self).args,
            res is Ok <==> (green.width == red.width && green.height == red.height && blue.width
                == red.width && blue.height == red.height),
            res matches Err(e) ==> e == Error::DimensionMismatch && final(self).masks == old(self).masks,
            res is Ok && has_key(old(self).masks@, basename_of(path@)) ==> (final(self).masks@.len() == old(self).masks@.len() && final(self).masks@[key_index(
                old(self).masks@,
                basename_of(path@),
            )].0@ == basename_of(path@) && final(self).masks@[key_index(
                old(self).masks@,
                basename_of(path@),
            )].1 == (Mask { red, green, blue }) && (forall|i: int|
                0 <= i < old(self).masks@.len() && i != key_index(
                    old(self).masks@,
                    basename_of(path@),
                ) ==> final(self).masks@[i] == old(self).masks@[i])),
            res is Ok && !has_key(old(self).masks@, basename_of(path@)) ==> (final(self).masks@.len()
                == old(self).masks@.len() + 1 && final(self).masks@.drop_last() == old(self).masks@
                && final(self).masks@.last().0@ == basename_of(path@) && final(self).masks@.last().1
                == (Mask { red, green, blue })),
    {
        let ghost key = basename_of(path@);
        let mask = match Mask::new(red, green, blue) {
            Ok(m) => m,
            Err(e) => {
                return Err(e);
            },
        };
        let name = path_basename(path);
        let n: usize = self.masks.len();
        let mut j: usize = 0;
        while j < n
            invariant
                j <= n,
                n == self.masks@.len(),
                name@ == key,
                key == basename_of(path@),
                self.masks@ == old(self).masks@,
                self.args == old(self).args,
                old(self).wf(),
                mask.wf(),
                mask == (Mask { red, green, blue }),
                green.width == red.width && green.height == red.height,
                blue.width == red.width && blue.height == red.height,
                forall|k: int| 0 <= k < j ==> (#[trigger] self.masks@[k]).0@ != key,
            decreases n - j,
        {
            if self.masks[j].0 == name {
                let ghost before = self.masks@;
                let kept = self.masks[j].0.clone();
                self.masks.set(j, (kept, mask));
                proof {
                    assert(before[j as int].0@ == key);
                    assert(has_key(before, key));
                    let idx = key_index(before, key);
                    assert(0 <= idx < before.len() && before[idx].0@ == key);
                    assert(idx == j as int) by {
                        if idx < j as int {
                            assert(before[idx].0@ != key);
                        }
                        if idx > j as int {
                            assert(before[j as int].0@ != before[idx].0@);
                        }
                    }
                    assert(self.masks@[j as int].0@ == key);
                    assert(forall|i: int|
                        0 <= i < before.len() && i != j as int ==> self.masks@[i] == before[i]);
                    assert forall|a: int, b: int|
                        0 <= a < b < self.masks@.len() implies self.masks@[a].0@
                        != self.masks@[b].0@ by {
                        assert(before[a].0@ != before[b].0@);
                        assert(self.masks@[a].0@ == before[a].0@);
                        assert(self.masks@[b].0@ == before[b].0@);
                    }
                }
                return Ok(());
            }
            j = j + 1;
        }
        let ghost before = self.masks@;
        proof {
            assert forall|jj: int| 0 <= jj < before.len() implies (#[trigger] before[jj]).0@
                != key by {}
            assert(!has_key(before, key));
        }
        self.masks.push((name, mask));
        proof {
            assert(self.masks@.drop_last() =~= before);
            assert(self.masks@.last().0@ == key);
            assert forall|a: int, b: int|
                0 <= a < b < self.masks@.len() implies self.masks@[a].0@ != self.masks@[b].0@ by {
                if b < before.len() {
                    assert(before[a].0@ != before[b].0@);
                    assert(self.masks@[a] == before[a] && self.masks@[b] == before[b]);
                } else {
                    assert(self.masks@[a] == before[a]);
                    assert(before[a].0@ != key);
                }
            }
        }
        Ok(())
    }

    /// Export every loaded mask set at every scale factor: the batch of
    /// `expected_files`, non-positive factors skipped one by one.
    pub fn generate(&self) -> (res: Result<Vec<ExportFile>, Error>)
        requires
            self.wf(),
        ensures
            res matches Ok(files) ==> crate::export::files_view(files@) == expected_files(
                self.masks@,
                self.args.spec_weights(),
                self.args.scale@,
                self.args.filter,
            ),
            res matches Err(e) ==> e == Error::BadSize && !sizes_ok(self.masks@, self.args.scale@),
            sizes_ok(self.masks@, self.args.scale@) ==> res is Ok,
    {
        let weight = self.args.weights();
        generate_all(&self.masks, &weight, &self.args.scale, self.args.filter)
    }
}

} // verus!
