//! Pixels, blend weights, and the per-channel mixing arithmetic.

use vstd::arithmetic::div_mod::{
    lemma_div_multiples_vanish_quotient, lemma_multiply_divide_le, lemma_multiply_divide_lt,
};
use vstd::prelude::*;

verus! {

/// One RGBA sample with 8-bit channels, as PNG stores them.
#[derive(Clone, Copy, PartialEq, Eq, Structural, Debug)]
pub struct Rgba {
    pub r: u8,
    pub g: u8,
    pub b: u8,
    pub a: u8,
}

impl Rgba {
    /// The fully transparent black sample.
    pub open spec fn transparent() -> Rgba {
        Rgba { r: 0, g: 0, b: 0, a: 0 }
    }
}

/// Per-channel blend weights in fixed point: `WEIGHT_ONE` stands for 1.0.
/// Only the proportions matter (see `lemma_mix_channel_scale_invariant`),
/// so nothing forces the fields to stay at or under `WEIGHT_ONE`.
#[derive(Clone, Copy, PartialEq, Eq, Structural, Debug)]
pub struct Weights {
    pub r: u32,
    pub g: u32,
    pub b: u32,
}

/// The fixed-point representation of the weight 1.0.
pub const WEIGHT_ONE: u32 = 1000;

/// The sum of the three weights, the normalizing denominator of the mixer.
pub open spec fn weight_total(w: Weights) -> int {
    w.r + w.g + w.b
}

/// The weighted sum of three channel samples, one from each mask.
pub open spec fn weighted_sum(w: Weights, v0: u8, v1: u8, v2: u8) -> int {
    w.r * v0 + w.g * v1 + w.b * v2
}

/// One blended output channel: the weighted average of the three masks'
/// samples for that channel, normalized by the weight sum and rounded to the
/// nearest integer (halves round up); 0 when all three weights are 0.
pub open spec fn mix_channel(w: Weights, v0: u8, v1: u8, v2: u8) -> int {
    if weight_total(w) == 0 {
        0
    } else {
        (2 * weighted_sum(w, v0, v1, v2) + weight_total(w)) / (2 * weight_total(w))
    }
}

/// The mixed channel is a convex combination of 8-bit samples, so it always
/// fits in one byte; no clamping step is ever needed.
pub proof fn lemma_mix_channel_bounds(w: Weights, v0: u8, v1: u8, v2: u8)
    ensures
        0 <= mix_channel(w, v0, v1, v2) <= 255,
{
    let d = weight_total(w);
    let s = weighted_sum(w, v0, v1, v2);
    if d != 0 {
        assert(0 <= s <= 255 * d) by (nonlinear_arith)
            requires
                s == w.r * v0 + w.g * v1 + w.b * v2,
                d == w.r + w.g + w.b,
                v0 <= 255 && v1 <= 255 && v2 <= 255,
                w.r >= 0 && w.g >= 0 && w.b >= 0,
        ;
        assert(2 * s + d < (2 * d) * 256) by (nonlinear_arith)
            requires
                0 <= s <= 255 * d,
                d > 0,
        ;
        lemma_multiply_divide_lt(2 * s + d, 2 * d, 256);
        assert((2 * s + d) / (2 * d) >= 0) by {
            vstd::arithmetic::div_mod::lemma_div_pos_is_pos(2 * s + d, 2 * d);
        }
    }
}

/// The mixed channel is the true weighted average `s / d`, to the nearest
/// integer: it never strays from the exact ratio by more than one half, and
/// where the ratio is an integer it is hit exactly.
pub proof fn lemma_mix_channel_is_weighted_average(w: Weights, v0: u8, v1: u8, v2: u8)
    requires
        weight_total(w) > 0,
    ensures
        2 * weighted_sum(w, v0, v1, v2) - weight_total(w)
            <= 2 * weight_total(w) * mix_channel(w, v0, v1, v2)
            <= 2 * weighted_sum(w, v0, v1, v2) + weight_total(w),
        weighted_sum(w, v0, v1, v2) % weight_total(w) == 0
            ==> mix_channel(w, v0, v1, v2) == weighted_sum(w, v0, v1, v2) / weight_total(w),
{
    let d = weight_total(w);
    let s = weighted_sum(w, v0, v1, v2);
    let q = (2 * s + d) / (2 * d);
    vstd::arithmetic::div_mod::lemma_fundamental_div_mod(2 * s + d, 2 * d);
    vstd::arithmetic::div_mod::lemma_mod_bound(2 * s + d, 2 * d);
    assert(2 * d * q <= 2 * s + d);
    assert(2 * s + d < 2 * d * q + 2 * d);
    if s % d == 0 {
        vstd::arithmetic::div_mod::lemma_fundamental_div_mod(s, d);
        let p = s / d;
        assert(s == d * p);
        assert(2 * (d * p) + d == (2 * d) * p + d) by (nonlinear_arith);
        assert((2 * d) * p + d >= 0) by (nonlinear_arith)
            requires
                d > 0,
                p >= 0,
                s == d * p,
                s >= 0,
        ;
        vstd::arithmetic::div_mod::lemma_hoist_over_denominator(d, p, (2 * d) as nat);
        assert(d / (2 * d) + p == (d + p * (2 * d)) / (2 * d));
        vstd::arithmetic::div_mod::lemma_basic_div(d, 2 * d);
        assert(d / (2 * d) == 0);
        assert(d + p * (2 * d) == 2 * s + d) by (nonlinear_arith)
            requires
                s == d * p,
        ;
        assert(q == p);
    }
}

/// Scaling all three weights by one positive factor leaves every mixed
/// channel unchanged: weights behave as proportions.
pub proof fn lemma_mix_channel_scale_invariant(
    w: Weights,
    wk: Weights,
    k: int,
    v0: u8,
    v1: u8,
    v2: u8,
)
    requires
        k > 0,
        wk.r == k * w.r,
        wk.g == k * w.g,
        wk.b == k * w.b,
    ensures
        mix_channel(wk, v0, v1, v2) == mix_channel(w, v0, v1, v2),
{
    let d = weight_total(w);
    let s = weighted_sum(w, v0, v1, v2);
    let dk = weight_total(wk);
    let sk = weighted_sum(wk, v0, v1, v2);
    assert(dk == k * d) by (nonlinear_arith)
        requires
            dk == k * w.r + k * w.g + k * w.b,
            d == w.r + w.g + w.b,
    ;
    assert(sk == k * s) by (nonlinear_arith)
        requires
            sk == (k * w.r) * v0 + (k * w.g) * v1 + (k * w.b) * v2,
            s == w.r * v0 + w.g * v1 + w.b * v2,
    ;
    if d == 0 {
        assert(dk == k * 0 == 0) by (nonlinear_arith)
            requires
                dk == k * d,
                d == 0,
        ;
    } else {
        assert(2 * sk + dk == k * (2 * s + d) && 2 * dk == k * (2 * d)) by (nonlinear_arith)
            requires
                sk == k * s,
                dk == k * d,
        ;
        assert(0 <= 2 * s + d) by (nonlinear_arith)
            requires
                s >= 0,
                d > 0,
        ;
        lemma_div_multiples_vanish_quotient(k, 2 * s + d, 2 * d);
        assert((2 * s + d) / (2 * d) == (k * (2 * s + d)) / (k * (2 * d)));
    }
}

/// Blend one channel across the three masks: the normalizing mixer.
pub fn apply_weight(weight: &Weights, v0: u8, v1: u8, v2: u8) -> (r: u8)
    ensures
        r == mix_channel(*weight, v0, v1, v2),
{
    let den: u64 = weight.r as u64 + weight.g as u64 + weight.b as u64;
    if den == 0 {
        return 0;
    }
    proof {
        assert(weight.r * v0 <= 0xFFFF_FFFF * 255 && weight.g * v1 <= 0xFFFF_FFFF * 255
            && weight.b * v2 <= 0xFFFF_FFFF * 255) by (nonlinear_arith)
            requires
                weight.r <= 0xFFFF_FFFF && weight.g <= 0xFFFF_FFFF && weight.b <= 0xFFFF_FFFF,
                v0 <= 255 && v1 <= 255 && v2 <= 255,
        ;
    }
    let num: u64 = weight.r as u64 * v0 as u64 + weight.g as u64 * v1 as u64 + weight.b as u64
        * v2 as u64;
    proof {
        lemma_mix_channel_bounds(*weight, v0, v1, v2);
    }
    let q: u64 = (2 * num + den) / (2 * den);
    q as u8
}

/// The full mixed pixel: each RGB channel from the mixer, alpha kept from `p`.
pub open spec fn mixed_rgb(p: Rgba, w: Weights, m0: Rgba, m1: Rgba, m2: Rgba) -> Rgba {
    Rgba {
        r: mix_channel(w, m0.r, m1.r, m2.r) as u8,
        g: mix_channel(w, m0.g, m1.g, m2.g) as u8,
        b: mix_channel(w, m0.b, m1.b, m2.b) as u8,
        a: p.a,
    }
}

/// Mix one RGBA pixel from the three masks' samples; only the RGB components
/// are written, the alpha channel is preserved.
pub fn mix_pixel(pixel: &mut Rgba, weight: &Weights, m0: &Rgba, m1: &Rgba, m2: &Rgba)
    ensures
        *final(pixel) == mixed_rgb(*old(pixel), *weight, *m0, *m1, *m2),
{
    proof {
        lemma_mix_channel_bounds(*weight, m0.r, m1.r, m2.r);
        lemma_mix_channel_bounds(*weight, m0.g, m1.g, m2.g);
        lemma_mix_channel_bounds(*weight, m0.b, m1.b, m2.b);
    }
    pixel.r = apply_weight(weight, m0.r, m1.r, m2.r);
    pixel.g = apply_weight(weight, m0.g, m1.g, m2.g);
    pixel.b = apply_weight(weight, m0.b, m1.b, m2.b);
}

} // verus!
