//! Scale factors in fixed point (`SCALE_ONE` stands for 1.0) and the
//! normalization of the requested scale list.

use vstd::prelude::*;

verus! {

/// The fixed-point representation of the scale factor 1.0.
pub const SCALE_ONE: i64 = 1000;

/// A scale list in normal form is strictly increasing, so it holds no
/// duplicate factors.
pub open spec fn strictly_sorted(s: Seq<i64>) -> bool {
    forall|i: int, j: int| 0 <= i < j < s.len() ==> s[i] < s[j]
}

/// Put one factor into a normal-form list, keeping it in normal form;
/// a factor already present is not repeated.
fn insert_unique(out: &mut Vec<i64>, x: i64)
    requires
        strictly_sorted(old(out)@),
    ensures
        strictly_sorted(final(out)@),
        forall|y: i64| final(out)@.contains(y) <==> (old(out)@.contains(y) || y == x),
{
    let n: usize = out.len();
    let mut i: usize = 0;
    while i < n && out[i] < x
        invariant
            i <= n,
            n == out@.len(),
            forall|k: int| 0 <= k < i ==> out@[k] < x,
        decreases n - i,
    {
        i = i + 1;
    }
    if i < n && out[i] == x {
        proof {
            assert(out@.contains(x));
        }
        return ;
    }
    let ghost old_seq = out@;
    proof {
        old_seq.insert_ensures(i as int, x);
    }
    out.insert(i, x);
    proof {
        assert(forall|k: int| 0 <= k < i ==> out@[k] == old_seq[k]);
        assert(forall|k: int| i <= k < old_seq.len() ==> out@[k + 1] == old_seq[k]);
        assert(out@[i as int] == x);
        assert(i < old_seq.len() ==> old_seq[i as int] > x);
        assert forall|a: int, b: int| 0 <= a < b < out@.len() implies out@[a] < out@[b] by {
            if b < i {
            } else if a < i && b == i {
            } else if a < i && b > i {
                assert(out@[b] == old_seq[b - 1]);
                assert(old_seq[b - 1] >= old_seq[i as int]) by {
                    if b - 1 > i {
                        assert(old_seq[i as int] < old_seq[b - 1]);
                    }
                }
            } else if a == i {
                assert(out@[b] == old_seq[b - 1]);
            } else {
                assert(out@[a] == old_seq[a - 1] && out@[b] == old_seq[b - 1]);
            }
        }
        assert forall|y: i64| out@.contains(y) implies (old_seq.contains(y) || y == x) by {
            let idx = choose|idx: int| 0 <= idx < out@.len() && out@[idx] == y;
            if idx < i {
                assert(old_seq[idx] == y);
            } else if idx > i {
                assert(old_seq[idx - 1] == y);
            }
        }
        assert forall|y: i64| old_seq.contains(y) || y == x implies out@.contains(y) by {
            if old_seq.contains(y) {
                let idx = choose|idx: int| 0 <= idx < old_seq.len() && old_seq[idx] == y;
                if idx < i {
                    assert(out@[idx] == y);
                } else {
                    assert(out@[idx + 1] == y);
                }
            } else {
                assert(out@[i as int] == y);
            }
        }
    }
}

/// Normalize a requested scale list: the factor 1.0 is always included, even
/// when not supplied, and duplicates collapse to one occurrence. The result
/// is strictly increasing; no factor is dropped, positive or not.
pub fn normalize_scales(scales: &Vec<i64>) -> (r: Vec<i64>)
    ensures
        strictly_sorted(r@),
        forall|y: i64| r@.contains(y) <==> (scales@.contains(y) || y == SCALE_ONE),
        r@.contains(SCALE_ONE),
{
    let mut out: Vec<i64> = Vec::new();
    out.push(SCALE_ONE);
    proof {
        assert(out@[0] == SCALE_ONE);
        assert(out@.contains(SCALE_ONE));
    }
    let n: usize = scales.len();
    let mut k: usize = 0;
    while k < n
        invariant
            k <= n,
            n == scales@.len(),
            strictly_sorted(out@),
            forall|y: i64| out@.contains(y) <==> (scales@.subrange(0, k as int).contains(y) || y == SCALE_ONE),
        decreases n - k,
    {
        let ghost prefix = scales@.subrange(0, k as int);
        insert_unique(&mut out, scales[k]);
        proof {
            let next = scales@.subrange(0, k as int + 1);
            assert(next.drop_last() =~= prefix);
            assert(next.last() == scales@[k as int]);
            assert forall|y: i64| next.contains(y) implies (prefix.contains(y) || y == scales@[k as int]) by {
                let idx = choose|idx: int| 0 <= idx < next.len() && next[idx] == y;
                if idx < k as int {
                    assert(prefix[idx] == y);
                }
            }
            assert forall|y: i64| prefix.contains(y) implies next.contains(y) by {
                let idx = choose|idx: int| 0 <= idx < prefix.len() && prefix[idx] == y;
                assert(next[idx] == y);
            }
            assert(next[k as int] == scales@[k as int]);
            assert(next.contains(scales@[k as int]));
        }
        k = k + 1;
    }
    proof {
        assert(scales@.subrange(0, n as int) =~= scales@);
    }
    out
}

/// One output dimension under a scale factor: the dimension times the factor,
/// in fixed point, truncated toward zero and saturated at the type's top.
pub open spec fn scaled_dim(dim: u32, s: i64) -> u32
    recommends
        s > 0,
{
    if dim * s / (SCALE_ONE as int) > u32::MAX {
        u32::MAX
    } else {
        (dim * s / (SCALE_ONE as int)) as u32
    }
}

/// Apply a positive scale factor to one dimension.
pub fn scale_dim(dim: u32, s: i64) -> (r: u32)
    requires
        s > 0,
    ensures
        r == scaled_dim(dim, s),
{
    proof {
        assert(dim * s <= 0xFFFF_FFFF * s) by (nonlinear_arith)
            requires
                s > 0,
                dim <= 0xFFFF_FFFF,
        ;
        assert(0 <= dim * s) by (nonlinear_arith)
            requires
                s > 0,
        ;
        assert(dim * s / 1000 <= dim * s / 1) by {
            vstd::arithmetic::div_mod::lemma_div_is_ordered_by_denominator(dim * s, 1, 1000);
        }
    }
    let wide: u128 = dim as u128 * s as u128;
    let q: u128 = wide / 1000;
    proof {
        vstd::arithmetic::div_mod::lemma_div_pos_is_pos(dim as int * s as int, 1000);
    }
    if q > u32::MAX as u128 {
        u32::MAX
    } else {
        q as u32
    }
}

} // verus!
