use vstd::prelude::*;
use vstd::arithmetic::div_mod::{lemma_div_is_ordered, lemma_fundamental_div_mod_converse};
use vstd::arithmetic::mul::lemma_mul_inequality;
use crate::arith::floor_div;

verus! {

/// The value at step `i` of the linear interpolation from `(i0, d0)` to
/// `(i1, d1)`, rounded down: `d0 + (d1 - d0) * (i - i0) / (i1 - i0)`, and
/// `d0` alone when `i0 == i1`.
pub open spec fn lerp(i0: int, d0: int, i1: int, d1: int, i: int) -> int {
    if i1 <= i0 {
        d0
    } else {
        d0 + ((d1 - d0) * (i - i0)) / (i1 - i0)
    }
}

/// The interpolated sequence: one value per integer step from `i0` to `i1`
/// inclusive, empty when `i1 < i0`.
pub open spec fn lerp_seq(i0: int, d0: int, i1: int, d1: int) -> Seq<int> {
    Seq::new(if i1 < i0 { 0nat } else { (i1 - i0 + 1) as nat }, |k: int| lerp(i0, d0, i1, d1, i0 + k))
}

pub open spec fn min_of(a: int, b: int) -> int {
    if a <= b { a } else { b }
}

pub open spec fn max_of(a: int, b: int) -> int {
    if a <= b { b } else { a }
}

/// Every interpolated value lies between the two end values.
pub proof fn lemma_lerp_between(i0: int, d0: int, i1: int, d1: int, i: int)
    requires
        i0 <= i <= i1,
    ensures
        min_of(d0, d1) <= lerp(i0, d0, i1, d1, i) <= max_of(d0, d1),
        lerp(i0, d0, i1, d1, i0) == d0,
        i0 < i1 ==> lerp(i0, d0, i1, d1, i1) == d1,
{
    if i0 < i1 {
        let l = i1 - i0;
        let t = i - i0;
        let dd = d1 - d0;
        lemma_fundamental_div_mod_converse(dd * l, l, dd, 0);
        lemma_fundamental_div_mod_converse(0, l, 0, 0);
        assert(dd * 0 == 0);
        if dd >= 0 {
            lemma_mul_inequality(0, t, dd);
            lemma_mul_inequality(t, l, dd);
            assert(0 <= dd * t <= dd * l) by (nonlinear_arith)
                requires 0 * dd <= t * dd, t * dd <= l * dd;
            lemma_div_is_ordered(0, dd * t, l);
            lemma_div_is_ordered(dd * t, dd * l, l);
        } else {
            lemma_mul_inequality(0, t, -dd);
            lemma_mul_inequality(t, l, -dd);
            assert(dd * l <= dd * t <= 0) by (nonlinear_arith)
                requires 0 * -dd <= t * -dd, t * -dd <= l * -dd;
            lemma_div_is_ordered(dd * t, 0, l);
            lemma_div_is_ordered(dd * l, dd * t, l);
        }
    }
}

/// One step of the interpolation, computed without building the sequence.
pub fn lerp_at(i0: i32, d0: i64, i1: i32, d1: i64, i: i32) -> (r: i64)
    requires
        i0 <= i <= i1,
    ensures
        r == lerp(i0 as int, d0 as int, i1 as int, d1 as int, i as int),
{
    proof {
        lemma_lerp_between(i0 as int, d0 as int, i1 as int, d1 as int, i as int);
    }
    if i1 <= i0 {
        d0
    } else {
        let dd: i128 = d1 as i128 - d0 as i128;
        let t: i128 = i as i128 - i0 as i128;
        let l: i128 = i1 as i128 - i0 as i128;
        assert(-0x1_0000_0000_0000_0000_0000_0000 <= dd * t <= 0x1_0000_0000_0000_0000_0000_0000) by (nonlinear_arith)
            requires
                -0x1_0000_0000_0000_0000 <= dd <= 0x1_0000_0000_0000_0000,
                0 <= t <= 0x1_0000_0000,
        ;
        let q = floor_div(dd * t, l);
        (d0 as i128 + q) as i64
    }
}

/// The linear interpolation from `(i0, d0)` to `(i1, d1)`: one value per
/// integer step from `i0` to `i1` inclusive, each rounded down.
pub fn interpolate(i0: i32, d0: i64, i1: i32, d1: i64) -> (out: Vec<i64>)
    ensures
        out@.len() == lerp_seq(i0 as int, d0 as int, i1 as int, d1 as int).len(),
        forall|k: int| 0 <= k < out@.len() ==> out@[k] as int == #[trigger] lerp_seq(i0 as int, d0 as int, i1 as int, d1 as int)[k],
{
    let mut out: Vec<i64> = Vec::new();
    if i1 < i0 {
        return out;
    }
    let mut i: i64 = i0 as i64;
    while i <= i1 as i64
        invariant
            i0 <= i <= i1 + 1,
            out@.len() == i - i0,
            forall|k: int| 0 <= k < out@.len() ==> out@[k] as int == lerp(i0 as int, d0 as int, i1 as int, d1 as int, i0 + k),
        decreases i1 + 1 - i,
    {
        out.push(lerp_at(i0, d0, i1, d1, i as i32));
        i = i + 1;
    }
    out
}

} // verus!
