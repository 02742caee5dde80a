//! Saturation and truncating division, the two pieces of arithmetic that
//! every filter shares.

use vstd::prelude::*;

verus! {

/// `v` saturated to the range of a channel, 0 to 255.
pub open spec fn clamp_channel(v: int) -> u8 {
    if v < 0 {
        0u8
    } else if v > 255 {
        255u8
    } else {
        v as u8
    }
}

/// The quotient of `a` by `b` rounded toward zero. Meaningful for `b != 0`.
pub open spec fn div_toward_zero(a: int, b: int) -> int {
    if a >= 0 {
        if b > 0 {
            a / b
        } else {
            -(a / (-b))
        }
    } else {
        if b > 0 {
            -((-a) / b)
        } else {
            (-a) / (-b)
        }
    }
}

/// Saturates a computed channel value.
pub fn saturate_to_channel(v: i64) -> (c: u8)
    ensures
        c == clamp_channel(v as int),
{
    if v < 0 {
        0
    } else if v > 255 {
        255
    } else {
        v as u8
    }
}

/// Divides rounding toward zero. The one pair left out is the one whose
/// quotient no `i64` holds.
pub fn divide_toward_zero(a: i64, b: i64) -> (q: i64)
    requires
        b != 0,
        !(a == i64::MIN && b == -1),
    ensures
        q == div_toward_zero(a as int, b as int),
        a >= 0 ==> -a <= q <= a,
        a < 0 ==> a <= q <= -a,
{
    let ma: u64 = if a >= 0 { a as u64 } else { (-(a as i128)) as u64 };
    let mb: u64 = if b >= 0 { b as u64 } else { (-(b as i128)) as u64 };
    let mq: u64 = ma / mb;
    assert(mq <= ma && (mb >= 2 ==> 2 * mq <= ma)) by (nonlinear_arith)
        requires
            mq == ma / mb,
            mb > 0,
    ;
    if (a >= 0) == (b > 0) {
        mq as i64
    } else {
        (-(mq as i128)) as i64
    }
}

} // verus!
