use vstd::prelude::*;
use vstd::arithmetic::div_mod::lemma_div_is_ordered;

verus! {

/// Screen-space lengths are carried as signed 16.16 fixed-point values:
/// one logical pixel is `FX_ONE` units.
pub const FX_ONE: i64 = 65536;

/// Largest magnitude a coordinate may have, in fixed-point units
/// (2^39 units, about eight million logical pixels).
pub const FX_COORD_MAX: i64 = 0x80_0000_0000;

/// Largest DPI scale factor, in fixed-point units (a factor of 256).
pub const FX_SCALE_MAX: i64 = 0x100_0000;

pub open spec fn coord_in_range(c: int) -> bool {
    -0x80_0000_0000 <= c <= 0x80_0000_0000
}

pub open spec fn scale_in_range(s: int) -> bool {
    0 <= s <= 0x100_0000
}

/// The product of two fixed-point values, rounded toward zero.
pub open spec fn fx_mul(a: int, b: int) -> int {
    if a * b >= 0 {
        a * b / 65536
    } else {
        -((-(a * b)) / 65536)
    }
}

/// An axis-aligned rectangle in fixed-point screen coordinates.
#[derive(Clone, Copy, PartialEq, Eq, Structural, Hash, Debug)]
pub struct Rect {
    pub left: i64,
    pub top: i64,
    pub right: i64,
    pub bottom: i64,
}

pub open spec fn rect_in_range(r: Rect) -> bool {
    coord_in_range(r.left as int) && coord_in_range(r.top as int) && coord_in_range(
        r.right as int,
    ) && coord_in_range(r.bottom as int)
}

/// A rectangle with every coordinate multiplied by the given scale.
pub open spec fn scale_rect_spec(r: Rect, s: int) -> Rect {
    Rect {
        left: fx_mul(r.left as int, s) as i64,
        top: fx_mul(r.top as int, s) as i64,
        right: fx_mul(r.right as int, s) as i64,
        bottom: fx_mul(r.bottom as int, s) as i64,
    }
}

/// Multiply a nonnegative fixed-point magnitude by a fixed-point scale
/// factor, truncating the extra fractional bits.
fn fx_mul_magnitude(m: u64, s: u64) -> (q: u64)
    requires
        m <= 0x80_0000_0000,
        s <= 0x100_0000,
    ensures
        q == m * s / 65536,
        q <= 0x8000_0000_0000,
{
    proof {
        assert(m * s <= 0x80_0000_0000 * 0x100_0000) by (nonlinear_arith)
            requires
                0 <= m <= 0x80_0000_0000,
                0 <= s <= 0x100_0000,
        ;
        lemma_div_is_ordered((m * s) as int, 0x80_0000_0000int * 0x100_0000, 65536int);
    }
    let p: u64 = m * s;
    p / 65536
}

/// Multiply a fixed-point coordinate by a fixed-point scale factor,
/// rounding toward zero.
pub fn fx_scale(a: i64, s: i64) -> (r: i64)
    requires
        coord_in_range(a as int),
        scale_in_range(s as int),
    ensures
        r as int == fx_mul(a as int, s as int),
{
    if a >= 0 {
        let q = fx_mul_magnitude(a as u64, s as u64);
        q as i64
    } else {
        let q = fx_mul_magnitude((-a) as u64, s as u64);
        proof {
            assert((-a) * s == -(a * s)) by (nonlinear_arith);
            assert(a * s <= 0) by (nonlinear_arith)
                requires
                    a <= 0,
                    s >= 0,
            ;
        }
        -(q as i64)
    }
}

/// Scale a rectangle's four coordinates by a fixed-point factor, as the
/// renderer does when mapping a UI-space rectangle to device pixels.
pub fn scale_rect(r: &Rect, s: i64) -> (out: Rect)
    requires
        rect_in_range(*r),
        scale_in_range(s as int),
    ensures
        out == scale_rect_spec(*r, s as int),
{
    Rect {
        left: fx_scale(r.left, s),
        top: fx_scale(r.top, s),
        right: fx_scale(r.right, s),
        bottom: fx_scale(r.bottom, s),
    }
}

} // verus!
