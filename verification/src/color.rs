use vstd::prelude::*;
use vstd::arithmetic::div_mod::{
    lemma_div_is_ordered, lemma_fundamental_div_mod, lemma_fundamental_div_mod_converse,
    lemma_mod_bound,
};

verus! {

/// An 8-bit RGBA color.
///
/// Vertex colors arrive from the UI layer with the red, green and blue
/// channels premultiplied by alpha; [`unpremultiply`] converts such a color
/// back to straight (non-premultiplied) form for the modulate blend.
#[derive(Clone, Copy, PartialEq, Eq, Structural, Hash, Debug)]
pub struct Color32 {
    pub r: u8,
    pub g: u8,
    pub b: u8,
    pub a: u8,
}

/// What dividing one premultiplied channel by its alpha yields, on the
/// 0..=255 scale: `255 * x / a`, truncated and saturated at 255.
///
/// A fully transparent color has no well-defined straight channels; the two
/// `a == 0` branches mirror the saturating conversion from the quotient
/// (0/0 maps to 0, x/0 with x > 0 saturates to 255).
pub open spec fn unpremul_channel(x: int, a: int) -> int {
    if a == 0 {
        if x == 0 {
            0
        } else {
            255
        }
    } else if 255 * x / a > 255 {
        255
    } else {
        255 * x / a
    }
}

/// Model of the re-multiplication the modulate blend performs on one
/// channel: scale `x` by `a` on the 0..=255 scale, truncating.
pub open spec fn remul_channel(x: int, a: int) -> int {
    x * a / 255
}

/// The straight (non-premultiplied) form of a premultiplied color:
/// every color channel divided by alpha, alpha kept.
pub open spec fn unpremultiply_spec(c: Color32) -> Color32 {
    Color32 {
        r: unpremul_channel(c.r as int, c.a as int) as u8,
        g: unpremul_channel(c.g as int, c.a as int) as u8,
        b: unpremul_channel(c.b as int, c.a as int) as u8,
        a: c.a,
    }
}

proof fn lemma_unpremul_channel_bounds(x: int, a: int)
    requires
        0 <= x <= 255,
        0 <= a <= 255,
    ensures
        0 <= unpremul_channel(x, a) <= 255,
{
    if a != 0 && !(255 * x / a > 255) {
        lemma_div_is_ordered(0, 255 * x, a);
    }
}

fn unpremul_channel_exec(x: u8, a: u8) -> (r: u8)
    requires
        a > 0,
    ensures
        r as int == unpremul_channel(x as int, a as int),
{
    let v: u32 = (x as u32) * 255 / (a as u32);
    if v > 255 {
        255
    } else {
        v as u8
    }
}

/// Convert a premultiplied color to straight form by dividing each color
/// channel by alpha, saturating at 255; a fully transparent channel maps
/// to 0 where it was 0 and saturates otherwise.
pub fn unpremultiply(c: Color32) -> (r: Color32)
    ensures
        r == unpremultiply_spec(c),
{
    proof {
        lemma_unpremul_channel_bounds(c.r as int, c.a as int);
        lemma_unpremul_channel_bounds(c.g as int, c.a as int);
        lemma_unpremul_channel_bounds(c.b as int, c.a as int);
    }
    if c.a == 0 {
        Color32 {
            r: if c.r == 0 { 0 } else { 255 },
            g: if c.g == 0 { 0 } else { 255 },
            b: if c.b == 0 { 0 } else { 255 },
            a: 0,
        }
    } else {
        Color32 {
            r: unpremul_channel_exec(c.r, c.a),
            g: unpremul_channel_exec(c.g, c.a),
            b: unpremul_channel_exec(c.b, c.a),
            a: c.a,
        }
    }
}

/// Law: un-premultiplying a valid premultiplied channel and letting the
/// modulate blend re-multiply it by alpha reproduces the original channel
/// up to one unit of rounding.
pub proof fn lemma_unpremultiply_remultiply_round_trip(x: int, a: int)
    requires
        0 < a <= 255,
        0 <= x <= a,
    ensures
        x - 1 <= remul_channel(unpremul_channel(x, a), a) <= x,
{
    let u = 255 * x / a;
    // u is at most 255, so the saturation in unpremul_channel does not bite.
    assert(255 * x <= 255 * a) by (nonlinear_arith)
        requires x <= a;
    lemma_div_is_ordered(255 * x, 255 * a, a);
    assert(255 * a / a == 255) by {
        lemma_fundamental_div_mod_converse(255 * a, a, 255, 0);
    }
    assert(unpremul_channel(x, a) == u);

    lemma_fundamental_div_mod(255 * x, a);
    lemma_mod_bound(255 * x, a);
    let r0 = (255 * x) % a;
    assert(a * u == 255 * x - r0);
    assert(u * a == a * u) by (nonlinear_arith);

    // Upper bound: u * a <= 255 * x, so u * a / 255 <= x.
    lemma_div_is_ordered(u * a, 255 * x, 255);
    assert(255 * x / 255 == x) by {
        lemma_fundamental_div_mod_converse(255 * x, 255, x, 0);
    }

    // Lower bound: u * a >= 255 * x - 254 = 255 * (x - 1) + 1.
    assert(u * a >= 255 * (x - 1) + 1);
    assert((255 * (x - 1) + 1) / 255 == x - 1) by {
        lemma_fundamental_div_mod_converse(255 * (x - 1) + 1, 255, x - 1, 1);
    }
    lemma_div_is_ordered(255 * (x - 1) + 1, u * a, 255);
}

} // verus!
