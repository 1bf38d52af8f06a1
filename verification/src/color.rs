//! Linear RGB radiance values in fixed point, with the channel arithmetic
//! and the 8-bit quantization the render target needs.

use vstd::prelude::*;

use crate::fixed::{fadd, fclamp, fmul, fx_add, fx_clamp, fx_mul, tdiv, FX_ONE};

verus! {

/// A linear RGB triple; channels are fixed-point numbers where `FX_ONE`
/// is full intensity.
#[derive(Clone, Copy, Debug, PartialEq, Eq, Structural)]
pub struct Color {
    pub r: i64,
    pub g: i64,
    pub b: i64,
}

/// Mathematical model of a `Color`: three unbounded channel numerators.
pub struct C3 {
    pub r: int,
    pub g: int,
    pub b: int,
}

impl View for Color {
    type V = C3;

    open spec fn view(&self) -> C3 {
        C3 { r: self.r as int, g: self.g as int, b: self.b as int }
    }
}

/// All three channels lie in the saturation range.
pub open spec fn c3_in_range(a: C3) -> bool {
    &&& -(crate::fixed::FX_MAX as int) <= a.r <= crate::fixed::FX_MAX as int
    &&& -(crate::fixed::FX_MAX as int) <= a.g <= crate::fixed::FX_MAX as int
    &&& -(crate::fixed::FX_MAX as int) <= a.b <= crate::fixed::FX_MAX as int
}

pub open spec fn color_add(a: C3, b: C3) -> C3 {
    C3 { r: fx_add(a.r, b.r), g: fx_add(a.g, b.g), b: fx_add(a.b, b.b) }
}

/// Component-wise product, the attenuation of one color by another.
pub open spec fn color_mul(a: C3, b: C3) -> C3 {
    C3 { r: fx_mul(a.r, b.r), g: fx_mul(a.g, b.g), b: fx_mul(a.b, b.b) }
}

pub open spec fn color_scale(a: C3, k: int) -> C3 {
    C3 { r: fx_mul(a.r, k), g: fx_mul(a.g, k), b: fx_mul(a.b, k) }
}

/// Clamp every channel into `[lo, hi]`.
pub open spec fn color_clamp(a: C3, lo: int, hi: int) -> C3 {
    C3 {
        r: fx_clamp(a.r, lo, hi),
        g: fx_clamp(a.g, lo, hi),
        b: fx_clamp(a.b, lo, hi),
    }
}

/// Quantize one channel to a byte: scale full intensity to 255 and clamp.
pub open spec fn quantize_channel(c: int) -> int {
    fx_clamp(tdiv(c * 255, FX_ONE as int), 0, 255)
}

/// The byte quad written to the raster for a color: R, G, B and an opaque
/// alpha.
pub open spec fn color_raw(a: C3) -> Seq<u8> {
    seq![
        quantize_channel(a.r) as u8,
        quantize_channel(a.g) as u8,
        quantize_channel(a.b) as u8,
        255u8,
    ]
}

fn quantize(c: i64) -> (r: u8)
    ensures
        r as int == quantize_channel(c as int),
{
    if c <= 0 {
        return 0;
    }
    let p: u128 = (c as u128) * 255;
    let q: u128 = p / (FX_ONE as u128);
    proof {
        assert(q == tdiv(c as int * 255, FX_ONE as int));
        assert(q <= p) by {
            vstd::arithmetic::div_mod::lemma_div_nonincreasing(p as int, FX_ONE as int);
            vstd::arithmetic::div_mod::lemma_div_pos_is_pos(p as int, FX_ONE as int);
        }
    }
    if q > 255 {
        255
    } else {
        q as u8
    }
}

impl Color {
    #[inline]
    pub fn new(r: i64, g: i64, b: i64) -> (c: Color)
        ensures
            c@ == (C3 { r: r as int, g: g as int, b: b as int }),
    {
        Color { r, g, b }
    }

    /// Build a color from a channel triple.
    #[inline]
    pub fn from(data: [i64; 3]) -> (c: Color)
        ensures
            c@ == (C3 { r: data@[0] as int, g: data@[1] as int, b: data@[2] as int }),
    {
        Color { r: data[0], g: data[1], b: data[2] }
    }

    /// The channel triple of this color.
    #[inline]
    pub fn data(&self) -> (d: [i64; 3])
        ensures
            d@ == seq![self.r, self.g, self.b],
    {
        let d = [self.r, self.g, self.b];
        proof {
            assert(d@ =~= seq![self.r, self.g, self.b]);
        }
        d
    }

    #[inline]
    pub fn black() -> (c: Color)
        ensures
            c@ == (C3 { r: 0, g: 0, b: 0 }),
    {
        Color { r: 0, g: 0, b: 0 }
    }

    #[inline]
    pub fn plus(&self, other: &Color) -> (c: Color)
        ensures
            c@ == color_add(self@, other@),
    {
        Color { r: fadd(self.r, other.r), g: fadd(self.g, other.g), b: fadd(self.b, other.b) }
    }

    /// Component-wise product with another color.
    #[inline]
    pub fn times(&self, other: &Color) -> (c: Color)
        ensures
            c@ == color_mul(self@, other@),
    {
        Color { r: fmul(self.r, other.r), g: fmul(self.g, other.g), b: fmul(self.b, other.b) }
    }

    /// Scale every channel by a fixed-point factor.
    #[inline]
    pub fn scale(&self, k: i64) -> (c: Color)
        ensures
            c@ == color_scale(self@, k as int),
    {
        Color { r: fmul(self.r, k), g: fmul(self.g, k), b: fmul(self.b, k) }
    }

    /// Clamp every channel into `[lo, hi]`.
    pub fn clamp(&self, lo: i64, hi: i64) -> (c: Color)
        ensures
            c@ == color_clamp(self@, lo as int, hi as int),
    {
        Color {
            r: fclamp(self.r, lo, hi),
            g: fclamp(self.g, lo, hi),
            b: fclamp(self.b, lo, hi),
        }
    }

    /// The RGBA byte quad for this color, clamped to the displayable range.
    pub fn into_raw(&self) -> (raw: [u8; 4])
        ensures
            raw@ == color_raw(self@),
    {
        let raw = [quantize(self.r), quantize(self.g), quantize(self.b), 255u8];
        proof {
            assert(raw@ =~= color_raw(self@));
        }
        raw
    }
}

impl Default for Color {
    /// The placeholder color, a full green.
    fn default() -> (c: Color)
        ensures
            c@ == (C3 { r: 0, g: FX_ONE as int, b: 0 }),
    {
        Color { r: 0, g: FX_ONE, b: 0 }
    }
}

} // verus!
