//! RGBA colors and straight-alpha compositing on 8-bit channels.

use vstd::prelude::*;
use crate::arith::round_div;

verus! {

/// An RGBA color with 8-bit channels. `a == 255` is fully opaque.
#[derive(Clone, Copy, Debug, PartialEq, Eq, Structural)]
pub struct RgbaStruct {
    pub r: u8,
    pub g: u8,
    pub b: u8,
    pub a: u8,
}

/// One channel of `src` composited over `dst` with weight `alpha / 255`:
/// `src * alpha/255 + dst * (1 - alpha/255)`, rounded to the nearest byte.
pub open spec fn blend_channel(src: u8, dst: u8, alpha: u8) -> int {
    round_div(src as int * alpha as int + dst as int * (255 - alpha as int), 255)
}

/// `src` composited over `dst` using `src.a` as the coverage. The color
/// channels are mixed by [`blend_channel`]; the resulting alpha is that of an
/// opaque source mixed over `dst.a`, so an opaque pixel stays opaque.
pub open spec fn blend_over(src: RgbaStruct, dst: RgbaStruct) -> RgbaStruct {
    RgbaStruct {
        r: blend_channel(src.r, dst.r, src.a) as u8,
        g: blend_channel(src.g, dst.g, src.a) as u8,
        b: blend_channel(src.b, dst.b, src.a) as u8,
        a: blend_channel(255, dst.a, src.a) as u8,
    }
}

/// A blended channel is a byte lying between the two channels it mixes.
pub proof fn lemma_blend_channel_bounds(src: u8, dst: u8, alpha: u8)
    ensures
        0 <= blend_channel(src, dst, alpha) <= 255,
        src <= dst ==> src <= blend_channel(src, dst, alpha) <= dst,
        dst <= src ==> dst <= blend_channel(src, dst, alpha) <= src,
        alpha == 0 ==> blend_channel(src, dst, alpha) == dst,
        alpha == 255 ==> blend_channel(src, dst, alpha) == src,
{
    let s = src as int;
    let d = dst as int;
    let a = alpha as int;
    let n = s * a + d * (255 - a);
    assert(0 <= n <= 255 * 255 && (s <= d ==> 255 * s <= n <= 255 * d) && (d <= s ==> 255 * d <= n
        <= 255 * s)) by (nonlinear_arith)
        requires
            n == s * a + d * (255 - a),
            0 <= s <= 255,
            0 <= d <= 255,
            0 <= a <= 255,
    ;
    if alpha == 0 {
        assert(n == d * 255) by (nonlinear_arith)
            requires
                n == s * a + d * (255 - a),
                a == 0,
        ;
    }
    if alpha == 255 {
        assert(n == s * 255) by (nonlinear_arith)
            requires
                n == s * a + d * (255 - a),
                a == 255,
        ;
    }
}

impl RgbaStruct {
    /// The channels in storage order: red, green, blue, alpha.
    pub fn to_pixel(&self) -> (px: [u8; 4])
        ensures
            px@ == seq![self.r, self.g, self.b, self.a],
    {
        let px = [self.r, self.g, self.b, self.a];
        assert(px@ =~= seq![self.r, self.g, self.b, self.a]);
        px
    }

    /// This color with its alpha channel replaced by `alpha`.
    pub fn with_alpha(self, alpha: u8) -> (out: RgbaStruct)
        ensures
            out == (RgbaStruct { a: alpha, ..self }),
    {
        RgbaStruct { r: self.r, g: self.g, b: self.b, a: alpha }
    }

    /// Composites `self` over `dst`, weighting by `self.a`.
    pub fn over(self, dst: RgbaStruct) -> (out: RgbaStruct)
        ensures
            out == blend_over(self, dst),
    {
        RgbaStruct {
            r: mix(self.r, dst.r, self.a),
            g: mix(self.g, dst.g, self.a),
            b: mix(self.b, dst.b, self.a),
            a: mix(255, dst.a, self.a),
        }
    }
}

fn mix(src: u8, dst: u8, alpha: u8) -> (out: u8)
    ensures
        out == blend_channel(src, dst, alpha),
{
    proof {
        lemma_blend_channel_bounds(src, dst, alpha);
    }
    let s: u32 = src as u32;
    let d: u32 = dst as u32;
    let a: u32 = alpha as u32;
    assert(s * a + d * (255 - a) <= 255 * 255) by (nonlinear_arith)
        requires
            0 <= s <= 255,
            0 <= d <= 255,
            0 <= a <= 255,
    ;
    assert(s * a <= 255 * 255) by (nonlinear_arith)
        requires
            0 <= s <= 255,
            0 <= a <= 255,
    ;
    assert(d * (255 - a) <= 255 * 255) by (nonlinear_arith)
        requires
            0 <= d <= 255,
            0 <= a <= 255,
    ;
    let n: u32 = s * a + d * (255 - a);
    let q: u32 = (2 * n + 255) / 510;
    q as u8
}

} // verus!
