//! Antialiased line segments after Xiaolin Wu.
//!
//! The segment is scaled to device space, transposed if it is steep so that
//! it always advances along its major axis, and then sampled once per pixel
//! column. Each sample lights the two pixels that straddle the ideal line,
//! sharing the coverage between them according to the fractional part of the
//! line's ordinate. All of it is exact: ordinates are kept as fractions whose
//! denominator is the segment's extent along the major axis.

use vstd::prelude::*;
use crate::arith::{
    dist, div_floor, div_round, lemma_div_mod_unique, lemma_mul_bounds, lemma_round_div_bounds,
    round_div,
};
use crate::canvas::PixelWrite;
use crate::color::RgbaStruct;
use crate::fixed::scale;
use crate::scene2d::Line2D;

verus! {

/// A segment in device space, ready for sampling: coordinates are in units of
/// `2^-24` pixel, the axes are exchanged if `steep`, and `x0 <= x1`.
pub struct Span {
    pub steep: bool,
    pub x0: int,
    pub y0: int,
    pub x1: int,
    pub y1: int,
}

/// Scales `line` to a `width` by `height` device, exchanges the axes if the
/// segment is taller than wide, and orders the endpoints left to right.
pub open spec fn line_span(line: Line2D, width: int, height: int) -> Span {
    let ax = line.x0.raw * width;
    let ay = line.y0.raw * height;
    let bx = line.x1.raw * width;
    let by = line.y1.raw * height;
    let steep = dist(by, ay) > dist(bx, ax);
    let (px, py, qx, qy) = if steep {
        (ay, ax, by, bx)
    } else {
        (ax, ay, bx, by)
    };
    if px > qx {
        Span { steep, x0: qx, y0: qy, x1: px, y1: py }
    } else {
        Span { steep, x0: px, y0: py, x1: qx, y1: qy }
    }
}

/// The byte nearest to `255 * num / den`.
pub open spec fn coverage(num: int, den: int) -> u8 {
    round_div(255 * num, den) as u8
}

/// `color` with its alpha channel replaced by `alpha`.
pub open spec fn tinted(color: RgbaStruct, alpha: u8) -> RgbaStruct {
    RgbaStruct { a: alpha, ..color }
}

/// The write at column `x`, row `y` of the span's own axes, mapped back to
/// the device's axes.
pub open spec fn oriented(steep: bool, x: int, y: int, color: RgbaStruct) -> PixelWrite {
    if steep {
        PixelWrite { x: y as i64, y: x as i64, color }
    } else {
        PixelWrite { x: x as i64, y: y as i64, color }
    }
}

impl Span {
    /// Numerator of the gradient. A span of no extent has gradient 1.
    pub open spec fn grad_num(self) -> int {
        if self.x1 == self.x0 {
            1
        } else {
            self.y1 - self.y0
        }
    }

    /// Denominator of the gradient, always positive.
    pub open spec fn grad_den(self) -> int {
        if self.x1 == self.x0 {
            1
        } else {
            self.x1 - self.x0
        }
    }

    /// The number of ordinate units in one pixel: ordinates along the span
    /// are fractions with this denominator.
    pub open spec fn unit(self) -> int {
        self.grad_den() * scale()
    }

    /// The pixel column that holds the left (or right) endpoint.
    pub open spec fn cap_column(self, right: bool) -> int {
        if right {
            self.x1 / scale()
        } else {
            self.x0 / scale()
        }
    }

    /// The line's ordinate where it crosses the left edge of an endpoint's
    /// pixel column, in units of `1 / unit()` pixel: the endpoint's ordinate
    /// plus the gradient times the step back to that edge.
    pub open spec fn cap_ordinate(self, right: bool) -> int {
        if right {
            self.y1 * self.grad_den() + self.grad_num() * (self.cap_column(true) * scale()
                - self.x1)
        } else {
            self.y0 * self.grad_den() + self.grad_num() * (self.cap_column(false) * scale()
                - self.x0)
        }
    }

    /// How much of its pixel column an endpoint covers, in units of `2^-24`:
    /// the part to the right of the left endpoint, or to the left of the right
    /// endpoint, measured from the pixel's centre line.
    pub open spec fn cap_gap(self, right: bool) -> int {
        if right {
            (self.x1 + scale() / 2) % scale()
        } else {
            scale() - (self.x0 + scale() / 2) % scale()
        }
    }

    /// The two writes of an endpoint: the pixel below the line and the one
    /// above it, with the endpoint's coverage split between them.
    pub open spec fn cap_writes(self, right: bool, color: RgbaStruct) -> Seq<PixelWrite> {
        let d = self.unit();
        let n = self.cap_ordinate(right);
        let g = self.cap_gap(right);
        let x = self.cap_column(right);
        seq![
            oriented(self.steep, x, n / d, tinted(color, coverage((d - n % d) * g, d * scale()))),
            oriented(self.steep, x, n / d + 1, tinted(color, coverage((n % d) * g, d * scale()))),
        ]
    }

    /// The number of columns sampled between the endpoints: those strictly
    /// after the left endpoint's column and at least two before the right
    /// endpoint's.
    pub open spec fn interior_len(self) -> int {
        let n = self.cap_column(true) - self.cap_column(false) - 2;
        if n > 0 {
            n
        } else {
            0
        }
    }

    /// The line's ordinate at the `k`-th interior column, in units of
    /// `1 / unit()` pixel.
    pub open spec fn ordinate(self, k: int) -> int {
        self.cap_ordinate(false) + (k + 1) * (self.grad_num() * scale())
    }

    /// The `i`-th interior write. Writes `2k` and `2k + 1` belong to the
    /// `k`-th interior column: first the pixel below the line, then the one
    /// above, with complementary coverage.
    pub open spec fn interior_write(self, i: int, color: RgbaStruct) -> PixelWrite {
        let k = i / 2;
        let d = self.unit();
        let n = self.ordinate(k);
        let x = self.cap_column(false) + 1 + k;
        if i % 2 == 0 {
            oriented(self.steep, x, n / d, tinted(color, coverage(d - n % d, d)))
        } else {
            oriented(self.steep, x, n / d + 1, tinted(color, coverage(n % d, d)))
        }
    }

    /// Every write of the span, in drawing order: the left endpoint, the
    /// right endpoint, then the interior columns from left to right.
    pub open spec fn writes(self, color: RgbaStruct) -> Seq<PixelWrite> {
        self.cap_writes(false, color) + self.cap_writes(true, color) + Seq::new(
            (2 * self.interior_len()) as nat,
            |i: int| self.interior_write(i, color),
        )
    }
}

/// The writes that draw `line` on a `width` by `height` device.
pub open spec fn line_writes(line: Line2D, width: int, height: int, color: RgbaStruct) -> Seq<
    PixelWrite,
> {
    line_span(line, width, height).writes(color)
}

/// A span held in machine integers.
struct DeviceSpan {
    steep: bool,
    x0: i128,
    y0: i128,
    x1: i128,
    y1: i128,
}

impl DeviceSpan {
    spec fn span(self) -> Span {
        Span {
            steep: self.steep,
            x0: self.x0 as int,
            y0: self.y0 as int,
            x1: self.x1 as int,
            y1: self.y1 as int,
        }
    }
}

/// Whether a span advances along its major axis and fits the arithmetic of
/// the sampler.
spec fn span_fits(s: Span) -> bool {
    &&& -0x8000_0000_0000_0000 <= s.x0 <= s.x1 <= 0x8000_0000_0000_0000
    &&& -0x8000_0000_0000_0000 <= s.y0 <= 0x8000_0000_0000_0000
    &&& -0x8000_0000_0000_0000 <= s.y1 <= 0x8000_0000_0000_0000
    &&& dist(s.y1, s.y0) <= s.x1 - s.x0
}

/// Scales `line` to the device and normalises its direction.
fn device_span(line: &Line2D, dimensions: (u32, u32)) -> (s: DeviceSpan)
    ensures
        s.span() == line_span(*line, dimensions.0 as int, dimensions.1 as int),
        span_fits(s.span()),
{
    let w: i128 = dimensions.0 as i128;
    let h: i128 = dimensions.1 as i128;
    proof {
        lemma_mul_bounds(line.x0.raw as int, w as int, 0x8000_0000, 0xffff_ffff);
        lemma_mul_bounds(line.y0.raw as int, h as int, 0x8000_0000, 0xffff_ffff);
        lemma_mul_bounds(line.x1.raw as int, w as int, 0x8000_0000, 0xffff_ffff);
        lemma_mul_bounds(line.y1.raw as int, h as int, 0x8000_0000, 0xffff_ffff);
    }
    let ax: i128 = line.x0.raw as i128 * w;
    let ay: i128 = line.y0.raw as i128 * h;
    let bx: i128 = line.x1.raw as i128 * w;
    let by: i128 = line.y1.raw as i128 * h;
    let hgt: i128 = if by >= ay {
        by - ay
    } else {
        ay - by
    };
    let wid: i128 = if bx >= ax {
        bx - ax
    } else {
        ax - bx
    };
    let steep = hgt > wid;
    let (px, py, qx, qy) = if steep {
        (ay, ax, by, bx)
    } else {
        (ax, ay, bx, by)
    };
    if px > qx {
        DeviceSpan { steep, x0: qx, y0: qy, x1: px, y1: py }
    } else {
        DeviceSpan { steep, x0: px, y0: py, x1: qx, y1: qy }
    }
}

/// What sampling one endpoint yields.
struct Cap {
    col: i128,
    row: i128,
    frac: i128,
    gap: i128,
}

/// Samples one endpoint of `s`: its pixel column, the row and fraction of
/// the line's ordinate at that column's left edge, and the column coverage.
fn sample_cap(s: &DeviceSpan, right: bool) -> (c: Cap)
    requires
        span_fits(s.span()),
    ensures
        c.col == s.span().cap_column(right),
        c.row == s.span().cap_ordinate(right) / s.span().unit(),
        c.frac == s.span().cap_ordinate(right) % s.span().unit(),
        c.gap == s.span().cap_gap(right),
        0 <= c.frac < s.span().unit(),
        0 <= c.gap <= scale(),
        -0x100_0000_0000 <= c.col <= 0x100_0000_0000,
        -0x100_0000_0001 <= c.row <= 0x100_0000_0001,
{
    let (x, y) = if right {
        (s.x1, s.y1)
    } else {
        (s.x0, s.y0)
    };
    let (gn, gd) = if s.x1 == s.x0 {
        (1i128, 1i128)
    } else {
        (s.y1 - s.y0, s.x1 - s.x0)
    };
    let (xq, xr) = div_floor(x, 16777216);
    let (yq, yr) = div_floor(y, 16777216);
    proof {
        lemma_mul_bounds(gn as int, -xr as int, 0x1_0000_0000_0000_0000, 16777216);
        lemma_mul_bounds(yr as int, gd as int, 16777216, 0x1_0000_0000_0000_0000);
        lemma_mul_bounds(gd as int, 16777216, 0x1_0000_0000_0000_0000, 16777216);
    }
    let t: i128 = gn * (-xr);
    let m: i128 = yr * gd + t;
    let d: i128 = gd * 16777216;
    let (mq, mr) = div_floor(m, d);
    proof {
        let n = s.span().cap_ordinate(right);
        assert(n == y * gd + gn * (xq * 16777216 - x));
        assert(n == (yq + mq) * d + mr) by (nonlinear_arith)
            requires
                n == y * gd + gn * (xq * 16777216 - x),
                x == xq * 16777216 + xr,
                y == yq * 16777216 + yr,
                t == gn * (-xr),
                m == yr * gd + t,
                d == gd * 16777216,
                m == mq * d + mr,
        {
        }
        lemma_div_mod_unique(n, d as int, (yq + mq) as int, mr as int);
        assert(-d < m < 2 * d) by (nonlinear_arith)
            requires
                m == yr * gd + gn * (-xr),
                d == gd * 16777216,
                0 <= xr < 16777216,
                0 <= yr < 16777216,
                0 < gd,
                -gd <= gn <= gd,
        {
        }
        assert(-1 <= mq <= 1) by (nonlinear_arith)
            requires
                m == mq * d + mr,
                0 <= mr < d,
                -d < m < 2 * d,
        {
        }
    }
    let (_hq, hr) = div_floor(x + 8388608, 16777216);
    let gap: i128 = if right {
        hr
    } else {
        16777216 - hr
    };
    Cap { col: xq, row: yq + mq, frac: mr, gap }
}

/// The byte nearest to `255 * num / den`, for a fraction in `[0, 1]`.
fn cover(num: i128, den: i128) -> (c: u8)
    requires
        0 <= num <= den,
        0 < den <= 0x1_0000_0000_0000_0000_0000_0000_0000,
    ensures
        c == coverage(num as int, den as int),
{
    proof {
        lemma_round_div_bounds(255 * num, den as int, 0, 255);
    }
    div_round(255 * num, den) as u8
}

/// The write at `(x, y)` of the span's axes, with coverage `alpha`.
fn orient(steep: bool, x: i128, y: i128, color: RgbaStruct, alpha: u8) -> (w: PixelWrite)
    requires
        i64::MIN <= x <= i64::MAX,
        i64::MIN <= y <= i64::MAX,
    ensures
        w == oriented(steep, x as int, y as int, tinted(color, alpha)),
{
    let c = color.with_alpha(alpha);
    if steep {
        PixelWrite { x: y as i64, y: x as i64, color: c }
    } else {
        PixelWrite { x: x as i64, y: y as i64, color: c }
    }
}

/// The coverage shares of an endpoint are fractions of the coverage unit.
proof fn lemma_cap_parts(d: int, f: int, g: int)
    by (nonlinear_arith)
    requires
        0 <= f < d,
        0 <= g <= 16777216,
    ensures
        0 <= (d - f) * g <= d * 16777216,
        0 <= f * g <= d * 16777216,
{
}

/// Appends the two writes of one endpoint.
fn push_cap(out: &mut Vec<PixelWrite>, s: &DeviceSpan, c: &Cap, right: bool, color: RgbaStruct)
    requires
        span_fits(s.span()),
        c.col == s.span().cap_column(right),
        c.row == s.span().cap_ordinate(right) / s.span().unit(),
        c.frac == s.span().cap_ordinate(right) % s.span().unit(),
        c.gap == s.span().cap_gap(right),
        0 <= c.frac < s.span().unit(),
        0 <= c.gap <= scale(),
        -0x100_0000_0000 <= c.col <= 0x100_0000_0000,
        -0x100_0000_0001 <= c.row <= 0x100_0000_0001,
    ensures
        final(out)@ == old(out)@ + s.span().cap_writes(right, color),
{
    let gd: i128 = if s.x1 == s.x0 {
        1
    } else {
        s.x1 - s.x0
    };
    proof {
        lemma_mul_bounds(gd as int, 16777216, 0x1_0000_0000_0000_0000, 16777216);
    }
    let d: i128 = gd * 16777216;
    proof {
        lemma_mul_bounds(d as int, 16777216, 0x1_0000_0000_0000_0000_0000_00, 16777216);
        lemma_cap_parts(d as int, c.frac as int, c.gap as int);
    }
    let den: i128 = d * 16777216;
    let lo = orient(s.steep, c.col, c.row, color, cover((d - c.frac) * c.gap, den));
    let hi = orient(s.steep, c.col, c.row + 1, color, cover(c.frac * c.gap, den));
    out.push(lo);
    out.push(hi);
    proof {
        assert(s.span().cap_writes(right, color) =~= seq![lo, hi]);
        assert(out@ =~= old(out)@ + seq![lo, hi]);
    }
}

/// Moves an ordinate `row + frac / d` forward by `step / d`, keeping the
/// fraction inside `[0, d)`.
fn advance(row: i128, frac: i128, step: i128, d: i128) -> (next: (i128, i128))
    requires
        0 < d <= 0x1_0000_0000_0000_0000_0000_00,
        -d <= step <= d,
        0 <= frac < d,
        -0x1000_0000_0000 <= row <= 0x1000_0000_0000,
    ensures
        next.0 * d + next.1 == row * d + frac + step,
        0 <= next.1 < d,
        row - 1 <= next.0 <= row + 1,
{
    let f: i128 = frac + step;
    if f >= d {
        assert((row + 1) * d + (f - d) == row * d + f) by (nonlinear_arith);
        (row + 1, f - d)
    } else if f < 0 {
        assert((row - 1) * d + (f + d) == row * d + f) by (nonlinear_arith);
        (row - 1, f + d)
    } else {
        (row, f)
    }
}

/// Each step along the span moves the ordinate by the gradient.
proof fn lemma_ordinate_step(s: Span, k: int)
    ensures
        s.ordinate(k + 1) == s.ordinate(k) + s.grad_num() * scale(),
        s.ordinate(0) == s.cap_ordinate(false) + s.grad_num() * scale(),
{
    let g = s.grad_num() * scale();
    assert((k + 1 + 1) * g == (k + 1) * g + g) by (nonlinear_arith);
    assert((0 + 1) * g == g) by (nonlinear_arith);
}

/// Appends the writes of the columns between the endpoints.
fn push_interior(
    out: &mut Vec<PixelWrite>,
    s: &DeviceSpan,
    left: &Cap,
    last: i128,
    color: RgbaStruct,
)
    requires
        span_fits(s.span()),
        left.col == s.span().cap_column(false),
        left.row == s.span().cap_ordinate(false) / s.span().unit(),
        left.frac == s.span().cap_ordinate(false) % s.span().unit(),
        0 <= left.frac < s.span().unit(),
        -0x100_0000_0000 <= left.col <= 0x100_0000_0000,
        -0x100_0000_0001 <= left.row <= 0x100_0000_0001,
        last == s.span().cap_column(true),
        -0x100_0000_0000 <= last <= 0x100_0000_0000,
    ensures
        final(out)@ == old(out)@ + Seq::new(
            (2 * s.span().interior_len()) as nat,
            |i: int| s.span().interior_write(i, color),
        ),
{
    let ghost span = s.span();
    let (gn, gd) = if s.x1 == s.x0 {
        (1i128, 1i128)
    } else {
        (s.y1 - s.y0, s.x1 - s.x0)
    };
    proof {
        lemma_mul_bounds(gd as int, 16777216, 0x1_0000_0000_0000_0000, 16777216);
        lemma_mul_bounds(gn as int, 16777216, 0x1_0000_0000_0000_0000, 16777216);
        assert(-(gd * 16777216) <= gn * 16777216 <= gd * 16777216) by (nonlinear_arith)
            requires
                -gd <= gn <= gd,
        {
        }
    }
    let d: i128 = gd * 16777216;
    let step: i128 = gn * 16777216;
    proof {
        vstd::arithmetic::div_mod::lemma_fundamental_div_mod(span.cap_ordinate(false), d as int);
        assert(d * left.row == left.row * d) by (nonlinear_arith);
        lemma_ordinate_step(span, 0);
    }
    let (r0, f0) = advance(left.row, left.frac, step, d);
    let mut row: i128 = r0;
    let mut frac: i128 = f0;
    let first: i128 = left.col + 1;
    let mut x: i128 = first;
    proof {
        assert(out@ =~= old(out)@ + Seq::new(0nat, |i: int| span.interior_write(i, color)));
    }
    while x < last - 1
        invariant
            span == s.span(),
            span.unit() == d,
            span.grad_num() * scale() == step,
            0 < d <= 0x1_0000_0000_0000_0000_0000_00,
            -d <= step <= d,
            first == span.cap_column(false) + 1,
            last == span.cap_column(true),
            -0x100_0000_0000 <= first <= 0x100_0000_0001,
            -0x100_0000_0000 <= last <= 0x100_0000_0000,
            first <= x,
            x <= last - 1 || x == first,
            span.ordinate(x - first) == row * d + frac,
            0 <= frac < d,
            -0x100_0000_0002 - (x - first) <= row <= 0x100_0000_0002 + (x - first),
            out@ == old(out)@ + Seq::new(
                (2 * (x - first)) as nat,
                |i: int| span.interior_write(i, color),
            ),
        decreases last - x,
    {
        let ghost k = x - first;
        proof {
            lemma_div_mod_unique(span.ordinate(k), d as int, row as int, frac as int);
        }
        let lo = orient(s.steep, x, row, color, cover(d - frac, d));
        let hi = orient(s.steep, x, row + 1, color, cover(frac, d));
        out.push(lo);
        out.push(hi);
        proof {
            assert((2 * k) / 2 == k && (2 * k) % 2 == 0);
            assert((2 * k + 1) / 2 == k && (2 * k + 1) % 2 == 1);
            assert(span.interior_write(2 * k, color) == lo);
            assert(span.interior_write(2 * k + 1, color) == hi);
            assert(out@ =~= old(out)@ + Seq::new(
                (2 * (k + 1)) as nat,
                |i: int| span.interior_write(i, color),
            ));
            lemma_ordinate_step(span, k);
        }
        let (r1, f1) = advance(row, frac, step, d);
        row = r1;
        frac = f1;
        x = x + 1;
    }
    proof {
        assert(2 * (x - first) == 2 * span.interior_len());
    }
}

/// Rasterizes `line` for a device of the given `(width, height)` and returns
/// its pixel writes in drawing order. Each write carries `color` with the
/// alpha channel replaced by the pixel's coverage, and is meant to be
/// composited over the canvas.
pub fn draw_line2d_antialiased(line: &Line2D, dimensions: (u32, u32), color: RgbaStruct) -> (out:
    Vec<PixelWrite>)
    ensures
        out@ == line_writes(*line, dimensions.0 as int, dimensions.1 as int, color),
{
    let s = device_span(line, dimensions);
    let left = sample_cap(&s, false);
    let right = sample_cap(&s, true);
    let mut out: Vec<PixelWrite> = Vec::new();
    push_cap(&mut out, &s, &left, false, color);
    push_cap(&mut out, &s, &right, true, color);
    push_interior(&mut out, &s, &left, right.col, color);
    proof {
        assert(out@ =~= s.span().writes(color));
    }
    out
}

/// Drawing a segment from either end gives the same writes in the same
/// order.
pub proof fn lemma_line_reversible(line: Line2D, width: int, height: int, color: RgbaStruct)
    ensures
        line_writes(line.reversed(), width, height, color) == line_writes(
            line,
            width,
            height,
            color,
        ),
{
    assert(line_span(line.reversed(), width, height) == line_span(line, width, height));
}

/// Two coverage shares that together make up at most the whole are each a
/// byte and sum to at most one unit more than full coverage, the excess being
/// due to rounding each share on its own.
pub proof fn lemma_shares_sum(p: int, q: int, den: int)
    requires
        0 <= p,
        0 <= q,
        p + q <= den,
        0 < den,
    ensures
        0 <= round_div(255 * p, den) <= 255,
        0 <= round_div(255 * q, den) <= 255,
        round_div(255 * p, den) + round_div(255 * q, den) <= 256,
        p + q == den ==> round_div(255 * p, den) + round_div(255 * q, den) >= 255,
{
    lemma_round_div_bounds(255 * p, den, 0, 255);
    lemma_round_div_bounds(255 * q, den, 0, 255);
    let a = round_div(255 * p, den);
    let b = round_div(255 * q, den);
    vstd::arithmetic::div_mod::lemma_fundamental_div_mod(2 * (255 * p) + den, 2 * den);
    vstd::arithmetic::div_mod::lemma_fundamental_div_mod(2 * (255 * q) + den, 2 * den);
    vstd::arithmetic::div_mod::lemma_mod_bound(2 * (255 * p) + den, 2 * den);
    vstd::arithmetic::div_mod::lemma_mod_bound(2 * (255 * q) + den, 2 * den);
    let ra = (2 * (255 * p) + den) % (2 * den);
    let rb = (2 * (255 * q) + den) % (2 * den);
    assert(a + b <= 256 && (p + q == den ==> a + b >= 255)) by (nonlinear_arith)
        requires
            2 * (255 * p) + den == (2 * den) * a + ra,
            2 * (255 * q) + den == (2 * den) * b + rb,
            0 <= ra < 2 * den,
            0 <= rb < 2 * den,
            0 <= p,
            0 <= q,
            p + q <= den,
            0 < den,
    ;
}

/// The writes of a span come in pairs: write `2j` lights a pixel and write
/// `2j + 1` its neighbour across the line, one step along the minor axis.
/// The two coverages are bytes whose sum is at most 256: the shares add up
/// to no more than full coverage before each is rounded. Between the
/// endpoints, from the third pair on, they add up to full coverage, so the
/// sum is 255 or 256.
pub proof fn lemma_pair_coverage(line: Line2D, width: int, height: int, color: RgbaStruct, j: int)
    requires
        0 <= width <= u32::MAX,
        0 <= height <= u32::MAX,
        0 <= j,
        2 * j + 1 < line_writes(line, width, height, color).len(),
    ensures
        ({
            let ws = line_writes(line, width, height, color);
            let steep = line_span(line, width, height).steep;
            &&& ws[2 * j].color.a + ws[2 * j + 1].color.a <= 256
            &&& j >= 2 ==> ws[2 * j].color.a + ws[2 * j + 1].color.a >= 255
            &&& steep ==> ws[2 * j + 1].y == ws[2 * j].y && ws[2 * j + 1].x == ws[2 * j].x + 1
            &&& !steep ==> ws[2 * j + 1].x == ws[2 * j].x && ws[2 * j + 1].y == ws[2 * j].y + 1
        }),
{
    let s = line_span(line, width, height);
    let ws = line_writes(line, width, height, color);
    lemma_span_fits(line, width, height);
    let d = s.unit();
    assert(d > 0 && d == s.grad_den() * scale()) by (nonlinear_arith)
        requires
            d == s.grad_den() * scale(),
            s.grad_den() > 0,
            scale() == 16777216,
    ;
    if j < 2 {
        let right = j == 1;
        let cw = s.cap_writes(right, color);
        assert(ws[2 * j] == cw[0]);
        assert(ws[2 * j + 1] == cw[1]);
        let n = s.cap_ordinate(right);
        let g = s.cap_gap(right);
        let f = n % d;
        assert(0 <= f < d) by {
            vstd::arithmetic::div_mod::lemma_mod_bound(n, d);
        }
        lemma_cap_parts(d, f, g);
        assert((d - f) * g + f * g == d * g) by (nonlinear_arith);
        assert(d * g <= d * scale()) by (nonlinear_arith)
            requires
                0 <= g <= scale(),
                d > 0,
        ;
        assert(d * scale() > 0) by (nonlinear_arith)
            requires
                d > 0,
                scale() > 0,
        ;
        lemma_shares_sum((d - f) * g, f * g, d * scale());
        lemma_cap_position(s, right);
    } else {
        let k = j - 2;
        assert(ws[2 * j] == s.interior_write(2 * k, color));
        assert(ws[2 * j + 1] == s.interior_write(2 * k + 1, color));
        assert((2 * k) / 2 == k && (2 * k) % 2 == 0);
        assert((2 * k + 1) / 2 == k && (2 * k + 1) % 2 == 1);
        let n = s.ordinate(k);
        let f = n % d;
        assert(0 <= f < d) by {
            vstd::arithmetic::div_mod::lemma_mod_bound(n, d);
        }
        lemma_shares_sum(d - f, f, d);
        lemma_interior_position(s, k);
    }
}

/// The pixel that holds the device coordinate `v`, given in units of `2^-24`
/// pixel.
pub open spec fn pixel_floor(v: int) -> int {
    v / scale()
}

/// The first pixel boundary at or after the device coordinate `v`.
pub open spec fn pixel_ceil(v: int) -> int {
    -((-v) / scale())
}

/// The lesser of two integers.
pub open spec fn lesser(a: int, b: int) -> int {
    if a <= b {
        a
    } else {
        b
    }
}

/// The greater of two integers.
pub open spec fn greater(a: int, b: int) -> int {
    if a <= b {
        b
    } else {
        a
    }
}

/// Every pixel that a segment writes lies within the bounding box of its two
/// endpoints, taken in whole pixels and grown by one pixel on each side.
pub proof fn lemma_line_within_bounds(
    line: Line2D,
    width: int,
    height: int,
    color: RgbaStruct,
    i: int,
)
    requires
        0 <= width <= u32::MAX,
        0 <= height <= u32::MAX,
        0 <= i < line_writes(line, width, height, color).len(),
    ensures
        ({
            let w = line_writes(line, width, height, color)[i];
            let ax = line.x0.raw * width;
            let ay = line.y0.raw * height;
            let bx = line.x1.raw * width;
            let by = line.y1.raw * height;
            &&& pixel_floor(lesser(ax, bx)) - 1 <= w.x <= pixel_ceil(greater(ax, bx)) + 1
            &&& pixel_floor(lesser(ay, by)) - 1 <= w.y <= pixel_ceil(greater(ay, by)) + 1
        }),
{
    let s = line_span(line, width, height);
    let ws = line_writes(line, width, height, color);
    lemma_span_fits(line, width, height);
    if i < 4 {
        let right = i >= 2;
        let cw = s.cap_writes(right, color);
        assert(ws[i] == cw[i % 2]);
        lemma_cap_position(s, right);
    } else {
        let k = (i - 4) / 2;
        assert(ws[i] == s.interior_write(i - 4, color));
        lemma_interior_position(s, k);
    }
}

/// The span of a line on a device with `u32` dimensions fits the sampler.
proof fn lemma_span_fits(line: Line2D, width: int, height: int)
    requires
        0 <= width <= u32::MAX,
        0 <= height <= u32::MAX,
    ensures
        span_fits(line_span(line, width, height)),
        line_span(line, width, height).grad_den() > 0,
        -line_span(line, width, height).grad_den() <= line_span(line, width, height).grad_num()
            <= line_span(line, width, height).grad_den(),
{
    lemma_mul_bounds(line.x0.raw as int, width, 0x8000_0000, 0xffff_ffff);
    lemma_mul_bounds(line.y0.raw as int, height, 0x8000_0000, 0xffff_ffff);
    lemma_mul_bounds(line.x1.raw as int, width, 0x8000_0000, 0xffff_ffff);
    lemma_mul_bounds(line.y1.raw as int, height, 0x8000_0000, 0xffff_ffff);
}

/// Where the pixels of an endpoint lie, in the span's own axes: in the
/// endpoint's column, in rows no more than one below the endpoint's row and
/// no more than one above the row it reaches up to.
proof fn lemma_cap_position(s: Span, right: bool)
    requires
        span_fits(s),
    ensures
        ({
            let d = s.unit();
            let row = s.cap_ordinate(right) / d;
            let col = s.cap_column(right);
            let y = if right {
                s.y1
            } else {
                s.y0
            };
            &&& -0x80_0000_0000 <= col <= 0x80_0000_0000
            &&& y / scale() - 1 <= row
            &&& row <= -((-y) / scale())
            &&& -0x80_0000_0001 <= row <= 0x80_0000_0001
        }),
{
    let gn = s.grad_num();
    let gd = s.grad_den();
    let d = s.unit();
    let (x, y) = if right {
        (s.x1, s.y1)
    } else {
        (s.x0, s.y0)
    };
    let xq = x / scale();
    let xr = x % scale();
    let yq = y / scale();
    let yr = y % scale();
    let n = s.cap_ordinate(right);
    let m = yr * gd + gn * (-xr);
    assert(n == yq * d + m) by (nonlinear_arith)
        requires
            n == y * gd + gn * (xq * 16777216 - x),
            x == xq * 16777216 + xr,
            y == yq * 16777216 + yr,
            m == yr * gd + gn * (-xr),
            d == gd * 16777216,
    ;
    assert(-d < m && m < yr * gd + d && yr * gd < d) by (nonlinear_arith)
        requires
            m == yr * gd + gn * (-xr),
            d == gd * 16777216,
            0 <= xr < 16777216,
            0 <= yr < 16777216,
            0 < gd,
            -gd <= gn <= gd,
    ;
    vstd::arithmetic::div_mod::lemma_fundamental_div_mod(n, d);
    vstd::arithmetic::div_mod::lemma_mod_bound(n, d);
    let row = n / d;
    let f = n % d;
    if yr == 0 {
        assert(yr * gd == 0) by (nonlinear_arith)
            requires
                yr == 0,
        ;
    }
    assert(yq - 1 <= row && (yr == 0 ==> row <= yq) && row <= yq + 1) by (nonlinear_arith)
        requires
            n == d * row + f,
            0 <= f < d,
            n == yq * d + m,
            -d < m,
            m < yr * gd + d,
            yr * gd < d,
            yr == 0 ==> yr * gd == 0,
    ;
}

/// Where the pixels of the `k`-th interior column lie, in the span's own
/// axes: strictly between the endpoint columns, in rows between those of the
/// two endpoints.
proof fn lemma_interior_position(s: Span, k: int)
    requires
        span_fits(s),
        0 <= k < s.interior_len(),
    ensures
        ({
            let d = s.unit();
            let row = s.ordinate(k) / d;
            let col = s.cap_column(false) + 1 + k;
            let lo = if s.y0 <= s.y1 {
                s.y0
            } else {
                s.y1
            };
            let hi = if s.y0 <= s.y1 {
                s.y1
            } else {
                s.y0
            };
            &&& s.cap_column(false) < col < s.cap_column(true)
            &&& lo / scale() <= row <= hi / scale()
        }),
{
    let gd = s.grad_den();
    let d = s.unit();
    let col = s.cap_column(false) + 1 + k;
    let t = col * scale() - s.x0;
    let n = s.ordinate(k);
    assert(s.x1 > s.x0);
    assert(gd == s.x1 - s.x0);
    assert(0 < t < gd);
    assert(n == s.y0 * gd + (s.y1 - s.y0) * t) by (nonlinear_arith)
        requires
            n == s.y0 * gd + (s.y1 - s.y0) * (s.cap_column(false) * scale() - s.x0) + (k + 1) * ((
            s.y1 - s.y0) * scale()),
            t == (s.cap_column(false) + 1 + k) * scale() - s.x0,
    ;
    let lo = if s.y0 <= s.y1 {
        s.y0
    } else {
        s.y1
    };
    let hi = if s.y0 <= s.y1 {
        s.y1
    } else {
        s.y0
    };
    assert(lo * gd <= n <= hi * gd) by (nonlinear_arith)
        requires
            n == s.y0 * gd + (s.y1 - s.y0) * t,
            0 < t < gd,
            lo <= s.y0 <= hi,
            lo <= s.y1 <= hi,
    ;
    let ql = lo / scale();
    let qh = hi / scale();
    vstd::arithmetic::div_mod::lemma_fundamental_div_mod(n, d);
    vstd::arithmetic::div_mod::lemma_mod_bound(n, d);
    let row = n / d;
    let f = n % d;
    assert(ql <= row <= qh) by (nonlinear_arith)
        requires
            n == d * row + f,
            0 <= f < d,
            d == gd * 16777216,
            gd > 0,
            lo * gd <= n <= hi * gd,
            ql * 16777216 <= lo,
            hi < (qh + 1) * 16777216,
    ;
}

} // verus!
