//! Ellipses by the midpoint method.
//!
//! The ellipse inscribed in a device rectangle is traced from its left and
//! right extremes towards its top and bottom, four mirrored pixels at a time.
//! An error term, the ellipse equation evaluated at the next diagonal pixel,
//! decides after each group whether to move vertically, horizontally or both.

use vstd::prelude::*;
use crate::arith::{dist, lemma_mul_bounds, lemma_round_div_bounds};
use crate::canvas::PixelWrite;
use crate::color::RgbaStruct;
use crate::fixed::{device_coord, scale};
use crate::scene2d::Ellipse2D;

verus! {

/// A rectangle in device pixels, given by two opposite corners.
pub struct DeviceBox {
    pub x0: int,
    pub y0: int,
    pub x1: int,
    pub y1: int,
}

impl DeviceBox {
    /// Horizontal extent.
    pub open spec fn a(self) -> int {
        dist(self.x1, self.x0)
    }

    /// Vertical extent.
    pub open spec fn b(self) -> int {
        dist(self.y1, self.y0)
    }
}

/// The device rectangle of `e` on a `width` by `height` device.
pub open spec fn ellipse_box(e: Ellipse2D, width: int, height: int) -> DeviceBox {
    DeviceBox {
        x0: device_coord(e.x0, width),
        y0: device_coord(e.y0, height),
        x1: device_coord(e.x1, width),
        y1: device_coord(e.y1, height),
    }
}

/// The state of the trace: the columns `x0 <= x1` and rows `y1 <= y0` of the
/// four mirrored pixels, the two error increments and the error term.
pub struct ArcState {
    pub x0: int,
    pub x1: int,
    pub y0: int,
    pub y1: int,
    pub dx: int,
    pub dy: int,
    pub err: int,
}

/// The trace starts at the left and right extremes of the ellipse, on the
/// row (or, for an odd height, the two rows) through its centre.
pub open spec fn arc_start(bx: DeviceBox) -> ArcState {
    let a = bx.a();
    let b = bx.b();
    let b1 = b % 2;
    let left = if bx.x0 > bx.x1 {
        bx.x1
    } else {
        bx.x0
    };
    let low = if bx.y0 > bx.y1 {
        bx.y1
    } else {
        bx.y0
    };
    let y0 = low + (b + 1) / 2;
    ArcState {
        x0: left,
        x1: left + a,
        y0,
        y1: y0 - b1,
        dx: 4 * (1 - a) * b * b,
        dy: 4 * (b1 + 1) * a * a,
        err: 4 * (1 - a) * b * b + 4 * (b1 + 1) * a * a + b1 * a * a,
    }
}

/// One decision of the trace for an ellipse of extents `a` and `b`: a
/// vertical move if twice the error does not exceed `dy`, then a horizontal
/// move if it reaches `dx` or the updated error exceeds the updated `dy`.
pub open spec fn arc_step(m: ArcState, a: int, b: int) -> ArcState {
    let e2 = 2 * m.err;
    let v = if e2 <= m.dy {
        ArcState { y0: m.y0 + 1, y1: m.y1 - 1, dy: m.dy + 8 * a * a, err: m.err + (m.dy + 8 * a * a), ..m }
    } else {
        m
    };
    if e2 >= v.dx || 2 * v.err > v.dy {
        ArcState { x0: v.x0 + 1, x1: v.x1 - 1, dx: v.dx + 8 * b * b, err: v.err + (v.dx + 8 * b * b), ..v }
    } else {
        v
    }
}

/// The four mirrored pixels of a state, in drawing order.
pub open spec fn quad(m: ArcState, color: RgbaStruct) -> Seq<PixelWrite> {
    seq![
        PixelWrite { x: m.x1 as i64, y: m.y0 as i64, color },
        PixelWrite { x: m.x0 as i64, y: m.y0 as i64, color },
        PixelWrite { x: m.x0 as i64, y: m.y1 as i64, color },
        PixelWrite { x: m.x1 as i64, y: m.y1 as i64, color },
    ]
}

/// The writes of the trace from state `m` until its columns cross, taking at
/// most `fuel` decisions.
pub open spec fn arc_writes(m: ArcState, a: int, b: int, color: RgbaStruct, fuel: nat) -> Seq<
    PixelWrite,
>
    decreases fuel,
{
    if fuel == 0 {
        Seq::empty()
    } else {
        let n = arc_step(m, a, b);
        if n.x0 <= n.x1 {
            quad(m, color) + arc_writes(n, a, b, color, (fuel - 1) as nat)
        } else {
            quad(m, color)
        }
    }
}

/// The state in which the trace from `m` stops: the first whose columns have
/// crossed, or the one reached when `fuel` runs out.
pub open spec fn arc_end(m: ArcState, a: int, b: int, fuel: nat) -> ArcState
    decreases fuel,
{
    if fuel == 0 {
        m
    } else {
        let n = arc_step(m, a, b);
        if n.x0 <= n.x1 {
            arc_end(n, a, b, (fuel - 1) as nat)
        } else {
            n
        }
    }
}

/// The four pixels that extend the tip of a flat ellipse by one row.
pub open spec fn tip_quad(m: ArcState, color: RgbaStruct) -> Seq<PixelWrite> {
    seq![
        PixelWrite { x: (m.x0 - 1) as i64, y: m.y0 as i64, color },
        PixelWrite { x: (m.x1 + 1) as i64, y: m.y0 as i64, color },
        PixelWrite { x: (m.x0 - 1) as i64, y: m.y1 as i64, color },
        PixelWrite { x: (m.x1 + 1) as i64, y: m.y1 as i64, color },
    ]
}

/// The writes that finish the top and bottom of an ellipse whose trace
/// stopped in state `m` before covering the full height `b`.
pub open spec fn tip_writes(m: ArcState, b: int, color: RgbaStruct) -> Seq<PixelWrite>
    decreases b - (m.y0 - m.y1) + 1,
{
    if m.y0 - m.y1 < b {
        tip_quad(m, color) + tip_writes(ArcState { y0: m.y0 + 1, y1: m.y1 - 1, ..m }, b, color)
    } else {
        Seq::empty()
    }
}

/// The number of decisions that always suffices to trace an ellipse of
/// extents `a` and `b`.
pub open spec fn arc_budget(a: int, b: int) -> nat {
    (a + b + 2) as nat
}

/// Every write of the ellipse inscribed in `bx`, in drawing order.
pub open spec fn box_writes(bx: DeviceBox, color: RgbaStruct) -> Seq<PixelWrite> {
    let a = bx.a();
    let b = bx.b();
    let m = arc_start(bx);
    arc_writes(m, a, b, color, arc_budget(a, b)) + tip_writes(
        arc_end(m, a, b, arc_budget(a, b)),
        b,
        color,
    )
}

/// The writes that draw `e` on a `width` by `height` device.
pub open spec fn ellipse_writes(e: Ellipse2D, width: int, height: int, color: RgbaStruct) -> Seq<
    PixelWrite,
> {
    box_writes(ellipse_box(e, width, height), color)
}

/// The error terms of a state are functions of its width `u` and height
/// `v`: `err` is the ellipse equation, scaled by four, at the next diagonal
/// pixel, and `dx`, `dy` are its differences.
pub open spec fn arc_tracks(m: ArcState, a: int, b: int) -> bool {
    let u = m.x1 - m.x0;
    let v = m.y0 - m.y1;
    &&& m.dx == 4 * (b * b) * (1 - u)
    &&& m.dy == 4 * (a * a) * (1 + v)
    &&& m.err == (b * b) * ((u - 2) * (u - 2)) + (a * a) * ((v + 2) * (v + 2)) - (a * a) * (b * b)
}

/// The error term never exceeds this while the trace runs.
pub open spec fn err_cap(a: int, b: int) -> int {
    6 * (a * a) * (b + 1) + 9 * (a * a) + 4 * (b * b)
}

/// What holds of every state in which the trace makes a decision.
pub open spec fn arc_inv(m: ArcState, a: int, b: int) -> bool {
    let u = m.x1 - m.x0;
    let v = m.y0 - m.y1;
    &&& 0 <= u <= a
    &&& 0 <= v <= b
    &&& arc_tracks(m, a, b)
    &&& -6 * (a * (b * b)) <= m.err
    &&& m.err <= err_cap(a, b) + if u == 0 {
        4 * (b * b)
    } else {
        0
    }
}

/// The trace starts in a state in which a decision can be made, spanning
/// the full width of the rectangle and at most one row.
pub proof fn lemma_start_inv(bx: DeviceBox)
    ensures
        arc_inv(arc_start(bx), bx.a(), bx.b()),
        arc_start(bx).y0 - arc_start(bx).y1 == bx.b() % 2,
        arc_start(bx).x1 - arc_start(bx).x0 == bx.a(),
{
    let a = bx.a();
    let b = bx.b();
    let b1 = b % 2;
    let m = arc_start(bx);
    let u = a;
    let v = b1;
    assert(b1 == 0 || b1 == 1);
    assert(4 * (1 - a) * b * b == 4 * (b * b) * (1 - u)) by (nonlinear_arith)
        requires
            u == a,
    ;
    assert(4 * (b1 + 1) * a * a == 4 * (a * a) * (1 + v)) by (nonlinear_arith)
        requires
            v == b1,
    ;
    assert(4 * (1 - a) * b * b + 4 * (b1 + 1) * a * a + b1 * a * a == (b * b) * ((u - 2) * (u
        - 2)) + (a * a) * ((v + 2) * (v + 2)) - (a * a) * (b * b)) by (nonlinear_arith)
        requires
            u == a,
            v == b1,
            b1 == 0 || b1 == 1,
    ;
    assert(-6 * (a * (b * b)) <= m.err && m.err <= err_cap(a, b)) by (nonlinear_arith)
        requires
            m.err == 4 * (1 - a) * b * b + 4 * (b1 + 1) * a * a + b1 * a * a,
            a >= 0,
            b >= 0,
            b1 == 0 || b1 == 1,
            err_cap(a, b) == 6 * (a * a) * (b + 1) + 9 * (a * a) + 4 * (b * b),
    ;
}

/// A vertical move is only made while the state is at least two rows short
/// of the full height.
proof fn lemma_rise_bound(a: int, b: int, u: int, v: int, err: int, dy: int)
    by (nonlinear_arith)
    requires
        a >= 1,
        b >= 0,
        v >= 0,
        err == (b * b) * ((u - 2) * (u - 2)) + (a * a) * ((v + 2) * (v + 2)) - (a * a) * (b * b),
        dy == 4 * (a * a) * (1 + v),
        2 * err <= dy,
    ensures
        v + 2 <= b,
{
    let a2 = a * a;
    let b2 = b * b;
    assert(a2 >= 1);
    assert(b2 * ((u - 2) * (u - 2)) >= 0);
    assert(a2 * ((v + 2) * (v + 2)) - a2 * b2 <= 2 * a2 * (1 + v));
    assert(a2 * ((v + 2) * (v + 2) - b2 - 2 * (1 + v)) <= 0);
    assert((v + 2) * (v + 2) - b2 - 2 * (1 + v) <= 0);
    assert(v * v + 2 * v + 2 <= b * b);
    if v + 1 >= b {
        assert((v + 1) * (v + 1) >= b * b);
    }
}

/// The error terms after a vertical move still track the state.
proof fn lemma_rise_tracks(a2: int, b2: int, u: int, v: int, err: int, dy: int)
    by (nonlinear_arith)
    requires
        dy == 4 * a2 * (1 + v),
        err == b2 * ((u - 2) * (u - 2)) + a2 * ((v + 2) * (v + 2)) - a2 * b2,
    ensures
        dy + 8 * a2 == 4 * a2 * (1 + (v + 2)),
        err + (dy + 8 * a2) == b2 * ((u - 2) * (u - 2)) + a2 * ((v + 2 + 2) * (v + 2 + 2)) - a2
            * b2,
{
}

/// The error terms after a horizontal move still track the state.
proof fn lemma_slide_tracks(a2: int, b2: int, u: int, v: int, err: int, dx: int)
    by (nonlinear_arith)
    requires
        dx == 4 * b2 * (1 - u),
        err == b2 * ((u - 2) * (u - 2)) + a2 * ((v + 2) * (v + 2)) - a2 * b2,
    ensures
        dx + 8 * b2 == 4 * b2 * (1 - (u - 2)),
        err + (dx + 8 * b2) == b2 * ((u - 2 - 2) * (u - 2 - 2)) + a2 * ((v + 2) * (v + 2)) - a2
            * b2,
{
}

/// Bounds on the error increments of a state of width `u` and height `v`.
proof fn lemma_increment_bounds(a: int, b: int, u: int, v: int)
    by (nonlinear_arith)
    requires
        0 <= a,
        0 <= b,
        -2 <= u <= a,
        0 <= v <= b + 2,
    ensures
        -4 * (a * (b * b)) <= 4 * (b * b) * (1 - u) <= 12 * (b * b),
        u >= 1 ==> 4 * (b * b) * (1 - u) <= 0,
        u == 0 ==> 4 * (b * b) * (1 - u) == 4 * (b * b),
        0 <= 4 * (a * a) * (1 + v) <= 4 * (a * a) * (b + 3),
        v <= b ==> 4 * (a * a) * (1 + v) <= 4 * (a * a) * (b + 1),
        0 <= a * a,
        0 <= b * b,
        0 <= a * (b * b),
        0 <= (a * a) * (b + 1),
{
    assert(b * b >= 0);
    assert(a * a >= 0);
    assert((b * b) * u <= (b * b) * a);
    assert((b * b) * a == a * (b * b));
    assert((a * a) * v <= (a * a) * (b + 2));
}

/// One decision keeps the error terms tracking the state, moves the state
/// one column inward or one row outward or both, keeps the error term
/// bounded and, unless the columns cross, leads to a state in which the next
/// decision can be made.
pub proof fn lemma_arc_step(m: ArcState, a: int, b: int)
    requires
        arc_inv(m, a, b),
    ensures
        ({
            let n = arc_step(m, a, b);
            let u = m.x1 - m.x0;
            let v = m.y0 - m.y1;
            let nu = n.x1 - n.x0;
            let nv = n.y0 - n.y1;
            &&& arc_tracks(n, a, b)
            &&& (nu == u || nu == u - 2) && (nv == v || nv == v + 2) && (nu == u - 2 || nv == v
                + 2)
            &&& n.x0 + n.x1 == m.x0 + m.x1
            &&& n.y0 + n.y1 == m.y0 + m.y1
            &&& nv <= b + 2
            &&& -6 * (a * (b * b)) <= n.err <= err_cap(a, b) + 16 * (b * b)
            &&& (n.x0 <= n.x1 ==> arc_inv(n, a, b))
        }),
{
    let a2 = a * a;
    let b2 = b * b;
    let u = m.x1 - m.x0;
    let v = m.y0 - m.y1;
    let e2 = 2 * m.err;
    let rise = e2 <= m.dy;
    let mid = if rise {
        ArcState { y0: m.y0 + 1, y1: m.y1 - 1, dy: m.dy + 8 * a * a, err: m.err + (m.dy + 8 * a * a), ..m }
    } else {
        m
    };
    let slide = e2 >= mid.dx || 2 * mid.err > mid.dy;
    let n = arc_step(m, a, b);
    let mv = mid.y0 - mid.y1;
    assert(8 * a * a == 8 * a2 && 8 * b * b == 8 * b2) by (nonlinear_arith)
        requires
            a2 == a * a,
            b2 == b * b,
    ;
    lemma_increment_bounds(a, b, u, v);
    if rise {
        lemma_rise_tracks(a2, b2, u, v, m.err, m.dy);
        if a >= 1 {
            lemma_rise_bound(a, b, u, v, m.err, m.dy);
        } else {
            assert(a2 == 0) by (nonlinear_arith)
                requires
                    a == 0,
                    a2 == a * a,
            ;
        }
        lemma_increment_bounds(a, b, u, mv);
        assert(arc_tracks(mid, a, b));
        // 2 * mid.err <= 3 * mid.dy
        assert(2 * mid.err <= 3 * mid.dy);
        assert(mid.err <= 6 * a2 * (b + 1)) by (nonlinear_arith)
            requires
                2 * mid.err <= 3 * mid.dy,
                mid.dy == 4 * a2 * (1 + mv),
                a2 >= 0,
                a >= 1 ==> mv <= b,
                a < 1 ==> a2 == 0,
        ;
        assert(mid.err >= m.err);
    } else {
        assert(slide);
    }
    assert(arc_tracks(mid, a, b));
    assert(mv <= b + 2);
    if slide {
        lemma_slide_tracks(a2, b2, u, mv, mid.err, mid.dx);
        lemma_increment_bounds(a, b, u - 2, mv);
        assert(arc_tracks(n, a, b));
        assert(n.err == mid.err + n.dx);
        assert(n.dx == 4 * b2 * (1 - (u - 2)));
        // lower bound
        if e2 >= mid.dx {
            assert(2 * n.err >= -12 * (a * b2)) by (nonlinear_arith)
                requires
                    n.err == mid.err + n.dx,
                    mid.err >= m.err,
                    2 * m.err >= m.dx,
                    n.dx == m.dx + 8 * b2,
                    m.dx >= -4 * (a * b2),
                    b2 >= 0,
            ;
        } else {
            assert(2 * mid.err > mid.dy);
            assert(mid.dy >= 0);
            assert(n.dx >= -4 * (a * b2));
            assert(0 <= a * b2);
        }
        assert(-6 * (a * b2) <= n.err);
    } else {
        assert(n == mid);
        assert(rise);
        assert(2 * mid.err <= mid.dy);
        assert(a >= 1) by {
            if a < 1 {
                // with no width the error is 4 * b^2 and a vertical move
                // forces a horizontal one
                assert(a == 0 && u == 0);
                assert(m.dx == 4 * b2) by (nonlinear_arith)
                    requires
                        m.dx == 4 * b2 * (1 - u),
                        u == 0,
                ;
                assert(m.err == 4 * b2) by (nonlinear_arith)
                    requires
                        m.err == b2 * ((u - 2) * (u - 2)) + a2 * ((v + 2) * (v + 2)) - a2 * b2,
                        u == 0,
                        a2 == 0,
                ;
                assert(false);
            }
        }
    }
    assert(err_cap(a, b) == 6 * a2 * (b + 1) + 9 * a2 + 4 * b2);
    assert(0 <= a2 && 0 <= b2 && 0 <= a2 * (b + 1));
    assert(0 <= 6 * a2 * (b + 1)) by (nonlinear_arith)
        requires
            0 <= a2 * (b + 1),
    ;
}

/// With extents of at most `2^40` every quantity of the trace stays well
/// inside the range of an `i128`.
proof fn lemma_magnitudes(a: int, b: int, u: int, v: int)
    requires
        0 <= a <= 0x100_0000_0000,
        0 <= b <= 0x100_0000_0000,
        -2 <= u <= a,
        0 <= v <= b + 2,
    ensures
        0 <= a * a <= 0x1_0000_0000_0000_0000_0000,
        0 <= b * b <= 0x1_0000_0000_0000_0000_0000,
        0 <= a * (b * b) <= 0x1_0000_0000_0000_0000_0000_0000_0000_00,
        0 <= err_cap(a, b) + 16 * (b * b) <= 0x7_0000_0000_0000_0000_0000_0000_0000_00,
        -0x4_0000_0000_0000_0000_0000_0000_0000_00 <= 4 * (b * b) * (1 - u)
            <= 0x1_0000_0000_0000_0000_0000_00,
        0 <= 4 * (a * a) * (1 + v) <= 0x5_0000_0000_0000_0000_0000_0000_0000_00,
{
    let k: int = 0x100_0000_0000;
    let a2 = a * a;
    let b2 = b * b;
    assert(0 <= a2 <= k * k) by (nonlinear_arith)
        requires
            0 <= a <= k,
            a2 == a * a,
    ;
    assert(0 <= b2 <= k * k) by (nonlinear_arith)
        requires
            0 <= b <= k,
            b2 == b * b,
    ;
    assert(k * k == 0x1_0000_0000_0000_0000_0000) by (nonlinear_arith)
        requires
            k == 0x100_0000_0000,
    ;
    let k2: int = 0x1_0000_0000_0000_0000_0000;
    assert(0 <= a * b2 <= k * k2) by (nonlinear_arith)
        requires
            0 <= a <= k,
            0 <= b2 <= k2,
    ;
    assert(0 <= a2 * (b + 1) <= k2 * (k + 1)) by (nonlinear_arith)
        requires
            0 <= b <= k,
            0 <= a2 <= k2,
    ;
    assert(0 <= a2 * (1 + v) <= k2 * (k + 3)) by (nonlinear_arith)
        requires
            0 <= v <= k + 2,
            0 <= a2 <= k2,
    ;
    let t = 1 - u;
    lemma_mul_bounds(b2, t, k2, k);
    assert(b2 * t <= b2 * 3) by (nonlinear_arith)
        requires
            t <= 3,
            0 <= b2,
    ;
    assert(k * k2 == 0x1_0000_0000_0000_0000_0000_0000_0000_00) by (nonlinear_arith)
        requires
            k == 0x100_0000_0000,
            k2 == 0x1_0000_0000_0000_0000_0000,
    ;
    assert(4 * b2 * (1 - u) == 4 * (b2 * (1 - u))) by (nonlinear_arith);
    assert(4 * a2 * (1 + v) == 4 * (a2 * (1 + v))) by (nonlinear_arith);
    assert(6 * a2 * (b + 1) == 6 * (a2 * (b + 1))) by (nonlinear_arith);
}

/// The state of the trace in machine integers.
struct Cursor {
    x0: i128,
    x1: i128,
    y0: i128,
    y1: i128,
    dx: i128,
    dy: i128,
    err: i128,
}

impl Cursor {
    spec fn arc(self) -> ArcState {
        ArcState {
            x0: self.x0 as int,
            x1: self.x1 as int,
            y0: self.y0 as int,
            y1: self.y1 as int,
            dx: self.dx as int,
            dy: self.dy as int,
            err: self.err as int,
        }
    }
}

/// Traces the ellipse inscribed in the device rectangle with corners
/// `(x0, y0)` and `(x1, y1)`.
fn trace_box(x0: i128, y0: i128, x1: i128, y1: i128, color: RgbaStruct) -> (out: Vec<PixelWrite>)
    requires
        -0x80_0000_0000 <= x0 <= 0x80_0000_0000,
        -0x80_0000_0000 <= y0 <= 0x80_0000_0000,
        -0x80_0000_0000 <= x1 <= 0x80_0000_0000,
        -0x80_0000_0000 <= y1 <= 0x80_0000_0000,
    ensures
        out@ == box_writes(
            DeviceBox { x0: x0 as int, y0: y0 as int, x1: x1 as int, y1: y1 as int },
            color,
        ),
{
    let ghost bx = DeviceBox { x0: x0 as int, y0: y0 as int, x1: x1 as int, y1: y1 as int };
    let a: i128 = if x1 >= x0 {
        x1 - x0
    } else {
        x0 - x1
    };
    let b: i128 = if y1 >= y0 {
        y1 - y0
    } else {
        y0 - y1
    };
    let b1: i128 = b % 2;
    let left: i128 = if x0 > x1 {
        x1
    } else {
        x0
    };
    let low: i128 = if y0 > y1 {
        y1
    } else {
        y0
    };
    proof {
        lemma_start_inv(bx);
        lemma_magnitudes(a as int, b as int, a as int, b1 as int);
    }
    let a2: i128 = a * a;
    let b2: i128 = b * b;
    let a8: i128 = 8 * a2;
    let b8: i128 = 8 * b2;
    let dx: i128 = 4 * b2 * (1 - a);
    let dy: i128 = 4 * a2 * (1 + b1);
    proof {
        lemma_mul_bounds(b1 as int, a2 as int, 1, 0x1_0000_0000_0000_0000_0000);
        assert(4 * (1 - a) * b * b == 4 * b2 * (1 - a)) by (nonlinear_arith)
            requires
                b2 == b * b,
        ;
        assert(4 * (b1 + 1) * a * a == 4 * a2 * (1 + b1)) by (nonlinear_arith)
            requires
                a2 == a * a,
        ;
        assert(b1 * a * a == b1 * a2) by (nonlinear_arith)
            requires
                a2 == a * a,
        ;
        assert(8 * a * a == a8 && 8 * b * b == b8) by (nonlinear_arith)
            requires
                a8 == 8 * (a * a),
                b8 == 8 * (b * b),
        ;
    }
    let top: i128 = low + (b + 1) / 2;
    let mut c = Cursor { x0: left, x1: left + a, y0: top, y1: top - b1, dx, dy, err: dx + dy + b1 * a2 };
    let ghost m0 = arc_start(bx);
    let ghost fuel0 = arc_budget(a as int, b as int);
    let ghost mut fuel: nat = fuel0;
    let mut out: Vec<PixelWrite> = Vec::new();
    assert(out@ + arc_writes(m0, a as int, b as int, color, fuel0) =~= arc_writes(
        m0,
        a as int,
        b as int,
        color,
        fuel0,
    ));
    loop
        invariant_except_break
            arc_inv(c.arc(), a as int, b as int),
            fuel >= (c.x1 - c.x0) - (c.y0 - c.y1) + b + 2,
            out@ + arc_writes(c.arc(), a as int, b as int, color, fuel) == arc_writes(
                m0,
                a as int,
                b as int,
                color,
                fuel0,
            ),
            arc_end(c.arc(), a as int, b as int, fuel) == arc_end(m0, a as int, b as int, fuel0),
        invariant
            0 <= a <= 0x100_0000_0000,
            0 <= b <= 0x100_0000_0000,
            a8 == 8 * a * a,
            b8 == 8 * b * b,
            0 <= a8 <= 0x8_0000_0000_0000_0000_0000,
            0 <= b8 <= 0x8_0000_0000_0000_0000_0000,
            c.x0 + c.x1 == 2 * left + a,
            c.y0 + c.y1 == 2 * low + b,
            -0x80_0000_0000 <= left <= 0x80_0000_0000,
            -0x80_0000_0000 <= low <= 0x80_0000_0000,
            -2 <= c.x1 - c.x0 <= a,
            0 <= c.y0 - c.y1 <= b + 2,
        ensures
            out@ == arc_writes(m0, a as int, b as int, color, fuel0),
            c.arc() == arc_end(m0, a as int, b as int, fuel0),
        decreases fuel,
    {
        let ghost m = c.arc();
        let ghost before = out@;
        let ghost n = arc_step(m, a as int, b as int);
        proof {
            lemma_arc_step(m, a as int, b as int);
            lemma_magnitudes(a as int, b as int, m.x1 - m.x0, m.y0 - m.y1);
            lemma_magnitudes(a as int, b as int, n.x1 - n.x0, n.y0 - n.y1);
            lemma_magnitudes(a as int, b as int, m.x1 - m.x0, n.y0 - n.y1);
        }
        out.push(PixelWrite { x: c.x1 as i64, y: c.y0 as i64, color });
        out.push(PixelWrite { x: c.x0 as i64, y: c.y0 as i64, color });
        out.push(PixelWrite { x: c.x0 as i64, y: c.y1 as i64, color });
        out.push(PixelWrite { x: c.x1 as i64, y: c.y1 as i64, color });
        assert(out@ =~= before + quad(m, color));
        let e2: i128 = 2 * c.err;
        if e2 <= c.dy {
            c.y0 = c.y0 + 1;
            c.y1 = c.y1 - 1;
            c.dy = c.dy + a8;
            c.err = c.err + c.dy;
        }
        if e2 >= c.dx || 2 * c.err > c.dy {
            c.x0 = c.x0 + 1;
            c.x1 = c.x1 - 1;
            c.dx = c.dx + b8;
            c.err = c.err + c.dx;
        }
        assert(c.arc() == n);
        proof {
            let rest = arc_writes(n, a as int, b as int, color, (fuel - 1) as nat);
            if n.x0 <= n.x1 {
                assert((before + quad(m, color)) + rest =~= before + (quad(m, color) + rest));
            }
            fuel = (fuel - 1) as nat;
        }
        if c.x0 > c.x1 {
            break ;
        }
    }
    let ghost main = out@;
    let ghost end = c.arc();
    assert(out@ + tip_writes(end, b as int, color) =~= main + tip_writes(end, b as int, color));
    while c.y0 - c.y1 < b
        invariant
            0 <= b <= 0x100_0000_0000,
            -0x80_0000_0000 <= low <= 0x80_0000_0000,
            -0x80_0000_0003 <= c.x0 <= 0x180_0000_0003,
            -0x80_0000_0003 <= c.x1 <= 0x180_0000_0003,
            c.y0 + c.y1 == 2 * low + b,
            0 <= c.y0 - c.y1 <= b + 2,
            out@ + tip_writes(c.arc(), b as int, color) == main + tip_writes(end, b as int, color),
        decreases b - (c.y0 - c.y1),
    {
        let ghost m = c.arc();
        let ghost before = out@;
        out.push(PixelWrite { x: (c.x0 - 1) as i64, y: c.y0 as i64, color });
        out.push(PixelWrite { x: (c.x1 + 1) as i64, y: c.y0 as i64, color });
        out.push(PixelWrite { x: (c.x0 - 1) as i64, y: c.y1 as i64, color });
        out.push(PixelWrite { x: (c.x1 + 1) as i64, y: c.y1 as i64, color });
        c.y0 = c.y0 + 1;
        c.y1 = c.y1 - 1;
        proof {
            let rest = tip_writes(c.arc(), b as int, color);
            assert(c.arc() == ArcState { y0: m.y0 + 1, y1: m.y1 - 1, ..m });
            assert(out@ =~= before + tip_quad(m, color));
            assert((before + tip_quad(m, color)) + rest =~= before + (tip_quad(m, color) + rest));
        }
    }
    proof {
        assert(tip_writes(c.arc(), b as int, color) =~= Seq::empty());
        assert(out@ + Seq::<PixelWrite>::empty() =~= out@);
    }
    out
}

/// Rasterizes `ellipse` for a device of the given `(width, height)` and
/// returns its pixel writes in drawing order. The corners are rounded to
/// device pixels and may come in any order; a rectangle of no width or no
/// height yields a vertical or horizontal line, and one of neither a single
/// pixel. Every write carries `color` unchanged and is meant to replace the
/// pixel it names.
pub fn draw_ellipse(ellipse: &Ellipse2D, dimensions: (u32, u32), color: RgbaStruct) -> (out: Vec<
    PixelWrite,
>)
    ensures
        out@ == ellipse_writes(*ellipse, dimensions.0 as int, dimensions.1 as int, color),
{
    let x0 = ellipse.x0.to_device(dimensions.0);
    let y0 = ellipse.y0.to_device(dimensions.1);
    let x1 = ellipse.x1.to_device(dimensions.0);
    let y1 = ellipse.y1.to_device(dimensions.1);
    trace_box(x0 as i128, y0 as i128, x1 as i128, y1 as i128, color)
}

/// The trace of every ellipse ends because its columns cross, never because
/// the budget of decisions ran out: a larger budget changes nothing.
pub proof fn lemma_trace_completes(bx: DeviceBox, fuel: nat)
    requires
        fuel >= arc_budget(bx.a(), bx.b()),
    ensures
        ({
            let end = arc_end(arc_start(bx), bx.a(), bx.b(), arc_budget(bx.a(), bx.b()));
            &&& end.x0 > end.x1
            &&& arc_end(arc_start(bx), bx.a(), bx.b(), fuel) == end
            &&& forall|color: RgbaStruct|
                #[trigger] arc_writes(arc_start(bx), bx.a(), bx.b(), color, fuel) == arc_writes(
                    arc_start(bx),
                    bx.a(),
                    bx.b(),
                    color,
                    arc_budget(bx.a(), bx.b()),
                )
        }),
{
    let m = arc_start(bx);
    let budget = arc_budget(bx.a(), bx.b());
    lemma_start_inv(bx);
    lemma_end_crosses(m, bx.a(), bx.b(), budget);
    assert forall|color: RgbaStruct|
        #[trigger] arc_writes(m, bx.a(), bx.b(), color, fuel) == arc_writes(
            m,
            bx.a(),
            bx.b(),
            color,
            budget,
        ) by {
        lemma_fuel_is_ample(m, bx.a(), bx.b(), color, fuel, budget);
    }
    lemma_fuel_is_ample(m, bx.a(), bx.b(), RgbaStruct { r: 0, g: 0, b: 0, a: 0 }, fuel, budget);
}

proof fn lemma_fuel_is_ample(m: ArcState, a: int, b: int, color: RgbaStruct, f1: nat, f2: nat)
    requires
        arc_inv(m, a, b),
        f1 >= (m.x1 - m.x0) - (m.y0 - m.y1) + b + 2,
        f2 >= (m.x1 - m.x0) - (m.y0 - m.y1) + b + 2,
    ensures
        arc_writes(m, a, b, color, f1) == arc_writes(m, a, b, color, f2),
        arc_end(m, a, b, f1) == arc_end(m, a, b, f2),
    decreases f1,
{
    lemma_arc_step(m, a, b);
    let n = arc_step(m, a, b);
    if n.x0 <= n.x1 {
        lemma_fuel_is_ample(n, a, b, color, (f1 - 1) as nat, (f2 - 1) as nat);
    }
}

proof fn lemma_end_crosses(m: ArcState, a: int, b: int, fuel: nat)
    requires
        arc_inv(m, a, b),
        fuel >= (m.x1 - m.x0) - (m.y0 - m.y1) + b + 2,
    ensures
        arc_end(m, a, b, fuel).x0 > arc_end(m, a, b, fuel).x1,
    decreases fuel,
{
    lemma_arc_step(m, a, b);
    let n = arc_step(m, a, b);
    if n.x0 <= n.x1 {
        lemma_end_crosses(n, a, b, (fuel - 1) as nat);
    }
}

impl DeviceBox {
    /// The leftmost column of the rectangle.
    pub open spec fn left(self) -> int {
        if self.x0 > self.x1 {
            self.x1
        } else {
            self.x0
        }
    }

    /// The lowest row of the rectangle.
    pub open spec fn low(self) -> int {
        if self.y0 > self.y1 {
            self.y1
        } else {
            self.y0
        }
    }

    /// Whether the pixel of `w` lies inside the rectangle, borders included.
    pub open spec fn holds(self, w: PixelWrite) -> bool {
        &&& self.left() <= w.x <= self.left() + self.a()
        &&& self.low() <= w.y <= self.low() + self.b()
    }

    /// Whether the corners are device coordinates of a canvas.
    pub open spec fn on_device(self) -> bool {
        &&& -0x80_0000_0000 <= self.x0 <= 0x80_0000_0000
        &&& -0x80_0000_0000 <= self.y0 <= 0x80_0000_0000
        &&& -0x80_0000_0000 <= self.x1 <= 0x80_0000_0000
        &&& -0x80_0000_0000 <= self.y1 <= 0x80_0000_0000
    }
}

/// Whether state `m` belongs to the trace of the ellipse inscribed in `bx`:
/// its pixels mirror each other about the centre of the rectangle.
spec fn centred(m: ArcState, bx: DeviceBox) -> bool {
    &&& m.x0 + m.x1 == 2 * bx.left() + bx.a()
    &&& m.y0 + m.y1 == 2 * bx.low() + bx.b()
}

proof fn lemma_arc_inside(m: ArcState, bx: DeviceBox, color: RgbaStruct, fuel: nat, i: int)
    requires
        bx.on_device(),
        arc_inv(m, bx.a(), bx.b()),
        centred(m, bx),
        0 <= i < arc_writes(m, bx.a(), bx.b(), color, fuel).len(),
    ensures
        bx.holds(arc_writes(m, bx.a(), bx.b(), color, fuel)[i]),
        arc_writes(m, bx.a(), bx.b(), color, fuel)[i].color == color,
    decreases fuel,
{
    let a = bx.a();
    let b = bx.b();
    lemma_arc_step(m, a, b);
    let n = arc_step(m, a, b);
    if i >= 4 {
        lemma_arc_inside(n, bx, color, (fuel - 1) as nat, i - 4);
    }
}

proof fn lemma_arc_end_state(m: ArcState, bx: DeviceBox, fuel: nat)
    requires
        arc_inv(m, bx.a(), bx.b()),
        centred(m, bx),
        fuel >= (m.x1 - m.x0) - (m.y0 - m.y1) + bx.b() + 2,
    ensures
        ({
            let end = arc_end(m, bx.a(), bx.b(), fuel);
            &&& centred(end, bx)
            &&& -2 <= end.x1 - end.x0 < 0
            &&& 0 <= end.y0 - end.y1 <= bx.b() + 2
        }),
    decreases fuel,
{
    let a = bx.a();
    let b = bx.b();
    lemma_arc_step(m, a, b);
    let n = arc_step(m, a, b);
    if n.x0 <= n.x1 {
        lemma_arc_end_state(n, bx, (fuel - 1) as nat);
    }
}

proof fn lemma_tip_inside(m: ArcState, bx: DeviceBox, color: RgbaStruct, i: int)
    requires
        bx.on_device(),
        centred(m, bx),
        -2 <= m.x1 - m.x0 < 0,
        0 <= m.y0 - m.y1,
        0 <= i < tip_writes(m, bx.b(), color).len(),
    ensures
        bx.holds(tip_writes(m, bx.b(), color)[i]),
        tip_writes(m, bx.b(), color)[i].color == color,
    decreases bx.b() - (m.y0 - m.y1) + 1,
{
    if i >= 4 {
        lemma_tip_inside(ArcState { y0: m.y0 + 1, y1: m.y1 - 1, ..m }, bx, color, i - 4);
    }
}

/// Every pixel that an ellipse writes lies inside its device rectangle,
/// borders included, and carries the color unchanged. The first two writes
/// lie in the rightmost and the leftmost column of the rectangle, which the
/// ellipse therefore reaches.
pub proof fn lemma_ellipse_within_box(
    e: Ellipse2D,
    width: int,
    height: int,
    color: RgbaStruct,
    i: int,
)
    requires
        0 <= width <= u32::MAX,
        0 <= height <= u32::MAX,
        0 <= i < ellipse_writes(e, width, height, color).len(),
    ensures
        ({
            let bx = ellipse_box(e, width, height);
            let ws = ellipse_writes(e, width, height, color);
            &&& bx.holds(ws[i])
            &&& ws[i].color == color
            &&& ws.len() >= 4
            &&& ws[0].x == bx.left() + bx.a()
            &&& ws[1].x == bx.left()
        }),
{
    let bx = ellipse_box(e, width, height);
    lemma_box_on_device(e, width, height);
    let a = bx.a();
    let b = bx.b();
    let m = arc_start(bx);
    let fuel = arc_budget(a, b);
    lemma_start_inv(bx);
    let main = arc_writes(m, a, b, color, fuel);
    let end = arc_end(m, a, b, fuel);
    let tip = tip_writes(end, b, color);
    lemma_arc_step(m, a, b);
    assert(main.len() >= 4);
    assert(main[0] == quad(m, color)[0]);
    assert(main[1] == quad(m, color)[1]);
    if i < main.len() {
        lemma_arc_inside(m, bx, color, fuel, i);
    } else {
        lemma_arc_end_state(m, bx, fuel);
        lemma_tip_inside(end, bx, color, i - main.len());
    }
}

/// The device rectangle of an ellipse on a canvas with `u32` dimensions.
proof fn lemma_box_on_device(e: Ellipse2D, width: int, height: int)
    requires
        0 <= width <= u32::MAX,
        0 <= height <= u32::MAX,
    ensures
        ellipse_box(e, width, height).on_device(),
{
    lemma_mul_bounds(e.x0.raw as int, width, 0x8000_0000, 0xffff_ffff);
    lemma_mul_bounds(e.y0.raw as int, height, 0x8000_0000, 0xffff_ffff);
    lemma_mul_bounds(e.x1.raw as int, width, 0x8000_0000, 0xffff_ffff);
    lemma_mul_bounds(e.y1.raw as int, height, 0x8000_0000, 0xffff_ffff);
    lemma_round_div_bounds(e.x0.raw * width, scale(), -0x80_0000_0000, 0x80_0000_0000);
    lemma_round_div_bounds(e.y0.raw * height, scale(), -0x80_0000_0000, 0x80_0000_0000);
    lemma_round_div_bounds(e.x1.raw * width, scale(), -0x80_0000_0000, 0x80_0000_0000);
    lemma_round_div_bounds(e.y1.raw * height, scale(), -0x80_0000_0000, 0x80_0000_0000);
}

} // verus!
