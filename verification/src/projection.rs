//! Perspective projection of three-dimensional points onto the canvas.
//!
//! A point is moved to the object origin, rotated, placed in front of a
//! camera at distance 2.5, projected onto a display plane at distance 1 and
//! scaled so that a field of view of half-width 0.5 fills the unit square.

use vstd::prelude::*;
use crate::arith::{
    clamp_i32, clamp_to_i32, div_round, lemma_div_mod_unique, lemma_mul_bounds,
    lemma_round_div_bounds, lemma_round_div_exact, round_div,
};
use crate::fixed::{ratio_raw, scale, Fixed};
use crate::scene2d::Ellipse2D;
use crate::scene3d::{AxesRotation, RotationView, Vector3D};

verus! {

/// A 3 by 3 matrix of raw fixed-point entries; `xy` is row x, column y.
pub struct Matrix3 {
    pub xx: int,
    pub xy: int,
    pub xz: int,
    pub yx: int,
    pub yy: int,
    pub yz: int,
    pub zx: int,
    pub zy: int,
    pub zz: int,
}

impl Matrix3 {
    /// The matrix product `self * other`.
    pub open spec fn times(self, other: Matrix3) -> Matrix3 {
        Matrix3 {
            xx: self.xx * other.xx + self.xy * other.yx + self.xz * other.zx,
            xy: self.xx * other.xy + self.xy * other.yy + self.xz * other.zy,
            xz: self.xx * other.xz + self.xy * other.yz + self.xz * other.zz,
            yx: self.yx * other.xx + self.yy * other.yx + self.yz * other.zx,
            yy: self.yx * other.xy + self.yy * other.yy + self.yz * other.zy,
            yz: self.yx * other.xz + self.yy * other.yz + self.yz * other.zz,
            zx: self.zx * other.xx + self.zy * other.yx + self.zz * other.zx,
            zy: self.zx * other.xy + self.zy * other.yy + self.zz * other.zy,
            zz: self.zx * other.xz + self.zy * other.yz + self.zz * other.zz,
        }
    }
}

/// The matrix that takes coordinates to the frame turned about the x axis.
pub open spec fn turn_x(r: RotationView) -> Matrix3 {
    Matrix3 {
        xx: scale(),
        xy: 0,
        xz: 0,
        yx: 0,
        yy: r.cos_x,
        yz: r.sin_x,
        zx: 0,
        zy: -r.sin_x,
        zz: r.cos_x,
    }
}

/// The matrix that takes coordinates to the frame turned about the y axis.
pub open spec fn turn_y(r: RotationView) -> Matrix3 {
    Matrix3 {
        xx: r.cos_y,
        xy: 0,
        xz: -r.sin_y,
        yx: 0,
        yy: scale(),
        yz: 0,
        zx: r.sin_y,
        zy: 0,
        zz: r.cos_y,
    }
}

/// The matrix that takes coordinates to the frame turned about the z axis.
pub open spec fn turn_z(r: RotationView) -> Matrix3 {
    Matrix3 {
        xx: r.cos_z,
        xy: r.sin_z,
        xz: 0,
        yx: -r.sin_z,
        yy: r.cos_z,
        yz: 0,
        zx: 0,
        zy: 0,
        zz: scale(),
    }
}

/// The exact value of `a * b + c * d * e` for raw fixed-point operands, in
/// units of `2^-72`.
pub open spec fn exact_entry(a: int, b: int, c: int, d: int, e: int) -> int {
    a * b * scale() + c * d * e
}

/// The fixed-point value nearest to `a * b + c * d * e`, where the operands
/// are raw fixed-point values.
pub open spec fn entry(a: int, b: int, c: int, d: int, e: int) -> int {
    round_div(exact_entry(a, b, c, d, e), scale() * scale())
}

/// The rotation matrix before rounding, in units of `2^-72`.
pub open spec fn exact_rotation(r: RotationView) -> Matrix3 {
    Matrix3 {
        xx: exact_entry(r.cos_y, r.cos_z, 0, 0, 0),
        xy: exact_entry(r.cos_x, r.sin_z, r.cos_z, r.sin_x, r.sin_y),
        xz: exact_entry(r.sin_x, r.sin_z, -r.cos_x, r.cos_z, r.sin_y),
        yx: exact_entry(-r.cos_y, r.sin_z, 0, 0, 0),
        yy: exact_entry(r.cos_x, r.cos_z, -r.sin_x, r.sin_y, r.sin_z),
        yz: exact_entry(r.cos_z, r.sin_x, r.cos_x, r.sin_y, r.sin_z),
        zx: exact_entry(r.sin_y, scale(), 0, 0, 0),
        zy: exact_entry(-r.cos_y, r.sin_x, 0, 0, 0),
        zz: exact_entry(r.cos_x, r.cos_y, 0, 0, 0),
    }
}

/// The matrix that takes coordinates to the frame rotated about the x axis,
/// then the y axis, then the z axis. Each entry is computed exactly from the
/// sines and cosines and rounded once.
pub open spec fn rotation_matrix(r: RotationView) -> Matrix3 {
    let m = exact_rotation(r);
    let d = scale() * scale();
    Matrix3 {
        xx: round_div(m.xx, d),
        xy: round_div(m.xy, d),
        xz: round_div(m.xz, d),
        yx: round_div(m.yx, d),
        yy: round_div(m.yy, d),
        yz: round_div(m.yz, d),
        zx: round_div(m.zx, d),
        zy: round_div(m.zy, d),
        zz: round_div(m.zz, d),
    }
}

/// Before rounding, the rotation matrix is the product of the three
/// elementary turns, applied about the x axis first and the z axis last.
pub proof fn lemma_rotation_composes(r: RotationView)
    ensures
        exact_rotation(r) == turn_z(r).times(turn_y(r).times(turn_x(r))),
{
    let s = scale();
    let (sx, cx, sy, cy, sz, cz) = (r.sin_x, r.cos_x, r.sin_y, r.cos_y, r.sin_z, r.cos_z);
    let m = turn_y(r).times(turn_x(r));
    let p = turn_z(r).times(m);
    assert(m.xx == cy * s && m.xy == sy * sx && m.xz == -(sy * cx) && m.yx == 0 && m.yy == s * cx
        && m.yz == s * sx && m.zx == sy * s && m.zy == -(cy * sx) && m.zz == cy * cx)
        by (nonlinear_arith)
        requires
            m == turn_y(r).times(turn_x(r)),
            s == scale(),
            sx == r.sin_x,
            cx == r.cos_x,
            sy == r.sin_y,
            cy == r.cos_y,
    ;
    assert(p.xx == cy * cz * s + 0 * 0 * 0 && p.xy == cx * sz * s + cz * sx * sy && p.xz == sx * sz
        * s + (-cx) * cz * sy) by (nonlinear_arith)
        requires
            p.xx == cz * m.xx + sz * m.yx + 0 * m.zx,
            p.xy == cz * m.xy + sz * m.yy + 0 * m.zy,
            p.xz == cz * m.xz + sz * m.yz + 0 * m.zz,
            m.xx == cy * s,
            m.xy == sy * sx,
            m.xz == -(sy * cx),
            m.yx == 0,
            m.yy == s * cx,
            m.yz == s * sx,
    ;
    assert(p.yx == (-cy) * sz * s + 0 * 0 * 0 && p.yy == cx * cz * s + (-sx) * sy * sz && p.yz
        == cz * sx * s + cx * sy * sz) by (nonlinear_arith)
        requires
            p.yx == (-sz) * m.xx + cz * m.yx + 0 * m.zx,
            p.yy == (-sz) * m.xy + cz * m.yy + 0 * m.zy,
            p.yz == (-sz) * m.xz + cz * m.yz + 0 * m.zz,
            m.xx == cy * s,
            m.xy == sy * sx,
            m.xz == -(sy * cx),
            m.yx == 0,
            m.yy == s * cx,
            m.yz == s * sx,
    ;
    assert(p.zx == sy * s * s + 0 * 0 * 0 && p.zy == (-cy) * sx * s + 0 * 0 * 0 && p.zz == cx * cy
        * s + 0 * 0 * 0) by (nonlinear_arith)
        requires
            p.zx == 0 * m.xx + 0 * m.yx + s * m.zx,
            p.zy == 0 * m.xy + 0 * m.yy + s * m.zy,
            p.zz == 0 * m.xz + 0 * m.yz + s * m.zz,
            m.zx == sy * s,
            m.zy == -(cy * sx),
            m.zz == cy * cx,
    ;
}

/// The position of `p` relative to the camera, in units of `2^-48`: `p` is
/// taken relative to the object origin `(0.5, 0.5, 0.5)`, rotated, and then
/// taken relative to the camera at `(0, 0, -2.5)`.
pub open spec fn camera_space(p: Vector3D, r: RotationView) -> (int, int, int) {
    let h = scale() / 2;
    let dx = p.x.raw - h;
    let dy = p.y.raw - h;
    let dz = p.z.raw - h;
    let m = rotation_matrix(r);
    (
        m.xx * dx + m.xy * dy + m.xz * dz,
        m.yx * dx + m.yy * dy + m.yz * dz,
        m.zx * dx + m.zy * dy + m.zz * dz + 5 * (scale() * scale() / 2),
    )
}

/// Whether `p` lies in the camera plane, where it has no projection.
pub open spec fn singular(p: Vector3D, r: RotationView) -> bool {
    camera_space(p, r).2 == 0
}

/// The normalized coordinate of a camera-space abscissa `c` at depth `z`:
/// `(c / z) / 0.5 + 0.5`, rounded to the nearest fixed-point value and
/// limited to its range.
pub open spec fn screen_coord(c: int, z: int) -> Fixed {
    Fixed { raw: ratio_raw(4 * c + z, 2 * z) as i32 }
}

/// Where `p` appears on the canvas, or `None` if it lies in the camera plane.
pub open spec fn projected(p: Vector3D, r: RotationView) -> Option<(Fixed, Fixed)> {
    let c = camera_space(p, r);
    if c.2 == 0 {
        None
    } else {
        Some((screen_coord(c.0, c.2), screen_coord(c.1, c.2)))
    }
}

/// The raw value of the half-extent 0.01 of a point marker.
pub const MARKER_HALF: i32 = 167772;

/// The small ellipse that marks a projected point: the box reaching 0.01 to
/// each side of `at`, limited to the range of the coordinates.
pub open spec fn marker(at: (Fixed, Fixed)) -> Ellipse2D {
    Ellipse2D {
        x0: Fixed { raw: clamp_i32(at.0.raw - MARKER_HALF) as i32 },
        y0: Fixed { raw: clamp_i32(at.1.raw - MARKER_HALF) as i32 },
        x1: Fixed { raw: clamp_i32(at.0.raw + MARKER_HALF) as i32 },
        y1: Fixed { raw: clamp_i32(at.1.raw + MARKER_HALF) as i32 },
    }
}

/// The object origin `(0.5, 0.5, 0.5)`.
pub open spec fn object_origin() -> Vector3D {
    Vector3D {
        x: Fixed { raw: 8388608 },
        y: Fixed { raw: 8388608 },
        z: Fixed { raw: 8388608 },
    }
}

/// Whatever the rotation, a point at the object origin projects to the
/// centre `(0.5, 0.5)` of the canvas.
pub proof fn lemma_origin_projects_to_centre(r: RotationView)
    ensures
        projected(object_origin(), r) == Some((Fixed { raw: 8388608 }, Fixed { raw: 8388608 })),
{
    let m = rotation_matrix(r);
    let c = camera_space(object_origin(), r);
    lemma_row_of_nothing(m.xx, m.xy, m.xz);
    lemma_row_of_nothing(m.yx, m.yy, m.yz);
    lemma_row_of_nothing(m.zx, m.zy, m.zz);
    assert(c.0 == 0 && c.1 == 0 && c.2 == 703687441776640);
    let z: int = 703687441776640;
    lemma_div_mod_unique(2 * (z * 16777216) + 2 * z, 2 * (2 * z), 8388608, 2 * z);
    assert(ratio_raw(4 * 0 + z, 2 * z) == 8388608);
}

proof fn lemma_row_of_nothing(a: int, b: int, c: int)
    by (nonlinear_arith)
    ensures
        a * 0 + b * 0 + c * 0 == 0,
{
}

/// A matrix entry whose exact value is a whole number of units.
proof fn lemma_entry_exact(a: int, b: int, c: int, d: int, e: int, v: int)
    requires
        a * b * scale() + c * d * e == v * 281474976710656,
    ensures
        entry(a, b, c, d, e) == v,
{
    assert(scale() * scale() == 281474976710656);
    lemma_round_div_exact(v, 281474976710656);
}

/// The matrix of no rotation is the identity.
pub proof fn lemma_identity_matrix()
    ensures
        rotation_matrix(RotationView::identity()) == (Matrix3 {
            xx: scale(),
            xy: 0,
            xz: 0,
            yx: 0,
            yy: scale(),
            yz: 0,
            zx: 0,
            zy: 0,
            zz: scale(),
        }),
{
    let s = scale();
    assert(s * s * s + 0 * 0 * 0 == s * 281474976710656) by (nonlinear_arith)
        requires
            s == 16777216,
    ;
    assert(s * 0 * s + s * 0 * 0 == 0) by (nonlinear_arith);
    assert(0 * 0 * s + (-s) * s * 0 == 0) by (nonlinear_arith);
    assert((-s) * 0 * s + 0 * 0 * 0 == 0) by (nonlinear_arith);
    assert(0 * s * s + 0 * 0 * 0 == 0) by (nonlinear_arith);
    lemma_entry_exact(s, s, 0, 0, 0, s);
    lemma_entry_exact(s, 0, s, 0, 0, 0);
    lemma_entry_exact(0, 0, -s, s, 0, 0);
    lemma_entry_exact(-s, 0, 0, 0, 0, 0);
    lemma_entry_exact(0, s, 0, 0, 0, 0);
}

/// A rotation matrix in machine integers.
struct Rows {
    xx: i128,
    xy: i128,
    xz: i128,
    yx: i128,
    yy: i128,
    yz: i128,
    zx: i128,
    zy: i128,
    zz: i128,
}

impl Rows {
    spec fn matrix(self) -> Matrix3 {
        Matrix3 {
            xx: self.xx as int,
            xy: self.xy as int,
            xz: self.xz as int,
            yx: self.yx as int,
            yy: self.yy as int,
            yz: self.yz as int,
            zx: self.zx as int,
            zy: self.zy as int,
            zz: self.zz as int,
        }
    }

    spec fn bounded(self) -> bool {
        &&& -0x200_0000 <= self.xx <= 0x200_0000
        &&& -0x200_0000 <= self.xy <= 0x200_0000
        &&& -0x200_0000 <= self.xz <= 0x200_0000
        &&& -0x200_0000 <= self.yx <= 0x200_0000
        &&& -0x200_0000 <= self.yy <= 0x200_0000
        &&& -0x200_0000 <= self.yz <= 0x200_0000
        &&& -0x200_0000 <= self.zx <= 0x200_0000
        &&& -0x200_0000 <= self.zy <= 0x200_0000
        &&& -0x200_0000 <= self.zz <= 0x200_0000
    }
}

/// One matrix entry from operands in `[-1, 1]`.
fn make_entry(a: i128, b: i128, c: i128, d: i128, e: i128) -> (v: i128)
    requires
        -0x100_0000 <= a <= 0x100_0000,
        -0x100_0000 <= b <= 0x100_0000,
        -0x100_0000 <= c <= 0x100_0000,
        -0x100_0000 <= d <= 0x100_0000,
        -0x100_0000 <= e <= 0x100_0000,
    ensures
        v == entry(a as int, b as int, c as int, d as int, e as int),
        -0x200_0000 <= v <= 0x200_0000,
{
    proof {
        lemma_mul_bounds(a as int, b as int, 0x100_0000, 0x100_0000);
        lemma_mul_bounds(c as int, d as int, 0x100_0000, 0x100_0000);
        lemma_mul_bounds(c * d, e as int, 0x1_0000_0000_0000, 0x100_0000);
        assert(scale() * scale() == 0x1_0000_0000_0000);
        assert(-0x200_0000 * 0x1_0000_0000_0000 <= a * b * scale() + c * d * e <= 0x200_0000
            * 0x1_0000_0000_0000);
        lemma_round_div_bounds(
            a * b * scale() + c * d * e,
            scale() * scale(),
            -0x200_0000,
            0x200_0000,
        );
    }
    div_round(a * b * 16777216 + c * d * e, 281474976710656)
}

/// The rotation matrix of `rot`.
fn make_rows(rot: &AxesRotation) -> (m: Rows)
    ensures
        m.matrix() == rotation_matrix(rot@),
        m.bounded(),
{
    let c = rot.components();
    let sx: i128 = c[0].raw as i128;
    let cx: i128 = c[1].raw as i128;
    let sy: i128 = c[2].raw as i128;
    let cy: i128 = c[3].raw as i128;
    let sz: i128 = c[4].raw as i128;
    let cz: i128 = c[5].raw as i128;
    Rows {
        xx: make_entry(cy, cz, 0, 0, 0),
        xy: make_entry(cx, sz, cz, sx, sy),
        xz: make_entry(sx, sz, -cx, cz, sy),
        yx: make_entry(-cy, sz, 0, 0, 0),
        yy: make_entry(cx, cz, -sx, sy, sz),
        yz: make_entry(cz, sx, cx, sy, sz),
        zx: make_entry(sy, 16777216, 0, 0, 0),
        zy: make_entry(-cy, sx, 0, 0, 0),
        zz: make_entry(cx, cy, 0, 0, 0),
    }
}

/// Component `k` of the triples `t` after each has been multiplied by the
/// 3 by 3 matrix `m`, given row by row: with `k == 3 * i + r`, the product of
/// row `r` of the matrix and triple `i`.
pub open spec fn row_product(m: Seq<i64>, t: Seq<i64>, k: int) -> int {
    let i = k / 3;
    let r = k % 3;
    m[3 * r] * t[3 * i] + m[3 * r + 1] * t[3 * i + 1] + m[3 * r + 2] * t[3 * i + 2]
}

/// Calls `dot` of `ndarray` on the `count` by 3 array whose rows are the
/// triples of `triples` and the transpose of the 3 by 3 array `m`. The
/// product has row `i` equal to the matrix applied to triple `i`, and is
/// handed back row by row. `dot` adds and multiplies the elements as they
/// are, so `requires` keeps every partial sum inside an `i64`; the shapes
/// always agree.
#[verifier::external_body]
fn rotate_triples(triples: Vec<i64>, count: usize, m: [i64; 9]) -> (out: Vec<i64>)
    requires
        triples@.len() == 3 * count,
        forall|k: int| 0 <= k < 9 ==> -0x200_0000 <= #[trigger] m@[k] <= 0x200_0000,
        forall|k: int|
            0 <= k < triples@.len() ==> -0x1_0000_0000 <= #[trigger] triples@[k] <= 0x1_0000_0000,
    ensures
        out@.len() == triples@.len(),
        forall|k: int| 0 <= k < out@.len() ==> #[trigger] out@[k] == row_product(m@, triples@, k),
{
    let points = ndarray::Array2::from_shape_vec((count, 3), triples).unwrap();
    let matrix = ndarray::Array2::from_shape_vec((3, 3), m.to_vec()).unwrap();
    points.dot(&matrix.t()).iter().copied().collect()
}

/// The normalized screen coordinate of a camera-space abscissa.
fn to_screen(c: i128, z: i128) -> (f: Fixed)
    requires
        z != 0,
        -0x800_0000_0000_0000 <= c <= 0x800_0000_0000_0000,
        -0x800_0000_0000_0000 <= z <= 0x800_0000_0000_0000,
    ensures
        f == screen_coord(c as int, z as int),
{
    let num: i128 = (4 * c + z) * 16777216;
    let den: i128 = 2 * z;
    let q = if den > 0 {
        div_round(num, den)
    } else {
        div_round(-num, -den)
    };
    Fixed { raw: clamp_to_i32(q) }
}

/// The displacements of `points` from the object origin, three raw
/// coordinates to the point.
fn displacements(points: &Vec<Vector3D>) -> (flat: Vec<i64>)
    ensures
        flat@.len() == 3 * points@.len(),
        forall|i: int|
            0 <= i < points@.len() ==> {
                &&& #[trigger] flat@[3 * i] == points@[i].x.raw - scale() / 2
                &&& flat@[3 * i + 1] == points@[i].y.raw - scale() / 2
                &&& flat@[3 * i + 2] == points@[i].z.raw - scale() / 2
            },
{
    let mut flat: Vec<i64> = Vec::new();
    let mut i: usize = 0;
    while i < points.len()
        invariant
            i <= points.len(),
            flat@.len() == 3 * i,
            forall|j: int|
                0 <= j < i ==> {
                    &&& #[trigger] flat@[3 * j] == points@[j].x.raw - scale() / 2
                    &&& flat@[3 * j + 1] == points@[j].y.raw - scale() / 2
                    &&& flat@[3 * j + 2] == points@[j].z.raw - scale() / 2
                },
        decreases points.len() - i,
    {
        let p = points[i];
        flat.push(p.x.raw as i64 - 8388608);
        flat.push(p.y.raw as i64 - 8388608);
        flat.push(p.z.raw as i64 - 8388608);
        i = i + 1;
    }
    flat
}

/// Projects `points` onto the canvas after rotating them by `rot`, leaving
/// `points` as they are. Entry `i` of the result is where point `i` appears,
/// or `None` if that point lies in the camera plane.
pub fn project_points(points: &Vec<Vector3D>, rot: &AxesRotation) -> (out: Vec<
    Option<(Fixed, Fixed)>,
>)
    ensures
        out@.len() == points@.len(),
        forall|i: int| 0 <= i < out@.len() ==> #[trigger] out@[i] == projected(points@[i], rot@),
{
    let m = make_rows(rot);
    let rows: [i64; 9] = [
        m.xx as i64,
        m.xy as i64,
        m.xz as i64,
        m.yx as i64,
        m.yy as i64,
        m.yz as i64,
        m.zx as i64,
        m.zy as i64,
        m.zz as i64,
    ];
    let n = points.len();
    let flat = displacements(points);
    let ghost disp = flat@;
    assert forall|k: int| 0 <= k < disp.len() implies -0x1_0000_0000 <= #[trigger] disp[k]
        <= 0x1_0000_0000 by {
        let i = k / 3;
        assert(disp[3 * i] == points@[i].x.raw - scale() / 2);
        assert(k == 3 * i || k == 3 * i + 1 || k == 3 * i + 2);
    }
    let turned = rotate_triples(flat, n, rows);
    let total = turned.len();
    let mut out: Vec<Option<(Fixed, Fixed)>> = Vec::new();
    let mut i: usize = 0;
    while i < n
        invariant
            i <= n,
            n == points@.len(),
            total == 3 * n,
            disp.len() == 3 * n,
            turned@.len() == 3 * n,
            rows@ == seq![
                m.xx as i64,
                m.xy as i64,
                m.xz as i64,
                m.yx as i64,
                m.yy as i64,
                m.yz as i64,
                m.zx as i64,
                m.zy as i64,
                m.zz as i64,
            ],
            m.bounded(),
            m.matrix() == rotation_matrix(rot@),
            forall|j: int|
                0 <= j < n ==> {
                    &&& #[trigger] disp[3 * j] == points@[j].x.raw - scale() / 2
                    &&& disp[3 * j + 1] == points@[j].y.raw - scale() / 2
                    &&& disp[3 * j + 2] == points@[j].z.raw - scale() / 2
                },
            forall|k: int|
                0 <= k < turned@.len() ==> #[trigger] turned@[k] == row_product(rows@, disp, k),
            out@.len() == i,
            forall|j: int| 0 <= j < i ==> #[trigger] out@[j] == projected(points@[j], rot@),
        decreases n - i,
    {
        let cx: i128 = turned[3 * i] as i128;
        let cy: i128 = turned[3 * i + 1] as i128;
        let cz: i128 = turned[3 * i + 2] as i128 + 703687441776640;
        proof {
            let j = i as int;
            let p = points@[j];
            let c = camera_space(p, rot@);
            assert(disp[3 * j] == p.x.raw - scale() / 2);
            assert((3 * j) / 3 == j && (3 * j) % 3 == 0);
            assert((3 * j + 1) / 3 == j && (3 * j + 1) % 3 == 1);
            assert((3 * j + 2) / 3 == j && (3 * j + 2) % 3 == 2);
            assert(turned@[3 * j] == row_product(rows@, disp, 3 * j));
            assert(turned@[3 * j + 1] == row_product(rows@, disp, 3 * j + 1));
            assert(turned@[3 * j + 2] == row_product(rows@, disp, 3 * j + 2));
            assert(cx == c.0 && cy == c.1 && cz == c.2);
            lemma_mul_bounds(m.xx as int, disp[3 * j] as int, 0x200_0000, 0x1_0000_0000);
            lemma_mul_bounds(m.xy as int, disp[3 * j + 1] as int, 0x200_0000, 0x1_0000_0000);
            lemma_mul_bounds(m.xz as int, disp[3 * j + 2] as int, 0x200_0000, 0x1_0000_0000);
            lemma_mul_bounds(m.yx as int, disp[3 * j] as int, 0x200_0000, 0x1_0000_0000);
            lemma_mul_bounds(m.yy as int, disp[3 * j + 1] as int, 0x200_0000, 0x1_0000_0000);
            lemma_mul_bounds(m.yz as int, disp[3 * j + 2] as int, 0x200_0000, 0x1_0000_0000);
            lemma_mul_bounds(m.zx as int, disp[3 * j] as int, 0x200_0000, 0x1_0000_0000);
            lemma_mul_bounds(m.zy as int, disp[3 * j + 1] as int, 0x200_0000, 0x1_0000_0000);
            lemma_mul_bounds(m.zz as int, disp[3 * j + 2] as int, 0x200_0000, 0x1_0000_0000);
        }
        let at = if cz == 0 {
            None
        } else {
            Some((to_screen(cx, cz), to_screen(cy, cz)))
        };
        out.push(at);
        i = i + 1;
    }
    out
}

/// Projects the single point `p`; see [`project_points`].
pub fn project_point(p: &Vector3D, rot: &AxesRotation) -> (at: Option<(Fixed, Fixed)>)
    ensures
        at == projected(*p, rot@),
{
    let mut one: Vec<Vector3D> = Vec::new();
    one.push(*p);
    let out = project_points(&one, rot);
    out[0]
}

/// The marker ellipse of a projected point.
pub fn point_marker(at: (Fixed, Fixed)) -> (e: Ellipse2D)
    ensures
        e == marker(at),
{
    let half = Fixed { raw: MARKER_HALF };
    Ellipse2D {
        x0: at.0.saturating_sub(half),
        y0: at.1.saturating_sub(half),
        x1: at.0.saturating_add(half),
        y1: at.1.saturating_add(half),
    }
}

} // verus!
