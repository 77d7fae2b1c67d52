//! Three-dimensional points and the rotation applied to them.

use vstd::prelude::*;
use crate::arith::{clamp_i32, lemma_mul_bounds};
use crate::fixed::{scale, Fixed, FIXED_ONE};

verus! {

/// A point or displacement in three dimensions.
#[derive(Clone, Copy, Debug, PartialEq, Eq, Structural)]
pub struct Vector3D {
    pub x: Fixed,
    pub y: Fixed,
    pub z: Fixed,
}

/// The sum of the squares of the raw components of `v`.
pub open spec fn squared_length(v: Vector3D) -> int {
    v.x.raw * v.x.raw + v.y.raw * v.y.raw + v.z.raw * v.z.raw
}

impl Vector3D {
    /// The displacement from `other` to `self`, each component limited to
    /// the range of [`Fixed`].
    pub fn sub(&self, other: &Vector3D) -> (d: Vector3D)
        ensures
            d.x.raw == clamp_i32(self.x.raw - other.x.raw),
            d.y.raw == clamp_i32(self.y.raw - other.y.raw),
            d.z.raw == clamp_i32(self.z.raw - other.z.raw),
    {
        Vector3D {
            x: self.x.saturating_sub(other.x),
            y: self.y.saturating_sub(other.y),
            z: self.z.saturating_sub(other.z),
        }
    }

    /// The Euclidean length, rounded down to a fixed-point value and limited
    /// to the greatest one: the result is the largest raw value whose square
    /// does not exceed the squared length, unless that is out of range.
    pub fn norm(&self) -> (n: Fixed)
        ensures
            0 <= n.raw,
            n.raw * n.raw <= squared_length(*self),
            n.raw < i32::MAX ==> squared_length(*self) < (n.raw + 1) * (n.raw + 1),
    {
        proof {
            lemma_mul_bounds(self.x.raw as int, self.x.raw as int, 0x8000_0000, 0x8000_0000);
            lemma_mul_bounds(self.y.raw as int, self.y.raw as int, 0x8000_0000, 0x8000_0000);
            lemma_mul_bounds(self.z.raw as int, self.z.raw as int, 0x8000_0000, 0x8000_0000);
            assert(self.x.raw * self.x.raw >= 0 && self.y.raw * self.y.raw >= 0 && self.z.raw
                * self.z.raw >= 0) by (nonlinear_arith);
        }
        let x: i128 = self.x.raw as i128;
        let y: i128 = self.y.raw as i128;
        let z: i128 = self.z.raw as i128;
        let sum: i128 = x * x + y * y + z * z;
        let root = floor_sqrt(sum);
        if root > i32::MAX as i128 {
            proof {
                lemma_mul_bounds(
                    0x7fff_ffff,
                    0x7fff_ffff,
                    0x7fff_ffff,
                    0x7fff_ffff,
                );
                assert(0x7fff_ffff * 0x7fff_ffff <= root * root) by (nonlinear_arith)
                    requires
                        root >= 0x7fff_ffff,
                ;
            }
            Fixed { raw: i32::MAX }
        } else {
            Fixed { raw: root as i32 }
        }
    }
}

/// The largest integer whose square does not exceed `n`.
fn floor_sqrt(n: i128) -> (r: i128)
    requires
        0 <= n <= 0x1_0000_0000_0000_0000,
    ensures
        0 <= r <= 0x1_0000_0000,
        r * r <= n < (r + 1) * (r + 1),
{
    let mut lo: i128 = 0;
    let mut hi: i128 = 0x1_0000_0001;
    assert(lo * lo <= n < hi * hi) by (nonlinear_arith)
        requires
            lo == 0,
            hi == 0x1_0000_0001,
            0 <= n <= 0x1_0000_0000_0000_0000,
    ;
    while hi - lo > 1
        invariant
            0 <= lo < hi <= 0x1_0000_0001,
            lo * lo <= n < hi * hi,
        decreases hi - lo,
    {
        let mid: i128 = lo + (hi - lo) / 2;
        proof {
            lemma_mul_bounds(mid as int, mid as int, 0x1_0000_0001, 0x1_0000_0001);
        }
        if mid * mid <= n {
            lo = mid;
        } else {
            hi = mid;
        }
    }
    lo
}

/// A drawable three-dimensional shape.
#[derive(Debug)]
pub enum Shape3D {
    /// A cloud of points in an object space centred on `(0.5, 0.5, 0.5)`.
    Points3D(Vec<Vector3D>),
}

/// A rotation by Tait-Bryan angles about the x, y and z axes, held as the
/// sine and cosine of each angle. Every component lies in `[-1, 1]`.
#[derive(Clone, Copy, Debug)]
pub struct AxesRotation {
    sin_x: Fixed,
    cos_x: Fixed,
    sin_y: Fixed,
    cos_y: Fixed,
    sin_z: Fixed,
    cos_z: Fixed,
}

/// Whether `v` can be a sine or cosine: it lies in `[-1, 1]`.
pub open spec fn unit_range(v: Fixed) -> bool {
    -scale() <= v.raw <= scale()
}

/// The six components of a rotation, as raw fixed-point values.
pub struct RotationView {
    pub sin_x: int,
    pub cos_x: int,
    pub sin_y: int,
    pub cos_y: int,
    pub sin_z: int,
    pub cos_z: int,
}

impl RotationView {
    /// Every component lies in `[-1, 1]`.
    pub open spec fn wf(self) -> bool {
        &&& -scale() <= self.sin_x <= scale()
        &&& -scale() <= self.cos_x <= scale()
        &&& -scale() <= self.sin_y <= scale()
        &&& -scale() <= self.cos_y <= scale()
        &&& -scale() <= self.sin_z <= scale()
        &&& -scale() <= self.cos_z <= scale()
    }

    /// No rotation: every sine is 0 and every cosine is 1.
    pub open spec fn identity() -> RotationView {
        RotationView {
            sin_x: 0,
            cos_x: scale(),
            sin_y: 0,
            cos_y: scale(),
            sin_z: 0,
            cos_z: scale(),
        }
    }
}

impl View for AxesRotation {
    type V = RotationView;

    closed spec fn view(&self) -> RotationView {
        RotationView {
            sin_x: self.sin_x.raw as int,
            cos_x: self.cos_x.raw as int,
            sin_y: self.sin_y.raw as int,
            cos_y: self.cos_y.raw as int,
            sin_z: self.sin_z.raw as int,
            cos_z: self.cos_z.raw as int,
        }
    }
}

impl AxesRotation {
    #[verifier::type_invariant]
    spec fn well_formed(self) -> bool {
        self@.wf()
    }

    /// The rotation with the given sines and cosines, in the order
    /// `(sin, cos)` for the x, y and z axis. `None` unless every component
    /// lies in `[-1, 1]`.
    pub fn new(x: (Fixed, Fixed), y: (Fixed, Fixed), z: (Fixed, Fixed)) -> (r: Option<
        AxesRotation,
    >)
        ensures
            r is Some <==> unit_range(x.0) && unit_range(x.1) && unit_range(y.0) && unit_range(
                y.1,
            ) && unit_range(z.0) && unit_range(z.1),
            r matches Some(rot) ==> rot@ == (RotationView {
                sin_x: x.0.raw as int,
                cos_x: x.1.raw as int,
                sin_y: y.0.raw as int,
                cos_y: y.1.raw as int,
                sin_z: z.0.raw as int,
                cos_z: z.1.raw as int,
            }),
    {
        if in_unit(x.0) && in_unit(x.1) && in_unit(y.0) && in_unit(y.1) && in_unit(z.0) && in_unit(
            z.1,
        ) {
            Some(AxesRotation { sin_x: x.0, cos_x: x.1, sin_y: y.0, cos_y: y.1, sin_z: z.0, cos_z: z.1 })
        } else {
            None
        }
    }

    /// No rotation.
    pub fn identity() -> (r: AxesRotation)
        ensures
            r@ == RotationView::identity(),
    {
        let zero = Fixed { raw: 0 };
        let one = Fixed { raw: FIXED_ONE };
        AxesRotation { sin_x: zero, cos_x: one, sin_y: zero, cos_y: one, sin_z: zero, cos_z: one }
    }

    /// The six components `[sin_x, cos_x, sin_y, cos_y, sin_z, cos_z]`.
    pub fn components(&self) -> (c: [Fixed; 6])
        ensures
            self@.wf(),
            c[0].raw == self@.sin_x,
            c[1].raw == self@.cos_x,
            c[2].raw == self@.sin_y,
            c[3].raw == self@.cos_y,
            c[4].raw == self@.sin_z,
            c[5].raw == self@.cos_z,
    {
        proof {
            use_type_invariant(self);
        }
        [self.sin_x, self.cos_x, self.sin_y, self.cos_y, self.sin_z, self.cos_z]
    }
}

fn in_unit(v: Fixed) -> (b: bool)
    ensures
        b == unit_range(v),
{
    -16777216 <= v.raw && v.raw <= 16777216
}

} // verus!
