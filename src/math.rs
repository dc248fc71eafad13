//! Lattice vectors, points and rigid motions.
use vstd::prelude::*;

verus! {

/// Largest magnitude of a coordinate accepted in a shape's parameters or in
/// the translation of an isometry.
pub const MAX_COORD: i64 = 0x1000_0000;

/// Half-width of the box that stands for the whole plane (the bound of a
/// half-space).
pub const WORLD_EXTENT: i64 = 0x100_0000_0000;

/// Largest coordinate magnitude accepted by the operations on boxes.
pub const AABB_BOUND: i64 = 0x800_0000_0000;

/// A vector (or point) of the integer plane.
#[derive(Clone, Copy, Debug, PartialEq, Eq, Structural)]
pub struct Vector {
    pub x: i64,
    pub y: i64,
}

/// Points and vectors share one representation.
pub type Point = Vector;

/// `x` lies in `[-b, b]`.
pub open spec fn in_range(x: int, b: int) -> bool {
    -b <= x <= b
}

impl Vector {
    /// Both coordinates lie in `[-b, b]`.
    pub open spec fn bounded(self, b: int) -> bool {
        in_range(self.x as int, b) && in_range(self.y as int, b)
    }

    /// A vector usable as a shape parameter.
    pub open spec fn wf(self) -> bool {
        self.bounded(MAX_COORD as int)
    }

    pub fn new(x: i64, y: i64) -> (r: Vector)
        ensures
            r.x == x,
            r.y == y,
    {
        Vector { x, y }
    }

    pub fn zeros() -> (r: Vector)
        ensures
            r.x == 0,
            r.y == 0,
    {
        Vector { x: 0, y: 0 }
    }
}

/// Image of `(x, y)` under `q` counter-clockwise quarter turns.
pub open spec fn rotate_spec(q: int, x: int, y: int) -> (int, int) {
    if q == 0 {
        (x, y)
    } else if q == 1 {
        (-y, x)
    } else if q == 2 {
        (-x, -y)
    } else {
        (y, -x)
    }
}

/// A rigid motion of the lattice: a rotation by `quarter_turns` counter-clockwise
/// quarter turns about the origin, followed by a translation.
#[derive(Clone, Copy, Debug, PartialEq, Eq, Structural)]
pub struct Isometry {
    pub quarter_turns: u8,
    pub translation: Vector,
}

impl Isometry {
    pub open spec fn wf(self) -> bool {
        self.quarter_turns < 4 && self.translation.wf()
    }

    /// Image of the point `(x, y)`.
    pub open spec fn apply_spec(self, x: int, y: int) -> (int, int) {
        let r = rotate_spec(self.quarter_turns as int, x, y);
        (r.0 + self.translation.x, r.1 + self.translation.y)
    }

    /// The isometry that moves nothing.
    pub open spec fn identity_spec() -> Isometry {
        Isometry { quarter_turns: 0, translation: Vector { x: 0, y: 0 } }
    }

    pub fn identity() -> (r: Isometry)
        ensures
            r == Isometry::identity_spec(),
            r.wf(),
    {
        Isometry { quarter_turns: 0, translation: Vector { x: 0, y: 0 } }
    }

    pub fn translation(x: i64, y: i64) -> (r: Isometry)
        ensures
            r.quarter_turns == 0,
            r.translation.x == x,
            r.translation.y == y,
    {
        Isometry { quarter_turns: 0, translation: Vector { x, y } }
    }

    /// The rotation by `quarter_turns` quarter turns (taken modulo four) followed
    /// by the translation `translation`.
    pub fn new(translation: Vector, quarter_turns: u8) -> (r: Isometry)
        ensures
            r.quarter_turns == quarter_turns % 4,
            r.translation == translation,
    {
        Isometry { quarter_turns: quarter_turns % 4, translation }
    }

    /// Applies this isometry to a point.
    pub fn transform_point(&self, p: &Point) -> (r: Point)
        requires
            self.wf(),
            p.bounded(AABB_BOUND as int),
        ensures
            (r.x as int, r.y as int) == self.apply_spec(p.x as int, p.y as int),
    {
        let (x, y) = if self.quarter_turns == 0 {
            (p.x, p.y)
        } else if self.quarter_turns == 1 {
            (-p.y, p.x)
        } else if self.quarter_turns == 2 {
            (-p.x, -p.y)
        } else {
            (p.y, -p.x)
        };
        Vector { x: x + self.translation.x, y: y + self.translation.y }
    }
}

impl Vector {
    pub open spec fn zeros_spec() -> Vector {
        Vector { x: 0, y: 0 }
    }
}

} // verus!

verus! {

/// `v * s` when its magnitude is at most `MAX_COORD`.
pub open spec fn scaled_coord_spec(v: i64, s: i64) -> Option<i64> {
    if in_range(v * s, MAX_COORD as int) {
        Some((v * s) as i64)
    } else {
        None
    }
}

/// `v * s`, or `None` when it leaves `[-MAX_COORD, MAX_COORD]`.
pub fn scale_coord(v: i64, s: i64) -> (r: Option<i64>)
    ensures
        r == scaled_coord_spec(v, s),
{
    assert(-0x4000_0000_0000_0000_0000_0000_0000_0000 <= (v as int) * (s as int)
        <= 0x4000_0000_0000_0000_0000_0000_0000_0000) by (nonlinear_arith)
        requires
            -0x8000_0000_0000_0000 <= v <= 0x7fff_ffff_ffff_ffff,
            -0x8000_0000_0000_0000 <= s <= 0x7fff_ffff_ffff_ffff,
    ;
    let p: i128 = (v as i128) * (s as i128);
    if -(MAX_COORD as i128) <= p && p <= MAX_COORD as i128 {
        Some(p as i64)
    } else {
        None
    }
}

impl Vector {
    /// The componentwise product with `s`, when it stays a valid parameter.
    pub open spec fn component_mul_spec(self, s: Vector) -> Option<Vector> {
        match (scaled_coord_spec(self.x, s.x), scaled_coord_spec(self.y, s.y)) {
            (Some(x), Some(y)) => Some(Vector { x, y }),
            _ => None,
        }
    }

    /// The componentwise product with `s`, or `None` when a coordinate
    /// leaves `[-MAX_COORD, MAX_COORD]`.
    pub fn component_mul(&self, s: &Vector) -> (r: Option<Vector>)
        ensures
            r == self.component_mul_spec(*s),
            r matches Some(v) ==> v.wf(),
    {
        match (scale_coord(self.x, s.x), scale_coord(self.y, s.y)) {
            (Some(x), Some(y)) => Some(Vector { x, y }),
            _ => None,
        }
    }
}

} // verus!
