//! Convex primitive shapes with closed-form bounds.
use vstd::prelude::*;
use crate::bounding_volume::{union_of, lemma_union_bounded, lemma_union_contains, Aabb, BoundingSphere};
use crate::math::WORLD_EXTENT;
use crate::math::{Isometry, Point, Vector, MAX_COORD};

verus! {

/// The box holding the single point `p`.
pub open spec fn point_box(p: Point) -> Aabb {
    Aabb { mins: p, maxs: p }
}

/// A disc of radius `radius` centered at the origin.
#[derive(Clone, Copy, Debug, PartialEq, Eq, Structural)]
pub struct Ball {
    pub radius: i64,
}

impl Ball {
    pub open spec fn wf(self) -> bool {
        0 <= self.radius <= MAX_COORD
    }

    pub open spec fn local_aabb_spec(self) -> Aabb {
        Aabb {
            mins: Vector { x: -self.radius as i64, y: -self.radius as i64 },
            maxs: Vector { x: self.radius, y: self.radius },
        }
    }

    /// The box of the disc placed by `m`: its center moves, its extent stays.
    pub open spec fn aabb_spec(self, m: Isometry) -> Aabb {
        let t = m.translation;
        Aabb {
            mins: Vector { x: (t.x - self.radius) as i64, y: (t.y - self.radius) as i64 },
            maxs: Vector { x: (t.x + self.radius) as i64, y: (t.y + self.radius) as i64 },
        }
    }

    pub fn new(radius: i64) -> (r: Ball)
        requires
            0 <= radius <= MAX_COORD,
        ensures
            r.radius == radius,
            r.wf(),
    {
        Ball { radius }
    }

    pub fn local_aabb(&self) -> (r: Aabb)
        requires
            self.wf(),
        ensures
            r == self.local_aabb_spec(),
    {
        Aabb {
            mins: Vector { x: -self.radius, y: -self.radius },
            maxs: Vector { x: self.radius, y: self.radius },
        }
    }

    pub fn aabb(&self, m: &Isometry) -> (r: Aabb)
        requires
            self.wf(),
            m.wf(),
        ensures
            r == self.aabb_spec(*m),
            r.bounded(2 * MAX_COORD),
    {
        let t = m.translation;
        Aabb {
            mins: Vector { x: t.x - self.radius, y: t.y - self.radius },
            maxs: Vector { x: t.x + self.radius, y: t.y + self.radius },
        }
    }

    pub fn local_bounding_sphere(&self) -> (r: BoundingSphere)
        ensures
            r.center == Vector::zeros_spec(),
            r.radius == self.radius,
    {
        BoundingSphere { center: Vector { x: 0, y: 0 }, radius: self.radius }
    }
}

/// A rectangle centered at the origin with the given half-widths.
#[derive(Clone, Copy, Debug, PartialEq, Eq, Structural)]
pub struct Cuboid {
    pub half_extents: Vector,
}

impl Cuboid {
    pub open spec fn wf(self) -> bool {
        0 <= self.half_extents.x <= MAX_COORD && 0 <= self.half_extents.y <= MAX_COORD
    }

    pub open spec fn local_aabb_spec(self) -> Aabb {
        Aabb {
            mins: Vector { x: -self.half_extents.x as i64, y: -self.half_extents.y as i64 },
            maxs: self.half_extents,
        }
    }

    /// The smaller half-width.
    pub open spec fn min_half_extent(self) -> i64 {
        if self.half_extents.x <= self.half_extents.y {
            self.half_extents.x
        } else {
            self.half_extents.y
        }
    }

    /// The cuboid scaled by `s` on each axis, when it stays valid.
    pub open spec fn scaled_spec(self, s: Vector) -> Option<Cuboid> {
        let a = Vector {
            x: if s.x < 0 { -s.x as i64 } else { s.x },
            y: if s.y < 0 { -s.y as i64 } else { s.y },
        };
        match self.half_extents.component_mul_spec(a) {
            Some(h) => Some(Cuboid { half_extents: h }),
            None => None,
        }
    }

    pub fn new(half_extents: Vector) -> (r: Cuboid)
        requires
            0 <= half_extents.x <= MAX_COORD,
            0 <= half_extents.y <= MAX_COORD,
        ensures
            r.half_extents == half_extents,
            r.wf(),
    {
        Cuboid { half_extents }
    }

    pub fn local_aabb(&self) -> (r: Aabb)
        requires
            self.wf(),
        ensures
            r == self.local_aabb_spec(),
            r.bounded(MAX_COORD as int),
    {
        Aabb {
            mins: Vector { x: -self.half_extents.x, y: -self.half_extents.y },
            maxs: self.half_extents,
        }
    }

    pub fn ccd_thickness(&self) -> (r: i64)
        ensures
            r == self.min_half_extent(),
    {
        if self.half_extents.x <= self.half_extents.y {
            self.half_extents.x
        } else {
            self.half_extents.y
        }
    }

    /// The four corners, in the order of their `Vertex` ids.
    pub open spec fn corners_spec(self) -> Seq<Point> {
        let h = self.half_extents;
        seq![
            Vector { x: h.x, y: h.y },
            Vector { x: -h.x as i64, y: h.y },
            Vector { x: h.x, y: -h.y as i64 },
            Vector { x: -h.x as i64, y: -h.y as i64 },
        ]
    }

    /// The direction of the outward normal of a feature: `Face(0)` and
    /// `Face(1)` face the positive `x` and `y` axes, `Face(2)` and `Face(3)`
    /// the negative ones; `Vertex(k)` for `k < 4` is the corner whose
    /// coordinate along axis `i` is negative when bit `i` of `k` is set.
    pub open spec fn feature_normal_spec(self, feature: FeatureId) -> Option<Vector> {
        match feature {
            FeatureId::Face(0) => Some(Vector { x: 1, y: 0 }),
            FeatureId::Face(1) => Some(Vector { x: 0, y: 1 }),
            FeatureId::Face(2) => Some(Vector { x: -1i64, y: 0 }),
            FeatureId::Face(3) => Some(Vector { x: 0, y: -1i64 }),
            FeatureId::Vertex(0) => Some(Vector { x: 1, y: 1 }),
            FeatureId::Vertex(1) => Some(Vector { x: -1i64, y: 1 }),
            FeatureId::Vertex(2) => Some(Vector { x: 1, y: -1i64 }),
            FeatureId::Vertex(3) => Some(Vector { x: -1i64, y: -1i64 }),
            _ => None,
        }
    }

    pub fn feature_normal(&self, feature: FeatureId) -> (r: Option<Vector>)
        ensures
            r == self.feature_normal_spec(feature),
    {
        match feature {
            FeatureId::Face(0) => Some(Vector { x: 1, y: 0 }),
            FeatureId::Face(1) => Some(Vector { x: 0, y: 1 }),
            FeatureId::Face(2) => Some(Vector { x: -1, y: 0 }),
            FeatureId::Face(3) => Some(Vector { x: 0, y: -1 }),
            FeatureId::Vertex(0) => Some(Vector { x: 1, y: 1 }),
            FeatureId::Vertex(1) => Some(Vector { x: -1, y: 1 }),
            FeatureId::Vertex(2) => Some(Vector { x: 1, y: -1 }),
            FeatureId::Vertex(3) => Some(Vector { x: -1, y: -1 }),
            _ => None,
        }
    }

    /// The cuboid scaled by `s` on each axis; `None` when a half-width would
    /// leave `[0, MAX_COORD]`.
    pub fn scaled(&self, s: &Vector) -> (r: Option<Cuboid>)
        requires
            self.wf(),
            s.wf(),
        ensures
            r == self.scaled_spec(*s),
            r matches Some(c) ==> c.wf(),
    {
        let a = Vector {
            x: if s.x < 0 { -s.x } else { s.x },
            y: if s.y < 0 { -s.y } else { s.y },
        };
        match self.half_extents.component_mul(&a) {
            Some(h) => {
                assert(h.x >= 0 && h.y >= 0) by (nonlinear_arith)
                    requires
                        h.x == self.half_extents.x * a.x,
                        h.y == self.half_extents.y * a.y,
                        self.half_extents.x >= 0,
                        self.half_extents.y >= 0,
                        a.x >= 0,
                        a.y >= 0,
                ;
                Some(Cuboid { half_extents: h })
            },
            None => None,
        }
    }
}

/// The segment between two points.
#[derive(Clone, Copy, Debug, PartialEq, Eq, Structural)]
pub struct Segment {
    pub a: Point,
    pub b: Point,
}

impl Segment {
    pub open spec fn wf(self) -> bool {
        self.a.wf() && self.b.wf()
    }

    pub open spec fn local_aabb_spec(self) -> Aabb {
        point_box(self.a).merged_spec(point_box(self.b))
    }

    pub open spec fn scaled_spec(self, s: Vector) -> Option<Segment> {
        match (self.a.component_mul_spec(s), self.b.component_mul_spec(s)) {
            (Some(a), Some(b)) => Some(Segment { a, b }),
            _ => None,
        }
    }

    pub fn new(a: Point, b: Point) -> (r: Segment)
        ensures
            r.a == a,
            r.b == b,
    {
        Segment { a, b }
    }

    pub fn local_aabb(&self) -> (r: Aabb)
        requires
            self.wf(),
        ensures
            r == self.local_aabb_spec(),
            r.bounded(MAX_COORD as int),
    {
        Aabb { mins: self.a, maxs: self.a }.merged(&Aabb { mins: self.b, maxs: self.b })
    }

    pub fn scaled(&self, s: &Vector) -> (r: Option<Segment>)
        ensures
            r == self.scaled_spec(*s),
            r matches Some(g) ==> g.wf(),
    {
        match (self.a.component_mul(s), self.b.component_mul(s)) {
            (Some(a), Some(b)) => Some(Segment { a, b }),
            _ => None,
        }
    }

    /// The direction of the outward normal of a feature: `Face(0)` and
    /// `Face(1)` are the two sides, `Vertex(0)` and `Vertex(1)` the two
    /// ends. A segment reduced to a point has no normal.
    pub fn feature_normal(&self, feature: FeatureId) -> (r: Option<Vector>)
        requires
            self.wf(),
        ensures
            r == self.feature_normal_spec(feature),
    {
        let d = Vector { x: self.b.x - self.a.x, y: self.b.y - self.a.y };
        if d.x == 0 && d.y == 0 {
            return None;
        }
        match feature {
            FeatureId::Face(0) => Some(Vector { x: d.y, y: -d.x }),
            FeatureId::Face(1) => Some(Vector { x: -d.y, y: d.x }),
            FeatureId::Vertex(0) => Some(Vector { x: -d.x, y: -d.y }),
            FeatureId::Vertex(1) => Some(d),
            _ => None,
        }
    }

    pub open spec fn feature_normal_spec(self, feature: FeatureId) -> Option<Vector> {
        let d = Vector { x: (self.b.x - self.a.x) as i64, y: (self.b.y - self.a.y) as i64 };
        if d.x == 0 && d.y == 0 {
            None
        } else {
            match feature {
                FeatureId::Face(0) => Some(Vector { x: d.y, y: -d.x as i64 }),
                FeatureId::Face(1) => Some(Vector { x: -d.y as i64, y: d.x }),
                FeatureId::Vertex(0) => Some(Vector { x: -d.x as i64, y: -d.y as i64 }),
                FeatureId::Vertex(1) => Some(d),
                _ => None,
            }
        }
    }
}

/// A part of a shape's boundary, named when asking for a normal.
#[derive(Clone, Copy, Debug, PartialEq, Eq, Structural)]
pub enum FeatureId {
    Vertex(u32),
    Face(u32),
    Unknown,
}

/// A segment with a round border of radius `radius`.
#[derive(Clone, Copy, Debug, PartialEq, Eq, Structural)]
pub struct Capsule {
    pub segment: Segment,
    pub radius: i64,
}

impl Capsule {
    pub open spec fn wf(self) -> bool {
        self.segment.wf() && 0 <= self.radius <= MAX_COORD
    }

    pub open spec fn local_aabb_spec(self) -> Aabb {
        self.segment.local_aabb_spec().loosened_spec(self.radius)
    }

    pub fn new(a: Point, b: Point, radius: i64) -> (r: Capsule)
        ensures
            r.segment.a == a,
            r.segment.b == b,
            r.radius == radius,
    {
        Capsule { segment: Segment { a, b }, radius }
    }

    pub fn local_aabb(&self) -> (r: Aabb)
        requires
            self.wf(),
        ensures
            r == self.local_aabb_spec(),
            r.bounded(2 * MAX_COORD),
    {
        self.segment.local_aabb().loosened(self.radius)
    }
}

/// The triangle with vertices `a`, `b` and `c`.
#[derive(Clone, Copy, Debug, PartialEq, Eq, Structural)]
pub struct Triangle {
    pub a: Point,
    pub b: Point,
    pub c: Point,
}

impl Triangle {
    pub open spec fn wf(self) -> bool {
        self.a.wf() && self.b.wf() && self.c.wf()
    }

    pub open spec fn local_aabb_spec(self) -> Aabb {
        point_box(self.a).merged_spec(point_box(self.b)).merged_spec(point_box(self.c))
    }

    pub open spec fn scaled_spec(self, s: Vector) -> Option<Triangle> {
        match (self.a.component_mul_spec(s), self.b.component_mul_spec(s), self.c.component_mul_spec(s)) {
            (Some(a), Some(b), Some(c)) => Some(Triangle { a, b, c }),
            _ => None,
        }
    }

    pub fn new(a: Point, b: Point, c: Point) -> (r: Triangle)
        ensures
            r.a == a,
            r.b == b,
            r.c == c,
    {
        Triangle { a, b, c }
    }

    pub fn local_aabb(&self) -> (r: Aabb)
        requires
            self.wf(),
        ensures
            r == self.local_aabb_spec(),
            r.bounded(MAX_COORD as int),
    {
        Aabb { mins: self.a, maxs: self.a }.merged(&Aabb { mins: self.b, maxs: self.b }).merged(
            &Aabb { mins: self.c, maxs: self.c },
        )
    }

    pub fn scaled(&self, s: &Vector) -> (r: Option<Triangle>)
        ensures
            r == self.scaled_spec(*s),
            r matches Some(t) ==> t.wf(),
    {
        match (self.a.component_mul(s), self.b.component_mul(s), self.c.component_mul(s)) {
            (Some(a), Some(b), Some(c)) => Some(Triangle { a, b, c }),
            _ => None,
        }
    }
}

/// The half-plane of the points `p` with `p · normal <= 0`; `normal` is a
/// non-zero vector that gives the direction of the outward normal.
#[derive(Clone, Copy, Debug, PartialEq, Eq, Structural)]
pub struct HalfSpace {
    pub normal: Vector,
}

impl HalfSpace {
    pub open spec fn wf(self) -> bool {
        self.normal.wf() && !(self.normal.x == 0 && self.normal.y == 0)
    }

    /// The box that stands for the whole plane.
    pub open spec fn local_aabb_spec(self) -> Aabb {
        Aabb {
            mins: Vector { x: -WORLD_EXTENT as i64, y: -WORLD_EXTENT as i64 },
            maxs: Vector { x: WORLD_EXTENT, y: WORLD_EXTENT },
        }
    }

    /// The image of the half-plane under the scaling by `s`: its normal
    /// direction is that of `(normal.x / s.x, normal.y / s.y)`.
    pub open spec fn scaled_spec(self, s: Vector) -> Option<HalfSpace> {
        if s.x == 0 || s.y == 0 {
            None
        } else {
            let n = if (s.x > 0) == (s.y > 0) {
                self.normal
            } else {
                Vector { x: -self.normal.x as i64, y: -self.normal.y as i64 }
            };
            match n.component_mul_spec(Vector { x: s.y, y: s.x }) {
                Some(m) => Some(HalfSpace { normal: m }),
                None => None,
            }
        }
    }

    pub fn new(normal: Vector) -> (r: HalfSpace)
        ensures
            r.normal == normal,
    {
        HalfSpace { normal }
    }

    pub fn local_aabb(&self) -> (r: Aabb)
        ensures
            r == self.local_aabb_spec(),
    {
        Aabb {
            mins: Vector { x: -WORLD_EXTENT, y: -WORLD_EXTENT },
            maxs: Vector { x: WORLD_EXTENT, y: WORLD_EXTENT },
        }
    }

    pub fn scaled(&self, s: &Vector) -> (r: Option<HalfSpace>)
        requires
            self.wf(),
            s.wf(),
        ensures
            r == self.scaled_spec(*s),
            r matches Some(h) ==> h.wf(),
    {
        if s.x == 0 || s.y == 0 {
            return None;
        }
        let n = if (s.x > 0) == (s.y > 0) {
            self.normal
        } else {
            Vector { x: -self.normal.x, y: -self.normal.y }
        };
        match n.component_mul(&Vector { x: s.y, y: s.x }) {
            Some(m) => {
                assert(!(m.x == 0 && m.y == 0)) by (nonlinear_arith)
                    requires
                        m.x == n.x * s.y,
                        m.y == n.y * s.x,
                        !(n.x == 0 && n.y == 0),
                        s.x != 0,
                        s.y != 0,
                ;
                Some(HalfSpace { normal: m })
            },
            None => None,
        }
    }
}


/// The box of each point of `s`.
pub open spec fn point_boxes(s: Seq<Point>) -> Seq<Aabb> {
    Seq::new(s.len(), |i: int| point_box(s[i]))
}

/// The smallest box holding every point of `s`.
pub open spec fn points_aabb(s: Seq<Point>) -> Aabb {
    union_of(point_boxes(s))
}

pub open spec fn all_wf(s: Seq<Point>) -> bool {
    forall|i: int| 0 <= i < s.len() ==> (#[trigger] s[i]).wf()
}

/// The smallest box holding all of `pts`.
pub fn aabb_of_points(pts: &Vec<Point>) -> (r: Aabb)
    requires
        pts@.len() > 0,
        all_wf(pts@),
    ensures
        r == points_aabb(pts@),
        r.bounded(MAX_COORD as int),
{
    let mut r = Aabb::new_invalid();
    let mut i: usize = 0;
    while i < pts.len()
        invariant
            0 <= i <= pts@.len(),
            r == union_of(point_boxes(pts@).subrange(0, i as int)),
        decreases pts@.len() - i,
    {
        let p = pts[i];
        proof {
            let s = point_boxes(pts@).subrange(0, i as int + 1);
            assert(s.drop_last() =~= point_boxes(pts@).subrange(0, i as int));
        }
        r.merge(&Aabb { mins: p, maxs: p });
        i = i + 1;
    }
    proof {
        assert(point_boxes(pts@).subrange(0, i as int) =~= point_boxes(pts@));
        lemma_union_bounded(point_boxes(pts@), MAX_COORD as int);
    }
    r
}

/// The box of a non-empty sequence of valid points is non-empty and within
/// `MAX_COORD`.
pub proof fn lemma_points_aabb(pts: Seq<Point>)
    requires
        pts.len() > 0,
        all_wf(pts),
    ensures
        points_aabb(pts).bounded(MAX_COORD as int),
        !points_aabb(pts).is_empty(),
{
    let b = point_boxes(pts);
    assert forall|i: int| 0 <= i < b.len() implies (#[trigger] b[i]).bounded(MAX_COORD as int) by {
        assert(pts[i].wf());
    }
    lemma_union_bounded(b, MAX_COORD as int);
    lemma_union_contains(b, 0);
}

/// The dot product of `p` and `d`.
pub open spec fn dot(p: Point, d: Vector) -> int {
    p.x * d.x + p.y * d.y
}

fn dot_exec(p: &Point, d: &Vector) -> (r: i128)
    requires
        p.wf(),
        d.wf(),
    ensures
        r == dot(*p, *d),
{
    assert(-0x100_0000_0000_0000 <= p.x * d.x <= 0x100_0000_0000_0000) by (nonlinear_arith)
        requires
            -0x1000_0000 <= p.x <= 0x1000_0000,
            -0x1000_0000 <= d.x <= 0x1000_0000,
    ;
    assert(-0x100_0000_0000_0000 <= p.y * d.y <= 0x100_0000_0000_0000) by (nonlinear_arith)
        requires
            -0x1000_0000 <= p.y <= 0x1000_0000,
            -0x1000_0000 <= d.y <= 0x1000_0000,
    ;
    (p.x as i128) * (d.x as i128) + (p.y as i128) * (d.y as i128)
}

/// A point of `pts` with the largest dot product with `d` (the first such).
pub fn max_dot_point(pts: &Vec<Point>, d: &Vector) -> (r: Point)
    requires
        pts@.len() > 0,
        all_wf(pts@),
        d.wf(),
    ensures
        pts@.contains(r),
        forall|k: int| 0 <= k < pts@.len() ==> dot(#[trigger] pts@[k], *d) <= dot(r, *d),
{
    let mut best = pts[0];
    let mut best_dot = dot_exec(&pts[0], d);
    let mut i: usize = 1;
    while i < pts.len()
        invariant
            all_wf(pts@),
            d.wf(),
            1 <= i <= pts@.len(),
            pts@.contains(best),
            best_dot == dot(best, *d),
            forall|k: int| 0 <= k < i ==> dot(#[trigger] pts@[k], *d) <= best_dot,
        decreases pts@.len() - i,
    {
        let v = dot_exec(&pts[i], d);
        if v > best_dot {
            best = pts[i];
            best_dot = v;
        }
        i = i + 1;
    }
    best
}

/// `(b - a) × (c - b)`: positive when `a`, `b`, `c` turn left.
#[verifier::opaque]
pub open spec fn turn(a: Point, b: Point, c: Point) -> int {
    (b.x - a.x) * (c.y - b.y) - (b.y - a.y) * (c.x - b.x)
}

/// At least three vertices, and every three consecutive vertices (cyclically)
/// make a strict left turn.
pub open spec fn turns_left(s: Seq<Point>) -> bool {
    &&& s.len() >= 3
    &&& forall|i: int| 0 <= i < s.len() ==> #[trigger] turn_at(s, i) > 0
}

/// The turn made at the vertices `i`, `i + 1` and `i + 2` of the cycle `s`.
pub open spec fn turn_at(s: Seq<Point>, i: int) -> int {
    let n = s.len() as int;
    turn(s[i], s[next_index(i, n)], s[next_index(next_index(i, n), n)])
}

/// The index after `i` in a cycle of length `n`.
pub open spec fn next_index(i: int, n: int) -> int {
    if i + 1 < n {
        i + 1
    } else {
        0
    }
}

pub fn turn_exec(a: Point, b: Point, c: Point) -> (r: i128)
    requires
        a.wf(),
        b.wf(),
        c.wf(),
    ensures
        r == turn(a, b, c),
{
    let ux = (b.x - a.x) as i128;
    let uy = (b.y - a.y) as i128;
    let vx = (c.x - b.x) as i128;
    let vy = (c.y - b.y) as i128;
    assert(-0x1_0000_0000_0000_0000 <= ux * vy <= 0x1_0000_0000_0000_0000) by (nonlinear_arith)
        requires
            -0x2000_0000 <= ux <= 0x2000_0000,
            -0x2000_0000 <= vy <= 0x2000_0000,
    ;
    assert(-0x1_0000_0000_0000_0000 <= uy * vx <= 0x1_0000_0000_0000_0000) by (nonlinear_arith)
        requires
            -0x2000_0000 <= uy <= 0x2000_0000,
            -0x2000_0000 <= vx <= 0x2000_0000,
    ;
    proof {
        reveal(turn);
    }
    ux * vy - uy * vx
}

/// A convex polygon given by its vertices in counter-clockwise order.
#[derive(Clone, Debug)]
pub struct ConvexPolygon {
    pub points: Vec<Point>,
}

/// Every point of `s` stays a valid parameter once scaled by `f`.
pub open spec fn points_scalable(s: Seq<Point>, f: Vector) -> bool {
    forall|i: int| 0 <= i < s.len() ==> (#[trigger] s[i]).component_mul_spec(f) is Some
}

/// The points of `s` scaled by `f` (meaningful where `points_scalable` holds).
pub open spec fn scaled_points(s: Seq<Point>, f: Vector) -> Seq<Point> {
    Seq::new(s.len(), |i: int| s[i].component_mul_spec(f)->0)
}

/// The points of `pts` scaled componentwise by `f`, or `None` when one of
/// them would leave the valid range.
pub fn scale_points(pts: &Vec<Point>, f: &Vector) -> (r: Option<Vec<Point>>)
    ensures
        r is Some <==> points_scalable(pts@, *f),
        r matches Some(v) ==> v@ == scaled_points(pts@, *f) && all_wf(v@),
{
    let mut out: Vec<Point> = Vec::new();
    let mut i: usize = 0;
    while i < pts.len()
        invariant
            0 <= i <= pts@.len(),
            out@.len() == i,
            forall|j: int| 0 <= j < i ==> (#[trigger] pts@[j]).component_mul_spec(*f) is Some,
            forall|j: int| 0 <= j < i ==> out@[j] == (#[trigger] pts@[j]).component_mul_spec(*f)->0,
            all_wf(out@),
        decreases pts@.len() - i,
    {
        match pts[i].component_mul(f) {
            Some(p) => out.push(p),
            None => {
                return None;
            },
        }
        i = i + 1;
    }
    assert(out@ =~= scaled_points(pts@, *f));
    Some(out)
}

/// The sequence `s` in reverse order.
pub open spec fn reversed(s: Seq<Point>) -> Seq<Point> {
    Seq::new(s.len(), |i: int| s[s.len() - 1 - i])
}

fn reverse_points(v: Vec<Point>) -> (r: Vec<Point>)
    ensures
        r@ == reversed(v@),
{
    let mut out: Vec<Point> = Vec::new();
    let mut i: usize = v.len();
    while i > 0
        invariant
            0 <= i <= v@.len(),
            out@.len() == v@.len() - i,
            forall|j: int| 0 <= j < out@.len() ==> out@[j] == v@[v@.len() - 1 - j],
        decreases i,
    {
        i = i - 1;
        out.push(v[i]);
    }
    assert(out@ =~= reversed(v@));
    out
}

/// The cycle of points `s` scaled by `f` and kept counter-clockwise: a scale
/// that mirrors the plane reverses the order.
pub open spec fn scaled_cycle(s: Seq<Point>, f: Vector) -> Seq<Point> {
    let p = scaled_points(s, f);
    if (f.x < 0) != (f.y < 0) {
        reversed(p)
    } else {
        p
    }
}

impl ConvexPolygon {
    /// The vertices after scaling by `f`, listed counter-clockwise: a scale
    /// that mirrors the plane reverses their order.
    pub open spec fn scaled_vertices(self, f: Vector) -> Seq<Point> {
        scaled_cycle(self.points@, f)
    }

    /// The polygon scaled by `f`, or `None` when a vertex leaves the valid
    /// range or the scaled polygon is flat.
    pub fn scaled(&self, f: &Vector) -> (r: Option<ConvexPolygon>)
        ensures
            r is Some <==> points_scalable(self.points@, *f) && turns_left(self.scaled_vertices(*f))
                && self.points@.len() <= u32::MAX,
            r matches Some(p) ==> p.wf() && p.points@ == self.scaled_vertices(*f),
    {
        match scale_points(&self.points, f) {
            Some(v) => {
                let v = if (f.x < 0) != (f.y < 0) {
                    reverse_points(v)
                } else {
                    v
                };
                proof {
                    if (f.x < 0) != (f.y < 0) {
                        let w = scaled_points(self.points@, *f);
                        assert forall|i: int| 0 <= i < v@.len() implies (#[trigger] v@[i]).wf() by {
                            assert(v@[i] == w[w.len() - 1 - i]);
                        }
                    }
                }
                ConvexPolygon::from_convex_polyline(v)
            },
            None => None,
        }
    }

    pub open spec fn wf(self) -> bool {
        all_wf(self.points@) && turns_left(self.points@) && self.points@.len() <= u32::MAX
    }

    pub open spec fn local_aabb_spec(self) -> Aabb {
        points_aabb(self.points@)
    }

    /// The polygon with vertices `points`, in this order, when they are
    /// valid parameters and every three consecutive ones turn strictly left;
    /// `None` otherwise (fewer than three vertices, or a flat or reflex corner).
    pub fn from_convex_polyline(points: Vec<Point>) -> (r: Option<ConvexPolygon>)
        ensures
            r is Some <==> (all_wf(points@) && turns_left(points@) && points@.len() <= u32::MAX),
            r matches Some(p) ==> p.points@ == points@,
    {
        let n = points.len();
        if n < 3 || n > u32::MAX as usize {
            return None;
        }
        let mut i: usize = 0;
        while i < n
            invariant
                n == points@.len(),
                0 <= i <= n,
                forall|j: int| 0 <= j < i ==> (#[trigger] points@[j]).wf(),
            decreases n - i,
        {
            let p = points[i];
            if !(-MAX_COORD <= p.x && p.x <= MAX_COORD && -MAX_COORD <= p.y && p.y <= MAX_COORD) {
                return None;
            }
            i = i + 1;
        }
        let mut i: usize = 0;
        while i < n
            invariant
                n == points@.len(),
                n >= 3,
                0 <= i <= n,
                all_wf(points@),
                forall|j: int| 0 <= j < i ==> #[trigger] turn_at(points@, j) > 0,
            decreases n - i,
        {
            let j = if i + 1 < n { i + 1 } else { 0 };
            let k = if j + 1 < n { j + 1 } else { 0 };
            assert(j == next_index(i as int, n as int));
            assert(k == next_index(j as int, n as int));
            let t = turn_exec(points[i], points[j], points[k]);
            if t <= 0 {
                assert(turn_at(points@, i as int) <= 0);
                return None;
            }
            i = i + 1;
        }
        Some(ConvexPolygon { points })
    }

    /// The direction of the outward normal of the edge from vertex `i` to the
    /// next one, for `Face(i)`; other features have none here.
    pub open spec fn feature_normal_spec(self, feature: FeatureId) -> Option<Vector> {
        let n = self.points@.len() as int;
        match feature {
            FeatureId::Face(i) => if i < n {
                let a = self.points@[i as int];
                let b = self.points@[next_index(i as int, n)];
                Some(Vector { x: (b.y - a.y) as i64, y: (a.x - b.x) as i64 })
            } else {
                None
            },
            _ => None,
        }
    }

    pub fn feature_normal(&self, feature: FeatureId) -> (r: Option<Vector>)
        requires
            self.wf(),
        ensures
            r == self.feature_normal_spec(feature),
    {
        let n = self.points.len();
        match feature {
            FeatureId::Face(i) => if (i as usize) < n {
                let a = self.points[i as usize];
                let j = if (i as usize) + 1 < n { i as usize + 1 } else { 0 };
                let b = self.points[j];
                Some(Vector { x: b.y - a.y, y: a.x - b.x })
            } else {
                None
            },
            _ => None,
        }
    }

    pub fn points(&self) -> (r: &Vec<Point>)
        ensures
            r == &self.points,
    {
        &self.points
    }

    pub fn local_aabb(&self) -> (r: Aabb)
        requires
            self.wf(),
        ensures
            r == self.local_aabb_spec(),
            r.bounded(MAX_COORD as int),
    {
        aabb_of_points(&self.points)
    }
}


/// A sharp shape inflated by a disc of radius `border_radius`.
#[derive(Clone, Copy, Debug)]
pub struct RoundShape<S> {
    pub inner_shape: S,
    pub border_radius: i64,
}

/// A cuboid with rounded corners.
pub type RoundCuboid = RoundShape<Cuboid>;

/// A triangle with rounded corners.
pub type RoundTriangle = RoundShape<Triangle>;

/// A convex polygon with rounded corners.
pub type RoundConvexPolygon = RoundShape<ConvexPolygon>;

pub open spec fn border_wf(r: i64) -> bool {
    0 <= r <= MAX_COORD
}

impl RoundShape<Cuboid> {
    pub open spec fn wf(self) -> bool {
        self.inner_shape.wf() && border_wf(self.border_radius)
    }

    pub open spec fn local_aabb_spec(self) -> Aabb {
        self.inner_shape.local_aabb_spec().loosened_spec(self.border_radius)
    }

    pub fn new(inner_shape: Cuboid, border_radius: i64) -> (r: RoundShape<Cuboid>)
        ensures
            r.inner_shape == inner_shape,
            r.border_radius == border_radius,
    {
        RoundShape { inner_shape, border_radius }
    }

    pub fn local_aabb(&self) -> (r: Aabb)
        requires
            self.wf(),
        ensures
            r == self.local_aabb_spec(),
            r.bounded(2 * MAX_COORD),
    {
        self.inner_shape.local_aabb().loosened(self.border_radius)
    }
}

impl RoundShape<Triangle> {
    pub open spec fn wf(self) -> bool {
        self.inner_shape.wf() && border_wf(self.border_radius)
    }

    pub open spec fn local_aabb_spec(self) -> Aabb {
        self.inner_shape.local_aabb_spec().loosened_spec(self.border_radius)
    }

    pub fn new(inner_shape: Triangle, border_radius: i64) -> (r: RoundShape<Triangle>)
        ensures
            r.inner_shape == inner_shape,
            r.border_radius == border_radius,
    {
        RoundShape { inner_shape, border_radius }
    }

    pub fn local_aabb(&self) -> (r: Aabb)
        requires
            self.wf(),
        ensures
            r == self.local_aabb_spec(),
            r.bounded(2 * MAX_COORD),
    {
        self.inner_shape.local_aabb().loosened(self.border_radius)
    }
}

impl RoundShape<ConvexPolygon> {
    pub open spec fn wf(self) -> bool {
        self.inner_shape.wf() && border_wf(self.border_radius)
    }

    pub open spec fn local_aabb_spec(self) -> Aabb {
        self.inner_shape.local_aabb_spec().loosened_spec(self.border_radius)
    }

    pub fn new(inner_shape: ConvexPolygon, border_radius: i64) -> (r: RoundShape<ConvexPolygon>)
        ensures
            r.inner_shape == inner_shape,
            r.border_radius == border_radius,
    {
        RoundShape { inner_shape, border_radius }
    }

    pub fn local_aabb(&self) -> (r: Aabb)
        requires
            self.wf(),
        ensures
            r == self.local_aabb_spec(),
            r.bounded(2 * MAX_COORD),
    {
        self.inner_shape.local_aabb().loosened(self.border_radius)
    }
}

} // verus!
