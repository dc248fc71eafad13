//! The shape contract: one closed sum of every concrete shape, its shared
//! handle, and the typed views that dispatch over it.
use vstd::prelude::*;
use std::rc::Rc;
use crate::bounding_volume::{
    lemma_transform_bounded, lemma_union_bounded, lemma_union_contains, Aabb,
    BoundingSphere,
};
use crate::math::WORLD_EXTENT;
use crate::composites::{copy_vec, HeightField, Polyline, TriMesh, Voxels};
use crate::compound::{child_aabbs, has_composite_child, inputs_wf, max_child_angular, min_child_thickness, Bvh, Compound};
use crate::math::{scale_coord, scaled_coord_spec, Isometry, Point, Vector, MAX_COORD};
use crate::outline::{ints_in_range, swept_outline, swept_rhombus, to_points};
use crate::primitives::{
    dot, lemma_points_aabb, max_dot_point, points_scalable, scaled_points, turns_left,
    Ball, Capsule, ConvexPolygon, Cuboid, FeatureId, HalfSpace, RoundConvexPolygon, RoundCuboid,
    RoundTriangle, Segment, Triangle,
};
use crate::shape_type::ShapeType;

verus! {

/// Thickness reported by a shape with no finite depth (a half-plane).
pub const MAX_THICKNESS: i64 = i64::MAX;

/// An angle in `[0, π]`, measured in quarters of `π`.
#[derive(Clone, Copy, Debug, PartialEq, Eq, Structural)]
pub struct Angle {
    pub quarter_pis: u8,
}

impl Angle {
    pub fn pi() -> (r: Angle)
        ensures
            r.quarter_pis == 4,
    {
        Angle { quarter_pis: 4 }
    }

    pub fn frac_pi_2() -> (r: Angle)
        ensures
            r.quarter_pis == 2,
    {
        Angle { quarter_pis: 2 }
    }

    pub fn frac_pi_4() -> (r: Angle)
        ensures
            r.quarter_pis == 1,
    {
        Angle { quarter_pis: 1 }
    }
}

/// Every concrete shape.
#[derive(Clone, Debug)]
pub enum Shape {
    Ball(Ball),
    Cuboid(Cuboid),
    Capsule(Capsule),
    Segment(Segment),
    Triangle(Triangle),
    Voxels(Voxels),
    TriMesh(TriMesh),
    Polyline(Polyline),
    HalfSpace(HalfSpace),
    HeightField(HeightField),
    Compound(Compound),
    ConvexPolygon(ConvexPolygon),
    RoundCuboid(RoundCuboid),
    RoundTriangle(RoundTriangle),
    RoundConvexPolygon(RoundConvexPolygon),
}

/// A shared, immutable handle on a shape.
#[derive(Clone, Debug)]
pub struct SharedShape(pub Rc<Shape>);

impl View for SharedShape {
    type V = Shape;

    open spec fn view(&self) -> Shape {
        *self.0
    }
}

impl SharedShape {
    pub fn new(shape: Shape) -> (r: SharedShape)
        ensures
            r@ == shape,
    {
        SharedShape(Rc::new(shape))
    }

    /// The shape behind the handle.
    pub fn shape(&self) -> (r: &Shape)
        ensures
            *r == self@,
    {
        &*self.0
    }
}

impl Shape {
    pub open spec fn kind_spec(self) -> ShapeType {
        match self {
            Shape::Ball(_) => ShapeType::Ball,
            Shape::Cuboid(_) => ShapeType::Cuboid,
            Shape::Capsule(_) => ShapeType::Capsule,
            Shape::Segment(_) => ShapeType::Segment,
            Shape::Triangle(_) => ShapeType::Triangle,
            Shape::Voxels(_) => ShapeType::Voxels,
            Shape::TriMesh(_) => ShapeType::TriMesh,
            Shape::Polyline(_) => ShapeType::Polyline,
            Shape::HalfSpace(_) => ShapeType::HalfSpace,
            Shape::HeightField(_) => ShapeType::HeightField,
            Shape::Compound(_) => ShapeType::Compound,
            Shape::ConvexPolygon(_) => ShapeType::ConvexPolygon,
            Shape::RoundCuboid(_) => ShapeType::RoundCuboid,
            Shape::RoundTriangle(_) => ShapeType::RoundTriangle,
            Shape::RoundConvexPolygon(_) => ShapeType::RoundConvexPolygon,
        }
    }

    /// A valid shape that is not made of parts (it may be a child of a compound).
    pub open spec fn leaf_wf(self) -> bool {
        match self {
            Shape::Ball(s) => s.wf(),
            Shape::Cuboid(s) => s.wf(),
            Shape::Capsule(s) => s.wf(),
            Shape::Segment(s) => s.wf(),
            Shape::Triangle(s) => s.wf(),
            Shape::Voxels(s) => s.wf(),
            Shape::HalfSpace(s) => s.wf(),
            Shape::ConvexPolygon(s) => s.wf(),
            Shape::RoundCuboid(s) => s.wf(),
            Shape::RoundTriangle(s) => s.wf(),
            Shape::RoundConvexPolygon(s) => s.wf(),
            _ => false,
        }
    }

    /// The shape's parameters are valid.
    pub open spec fn wf(self) -> bool {
        match self {
            Shape::TriMesh(s) => s.wf(),
            Shape::Polyline(s) => s.wf(),
            Shape::HeightField(s) => s.wf(),
            Shape::Compound(s) => s.wf(),
            _ => self.leaf_wf(),
        }
    }

    /// The box of the shape in its own frame.
    pub open spec fn local_aabb_spec(self) -> Aabb {
        match self {
            Shape::Ball(s) => s.local_aabb_spec(),
            Shape::Cuboid(s) => s.local_aabb_spec(),
            Shape::Capsule(s) => s.local_aabb_spec(),
            Shape::Segment(s) => s.local_aabb_spec(),
            Shape::Triangle(s) => s.local_aabb_spec(),
            Shape::Voxels(s) => s.local_aabb_spec(),
            Shape::TriMesh(s) => s.local_aabb_spec(),
            Shape::Polyline(s) => s.local_aabb_spec(),
            Shape::HalfSpace(s) => s.local_aabb_spec(),
            Shape::HeightField(s) => s.local_aabb_spec(),
            Shape::Compound(s) => s.aabb,
            Shape::ConvexPolygon(s) => s.local_aabb_spec(),
            Shape::RoundCuboid(s) => s.local_aabb_spec(),
            Shape::RoundTriangle(s) => s.local_aabb_spec(),
            Shape::RoundConvexPolygon(s) => s.local_aabb_spec(),
        }
    }

    /// The box of the shape placed by `m`: a ball moves its box with its
    /// center, a rounded shape loosens the placed box of its inner shape, and
    /// every other shape transforms its local box.
    pub open spec fn aabb_spec(self, m: Isometry) -> Aabb {
        match self {
            Shape::Ball(s) => s.aabb_spec(m),
            Shape::RoundCuboid(s) => s.inner_shape.local_aabb_spec().transform_spec(m).loosened_spec(
                s.border_radius,
            ),
            Shape::RoundTriangle(s) => s.inner_shape.local_aabb_spec().transform_spec(
                m,
            ).loosened_spec(s.border_radius),
            Shape::RoundConvexPolygon(s) => s.inner_shape.local_aabb_spec().transform_spec(
                m,
            ).loosened_spec(s.border_radius),
            _ => self.local_aabb_spec().transform_spec(m),
        }
    }

    /// The disc of the shape in its own frame.
    pub open spec fn local_bounding_sphere_spec(self) -> BoundingSphere {
        match self {
            Shape::Ball(s) => BoundingSphere { center: Vector::zeros_spec(), radius: s.radius },
            Shape::RoundCuboid(s) => s.inner_shape.local_aabb_spec().bounding_sphere_spec().loosened_spec(
                s.border_radius,
            ),
            Shape::RoundTriangle(s) => s.inner_shape.local_aabb_spec().bounding_sphere_spec().loosened_spec(
                s.border_radius,
            ),
            Shape::RoundConvexPolygon(s) => s.inner_shape.local_aabb_spec().bounding_sphere_spec().loosened_spec(
                s.border_radius,
            ),
            _ => self.local_aabb_spec().bounding_sphere_spec(),
        }
    }

    /// The box swept by the shape between two placements.
    pub open spec fn swept_aabb_spec(self, m1: Isometry, m2: Isometry) -> Aabb {
        self.aabb_spec(m1).merged_spec(self.aabb_spec(m2))
    }

    /// The thickness of a shape that is not a compound.
    pub open spec fn leaf_ccd_thickness(self) -> i64 {
        match self {
            Shape::Ball(s) => s.radius,
            Shape::Cuboid(s) => s.min_half_extent(),
            Shape::Capsule(s) => s.radius,
            Shape::Voxels(s) => s.min_voxel_size(),
            Shape::HalfSpace(_) => MAX_THICKNESS,
            Shape::ConvexPolygon(s) => polygon_thickness(s),
            Shape::RoundCuboid(s) => (s.inner_shape.min_half_extent() + s.border_radius) as i64,
            Shape::RoundTriangle(s) => s.border_radius,
            Shape::RoundConvexPolygon(s) => (polygon_thickness(s.inner_shape)
                + s.border_radius) as i64,
            _ => 0,
        }
    }

    /// The largest distance the shape may travel in one step without
    /// tunnelling: a compound takes the least of its children.
    pub open spec fn ccd_thickness_spec(self) -> i64 {
        match self {
            Shape::Compound(c) => c.ccd_thickness_spec(),
            _ => self.leaf_ccd_thickness(),
        }
    }

    /// The angular thickness of a shape that is not a compound, in quarters of `π`.
    pub open spec fn leaf_angular_thickness(self) -> u8 {
        match self {
            Shape::Ball(_) => 4,
            Shape::HalfSpace(_) => 4,
            Shape::Cuboid(_) => 2,
            Shape::Capsule(_) => 2,
            Shape::Segment(_) => 2,
            Shape::Triangle(_) => 2,
            Shape::Voxels(_) => 2,
            Shape::RoundCuboid(_) => 2,
            Shape::RoundTriangle(_) => 2,
            _ => 1,
        }
    }

    /// The smallest rotation that may change the contact features, in quarters
    /// of `π`: a compound takes the largest of its children.
    pub open spec fn angular_thickness_spec(self) -> u8 {
        match self {
            Shape::Compound(c) => c.angular_thickness_spec(),
            _ => self.leaf_angular_thickness(),
        }
    }

    /// The shape is known to be convex.
    pub open spec fn is_convex_spec(self) -> bool {
        match self {
            Shape::Ball(_) | Shape::Cuboid(_) | Shape::Capsule(_) | Shape::Segment(_)
            | Shape::Triangle(_) | Shape::HalfSpace(_) | Shape::ConvexPolygon(_)
            | Shape::RoundCuboid(_) | Shape::RoundTriangle(_) | Shape::RoundConvexPolygon(_) => true,
            _ => false,
        }
    }

    /// The shape has a support mapping.
    pub open spec fn has_support_map(self) -> bool {
        match self {
            Shape::Ball(_) | Shape::Cuboid(_) | Shape::Capsule(_) | Shape::Segment(_)
            | Shape::Triangle(_) | Shape::ConvexPolygon(_) | Shape::RoundCuboid(_)
            | Shape::RoundTriangle(_) | Shape::RoundConvexPolygon(_) => true,
            _ => false,
        }
    }

    /// The sharp shape whose polygonal features this shape exposes, with the
    /// radius that inflates them.
    pub open spec fn feature_map_spec(self) -> Option<(Shape, i64)> {
        match self {
            Shape::Cuboid(s) => Some((Shape::Cuboid(s), 0)),
            Shape::Capsule(s) => Some((Shape::Segment(s.segment), s.radius)),
            Shape::Segment(s) => Some((Shape::Segment(s), 0)),
            Shape::Triangle(s) => Some((Shape::Triangle(s), 0)),
            Shape::ConvexPolygon(s) => Some((Shape::ConvexPolygon(s), 0)),
            Shape::RoundCuboid(s) => Some((Shape::Cuboid(s.inner_shape), s.border_radius)),
            Shape::RoundTriangle(s) => Some((Shape::Triangle(s.inner_shape), s.border_radius)),
            Shape::RoundConvexPolygon(s) => Some(
                (Shape::ConvexPolygon(s.inner_shape), s.border_radius),
            ),
            _ => None,
        }
    }
}

/// The local box of a valid non-composite shape is non-empty and within
/// `WORLD_EXTENT`, and its placed box is non-empty and within
/// `WORLD_EXTENT + MAX_COORD`.
#[verifier::spinoff_prover]
#[verifier::rlimit(100)]
pub proof fn lemma_leaf_bounds(s: Shape, m: Isometry)
    requires
        s.leaf_wf(),
        m.wf(),
    ensures
        s.local_aabb_spec().bounded(WORLD_EXTENT as int),
        !s.local_aabb_spec().is_empty(),
        s.aabb_spec(m).bounded(WORLD_EXTENT + MAX_COORD),
        !s.aabb_spec(m).is_empty(),
{
    let w = WORLD_EXTENT as int;
    match s {
        Shape::Ball(_) => {},
        Shape::RoundCuboid(r) => {
            lemma_transform_bounded(r.inner_shape.local_aabb_spec(), m, MAX_COORD as int);
        },
        Shape::RoundTriangle(r) => {
            lemma_transform_bounded(r.inner_shape.local_aabb_spec(), m, MAX_COORD as int);
        },
        Shape::RoundConvexPolygon(r) => {
            lemma_points_aabb(r.inner_shape.points@);
            lemma_transform_bounded(r.inner_shape.local_aabb_spec(), m, MAX_COORD as int);
        },
        Shape::ConvexPolygon(p) => {
            lemma_points_aabb(p.points@);
            lemma_transform_bounded(s.local_aabb_spec(), m, w);
        },
        Shape::Voxels(v) => {
            v.lemma_bounds();
            lemma_transform_bounded(s.local_aabb_spec(), m, w);
        },
        _ => {
            lemma_transform_bounded(s.local_aabb_spec(), m, w);
        },
    }
}

/// The local box of a valid shape is non-empty and within
/// `WORLD_EXTENT + MAX_COORD`.
pub proof fn lemma_local_bounds(s: Shape)
    requires
        s.wf(),
    ensures
        s.local_aabb_spec().bounded(WORLD_EXTENT + MAX_COORD),
        !s.local_aabb_spec().is_empty(),
{
    match s {
        Shape::TriMesh(t) => lemma_points_aabb(t.vertices@),
        Shape::Polyline(p) => lemma_points_aabb(p.vertices@),
        Shape::HeightField(h) => h.lemma_bounds(),
        Shape::Compound(c) => {
            let b = c.aabbs@;
            assert forall|i: int| 0 <= i < b.len() implies (#[trigger] b[i]).bounded(
                WORLD_EXTENT + MAX_COORD,
            ) by {
                lemma_leaf_bounds(c.shapes@[i].1@, c.shapes@[i].0);
            }
            lemma_union_bounded(b, WORLD_EXTENT + MAX_COORD);
            lemma_union_contains(b, 0);
            lemma_leaf_bounds(c.shapes@[0].1@, c.shapes@[0].0);
        },
        _ => lemma_leaf_bounds(s, Isometry { quarter_turns: 0, translation: Vector { x: 0, y: 0 } }),
    }
}

impl Shape {
    /// The kind of this shape.
    pub fn shape_type(&self) -> (r: ShapeType)
        ensures
            r == self.kind_spec(),
    {
        match self {
            Shape::Ball(_) => ShapeType::Ball,
            Shape::Cuboid(_) => ShapeType::Cuboid,
            Shape::Capsule(_) => ShapeType::Capsule,
            Shape::Segment(_) => ShapeType::Segment,
            Shape::Triangle(_) => ShapeType::Triangle,
            Shape::Voxels(_) => ShapeType::Voxels,
            Shape::TriMesh(_) => ShapeType::TriMesh,
            Shape::Polyline(_) => ShapeType::Polyline,
            Shape::HalfSpace(_) => ShapeType::HalfSpace,
            Shape::HeightField(_) => ShapeType::HeightField,
            Shape::Compound(_) => ShapeType::Compound,
            Shape::ConvexPolygon(_) => ShapeType::ConvexPolygon,
            Shape::RoundCuboid(_) => ShapeType::RoundCuboid,
            Shape::RoundTriangle(_) => ShapeType::RoundTriangle,
            Shape::RoundConvexPolygon(_) => ShapeType::RoundConvexPolygon,
        }
    }

    /// The box of the shape in its own frame.
    pub fn compute_local_aabb(&self) -> (r: Aabb)
        requires
            self.wf(),
        ensures
            r == self.local_aabb_spec(),
            r.bounded(WORLD_EXTENT + MAX_COORD),
            !r.is_empty(),
    {
        proof {
            lemma_local_bounds(*self);
        }
        match self {
            Shape::Ball(s) => s.local_aabb(),
            Shape::Cuboid(s) => s.local_aabb(),
            Shape::Capsule(s) => s.local_aabb(),
            Shape::Segment(s) => s.local_aabb(),
            Shape::Triangle(s) => s.local_aabb(),
            Shape::Voxels(s) => s.local_aabb(),
            Shape::TriMesh(s) => s.local_aabb(),
            Shape::Polyline(s) => s.local_aabb(),
            Shape::HalfSpace(s) => s.local_aabb(),
            Shape::HeightField(s) => s.local_aabb(),
            Shape::Compound(s) => s.aabb,
            Shape::ConvexPolygon(s) => s.local_aabb(),
            Shape::RoundCuboid(s) => s.local_aabb(),
            Shape::RoundTriangle(s) => s.local_aabb(),
            Shape::RoundConvexPolygon(s) => s.local_aabb(),
        }
    }

    /// The box of the shape placed by `m`.
    #[verifier::spinoff_prover]
    pub fn compute_aabb(&self, m: &Isometry) -> (r: Aabb)
        requires
            self.wf(),
            m.wf(),
        ensures
            r == self.aabb_spec(*m),
            r.bounded(WORLD_EXTENT + 2 * MAX_COORD),
    {
        match self {
            Shape::Ball(s) => s.aabb(m),
            Shape::RoundCuboid(s) => {
                let b = s.inner_shape.local_aabb();
                proof {
                    lemma_transform_bounded(b, *m, MAX_COORD as int);
                }
                b.transform_by(m).loosened(s.border_radius)
            },
            Shape::RoundTriangle(s) => {
                let b = s.inner_shape.local_aabb();
                proof {
                    lemma_transform_bounded(b, *m, MAX_COORD as int);
                }
                b.transform_by(m).loosened(s.border_radius)
            },
            Shape::RoundConvexPolygon(s) => {
                let b = s.inner_shape.local_aabb();
                proof {
                    lemma_transform_bounded(b, *m, MAX_COORD as int);
                }
                b.transform_by(m).loosened(s.border_radius)
            },
            _ => {
                let b = self.compute_local_aabb();
                proof {
                    lemma_transform_bounded(b, *m, WORLD_EXTENT + MAX_COORD);
                }
                b.transform_by(m)
            },
        }
    }

    /// The box swept by the shape moving from `start` to `end`.
    pub fn compute_swept_aabb(&self, start: &Isometry, end: &Isometry) -> (r: Aabb)
        requires
            self.wf(),
            start.wf(),
            end.wf(),
        ensures
            r == self.swept_aabb_spec(*start, *end),
            r.contains(self.aabb_spec(*start)),
            r.contains(self.aabb_spec(*end)),
    {
        let a = self.compute_aabb(start);
        let b = self.compute_aabb(end);
        a.merged(&b)
    }

    /// A disc holding the shape, in its own frame: the ball itself for a ball,
    /// the inner shape's disc grown by the border for a rounded shape, and the
    /// disc around the local box otherwise.
    pub fn compute_local_bounding_sphere(&self) -> (r: BoundingSphere)
        requires
            self.wf(),
        ensures
            r == self.local_bounding_sphere_spec(),
            r.center.bounded(WORLD_EXTENT + MAX_COORD),
    {
        proof {
            lemma_local_bounds(*self);
        }
        match self {
            Shape::Ball(s) => s.local_bounding_sphere(),
            Shape::RoundCuboid(s) => s.inner_shape.local_aabb().bounding_sphere().loosened(
                s.border_radius,
            ),
            Shape::RoundTriangle(s) => s.inner_shape.local_aabb().bounding_sphere().loosened(
                s.border_radius,
            ),
            Shape::RoundConvexPolygon(s) => {
                proof {
                    lemma_points_aabb(s.inner_shape.points@);
                }
                s.inner_shape.local_aabb().bounding_sphere().loosened(s.border_radius)
            },
            _ => self.compute_local_aabb().bounding_sphere(),
        }
    }

    /// The local disc of the shape carried by `m`.
    pub fn compute_bounding_sphere(&self, m: &Isometry) -> (r: BoundingSphere)
        requires
            self.wf(),
            m.wf(),
        ensures
            r == self.local_bounding_sphere_spec().transform_spec(*m),
    {
        self.compute_local_bounding_sphere().transform_by(m)
    }

    /// The largest distance the shape may travel in one step without
    /// tunnelling.
    pub fn ccd_thickness(&self) -> (r: i64)
        requires
            self.wf(),
        ensures
            r == self.ccd_thickness_spec(),
    {
        match self {
            Shape::Compound(c) => c.ccd_thickness(),
            Shape::TriMesh(_) | Shape::Polyline(_) | Shape::HeightField(_) => 0,
            _ => self.leaf_ccd_thickness_exec(),
        }
    }

    pub(crate) fn leaf_ccd_thickness_exec(&self) -> (r: i64)
        requires
            self.leaf_wf(),
        ensures
            r == self.leaf_ccd_thickness(),
    {
        match self {
            Shape::Ball(s) => s.radius,
            Shape::Cuboid(s) => s.ccd_thickness(),
            Shape::Capsule(s) => s.radius,
            Shape::Voxels(s) => s.ccd_thickness(),
            Shape::HalfSpace(_) => MAX_THICKNESS,
            Shape::ConvexPolygon(s) => polygon_thickness_exec(s),
            Shape::RoundCuboid(s) => s.inner_shape.ccd_thickness() + s.border_radius,
            Shape::RoundTriangle(s) => s.border_radius,
            Shape::RoundConvexPolygon(s) => polygon_thickness_exec(&s.inner_shape) + s.border_radius,
            _ => 0,
        }
    }

    /// The smallest rotation that may change the contact features.
    pub fn ccd_angular_thickness(&self) -> (r: Angle)
        requires
            self.wf(),
        ensures
            r.quarter_pis == self.angular_thickness_spec(),
            r.quarter_pis <= 4,
    {
        match self {
            Shape::Compound(c) => Angle { quarter_pis: c.ccd_angular_thickness() },
            _ => self.leaf_angular_thickness_exec(),
        }
    }

    pub(crate) fn leaf_angular_thickness_exec(&self) -> (r: Angle)
        ensures
            r.quarter_pis == self.leaf_angular_thickness(),
            1 <= r.quarter_pis <= 4,
    {
        match self {
            Shape::Ball(_) | Shape::HalfSpace(_) => Angle::pi(),
            Shape::Cuboid(_) | Shape::Capsule(_) | Shape::Segment(_) | Shape::Triangle(_)
            | Shape::Voxels(_) | Shape::RoundCuboid(_) | Shape::RoundTriangle(_) => Angle::frac_pi_2(),
            _ => Angle::frac_pi_4(),
        }
    }

    /// Whether the shape is known to be convex (`false` means unknown).
    pub fn is_convex(&self) -> (r: bool)
        ensures
            r == self.is_convex_spec(),
    {
        match self {
            Shape::Ball(_) | Shape::Cuboid(_) | Shape::Capsule(_) | Shape::Segment(_)
            | Shape::Triangle(_) | Shape::HalfSpace(_) | Shape::ConvexPolygon(_)
            | Shape::RoundCuboid(_) | Shape::RoundTriangle(_) | Shape::RoundConvexPolygon(_) => true,
            _ => false,
        }
    }
}

fn polygon_thickness_exec(p: &ConvexPolygon) -> (r: i64)
    requires
        p.wf(),
    ensures
        r == polygon_thickness(*p),
        0 <= r <= MAX_COORD,
{
    proof {
        lemma_points_aabb(p.points@);
    }
    let h = p.local_aabb().half_extents();
    if h.x <= h.y {
        h.x
    } else {
        h.y
    }
}

impl Shape {
    /// Every answer the shape gives through its contract agrees with `o`'s.
    pub open spec fn same_observables(self, o: Shape) -> bool {
        &&& self.kind_spec() == o.kind_spec()
        &&& self.wf() == o.wf()
        &&& self.leaf_wf() == o.leaf_wf()
        &&& self.local_aabb_spec() == o.local_aabb_spec()
        &&& (forall|m: Isometry| #[trigger] self.aabb_spec(m) == o.aabb_spec(m))
        &&& self.local_bounding_sphere_spec() == o.local_bounding_sphere_spec()
        &&& self.ccd_thickness_spec() == o.ccd_thickness_spec()
        &&& self.leaf_ccd_thickness() == o.leaf_ccd_thickness()
        &&& self.angular_thickness_spec() == o.angular_thickness_spec()
        &&& self.leaf_angular_thickness() == o.leaf_angular_thickness()
        &&& self.is_convex_spec() == o.is_convex_spec()
        &&& self.has_support_map() == o.has_support_map()
    }

    /// `self` holds the same data as `o`, a shape that is not a compound: equal
    /// fields, and vectors with equal contents.
    pub open spec fn leaf_same_data(self, o: Shape) -> bool {
        match (self, o) {
            (Shape::Ball(a), Shape::Ball(b)) => a == b,
            (Shape::Cuboid(a), Shape::Cuboid(b)) => a == b,
            (Shape::Capsule(a), Shape::Capsule(b)) => a == b,
            (Shape::Segment(a), Shape::Segment(b)) => a == b,
            (Shape::Triangle(a), Shape::Triangle(b)) => a == b,
            (Shape::HalfSpace(a), Shape::HalfSpace(b)) => a == b,
            (Shape::RoundCuboid(a), Shape::RoundCuboid(b)) => a == b,
            (Shape::RoundTriangle(a), Shape::RoundTriangle(b)) => a == b,
            (Shape::Voxels(a), Shape::Voxels(b)) => a.voxel_size == b.voxel_size && a.origins@
                == b.origins@,
            (Shape::TriMesh(a), Shape::TriMesh(b)) => a.vertices@ == b.vertices@ && a.indices@
                == b.indices@ && a.bvh.leaves@ == b.bvh.leaves@ && a.bvh.nodes@ == b.bvh.nodes@,
            (Shape::Polyline(a), Shape::Polyline(b)) => a.vertices@ == b.vertices@ && a.indices@
                == b.indices@ && a.bvh.leaves@ == b.bvh.leaves@ && a.bvh.nodes@ == b.bvh.nodes@,
            (Shape::HeightField(a), Shape::HeightField(b)) => a.heights@ == b.heights@ && a.step
                == b.step,
            (Shape::ConvexPolygon(a), Shape::ConvexPolygon(b)) => a.points@ == b.points@,
            (Shape::RoundConvexPolygon(a), Shape::RoundConvexPolygon(b)) => a.inner_shape.points@
                == b.inner_shape.points@ && a.border_radius == b.border_radius,
            _ => false,
        }
    }

    /// `self` holds the same data as `o`: for a compound, the same placements,
    /// children holding the same data, the same boxes and the same hierarchy.
    pub open spec fn same_data(self, o: Shape) -> bool {
        match (self, o) {
            (Shape::Compound(a), Shape::Compound(b)) => {
                &&& a.shapes@.len() == b.shapes@.len()
                &&& forall|i: int|
                    0 <= i < a.shapes@.len() ==> (#[trigger] a.shapes@[i]).0 == b.shapes@[i].0
                        && a.shapes@[i].1@.leaf_same_data(b.shapes@[i].1@)
                &&& a.aabbs@ == b.aabbs@
                &&& a.aabb == b.aabb
                &&& a.bvh.leaves@ == b.bvh.leaves@
                &&& a.bvh.nodes@ == b.bvh.nodes@
            },
            _ => self.leaf_same_data(o),
        }
    }

    /// A copy of a shape that is not a compound.
    fn clone_leaf(&self) -> (r: Shape)
        requires
            !(self is Compound),
        ensures
            r.same_observables(*self),
            r.leaf_same_data(*self),
    {
        match self {
            Shape::Ball(s) => Shape::Ball(*s),
            Shape::Cuboid(s) => Shape::Cuboid(*s),
            Shape::Capsule(s) => Shape::Capsule(*s),
            Shape::Segment(s) => Shape::Segment(*s),
            Shape::Triangle(s) => Shape::Triangle(*s),
            Shape::Voxels(s) => Shape::Voxels(
                Voxels { voxel_size: s.voxel_size, origins: copy_vec(&s.origins) },
            ),
            Shape::TriMesh(s) => Shape::TriMesh(
                TriMesh {
                    vertices: copy_vec(&s.vertices),
                    indices: copy_vec(&s.indices),
                    bvh: s.bvh.copy(),
                },
            ),
            Shape::Polyline(s) => Shape::Polyline(
                Polyline {
                    vertices: copy_vec(&s.vertices),
                    indices: copy_vec(&s.indices),
                    bvh: s.bvh.copy(),
                },
            ),
            Shape::HalfSpace(s) => Shape::HalfSpace(*s),
            Shape::HeightField(s) => Shape::HeightField(
                HeightField { heights: copy_vec(&s.heights), step: s.step },
            ),
            Shape::ConvexPolygon(s) => Shape::ConvexPolygon(
                ConvexPolygon { points: copy_vec(&s.points) },
            ),
            Shape::RoundCuboid(s) => Shape::RoundCuboid(*s),
            Shape::RoundTriangle(s) => Shape::RoundTriangle(*s),
            Shape::RoundConvexPolygon(s) => Shape::RoundConvexPolygon(
                RoundConvexPolygon {
                    inner_shape: ConvexPolygon { points: copy_vec(&s.inner_shape.points) },
                    border_radius: s.border_radius,
                },
            ),
            // Excluded by the precondition.
            Shape::Compound(_) => Shape::Ball(Ball { radius: 0 }),
        }
    }

    /// A deep copy of the shape, of the same concrete type.
    pub fn clone_dyn(&self) -> (r: Shape)
        requires
            self.wf(),
        ensures
            r.same_observables(*self),
            r.same_data(*self),
    {
        match self {
            Shape::Compound(c) => Shape::Compound(clone_compound(c)),
            _ => self.clone_leaf(),
        }
    }
}

impl Shape {
    /// The direction of the outward normal at `point` on `feature`, where the
    /// shape defines one: a ball gives the direction of the point (none at the
    /// center); a cuboid, a segment and a convex polygon give their feature's
    /// normal; every other shape gives none.
    pub open spec fn feature_normal_spec(self, feature: FeatureId, point: Point) -> Option<Vector> {
        match self {
            Shape::Ball(_) => if point.x == 0 && point.y == 0 {
                None
            } else {
                Some(point)
            },
            Shape::Cuboid(c) => c.feature_normal_spec(feature),
            Shape::Segment(g) => g.feature_normal_spec(feature),
            Shape::ConvexPolygon(p) => p.feature_normal_spec(feature),
            _ => None,
        }
    }

    /// The direction of the outward normal at `point` on `feature` (a
    /// non-zero vector; the unit normal is its normalization), if defined.
    pub fn feature_normal_at_point(&self, feature: FeatureId, point: &Point) -> (r: Option<Vector>)
        requires
            self.wf(),
        ensures
            r == self.feature_normal_spec(feature, *point),
    {
        match self {
            Shape::Ball(_) => if point.x == 0 && point.y == 0 {
                None
            } else {
                Some(*point)
            },
            Shape::Cuboid(c) => c.feature_normal(feature),
            Shape::Segment(g) => g.feature_normal(feature),
            Shape::ConvexPolygon(p) => p.feature_normal(feature),
            _ => None,
        }
    }
}

/// `|x|`.
pub open spec fn abs_i(x: i64) -> i64 {
    if x < 0 {
        -x as i64
    } else {
        x
    }
}

/// A placement with its translation scaled by `f` and its rotation kept.
pub open spec fn scaled_placement(m: Isometry, f: Vector) -> Isometry {
    Isometry { quarter_turns: m.quarter_turns, translation: m.translation.component_mul_spec(f)->0 }
}

/// The half-diagonals `(|r·f.x|, |r·f.y|)` of the rhombus that stands for a
/// disc of radius `r` scaled by `f`, when both are positive and in range.
pub open spec fn axis_radii(r: i64, f: Vector) -> Option<(i64, i64)> {
    match (scaled_coord_spec(r, abs_i(f.x)), scaled_coord_spec(r, abs_i(f.y))) {
        (Some(x), Some(y)) => if x > 0 && y > 0 {
            Some((x, y))
        } else {
            None
        },
        _ => None,
    }
}

/// The outline that a disc of radius `r` swept from `a` to `b` (both already
/// scaled) becomes under the uneven scaling by `f`, when it can be built.
pub open spec fn scaled_sweep(a: Point, b: Point, r: i64, f: Vector) -> Option<Seq<(int, int)>> {
    match axis_radii(r, f) {
        Some((ha, hb)) => if ints_in_range(swept_outline(a, b, ha, hb)) {
            Some(swept_outline(a, b, ha, hb))
        } else {
            None
        },
        None => None,
    }
}

/// The polygon `r` has the vertices `o`, in order.
pub open spec fn is_polygon_of(r: Option<Shape>, o: Option<Seq<(int, int)>>) -> bool {
    match o {
        Some(o) => r matches Some(t) && t matches Shape::ConvexPolygon(p) && p.points@ == to_points(o),
        None => r is None,
    }
}

impl Shape {
    /// Scaling a shape that is not made of parts by `f` succeeds.
    pub open spec fn leaf_scales(self, f: Vector) -> bool {
        match self {
            Shape::Ball(b) => if abs_i(f.x) == abs_i(f.y) {
                scaled_coord_spec(b.radius, abs_i(f.x)) is Some
            } else {
                scaled_sweep(Vector::zeros_spec(), Vector::zeros_spec(), b.radius, f) is Some
            },
            Shape::Cuboid(c) => c.scaled_spec(f) is Some,
            Shape::Capsule(c) => if abs_i(f.x) == abs_i(f.y) {
                c.segment.scaled_spec(f) is Some && scaled_coord_spec(c.radius, abs_i(f.x)) is Some
            } else {
                match (c.segment.a.component_mul_spec(f), c.segment.b.component_mul_spec(f)) {
                    (Some(a), Some(b)) => scaled_sweep(a, b, c.radius, f) is Some,
                    _ => false,
                }
            },
            Shape::Segment(g) => g.scaled_spec(f) is Some,
            Shape::Triangle(g) => g.scaled_spec(f) is Some,
            Shape::HalfSpace(h) => h.scaled_spec(f) is Some,
            Shape::Voxels(v) => f.x > 0 && f.y > 0 && points_scalable(v.origins@, f)
                && v.voxel_size.component_mul_spec(f) is Some,
            Shape::ConvexPolygon(p) => points_scalable(p.points@, f) && turns_left(p.scaled_vertices(f)),
            Shape::RoundCuboid(c) => c.inner_shape.scaled_spec(f) is Some,
            Shape::RoundTriangle(c) => c.inner_shape.scaled_spec(f) is Some,
            Shape::RoundConvexPolygon(c) => points_scalable(c.inner_shape.points@, f) && turns_left(
                c.inner_shape.scaled_vertices(f),
            ),
            _ => false,
        }
    }

    /// What scaling a shape that is not made of parts by `f` gives, `r`, as far
    /// as each kind pins it down.
    pub open spec fn leaf_scaled_ok(self, f: Vector, r: Option<Shape>) -> bool {
        match self {
            Shape::Ball(b) => if abs_i(f.x) == abs_i(f.y) {
                r == match scaled_coord_spec(b.radius, abs_i(f.x)) {
                    Some(x) => Some(Shape::Ball(Ball { radius: x })),
                    None => None,
                }
            } else {
                is_polygon_of(r, scaled_sweep(Vector::zeros_spec(), Vector::zeros_spec(), b.radius, f))
            },
            Shape::Cuboid(c) => r == match c.scaled_spec(f) {
                Some(t) => Some(Shape::Cuboid(t)),
                None => None,
            },
            Shape::Capsule(c) => if abs_i(f.x) == abs_i(f.y) {
                r == match (c.segment.scaled_spec(f), scaled_coord_spec(c.radius, abs_i(f.x))) {
                    (Some(g), Some(x)) => Some(Shape::Capsule(Capsule { segment: g, radius: x })),
                    _ => None,
                }
            } else {
                match (c.segment.a.component_mul_spec(f), c.segment.b.component_mul_spec(f)) {
                    (Some(a), Some(b)) => is_polygon_of(r, scaled_sweep(a, b, c.radius, f)),
                    _ => r is None,
                }
            },
            Shape::Segment(g) => r == match g.scaled_spec(f) {
                Some(t) => Some(Shape::Segment(t)),
                None => None,
            },
            Shape::Triangle(g) => r == match g.scaled_spec(f) {
                Some(t) => Some(Shape::Triangle(t)),
                None => None,
            },
            Shape::HalfSpace(h) => r == match h.scaled_spec(f) {
                Some(t) => Some(Shape::HalfSpace(t)),
                None => None,
            },
            Shape::Voxels(v) => {
                &&& (r is Some <==> f.x > 0 && f.y > 0 && points_scalable(v.origins@, f)
                    && v.voxel_size.component_mul_spec(f) is Some)
                &&& r matches Some(t) ==> t matches Shape::Voxels(w) && w.origins@ == scaled_points(
                    v.origins@,
                    f,
                ) && Some(w.voxel_size) == v.voxel_size.component_mul_spec(f)
            },
            Shape::ConvexPolygon(p) => {
                &&& (r is Some <==> points_scalable(p.points@, f) && turns_left(p.scaled_vertices(f)))
                &&& r matches Some(t) ==> t matches Shape::ConvexPolygon(q) && q.points@
                    == p.scaled_vertices(f)
            },
            Shape::RoundCuboid(c) => r == match c.inner_shape.scaled_spec(f) {
                Some(t) => Some(Shape::RoundCuboid(RoundCuboid { inner_shape: t, border_radius: c.border_radius })),
                None => None,
            },
            Shape::RoundTriangle(c) => r == match c.inner_shape.scaled_spec(f) {
                Some(t) => Some(Shape::RoundTriangle(RoundTriangle { inner_shape: t, border_radius: c.border_radius })),
                None => None,
            },
            Shape::RoundConvexPolygon(c) => {
                &&& (r is Some <==> points_scalable(c.inner_shape.points@, f) && turns_left(
                    c.inner_shape.scaled_vertices(f),
                ))
                &&& r matches Some(t) ==> t matches Shape::RoundConvexPolygon(q)
                    && q.inner_shape.points@ == c.inner_shape.scaled_vertices(f) && q.border_radius
                    == c.border_radius
            },
            _ => r is None,
        }
    }

    /// `self` is what scaling `s` by `f` gave.
    pub open spec fn leaf_scaled_ok_of(self, s: Shape, f: Vector) -> bool {
        s.leaf_scaled_ok(f, Some(self))
    }

    /// The kind of the shape scaled by `f`: a ball scaled unevenly becomes a
    /// convex polygon; every other shape keeps its kind.
    pub open spec fn scaled_kind(self, f: Vector) -> ShapeType {
        if (self is Ball || self is Capsule) && abs_i(f.x) != abs_i(f.y) {
            ShapeType::ConvexPolygon
        } else {
            self.kind_spec()
        }
    }

    /// The image of a shape that is not a compound under the scaling by `f`.
    fn scale_leaf(&self, f: &Vector) -> (r: Option<Shape>)
        requires
            self.leaf_wf(),
            f.wf(),
        ensures
            r matches Some(t) ==> t.leaf_wf() && t.kind_spec() == self.scaled_kind(*f),
            self.leaf_scaled_ok(*f, r),
            r is Some <==> self.leaf_scales(*f),
    {
        match self {
            Shape::Ball(b) => {
                let ax = if f.x < 0 { -f.x } else { f.x };
                let ay = if f.y < 0 { -f.y } else { f.y };
                if ax == ay {
                    match scale_coord(b.radius, ax) {
                        Some(r) => {
                            assert(r >= 0) by (nonlinear_arith)
                                requires
                                    r == b.radius * ax,
                                    b.radius >= 0,
                                    ax >= 0,
                            ;
                            Some(Shape::Ball(Ball { radius: r }))
                        },
                        None => None,
                    }
                } else {
                    let o = Vector { x: 0, y: 0 };
                    match sweep_polygon(o, o, b.radius, f) {
                        Some(q) => Some(Shape::ConvexPolygon(q)),
                        None => None,
                    }
                }
            },
            Shape::Cuboid(c) => match c.scaled(f) {
                Some(t) => Some(Shape::Cuboid(t)),
                None => None,
            },
            Shape::Capsule(c) => {
                let ax = if f.x < 0 { -f.x } else { f.x };
                let ay = if f.y < 0 { -f.y } else { f.y };
                if ax != ay {
                    return match (c.segment.a.component_mul(f), c.segment.b.component_mul(f)) {
                        (Some(a), Some(b)) => match sweep_polygon(a, b, c.radius, f) {
                            Some(p) => Some(Shape::ConvexPolygon(p)),
                            None => None,
                        },
                        _ => None,
                    };
                }
                match (c.segment.scaled(f), scale_coord(c.radius, ax)) {
                    (Some(g), Some(r)) => {
                        assert(r >= 0) by (nonlinear_arith)
                            requires
                                r == c.radius * ax,
                                c.radius >= 0,
                                ax >= 0,
                        ;
                        Some(Shape::Capsule(Capsule { segment: g, radius: r }))
                    },
                    _ => None,
                }
            },
            Shape::Segment(g) => match g.scaled(f) {
                Some(t) => Some(Shape::Segment(t)),
                None => None,
            },
            Shape::Triangle(g) => match g.scaled(f) {
                Some(t) => Some(Shape::Triangle(t)),
                None => None,
            },
            Shape::Voxels(v) => match v.scaled(f) {
                Some(t) => Some(Shape::Voxels(t)),
                None => None,
            },
            Shape::HalfSpace(h) => match h.scaled(f) {
                Some(t) => Some(Shape::HalfSpace(t)),
                None => None,
            },
            Shape::ConvexPolygon(p) => match p.scaled(f) {
                Some(t) => Some(Shape::ConvexPolygon(t)),
                None => None,
            },
            Shape::RoundCuboid(s) => match s.inner_shape.scaled(f) {
                Some(t) => Some(Shape::RoundCuboid(RoundCuboid { inner_shape: t, border_radius: s.border_radius })),
                None => None,
            },
            Shape::RoundTriangle(s) => match s.inner_shape.scaled(f) {
                Some(t) => Some(Shape::RoundTriangle(RoundTriangle { inner_shape: t, border_radius: s.border_radius })),
                None => None,
            },
            Shape::RoundConvexPolygon(s) => match s.inner_shape.scaled(f) {
                Some(t) => Some(
                    Shape::RoundConvexPolygon(RoundConvexPolygon { inner_shape: t, border_radius: s.border_radius }),
                ),
                None => None,
            },
            _ => None,
        }
    }

    /// The shape scaled by `f` on each axis, or `None` when the result would
    /// be degenerate or leave the valid range. A ball scaled evenly stays a
    /// ball. A ball scaled unevenly becomes the rhombus through the four points
    /// of the scaled circle on the axes, and a capsule scaled unevenly that
    /// rhombus swept along its scaled segment (the lattice holds no finer exact
    /// outline of an ellipse, so the number of subdivisions is not used). A compound
    /// scales the translation of each placement and each child, keeps the
    /// rotations, and gives `None` exactly when one of these fails.
    pub fn scale_dyn(&self, f: &Vector, _num_subdivisions: u32) -> (r: Option<Shape>)
        requires
            self.wf(),
            f.wf(),
        ensures
            r matches Some(t) ==> t.wf() && t.kind_spec() == self.scaled_kind(*f),
            self.leaf_wf() ==> self.leaf_scaled_ok(*f, r),
            self.leaf_wf() ==> (r is Some <==> self.leaf_scales(*f)),
            self matches Shape::HeightField(h) ==> (r is Some <==> h.scales(*f)),
            self matches Shape::TriMesh(m) ==> (r is Some <==> points_scalable(m.vertices@, *f)),
            self matches Shape::Polyline(p) ==> (r is Some <==> points_scalable(p.vertices@, *f)),
            self matches Shape::Compound(c) ==> (r is Some <==> children_scale(c.shapes@, *f)),
            self matches Shape::Compound(c) ==> (r matches Some(t) ==> t matches Shape::Compound(d)
                && d.shapes@.len() == c.shapes@.len() && forall|i: int|
                0 <= i < d.shapes@.len() ==> #[trigger] d.shapes@[i].0 == scaled_placement(c.shapes@[i].0, *f)
                && d.shapes@[i].1@.leaf_scaled_ok_of(c.shapes@[i].1@, *f)),
    {
        match self {
            Shape::TriMesh(m) => match m.scaled(f) {
                Some(t) => Some(Shape::TriMesh(t)),
                None => None,
            },
            Shape::Polyline(p) => match p.scaled(f) {
                Some(t) => Some(Shape::Polyline(t)),
                None => None,
            },
            Shape::HeightField(h) => match h.scaled(f) {
                Some(t) => Some(Shape::HeightField(t)),
                None => None,
            },
            Shape::Compound(c) => match scale_compound(c, f) {
                Some(t) => Some(Shape::Compound(t)),
                None => None,
            },
            _ => self.scale_leaf(f),
        }
    }
}

/// The polygon that a disc of radius `r` swept from `a` to `b` becomes under
/// the uneven scaling by `f`: the rhombus through the four points of the
/// scaled circle on the axes, swept from `a` to `b`.
fn sweep_polygon(a: Point, b: Point, r: i64, f: &Vector) -> (p: Option<ConvexPolygon>)
    requires
        a.wf(),
        b.wf(),
        0 <= r <= MAX_COORD,
        f.wf(),
    ensures
        p is Some <==> scaled_sweep(a, b, r, *f) is Some,
        p matches Some(q) ==> q.wf() && Some(q.points@) == match scaled_sweep(a, b, r, *f) {
            Some(o) => Some(to_points(o)),
            None => None,
        },
{
    let ax = if f.x < 0 { -f.x } else { f.x };
    let ay = if f.y < 0 { -f.y } else { f.y };
    match (scale_coord(r, ax), scale_coord(r, ay)) {
        (Some(ha), Some(hb)) => if ha > 0 && hb > 0 {
            swept_rhombus(a, b, ha, hb)
        } else {
            None
        },
        _ => None,
    }
}

/// The translation of every placement and every child of `s` can be scaled by `f`.
pub open spec fn children_scale(s: Seq<(Isometry, SharedShape)>, f: Vector) -> bool {
    forall|i: int|
        0 <= i < s.len() ==> (#[trigger] s[i]).0.translation.component_mul_spec(f) is Some
            && s[i].1@.leaf_scales(f)
}

/// The compound with each placement's translation and each child scaled by `f`.
fn scale_compound(c: &Compound, f: &Vector) -> (r: Option<Compound>)
    requires
        c.wf(),
        f.wf(),
    ensures
        r is Some <==> children_scale(c.shapes@, *f),
        r matches Some(d) ==> d.wf() && d.shapes@.len() == c.shapes@.len() && forall|i: int|
            0 <= i < d.shapes@.len() ==> #[trigger] d.shapes@[i].0 == scaled_placement(c.shapes@[i].0, *f)
                && d.shapes@[i].1@.leaf_scaled_ok_of(c.shapes@[i].1@, *f),
{
    let mut shapes: Vec<(Isometry, SharedShape)> = Vec::new();
    let mut i: usize = 0;
    while i < c.shapes.len()
        invariant
            c.wf(),
            f.wf(),
            0 <= i <= c.shapes@.len(),
            shapes@.len() == i,
            inputs_wf(shapes@),
            forall|j: int| 0 <= j < i ==> (#[trigger] shapes@[j]).1@.leaf_wf(),
            forall|j: int| 0 <= j < i ==> #[trigger] shapes@[j].0 == scaled_placement(c.shapes@[j].0, *f)
                && shapes@[j].1@.leaf_scaled_ok_of(c.shapes@[j].1@, *f),
            forall|j: int| 0 <= j < i ==> (#[trigger] c.shapes@[j]).0.translation.component_mul_spec(*f) is Some
                && c.shapes@[j].1@.leaf_scales(*f),
        decreases c.shapes@.len() - i,
    {
        let (m, child) = (&c.shapes[i].0, c.shapes[i].1.shape());
        assert(c.shapes@[i as int].0.wf() && c.shapes@[i as int].1@.leaf_wf());
        let t = match m.translation.component_mul(f) {
            Some(t) => t,
            None => {
                assert(!children_scale(c.shapes@, *f)) by {
                    assert(c.shapes@[i as int].0.translation.component_mul_spec(*f) is None);
                }
                return None;
            },
        };
        let s = match child.scale_leaf(f) {
            Some(s) => s,
            None => {
                assert(!children_scale(c.shapes@, *f)) by {
                    assert(!c.shapes@[i as int].1@.leaf_scales(*f));
                }
                return None;
            },
        };
        shapes.push((Isometry { quarter_turns: m.quarter_turns, translation: t }, SharedShape::new(s)));
        i = i + 1;
    }
    assert(!has_composite_child(shapes@)) by {
        assert forall|j: int| 0 <= j < shapes@.len() implies !(#[trigger] shapes@[j]).1@.kind_spec().is_composite_kind() by {
            assert(shapes@[j].1@.leaf_wf());
        }
    }
    match Compound::new(shapes) {
        Ok(d) => Some(d),
        Err(_) => None,
    }
}

/// Children that agree pairwise agree in their least thickness and largest
/// angular thickness.
proof fn lemma_children_agree(a: Seq<(Isometry, SharedShape)>, b: Seq<(Isometry, SharedShape)>)
    requires
        a.len() == b.len(),
        forall|i: int| 0 <= i < a.len() ==> (#[trigger] a[i]).1@.same_observables(b[i].1@) && a[i].0 == b[i].0,
    ensures
        min_child_thickness(a) == min_child_thickness(b),
        max_child_angular(a) == max_child_angular(b),
        child_aabbs(a) == child_aabbs(b),
    decreases a.len(),
{
    if a.len() > 0 {
        assert forall|i: int| 0 <= i < a.drop_last().len() implies (#[trigger] a.drop_last()[i]).1@.same_observables(b.drop_last()[i].1@) && a.drop_last()[i].0 == b.drop_last()[i].0 by {
            assert(a.drop_last()[i] == a[i]);
            assert(b.drop_last()[i] == b[i]);
        }
        lemma_children_agree(a.drop_last(), b.drop_last());
        assert(a.last().1@.same_observables(b.last().1@));
    }
    assert forall|i: int| 0 <= i < a.len() implies #[trigger] child_aabbs(a)[i] == child_aabbs(b)[i] by {
        assert(a[i].1@.same_observables(b[i].1@));
        let m = a[i].0;
        assert(a[i].1@.aabb_spec(m) == b[i].1@.aabb_spec(m));
    }
    assert(child_aabbs(a) =~= child_aabbs(b));
}

/// A deep copy of a compound.
fn clone_compound(c: &Compound) -> (r: Compound)
    requires
        c.wf(),
    ensures
        Shape::Compound(r).same_observables(Shape::Compound(*c)),
        Shape::Compound(r).same_data(Shape::Compound(*c)),
{
    let mut shapes: Vec<(Isometry, SharedShape)> = Vec::new();
    let mut i: usize = 0;
    while i < c.shapes.len()
        invariant
            c.wf(),
            0 <= i <= c.shapes@.len(),
            shapes@.len() == i,
            forall|j: int| 0 <= j < i ==> (#[trigger] shapes@[j]).1@.same_observables(c.shapes@[j].1@)
                && shapes@[j].0 == c.shapes@[j].0 && shapes@[j].1@.leaf_same_data(c.shapes@[j].1@),
        decreases c.shapes@.len() - i,
    {
        let child = c.shapes[i].1.shape();
        assert(c.shapes@[i as int].1@.leaf_wf());
        shapes.push((c.shapes[i].0, SharedShape::new(child.clone_leaf())));
        i = i + 1;
    }
    proof {
        lemma_children_agree(shapes@, c.shapes@);
    }
    let r = Compound {
        shapes,
        bvh: c.bvh.copy(),
        aabbs: copy_vec(&c.aabbs),
        aabb: c.aabb,
    };
    proof {
        assert forall|k: int| 0 <= k < r.shapes@.len() implies (#[trigger] r.shapes@[k]).0.wf() && r.shapes@[k].1@.leaf_wf() by {
            assert(c.shapes@[k].0.wf() && c.shapes@[k].1@.leaf_wf());
        }
        assert(r.wf());
        assert forall|m: Isometry| #[trigger] Shape::Compound(r).aabb_spec(m) == Shape::Compound(*c).aabb_spec(m) by {}
    }
    r
}

/// The thickness of a convex polygon: the smaller half-width of its box,
/// rounded down.
pub open spec fn polygon_thickness(p: ConvexPolygon) -> i64 {
    let b = p.local_aabb_spec();
    let hx = (b.maxs.x - b.mins.x) / 2;
    let hy = (b.maxs.y - b.mins.y) / 2;
    (if hx <= hy { hx } else { hy }) as i64
}


/// A borrowed view of a shape as its concrete type.
#[derive(Clone, Copy, Debug)]
pub enum TypedShape<'a> {
    Ball(&'a Ball),
    Cuboid(&'a Cuboid),
    Capsule(&'a Capsule),
    Segment(&'a Segment),
    Triangle(&'a Triangle),
    Voxels(&'a Voxels),
    TriMesh(&'a TriMesh),
    Polyline(&'a Polyline),
    HalfSpace(&'a HalfSpace),
    HeightField(&'a HeightField),
    Compound(&'a Compound),
    ConvexPolygon(&'a ConvexPolygon),
    RoundCuboid(&'a RoundCuboid),
    RoundTriangle(&'a RoundTriangle),
    RoundConvexPolygon(&'a RoundConvexPolygon),
}

impl<'a> TypedShape<'a> {
    /// The shape this view shows.
    pub open spec fn to_shape(self) -> Shape {
        match self {
            TypedShape::Ball(s) => Shape::Ball(*s),
            TypedShape::Cuboid(s) => Shape::Cuboid(*s),
            TypedShape::Capsule(s) => Shape::Capsule(*s),
            TypedShape::Segment(s) => Shape::Segment(*s),
            TypedShape::Triangle(s) => Shape::Triangle(*s),
            TypedShape::Voxels(s) => Shape::Voxels(*s),
            TypedShape::TriMesh(s) => Shape::TriMesh(*s),
            TypedShape::Polyline(s) => Shape::Polyline(*s),
            TypedShape::HalfSpace(s) => Shape::HalfSpace(*s),
            TypedShape::HeightField(s) => Shape::HeightField(*s),
            TypedShape::Compound(s) => Shape::Compound(*s),
            TypedShape::ConvexPolygon(s) => Shape::ConvexPolygon(*s),
            TypedShape::RoundCuboid(s) => Shape::RoundCuboid(*s),
            TypedShape::RoundTriangle(s) => Shape::RoundTriangle(*s),
            TypedShape::RoundConvexPolygon(s) => Shape::RoundConvexPolygon(*s),
        }
    }
}

/// A borrowed view of a shape that has a support mapping.
#[derive(Clone, Copy, Debug)]
pub enum SupportMap<'a> {
    Ball(&'a Ball),
    Cuboid(&'a Cuboid),
    Capsule(&'a Capsule),
    Segment(&'a Segment),
    Triangle(&'a Triangle),
    ConvexPolygon(&'a ConvexPolygon),
    RoundCuboid(&'a RoundCuboid),
    RoundTriangle(&'a RoundTriangle),
    RoundConvexPolygon(&'a RoundConvexPolygon),
}

impl<'a> SupportMap<'a> {
    /// The shape this view shows.
    pub open spec fn to_shape(self) -> Shape {
        match self {
            SupportMap::Ball(s) => Shape::Ball(*s),
            SupportMap::Cuboid(s) => Shape::Cuboid(*s),
            SupportMap::Capsule(s) => Shape::Capsule(*s),
            SupportMap::Segment(s) => Shape::Segment(*s),
            SupportMap::Triangle(s) => Shape::Triangle(*s),
            SupportMap::ConvexPolygon(s) => Shape::ConvexPolygon(*s),
            SupportMap::RoundCuboid(s) => Shape::RoundCuboid(*s),
            SupportMap::RoundTriangle(s) => Shape::RoundTriangle(*s),
            SupportMap::RoundConvexPolygon(s) => Shape::RoundConvexPolygon(*s),
        }
    }
}

/// A borrowed view of a sharp shape whose faces and vertices can be listed.
#[derive(Clone, Copy, Debug)]
pub enum PolygonalFeatureMap<'a> {
    Cuboid(&'a Cuboid),
    Segment(&'a Segment),
    Triangle(&'a Triangle),
    ConvexPolygon(&'a ConvexPolygon),
}

impl<'a> PolygonalFeatureMap<'a> {
    /// The vertices of the viewed polytope.
    pub open spec fn vertices_spec(self) -> Seq<Point> {
        match self {
            PolygonalFeatureMap::Cuboid(c) => c.corners_spec(),
            PolygonalFeatureMap::Segment(g) => seq![g.a, g.b],
            PolygonalFeatureMap::Triangle(t) => seq![t.a, t.b, t.c],
            PolygonalFeatureMap::ConvexPolygon(p) => p.points@,
        }
    }

    pub open spec fn wf(self) -> bool {
        match self {
            PolygonalFeatureMap::Cuboid(c) => c.wf(),
            PolygonalFeatureMap::Segment(g) => g.wf(),
            PolygonalFeatureMap::Triangle(t) => t.wf(),
            PolygonalFeatureMap::ConvexPolygon(p) => p.wf(),
        }
    }

    /// A vertex of the polytope farthest along `dir`: no vertex has a larger
    /// dot product with `dir`.
    pub fn support_point(&self, dir: &Vector) -> (r: Point)
        requires
            self.wf(),
            dir.wf(),
        ensures
            self.vertices_spec().contains(r),
            forall|k: int|
                0 <= k < self.vertices_spec().len() ==> dot(#[trigger] self.vertices_spec()[k], *dir)
                    <= dot(r, *dir),
    {
        let mut pts: Vec<Point> = Vec::new();
        match self {
            PolygonalFeatureMap::Cuboid(c) => {
                let h = c.half_extents;
                pts.push(Vector { x: h.x, y: h.y });
                pts.push(Vector { x: -h.x, y: h.y });
                pts.push(Vector { x: h.x, y: -h.y });
                pts.push(Vector { x: -h.x, y: -h.y });
            },
            PolygonalFeatureMap::Segment(g) => {
                pts.push(g.a);
                pts.push(g.b);
            },
            PolygonalFeatureMap::Triangle(t) => {
                pts.push(t.a);
                pts.push(t.b);
                pts.push(t.c);
            },
            PolygonalFeatureMap::ConvexPolygon(p) => {
                return max_dot_point(&p.points, dir);
            },
        }
        assert(pts@ =~= self.vertices_spec());
        max_dot_point(&pts, dir)
    }

    /// The shape this view shows.
    pub open spec fn to_shape(self) -> Shape {
        match self {
            PolygonalFeatureMap::Cuboid(s) => Shape::Cuboid(*s),
            PolygonalFeatureMap::Segment(s) => Shape::Segment(*s),
            PolygonalFeatureMap::Triangle(s) => Shape::Triangle(*s),
            PolygonalFeatureMap::ConvexPolygon(s) => Shape::ConvexPolygon(*s),
        }
    }
}

/// A borrowed view of a shape made of parts.
#[derive(Clone, Copy, Debug)]
pub enum CompositeShape<'a> {
    Compound(&'a Compound),
    Polyline(&'a Polyline),
    TriMesh(&'a TriMesh),
    HeightField(&'a HeightField),
}

impl<'a> CompositeShape<'a> {
    /// The hierarchy over the parts; a height field is walked cell by cell and
    /// has none.
    pub fn bvh(&self) -> (r: Option<&'a Bvh>)
        ensures
            r is Some <==> !(self is HeightField),
            self matches CompositeShape::Compound(c) ==> r == Some(&c.bvh),
            self matches CompositeShape::Polyline(p) ==> r == Some(&p.bvh),
            self matches CompositeShape::TriMesh(m) ==> r == Some(&m.bvh),
    {
        match self {
            CompositeShape::Compound(c) => Some(&c.bvh),
            CompositeShape::Polyline(p) => Some(&p.bvh),
            CompositeShape::TriMesh(m) => Some(&m.bvh),
            CompositeShape::HeightField(_) => None,
        }
    }

    /// The shape this view shows.
    pub open spec fn to_shape(self) -> Shape {
        match self {
            CompositeShape::Compound(s) => Shape::Compound(*s),
            CompositeShape::Polyline(s) => Shape::Polyline(*s),
            CompositeShape::TriMesh(s) => Shape::TriMesh(*s),
            CompositeShape::HeightField(s) => Shape::HeightField(*s),
        }
    }
}

impl Shape {
    /// This shape seen as its concrete type.
    pub fn as_typed_shape(&self) -> (r: TypedShape<'_>)
        ensures
            r.to_shape() == *self,
    {
        match self {
            Shape::Ball(s) => TypedShape::Ball(s),
            Shape::Cuboid(s) => TypedShape::Cuboid(s),
            Shape::Capsule(s) => TypedShape::Capsule(s),
            Shape::Segment(s) => TypedShape::Segment(s),
            Shape::Triangle(s) => TypedShape::Triangle(s),
            Shape::Voxels(s) => TypedShape::Voxels(s),
            Shape::TriMesh(s) => TypedShape::TriMesh(s),
            Shape::Polyline(s) => TypedShape::Polyline(s),
            Shape::HalfSpace(s) => TypedShape::HalfSpace(s),
            Shape::HeightField(s) => TypedShape::HeightField(s),
            Shape::Compound(s) => TypedShape::Compound(s),
            Shape::ConvexPolygon(s) => TypedShape::ConvexPolygon(s),
            Shape::RoundCuboid(s) => TypedShape::RoundCuboid(s),
            Shape::RoundTriangle(s) => TypedShape::RoundTriangle(s),
            Shape::RoundConvexPolygon(s) => TypedShape::RoundConvexPolygon(s),
        }
    }

    /// This shape as a support mapping, if it has one.
    pub fn as_support_map(&self) -> (r: Option<SupportMap<'_>>)
        ensures
            r is Some <==> self.has_support_map(),
            r matches Some(m) ==> m.to_shape() == *self,
    {
        match self {
            Shape::Ball(s) => Some(SupportMap::Ball(s)),
            Shape::Cuboid(s) => Some(SupportMap::Cuboid(s)),
            Shape::Capsule(s) => Some(SupportMap::Capsule(s)),
            Shape::Segment(s) => Some(SupportMap::Segment(s)),
            Shape::Triangle(s) => Some(SupportMap::Triangle(s)),
            Shape::ConvexPolygon(s) => Some(SupportMap::ConvexPolygon(s)),
            Shape::RoundCuboid(s) => Some(SupportMap::RoundCuboid(s)),
            Shape::RoundTriangle(s) => Some(SupportMap::RoundTriangle(s)),
            Shape::RoundConvexPolygon(s) => Some(SupportMap::RoundConvexPolygon(s)),
            _ => None,
        }
    }

    /// The sharp shape whose features this shape exposes, with the radius by
    /// which they are inflated, if it has such features.
    pub fn as_polygonal_feature_map(&self) -> (r: Option<(PolygonalFeatureMap<'_>, i64)>)
        ensures
            r is Some <==> self.feature_map_spec() is Some,
            r matches Some((m, b)) ==> Some((m.to_shape(), b)) == self.feature_map_spec(),
    {
        match self {
            Shape::Cuboid(s) => Some((PolygonalFeatureMap::Cuboid(s), 0)),
            Shape::Capsule(s) => Some((PolygonalFeatureMap::Segment(&s.segment), s.radius)),
            Shape::Segment(s) => Some((PolygonalFeatureMap::Segment(s), 0)),
            Shape::Triangle(s) => Some((PolygonalFeatureMap::Triangle(s), 0)),
            Shape::ConvexPolygon(s) => Some((PolygonalFeatureMap::ConvexPolygon(s), 0)),
            Shape::RoundCuboid(s) => Some(
                (PolygonalFeatureMap::Cuboid(&s.inner_shape), s.border_radius),
            ),
            Shape::RoundTriangle(s) => Some(
                (PolygonalFeatureMap::Triangle(&s.inner_shape), s.border_radius),
            ),
            Shape::RoundConvexPolygon(s) => Some(
                (PolygonalFeatureMap::ConvexPolygon(&s.inner_shape), s.border_radius),
            ),
            _ => None,
        }
    }

    /// This shape as a composite shape, if it is made of parts.
    pub fn as_composite_shape(&self) -> (r: Option<CompositeShape<'_>>)
        ensures
            r is Some <==> self.kind_spec().is_composite_kind(),
            r matches Some(c) ==> c.to_shape() == *self,
    {
        match self {
            Shape::Compound(s) => Some(CompositeShape::Compound(s)),
            Shape::Polyline(s) => Some(CompositeShape::Polyline(s)),
            Shape::TriMesh(s) => Some(CompositeShape::TriMesh(s)),
            Shape::HeightField(s) => Some(CompositeShape::HeightField(s)),
            _ => None,
        }
    }

    /// This shape as a `Ball`, if it is one.
    pub fn as_ball(&self) -> (r: Option<&Ball>)
        ensures
            r is Some <==> self.kind_spec() == ShapeType::Ball,
            r matches Some(s) ==> *self == Shape::Ball(*s),
    {
        match self {
            Shape::Ball(s) => Some(s),
            _ => None,
        }
    }

    /// This shape as a `Cuboid`, if it is one.
    pub fn as_cuboid(&self) -> (r: Option<&Cuboid>)
        ensures
            r is Some <==> self.kind_spec() == ShapeType::Cuboid,
            r matches Some(s) ==> *self == Shape::Cuboid(*s),
    {
        match self {
            Shape::Cuboid(s) => Some(s),
            _ => None,
        }
    }

    /// This shape as a `Capsule`, if it is one.
    pub fn as_capsule(&self) -> (r: Option<&Capsule>)
        ensures
            r is Some <==> self.kind_spec() == ShapeType::Capsule,
            r matches Some(s) ==> *self == Shape::Capsule(*s),
    {
        match self {
            Shape::Capsule(s) => Some(s),
            _ => None,
        }
    }

    /// This shape as a `Segment`, if it is one.
    pub fn as_segment(&self) -> (r: Option<&Segment>)
        ensures
            r is Some <==> self.kind_spec() == ShapeType::Segment,
            r matches Some(s) ==> *self == Shape::Segment(*s),
    {
        match self {
            Shape::Segment(s) => Some(s),
            _ => None,
        }
    }

    /// This shape as a `Triangle`, if it is one.
    pub fn as_triangle(&self) -> (r: Option<&Triangle>)
        ensures
            r is Some <==> self.kind_spec() == ShapeType::Triangle,
            r matches Some(s) ==> *self == Shape::Triangle(*s),
    {
        match self {
            Shape::Triangle(s) => Some(s),
            _ => None,
        }
    }

    /// This shape as a `Voxels`, if it is one.
    pub fn as_voxels(&self) -> (r: Option<&Voxels>)
        ensures
            r is Some <==> self.kind_spec() == ShapeType::Voxels,
            r matches Some(s) ==> *self == Shape::Voxels(*s),
    {
        match self {
            Shape::Voxels(s) => Some(s),
            _ => None,
        }
    }

    /// This shape as a `TriMesh`, if it is one.
    pub fn as_trimesh(&self) -> (r: Option<&TriMesh>)
        ensures
            r is Some <==> self.kind_spec() == ShapeType::TriMesh,
            r matches Some(s) ==> *self == Shape::TriMesh(*s),
    {
        match self {
            Shape::TriMesh(s) => Some(s),
            _ => None,
        }
    }

    /// This shape as a `Polyline`, if it is one.
    pub fn as_polyline(&self) -> (r: Option<&Polyline>)
        ensures
            r is Some <==> self.kind_spec() == ShapeType::Polyline,
            r matches Some(s) ==> *self == Shape::Polyline(*s),
    {
        match self {
            Shape::Polyline(s) => Some(s),
            _ => None,
        }
    }

    /// This shape as a `HalfSpace`, if it is one.
    pub fn as_halfspace(&self) -> (r: Option<&HalfSpace>)
        ensures
            r is Some <==> self.kind_spec() == ShapeType::HalfSpace,
            r matches Some(s) ==> *self == Shape::HalfSpace(*s),
    {
        match self {
            Shape::HalfSpace(s) => Some(s),
            _ => None,
        }
    }

    /// This shape as a `HeightField`, if it is one.
    pub fn as_heightfield(&self) -> (r: Option<&HeightField>)
        ensures
            r is Some <==> self.kind_spec() == ShapeType::HeightField,
            r matches Some(s) ==> *self == Shape::HeightField(*s),
    {
        match self {
            Shape::HeightField(s) => Some(s),
            _ => None,
        }
    }

    /// This shape as a `Compound`, if it is one.
    pub fn as_compound(&self) -> (r: Option<&Compound>)
        ensures
            r is Some <==> self.kind_spec() == ShapeType::Compound,
            r matches Some(s) ==> *self == Shape::Compound(*s),
    {
        match self {
            Shape::Compound(s) => Some(s),
            _ => None,
        }
    }

    /// This shape as a `ConvexPolygon`, if it is one.
    pub fn as_convex_polygon(&self) -> (r: Option<&ConvexPolygon>)
        ensures
            r is Some <==> self.kind_spec() == ShapeType::ConvexPolygon,
            r matches Some(s) ==> *self == Shape::ConvexPolygon(*s),
    {
        match self {
            Shape::ConvexPolygon(s) => Some(s),
            _ => None,
        }
    }

    /// This shape as a `RoundCuboid`, if it is one.
    pub fn as_round_cuboid(&self) -> (r: Option<&RoundCuboid>)
        ensures
            r is Some <==> self.kind_spec() == ShapeType::RoundCuboid,
            r matches Some(s) ==> *self == Shape::RoundCuboid(*s),
    {
        match self {
            Shape::RoundCuboid(s) => Some(s),
            _ => None,
        }
    }

    /// This shape as a `RoundTriangle`, if it is one.
    pub fn as_round_triangle(&self) -> (r: Option<&RoundTriangle>)
        ensures
            r is Some <==> self.kind_spec() == ShapeType::RoundTriangle,
            r matches Some(s) ==> *self == Shape::RoundTriangle(*s),
    {
        match self {
            Shape::RoundTriangle(s) => Some(s),
            _ => None,
        }
    }

    /// This shape as a `RoundConvexPolygon`, if it is one.
    pub fn as_round_convex_polygon(&self) -> (r: Option<&RoundConvexPolygon>)
        ensures
            r is Some <==> self.kind_spec() == ShapeType::RoundConvexPolygon,
            r matches Some(s) ==> *self == Shape::RoundConvexPolygon(*s),
    {
        match self {
            Shape::RoundConvexPolygon(s) => Some(s),
            _ => None,
        }
    }
}

/// A shape as read from a stored payload: one variant per concrete shape, and
/// `Custom` for a user-defined shape, which has no stored form.
#[derive(Clone, Debug)]
pub enum DeserializableTypedShape {
    Ball(Ball),
    Cuboid(Cuboid),
    Capsule(Capsule),
    Segment(Segment),
    Triangle(Triangle),
    Voxels(Voxels),
    TriMesh(TriMesh),
    Polyline(Polyline),
    HalfSpace(HalfSpace),
    HeightField(HeightField),
    Compound(Compound),
    ConvexPolygon(ConvexPolygon),
    RoundCuboid(RoundCuboid),
    RoundTriangle(RoundTriangle),
    RoundConvexPolygon(RoundConvexPolygon),
    Custom,
}

impl DeserializableTypedShape {
    /// The shape held, if it is not `Custom`.
    pub open spec fn to_shape(self) -> Option<Shape> {
        match self {
            DeserializableTypedShape::Ball(s) => Some(Shape::Ball(s)),
            DeserializableTypedShape::Cuboid(s) => Some(Shape::Cuboid(s)),
            DeserializableTypedShape::Capsule(s) => Some(Shape::Capsule(s)),
            DeserializableTypedShape::Segment(s) => Some(Shape::Segment(s)),
            DeserializableTypedShape::Triangle(s) => Some(Shape::Triangle(s)),
            DeserializableTypedShape::Voxels(s) => Some(Shape::Voxels(s)),
            DeserializableTypedShape::TriMesh(s) => Some(Shape::TriMesh(s)),
            DeserializableTypedShape::Polyline(s) => Some(Shape::Polyline(s)),
            DeserializableTypedShape::HalfSpace(s) => Some(Shape::HalfSpace(s)),
            DeserializableTypedShape::HeightField(s) => Some(Shape::HeightField(s)),
            DeserializableTypedShape::Compound(s) => Some(Shape::Compound(s)),
            DeserializableTypedShape::ConvexPolygon(s) => Some(Shape::ConvexPolygon(s)),
            DeserializableTypedShape::RoundCuboid(s) => Some(Shape::RoundCuboid(s)),
            DeserializableTypedShape::RoundTriangle(s) => Some(Shape::RoundTriangle(s)),
            DeserializableTypedShape::RoundConvexPolygon(s) => Some(Shape::RoundConvexPolygon(s)),
            DeserializableTypedShape::Custom => None,
        }
    }

    /// The kind named by the payload.
    pub open spec fn kind_spec(self) -> ShapeType {
        match self.to_shape() {
            Some(s) => s.kind_spec(),
            None => ShapeType::Custom,
        }
    }

    /// The shape behind a shared handle, or `None` for `Custom`.
    pub fn into_shared_shape(self) -> (r: Option<SharedShape>)
        ensures
            r is Some <==> !(self is Custom),
            r matches Some(s) ==> Some(s@) == self.to_shape() && s@.kind_spec() == self.kind_spec(),
    {
        match self {
            DeserializableTypedShape::Ball(s) => Some(SharedShape::new(Shape::Ball(s))),
            DeserializableTypedShape::Cuboid(s) => Some(SharedShape::new(Shape::Cuboid(s))),
            DeserializableTypedShape::Capsule(s) => Some(SharedShape::new(Shape::Capsule(s))),
            DeserializableTypedShape::Segment(s) => Some(SharedShape::new(Shape::Segment(s))),
            DeserializableTypedShape::Triangle(s) => Some(SharedShape::new(Shape::Triangle(s))),
            DeserializableTypedShape::Voxels(s) => Some(SharedShape::new(Shape::Voxels(s))),
            DeserializableTypedShape::TriMesh(s) => Some(SharedShape::new(Shape::TriMesh(s))),
            DeserializableTypedShape::Polyline(s) => Some(SharedShape::new(Shape::Polyline(s))),
            DeserializableTypedShape::HalfSpace(s) => Some(SharedShape::new(Shape::HalfSpace(s))),
            DeserializableTypedShape::HeightField(s) => Some(SharedShape::new(Shape::HeightField(s))),
            DeserializableTypedShape::Compound(s) => Some(SharedShape::new(Shape::Compound(s))),
            DeserializableTypedShape::ConvexPolygon(s) => Some(SharedShape::new(Shape::ConvexPolygon(s))),
            DeserializableTypedShape::RoundCuboid(s) => Some(SharedShape::new(Shape::RoundCuboid(s))),
            DeserializableTypedShape::RoundTriangle(s) => Some(SharedShape::new(Shape::RoundTriangle(s))),
            DeserializableTypedShape::RoundConvexPolygon(s) => Some(SharedShape::new(Shape::RoundConvexPolygon(s))),
            DeserializableTypedShape::Custom => None,
        }
    }
}

impl<'a> TypedShape<'a> {
    /// The kind of the viewed shape, read from the view's variant.
    pub open spec fn kind_spec(self) -> ShapeType {
        match self {
            TypedShape::Ball(_) => ShapeType::Ball,
            TypedShape::Cuboid(_) => ShapeType::Cuboid,
            TypedShape::Capsule(_) => ShapeType::Capsule,
            TypedShape::Segment(_) => ShapeType::Segment,
            TypedShape::Triangle(_) => ShapeType::Triangle,
            TypedShape::Voxels(_) => ShapeType::Voxels,
            TypedShape::TriMesh(_) => ShapeType::TriMesh,
            TypedShape::Polyline(_) => ShapeType::Polyline,
            TypedShape::HalfSpace(_) => ShapeType::HalfSpace,
            TypedShape::HeightField(_) => ShapeType::HeightField,
            TypedShape::Compound(_) => ShapeType::Compound,
            TypedShape::ConvexPolygon(_) => ShapeType::ConvexPolygon,
            TypedShape::RoundCuboid(_) => ShapeType::RoundCuboid,
            TypedShape::RoundTriangle(_) => ShapeType::RoundTriangle,
            TypedShape::RoundConvexPolygon(_) => ShapeType::RoundConvexPolygon,
        }
    }
}

/// The box of a shape placed by `m` lies in its local box carried by `m`
/// (here the two are equal).
pub proof fn lemma_aabb_in_transformed_local(s: Shape, m: Isometry)
    requires
        s.wf(),
        m.wf(),
    ensures
        s.local_aabb_spec().transform_spec(m).contains(s.aabb_spec(m)),
        s.aabb_spec(m) == s.local_aabb_spec().transform_spec(m),
{
    match s {
        Shape::Ball(b) => lemma_ball_box_moves(b, m),
        Shape::RoundCuboid(r) => {
            lemma_loosen_transform_commute(r.inner_shape.local_aabb_spec(), m, r.border_radius);
        },
        Shape::RoundTriangle(r) => {
            lemma_loosen_transform_commute(r.inner_shape.local_aabb_spec(), m, r.border_radius);
        },
        Shape::RoundConvexPolygon(r) => {
            lemma_points_aabb(r.inner_shape.points@);
            lemma_loosen_transform_commute(r.inner_shape.local_aabb_spec(), m, r.border_radius);
        },
        _ => {},
    }
}

/// A ball's placed box is its local box carried by the placement.
proof fn lemma_ball_box_moves(b: Ball, m: Isometry)
    requires
        b.wf(),
        m.wf(),
    ensures
        b.aabb_spec(m) == b.local_aabb_spec().transform_spec(m),
{
    reveal(Aabb::transform_spec);
}

/// Loosening and carrying a box by an isometry commute.
proof fn lemma_loosen_transform_commute(b: Aabb, m: Isometry, r: i64)
    requires
        b.bounded(MAX_COORD as int),
        m.wf(),
        0 <= r <= MAX_COORD,
    ensures
        b.loosened_spec(r).transform_spec(m) == b.transform_spec(m).loosened_spec(r),
{
    reveal(Aabb::transform_spec);
}

/// The swept box holds the box at both ends of the motion.
pub proof fn lemma_swept_holds_ends(s: Shape, p: Isometry, q: Isometry)
    ensures
        s.swept_aabb_spec(p, q).contains(s.aabb_spec(p)),
        s.swept_aabb_spec(p, q).contains(s.aabb_spec(q)),
{
}

/// A rounded shape's local box and disc are its inner shape's, loosened by the
/// border radius; it is convex exactly when the inner shape is; its thickness
/// is the inner one plus the radius, and its angular thickness the inner one.
pub proof fn lemma_rounded_derives_from_inner(s: Shape)
    requires
        s is RoundCuboid || s is RoundTriangle || s is RoundConvexPolygon,
    ensures
        ({
            let (inner, r) = s.feature_map_spec()->0;
            &&& s.local_aabb_spec() == inner.local_aabb_spec().loosened_spec(r)
            &&& s.local_bounding_sphere_spec() == inner.local_bounding_sphere_spec().loosened_spec(r)
            &&& s.is_convex_spec() == inner.is_convex_spec()
            &&& s.ccd_thickness_spec() == (inner.ccd_thickness_spec() + r) as i64
            &&& s.angular_thickness_spec() == inner.angular_thickness_spec()
        }),
{
}

/// The typed view of a shape names the shape's kind.
pub proof fn lemma_typed_view_kind(t: TypedShape)
    ensures
        t.kind_spec() == t.to_shape().kind_spec(),
{
}

/// A copy made by `clone_dyn` has the kind, bounds and thicknesses of the
/// shape it copies.
pub proof fn lemma_copy_agrees(s: Shape, c: Shape, m: Isometry)
    requires
        c.same_observables(s),
    ensures
        c.kind_spec() == s.kind_spec(),
        c.local_aabb_spec() == s.local_aabb_spec(),
        c.aabb_spec(m) == s.aabb_spec(m),
        c.local_bounding_sphere_spec() == s.local_bounding_sphere_spec(),
        c.ccd_thickness_spec() == s.ccd_thickness_spec(),
        c.angular_thickness_spec() == s.angular_thickness_spec(),
{
}

/// A shape known to be convex has a support mapping, except the half-plane,
/// which is convex but unbounded.
pub proof fn lemma_convex_has_support_map(s: Shape)
    requires
        s.is_convex_spec(),
        !(s is HalfSpace),
    ensures
        s.has_support_map(),
{
}

/// A half-plane is at least as thick as any cuboid.
pub proof fn lemma_half_space_thickest(h: HalfSpace, c: Cuboid)
    ensures
        Shape::HalfSpace(h).ccd_thickness_spec() >= Shape::Cuboid(c).ccd_thickness_spec(),
{
}

/// The angular thickness of every shape lies in `[0, π]`.
pub proof fn lemma_angular_thickness_range(s: Shape)
    ensures
        s.angular_thickness_spec() <= 4,
{
    if let Shape::Compound(c) = s {
        lemma_max_child_angular_range(c.shapes@);
    }
}

proof fn lemma_max_child_angular_range(sh: Seq<(Isometry, SharedShape)>)
    ensures
        max_child_angular(sh) <= 4,
    decreases sh.len(),
{
    if sh.len() > 0 {
        lemma_max_child_angular_range(sh.drop_last());
    }
}

} // verus!
