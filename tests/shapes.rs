use shape_core::bounding_volume::{ceil_sqrt, Aabb, BoundingSphere};
use shape_core::composites::{HeightField, Polyline, Voxels};
use shape_core::math::{Isometry, Vector};
use shape_core::primitives::{
    Ball, Capsule, ConvexPolygon, Cuboid, FeatureId, HalfSpace, RoundCuboid, RoundTriangle,
    Segment, Triangle,
};
use shape_core::shape::{DeserializableTypedShape, Shape, TypedShape, MAX_THICKNESS};
use shape_core::shape_type::ShapeType;

fn aabb(x0: i64, y0: i64, x1: i64, y1: i64) -> Aabb {
    Aabb::new(Vector::new(x0, y0), Vector::new(x1, y1))
}

fn square() -> ConvexPolygon {
    ConvexPolygon::from_convex_polyline(vec![
        Vector::new(0, 0),
        Vector::new(2, 0),
        Vector::new(2, 2),
        Vector::new(0, 2),
    ])
    .unwrap()
}

fn samples() -> Vec<Shape> {
    vec![
        Shape::Ball(Ball::new(2)),
        Shape::Cuboid(Cuboid::new(Vector::new(3, 1))),
        Shape::Capsule(Capsule::new(Vector::new(0, -2), Vector::new(0, 2), 1)),
        Shape::Segment(Segment::new(Vector::new(1, 1), Vector::new(4, -2))),
        Shape::Triangle(Triangle::new(Vector::new(0, 0), Vector::new(4, 0), Vector::new(0, 3))),
        Shape::Voxels(Voxels::new(Vector::new(2, 3), vec![Vector::new(0, 0), Vector::new(4, 3)])),
        Shape::Polyline(
            Polyline::new(vec![Vector::new(0, 0), Vector::new(5, 1)], vec![[0, 1]]).unwrap(),
        ),
        Shape::HalfSpace(HalfSpace::new(Vector::new(0, 1))),
        Shape::HeightField(HeightField::new(vec![1, -2, 4], 3)),
        Shape::ConvexPolygon(square()),
        Shape::RoundCuboid(RoundCuboid::new(Cuboid::new(Vector::new(3, 5)), 2)),
        Shape::RoundTriangle(RoundTriangle::new(
            Triangle::new(Vector::new(0, 0), Vector::new(4, 0), Vector::new(0, 3)),
            1,
        )),
    ]
}

#[test]
fn ball_mass_free_bounds() {
    let b = Shape::Ball(Ball::new(2));
    assert_eq!(b.compute_local_aabb(), aabb(-2, -2, 2, 2));
    let s = b.compute_local_bounding_sphere();
    assert_eq!(s, BoundingSphere::new(Vector::new(0, 0), 2));
}

#[test]
fn aabb_within_transformed_local_aabb() {
    let moves = [
        Isometry::identity(),
        Isometry::new(Vector::new(5, -7), 1),
        Isometry::new(Vector::new(-3, 2), 2),
        Isometry::new(Vector::new(0, 9), 3),
    ];
    for s in samples() {
        for m in moves.iter() {
            let placed = s.compute_aabb(m);
            let carried = s.compute_local_aabb().transform_by(m);
            assert!(carried.mins.x <= placed.mins.x && placed.maxs.x <= carried.maxs.x);
            assert!(carried.mins.y <= placed.mins.y && placed.maxs.y <= carried.maxs.y);
        }
    }
}

#[test]
fn swept_aabb_holds_both_ends() {
    let p = Isometry::translation(-10, 0);
    let q = Isometry::new(Vector::new(10, 4), 1);
    for s in samples() {
        let swept = s.compute_swept_aabb(&p, &q);
        for end in [s.compute_aabb(&p), s.compute_aabb(&q)] {
            assert!(swept.mins.x <= end.mins.x && end.maxs.x <= swept.maxs.x);
            assert!(swept.mins.y <= end.mins.y && end.maxs.y <= swept.maxs.y);
        }
    }
    let b = Shape::Ball(Ball::new(1));
    assert_eq!(b.compute_swept_aabb(&p, &q), aabb(-11, -1, 11, 5));
}

#[test]
fn rounded_box_is_inner_box_loosened() {
    let inner = Cuboid::new(Vector::new(3, 5));
    let round = Shape::RoundCuboid(RoundCuboid::new(inner, 2));
    let inner_box = Shape::Cuboid(inner).compute_local_aabb();
    assert_eq!(round.compute_local_aabb(), inner_box.loosened(2));
    assert_eq!(round.compute_local_aabb(), aabb(-5, -7, 5, 7));
    assert_eq!(round.is_convex(), Shape::Cuboid(inner).is_convex());
    assert_eq!(
        round.ccd_angular_thickness(),
        Shape::Cuboid(inner).ccd_angular_thickness()
    );
    let m = Isometry::new(Vector::new(1, 1), 1);
    assert_eq!(round.compute_aabb(&m), aabb(-6, -4, 8, 6));
}

#[test]
fn rounded_cuboid_thickness() {
    let round = Shape::RoundCuboid(RoundCuboid::new(Cuboid::new(Vector::new(3, 5)), 2));
    assert_eq!(round.ccd_thickness(), 5);
}

#[test]
fn typed_view_and_kind_agree() {
    for s in samples() {
        let k = s.shape_type();
        let typed_kind = match s.as_typed_shape() {
            TypedShape::Ball(_) => ShapeType::Ball,
            TypedShape::Cuboid(_) => ShapeType::Cuboid,
            TypedShape::Capsule(_) => ShapeType::Capsule,
            TypedShape::Segment(_) => ShapeType::Segment,
            TypedShape::Triangle(_) => ShapeType::Triangle,
            TypedShape::Voxels(_) => ShapeType::Voxels,
            TypedShape::TriMesh(_) => ShapeType::TriMesh,
            TypedShape::Polyline(_) => ShapeType::Polyline,
            TypedShape::HalfSpace(_) => ShapeType::HalfSpace,
            TypedShape::HeightField(_) => ShapeType::HeightField,
            TypedShape::Compound(_) => ShapeType::Compound,
            TypedShape::ConvexPolygon(_) => ShapeType::ConvexPolygon,
            TypedShape::RoundCuboid(_) => ShapeType::RoundCuboid,
            TypedShape::RoundTriangle(_) => ShapeType::RoundTriangle,
            TypedShape::RoundConvexPolygon(_) => ShapeType::RoundConvexPolygon,
        };
        assert_eq!(k, typed_kind);
    }
}

#[test]
fn clone_keeps_kind_and_bounds() {
    let m = Isometry::new(Vector::new(2, 3), 3);
    for s in samples() {
        let c = s.clone_dyn();
        assert_eq!(c.shape_type(), s.shape_type());
        assert_eq!(c.compute_local_aabb(), s.compute_local_aabb());
        assert_eq!(c.compute_aabb(&m), s.compute_aabb(&m));
        assert_eq!(c.ccd_thickness(), s.ccd_thickness());
        assert_eq!(c.compute_local_bounding_sphere(), s.compute_local_bounding_sphere());
    }
}

#[test]
fn downcasts_match_kind() {
    for s in samples() {
        let k = s.shape_type();
        assert_eq!(s.as_ball().is_some(), k == ShapeType::Ball);
        assert_eq!(s.as_cuboid().is_some(), k == ShapeType::Cuboid);
        assert_eq!(s.as_capsule().is_some(), k == ShapeType::Capsule);
        assert_eq!(s.as_segment().is_some(), k == ShapeType::Segment);
        assert_eq!(s.as_triangle().is_some(), k == ShapeType::Triangle);
        assert_eq!(s.as_voxels().is_some(), k == ShapeType::Voxels);
        assert_eq!(s.as_trimesh().is_some(), k == ShapeType::TriMesh);
        assert_eq!(s.as_polyline().is_some(), k == ShapeType::Polyline);
        assert_eq!(s.as_halfspace().is_some(), k == ShapeType::HalfSpace);
        assert_eq!(s.as_heightfield().is_some(), k == ShapeType::HeightField);
        assert_eq!(s.as_compound().is_some(), k == ShapeType::Compound);
        assert_eq!(s.as_convex_polygon().is_some(), k == ShapeType::ConvexPolygon);
        assert_eq!(s.as_round_cuboid().is_some(), k == ShapeType::RoundCuboid);
        assert_eq!(s.as_round_triangle().is_some(), k == ShapeType::RoundTriangle);
        assert_eq!(
            s.as_round_convex_polygon().is_some(),
            k == ShapeType::RoundConvexPolygon
        );
    }
}

#[test]
fn convex_shapes_have_support_maps() {
    for s in samples() {
        if s.is_convex() && s.shape_type() != ShapeType::HalfSpace {
            assert!(s.as_support_map().is_some());
        }
    }
    assert!(Shape::HalfSpace(HalfSpace::new(Vector::new(1, 0))).is_convex());
    assert!(Shape::HalfSpace(HalfSpace::new(Vector::new(1, 0))).as_support_map().is_none());
}

#[test]
fn ball_normal_at_origin_is_none() {
    let b = Shape::Ball(Ball::new(3));
    assert!(b.feature_normal_at_point(FeatureId::Unknown, &Vector::new(0, 0)).is_none());
    assert_eq!(
        b.feature_normal_at_point(FeatureId::Unknown, &Vector::new(3, 4)),
        Some(Vector::new(3, 4))
    );
}

#[test]
fn feature_normals_of_polytopes() {
    let c = Shape::Cuboid(Cuboid::new(Vector::new(1, 2)));
    assert_eq!(c.feature_normal_at_point(FeatureId::Face(3), &Vector::new(0, -2)), Some(Vector::new(0, -1)));
    assert_eq!(c.feature_normal_at_point(FeatureId::Vertex(1), &Vector::new(-1, 2)), Some(Vector::new(-1, 1)));
    let g = Shape::Segment(Segment::new(Vector::new(0, 0), Vector::new(2, 0)));
    assert_eq!(g.feature_normal_at_point(FeatureId::Face(0), &Vector::new(1, 0)), Some(Vector::new(0, -2)));
    let p = Shape::ConvexPolygon(square());
    assert_eq!(p.feature_normal_at_point(FeatureId::Face(0), &Vector::new(1, 0)), Some(Vector::new(0, -2)));
    let t = Shape::Triangle(Triangle::new(Vector::new(0, 0), Vector::new(4, 0), Vector::new(0, 3)));
    assert!(t.feature_normal_at_point(FeatureId::Face(0), &Vector::new(1, 0)).is_none());
}

#[test]
fn half_space_is_thicker_than_cuboids() {
    let h = Shape::HalfSpace(HalfSpace::new(Vector::new(0, 1)));
    assert_eq!(h.ccd_thickness(), MAX_THICKNESS);
    assert_eq!(h.ccd_angular_thickness().quarter_pis, 4);
    let c = Shape::Cuboid(Cuboid::new(Vector::new(268_435_456, 268_435_456)));
    assert!(h.ccd_thickness() >= c.ccd_thickness());
}

#[test]
fn primitive_thicknesses() {
    let b = Shape::Ball(Ball::new(7));
    assert_eq!(b.ccd_thickness(), 7);
    assert_eq!(b.ccd_angular_thickness().quarter_pis, 4);
    assert!(b.is_convex());
    let c = Shape::Cuboid(Cuboid::new(Vector::new(4, 3)));
    assert_eq!(c.ccd_thickness(), 3);
    assert_eq!(c.ccd_angular_thickness().quarter_pis, 2);
    let t = Shape::Triangle(Triangle::new(Vector::new(0, 0), Vector::new(4, 0), Vector::new(0, 3)));
    assert_eq!(t.ccd_thickness(), 0);
    let p = Shape::ConvexPolygon(square());
    assert_eq!(p.ccd_thickness(), 1);
    assert_eq!(p.ccd_angular_thickness().quarter_pis, 1);
    let v = Shape::Voxels(Voxels::new(Vector::new(2, 3), vec![Vector::new(0, 0)]));
    assert_eq!(v.ccd_thickness(), 2);
}

#[test]
fn scale_ball_uniform_and_uneven() {
    let b = Shape::Ball(Ball::new(1));
    let s = b.scale_dyn(&Vector::new(2, 2), 10).unwrap();
    assert_eq!(s.shape_type(), ShapeType::Ball);
    assert_eq!(s.as_ball().unwrap().radius, 2);
    let u = b.scale_dyn(&Vector::new(2, 1), 10).unwrap();
    assert_eq!(u.shape_type(), ShapeType::ConvexPolygon);
    assert_eq!(u.compute_local_aabb(), aabb(-2, -1, 2, 1));
    assert_eq!(
        *u.as_convex_polygon().unwrap().points(),
        vec![Vector::new(2, 0), Vector::new(0, 1), Vector::new(-2, 0), Vector::new(0, -1)]
    );
    let big = Shape::Ball(Ball::new(10)).scale_dyn(&Vector::new(-2, 1), 20).unwrap();
    assert_eq!(big.shape_type(), ShapeType::ConvexPolygon);
    assert_eq!(big.compute_local_aabb(), aabb(-20, -10, 20, 10));
    assert!(Shape::Ball(Ball::new(0)).scale_dyn(&Vector::new(2, 1), 20).is_none());
    assert!(Shape::Ball(Ball::new(1)).scale_dyn(&Vector::new(0, 1), 20).is_none());
}

#[test]
fn scale_other_shapes() {
    let c = Shape::Cuboid(Cuboid::new(Vector::new(1, 2)));
    assert_eq!(c.scale_dyn(&Vector::new(-3, 2), 0).unwrap().compute_local_aabb(), aabb(-3, -4, 3, 4));
    let p = Shape::ConvexPolygon(square());
    let mirrored = p.scale_dyn(&Vector::new(-1, 1), 0).unwrap();
    assert_eq!(mirrored.compute_local_aabb(), aabb(-2, 0, 0, 2));
    assert!(p.scale_dyn(&Vector::new(0, 1), 0).is_none());
    let h = Shape::HalfSpace(HalfSpace::new(Vector::new(1, 1)));
    let hs = h.scale_dyn(&Vector::new(2, 1), 0).unwrap();
    assert_eq!(hs.as_halfspace().unwrap().normal, Vector::new(1, 2));
    let cap = Shape::Capsule(Capsule::new(Vector::new(0, 0), Vector::new(0, 1), 1));
    let poly = cap.scale_dyn(&Vector::new(2, 1), 0).unwrap();
    assert_eq!(poly.shape_type(), ShapeType::ConvexPolygon);
    assert_eq!(poly.as_convex_polygon().unwrap().points().len(), 6);
    assert_eq!(poly.compute_local_aabb(), aabb(-2, -1, 2, 2));
    let even = cap.scale_dyn(&Vector::new(-2, 2), 0).unwrap();
    assert_eq!(even.as_capsule().unwrap().radius, 2);
    assert_eq!(even.as_capsule().unwrap().segment.b, Vector::new(0, 2));
    let big = Shape::Ball(Ball::new(268_435_456));
    assert!(big.scale_dyn(&Vector::new(2, 2), 0).is_none());
}

#[test]
fn shape_type_tags_are_stable() {
    assert_eq!(ShapeType::Ball.tag(), 0);
    assert_eq!(ShapeType::Compound.tag(), 10);
    assert_eq!(ShapeType::Custom.tag(), 15);
    for t in 0..16u32 {
        assert_eq!(ShapeType::from_u32(t).unwrap().tag(), t);
    }
    assert!(ShapeType::from_u32(16).is_none());
    assert!(ShapeType::TriMesh.is_composite());
    assert!(!ShapeType::Ball.is_composite());
}

#[test]
fn deserialized_custom_has_no_shape() {
    assert!(DeserializableTypedShape::Custom.into_shared_shape().is_none());
    let s = DeserializableTypedShape::Cuboid(Cuboid::new(Vector::new(1, 1)))
        .into_shared_shape()
        .unwrap();
    assert_eq!(s.shape().shape_type(), ShapeType::Cuboid);
}

#[test]
fn convex_polygon_rejects_clockwise_and_flat() {
    assert!(ConvexPolygon::from_convex_polyline(vec![
        Vector::new(0, 0),
        Vector::new(0, 2),
        Vector::new(2, 2),
    ])
    .is_none());
    assert!(ConvexPolygon::from_convex_polyline(vec![
        Vector::new(0, 0),
        Vector::new(1, 0),
        Vector::new(2, 0),
    ])
    .is_none());
    assert!(ConvexPolygon::from_convex_polyline(vec![Vector::new(0, 0), Vector::new(1, 0)]).is_none());
}

#[test]
fn meshes_reject_bad_indices() {
    assert!(Polyline::new(vec![Vector::new(0, 0), Vector::new(1, 0)], vec![[0, 2]]).is_none());
    assert!(Polyline::new(Vec::new(), Vec::new()).is_none());
}

#[test]
fn composite_views() {
    for s in samples() {
        assert_eq!(s.as_composite_shape().is_some(), s.shape_type().is_composite());
    }
    let cap = Shape::Capsule(Capsule::new(Vector::new(0, 0), Vector::new(0, 1), 3));
    let (_, r) = cap.as_polygonal_feature_map().unwrap();
    assert_eq!(r, 3);
    assert!(Shape::Ball(Ball::new(1)).as_polygonal_feature_map().is_none());
}

#[test]
fn box_operations() {
    let mut a = Aabb::new_invalid();
    a.merge(&aabb(0, 0, 1, 1));
    assert_eq!(a, aabb(0, 0, 1, 1));
    a.merge(&aabb(-3, 2, 0, 5));
    assert_eq!(a, aabb(-3, 0, 1, 5));
    let q = aabb(1, 2, 3, 5);
    assert_eq!(q.transform_by(&Isometry::new(Vector::new(0, 0), 1)), aabb(-5, 1, -2, 3));
    assert_eq!(q.transform_by(&Isometry::new(Vector::new(0, 0), 2)), aabb(-3, -5, -1, -2));
    assert_eq!(q.transform_by(&Isometry::new(Vector::new(1, 1), 3)), aabb(3, -2, 6, 0));
    assert_eq!(q.half_extents(), Vector::new(1, 1));
}

#[test]
fn ceil_sqrt_values() {
    assert_eq!(ceil_sqrt(0), 0);
    assert_eq!(ceil_sqrt(1), 1);
    assert_eq!(ceil_sqrt(2), 2);
    assert_eq!(ceil_sqrt(16), 4);
    assert_eq!(ceil_sqrt(17), 5);
}

#[test]
fn heightfield_and_voxel_boxes() {
    let h = Shape::HeightField(HeightField::new(vec![1, -2, 4], 3));
    assert_eq!(h.compute_local_aabb(), aabb(0, -2, 6, 4));
    let v = Shape::Voxels(Voxels::new(Vector::new(2, 3), vec![Vector::new(0, 0), Vector::new(4, 3)]));
    assert_eq!(v.compute_local_aabb(), aabb(0, 0, 6, 6));
}

#[test]
fn support_points_of_polytopes() {
    let c = Shape::Cuboid(Cuboid::new(Vector::new(3, 1)));
    let (m, _) = c.as_polygonal_feature_map().unwrap();
    assert_eq!(m.support_point(&Vector::new(1, -1)), Vector::new(3, -1));
    assert_eq!(m.support_point(&Vector::new(-2, 5)), Vector::new(-3, 1));
    let t = Shape::Triangle(Triangle::new(Vector::new(0, 0), Vector::new(4, 0), Vector::new(0, 3)));
    let (m, _) = t.as_polygonal_feature_map().unwrap();
    assert_eq!(m.support_point(&Vector::new(0, 1)), Vector::new(0, 3));
    assert_eq!(m.support_point(&Vector::new(1, 0)), Vector::new(4, 0));
    let p = Shape::ConvexPolygon(square());
    let (m, _) = p.as_polygonal_feature_map().unwrap();
    assert_eq!(m.support_point(&Vector::new(1, 1)), Vector::new(2, 2));
    let cap = Shape::Capsule(Capsule::new(Vector::new(0, -2), Vector::new(0, 2), 1));
    let (m, r) = cap.as_polygonal_feature_map().unwrap();
    assert_eq!(r, 1);
    assert_eq!(m.support_point(&Vector::new(0, -1)), Vector::new(0, -2));
}

#[test]
fn rounded_sphere_is_inner_sphere_loosened() {
    let inner = Cuboid::new(Vector::new(3, 4));
    let round = Shape::RoundCuboid(RoundCuboid::new(inner, 2));
    let s = round.compute_local_bounding_sphere();
    assert_eq!(s, BoundingSphere::new(Vector::new(0, 0), 7));
    let placed = round.compute_bounding_sphere(&Isometry::new(Vector::new(1, 2), 1));
    assert_eq!(placed, BoundingSphere::new(Vector::new(1, 2), 7));
}

#[test]
fn heightfield_scaling() {
    let h = Shape::HeightField(HeightField::new(vec![1, -2, 4], 3));
    assert!(h.scale_dyn(&Vector::new(0, 1), 0).is_none());
    assert!(h.scale_dyn(&Vector::new(-1, 1), 0).is_none());
    let s = h.scale_dyn(&Vector::new(2, -1), 0).unwrap();
    let hf = s.as_heightfield().unwrap();
    assert_eq!(hf.step, 6);
    assert_eq!(hf.heights, vec![-1, 2, -4]);
    assert!(h.scale_dyn(&Vector::new(100_000_000, 1), 0).is_none());
}

#[test]
fn clone_copies_data() {
    let p = Shape::ConvexPolygon(square());
    let c = p.clone_dyn();
    assert_eq!(c.as_convex_polygon().unwrap().points(), p.as_convex_polygon().unwrap().points());
}
