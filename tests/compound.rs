use shape_core::bounding_volume::Aabb;
use shape_core::composites::TriMesh;
use shape_core::compound::{Compound, CompoundError};
use shape_core::math::{Isometry, Vector};
use shape_core::primitives::{Ball, Cuboid, Triangle};
use shape_core::shape::{Shape, SharedShape};
use shape_core::shape_type::ShapeType;

fn aabb(x0: i64, y0: i64, x1: i64, y1: i64) -> Aabb {
    Aabb::new(Vector::new(x0, y0), Vector::new(x1, y1))
}

fn ball_and_cuboid() -> Vec<(Isometry, SharedShape)> {
    vec![
        (Isometry::identity(), SharedShape::new(Shape::Ball(Ball::new(1)))),
        (
            Isometry::translation(3, 0),
            SharedShape::new(Shape::Cuboid(Cuboid::new(Vector::new(1, 1)))),
        ),
    ]
}

#[test]
fn compound_of_ball_and_cuboid() {
    let c = Compound::new(ball_and_cuboid()).unwrap();
    assert_eq!(c.shapes().len(), 2);
    assert_eq!(c.aabbs()[0], aabb(-1, -1, 1, 1));
    assert_eq!(c.aabbs()[1], aabb(2, -1, 4, 1));
    assert_eq!(*c.local_aabb(), aabb(-1, -1, 4, 1));
}

#[test]
fn compound_bvh_leaves_cover_children() {
    let c = Compound::new(ball_and_cuboid()).unwrap();
    let leaves = c.bvh().leaves();
    assert_eq!(leaves.len(), 2);
    assert_eq!(leaves[0], (0, aabb(-1, -1, 1, 1)));
    assert_eq!(leaves[1], (1, aabb(2, -1, 4, 1)));
    assert_eq!(c.bvh().root_aabb(), aabb(-1, -1, 4, 1));
}

#[test]
fn compound_rejects_nested_compound() {
    let inner = Compound::new(ball_and_cuboid()).unwrap();
    let mut children = ball_and_cuboid();
    children.push((Isometry::identity(), SharedShape::new(Shape::Compound(inner))));
    assert_eq!(Compound::new(children).unwrap_err(), CompoundError::NestedComposite);
}

#[test]
fn compound_rejects_trimesh_child() {
    let mesh = TriMesh::new(
        vec![Vector::new(0, 0), Vector::new(1, 0), Vector::new(0, 1)],
        vec![[0, 1, 2]],
    )
    .unwrap();
    let children = vec![(Isometry::identity(), SharedShape::new(Shape::TriMesh(mesh)))];
    assert_eq!(Compound::new(children).unwrap_err(), CompoundError::NestedComposite);
}

#[test]
fn compound_rejects_empty() {
    assert_eq!(Compound::new(Vec::new()).unwrap_err(), CompoundError::EmptyCompound);
}

#[test]
fn compound_thickness_is_min_and_angular_is_max() {
    let c = Compound::new(ball_and_cuboid()).unwrap();
    let s = Shape::Compound(c);
    // The ball has thickness 1 and angular thickness pi, the cuboid 1 and pi/2.
    assert_eq!(s.ccd_thickness(), 1);
    assert_eq!(s.ccd_angular_thickness().quarter_pis, 4);
    let big = Compound::new(vec![
        (Isometry::identity(), SharedShape::new(Shape::Ball(Ball::new(5)))),
        (
            Isometry::identity(),
            SharedShape::new(Shape::Cuboid(Cuboid::new(Vector::new(2, 7)))),
        ),
    ])
    .unwrap();
    assert_eq!(Shape::Compound(big).ccd_thickness(), 2);
}

#[test]
fn compound_with_rotated_child() {
    let children = vec![(
        Isometry::new(Vector::new(10, 0), 1),
        SharedShape::new(Shape::Cuboid(Cuboid::new(Vector::new(3, 1)))),
    )];
    let c = Compound::new(children).unwrap();
    assert_eq!(*c.local_aabb(), aabb(9, -3, 11, 3));
    let sphere = c.local_bounding_sphere();
    assert_eq!(sphere.center, Vector::new(10, 0));
    // The farthest corner is at distance sqrt(1 + 9) from the center.
    assert_eq!(sphere.radius, 4);
}

#[test]
fn compound_part_at() {
    let c = Compound::new(ball_and_cuboid()).unwrap();
    let (m, s) = c.part_at(1).unwrap();
    assert_eq!(m.translation, Vector::new(3, 0));
    assert_eq!(s.shape().shape_type(), ShapeType::Cuboid);
    assert!(c.part_at(2).is_none());
}

#[test]
fn decompose_square_of_two_triangles() {
    let mesh = TriMesh::new(
        vec![Vector::new(0, 0), Vector::new(2, 0), Vector::new(2, 2), Vector::new(0, 2)],
        vec![[0, 1, 2], [0, 2, 3]],
    )
    .unwrap();
    let c = Compound::decompose_trimesh(&mesh).unwrap();
    // The two triangles share the diagonal and their union is convex: one part.
    assert_eq!(c.shapes().len(), 1);
    let (m, s) = &c.shapes()[0];
    assert_eq!(*m, Isometry::identity());
    assert_eq!(s.shape().shape_type(), ShapeType::ConvexPolygon);
    assert_eq!(s.shape().as_convex_polygon().unwrap().points().len(), 4);
    assert_eq!(*c.local_aabb(), aabb(0, 0, 2, 2));
}

#[test]
fn decompose_keeps_reflex_corner() {
    // An L-shaped region: merging everything would not be convex.
    let mesh = TriMesh::new(
        vec![
            Vector::new(0, 0),
            Vector::new(2, 0),
            Vector::new(2, 1),
            Vector::new(1, 1),
            Vector::new(1, 2),
            Vector::new(0, 2),
        ],
        vec![[0, 1, 2], [0, 2, 3], [0, 3, 4], [0, 4, 5]],
    )
    .unwrap();
    let c = Compound::decompose_trimesh(&mesh).unwrap();
    assert_eq!(c.shapes().len(), 2);
    for (m, s) in c.shapes() {
        assert_eq!(*m, Isometry::identity());
        let k = s.shape().shape_type();
        assert!(k == ShapeType::ConvexPolygon || k == ShapeType::Triangle);
    }
    assert_eq!(*c.local_aabb(), aabb(0, 0, 2, 2));
}

#[test]
fn decompose_orients_triangles_counter_clockwise() {
    let mesh = TriMesh::new(
        vec![Vector::new(0, 0), Vector::new(0, 2), Vector::new(2, 0)],
        vec![[0, 1, 2]],
    )
    .unwrap();
    let c = Compound::decompose_trimesh(&mesh).unwrap();
    let t = c.shapes()[0].1.shape().as_triangle().unwrap();
    assert_eq!(
        *t,
        Triangle::new(Vector::new(0, 0), Vector::new(2, 0), Vector::new(0, 2))
    );
}

#[test]
fn decompose_flat_triangle_fails() {
    let mesh = TriMesh::new(
        vec![Vector::new(0, 0), Vector::new(1, 1), Vector::new(2, 2)],
        vec![[0, 1, 2]],
    )
    .unwrap();
    assert_eq!(
        Compound::decompose_trimesh(&mesh).unwrap_err(),
        CompoundError::DegenerateDecomposition
    );
}

#[test]
fn compound_scaling_fails_when_a_placement_leaves_range() {
    let c = Compound::new(ball_and_cuboid()).unwrap();
    assert!(Shape::Compound(c).scale_dyn(&Vector::new(100_000_000, 1), 0).is_none());
}

#[test]
fn compound_scaling_unevenly_turns_ball_into_polygon() {
    let c = Compound::new(ball_and_cuboid()).unwrap();
    let s = Shape::Compound(c).scale_dyn(&Vector::new(2, 1), 8).unwrap();
    let d = s.as_compound().unwrap();
    assert_eq!(d.shapes()[0].1.shape().shape_type(), ShapeType::ConvexPolygon);
    assert_eq!(d.shapes()[1].0.translation, Vector::new(6, 0));
    assert_eq!(d.aabbs()[1], aabb(4, -1, 8, 1));
}

#[test]
fn mesh_without_triangles_is_refused() {
    assert!(TriMesh::new(vec![Vector::new(0, 0)], Vec::new()).is_none());
}

#[test]
fn mesh_bvh_covers_triangles() {
    let mesh = TriMesh::new(
        vec![Vector::new(0, 0), Vector::new(2, 0), Vector::new(2, 2), Vector::new(0, 2)],
        vec![[0, 1, 2], [0, 2, 3]],
    )
    .unwrap();
    let s = Shape::TriMesh(mesh);
    let bvh = s.as_composite_shape().unwrap().bvh().unwrap();
    assert_eq!(bvh.leaves().len(), 2);
    assert_eq!(bvh.leaves()[1], (1, aabb(0, 0, 2, 2)));
    assert_eq!(bvh.root_aabb(), aabb(0, 0, 2, 2));
}

#[test]
fn compound_scaled_moves_translations() {
    let c = Compound::new(ball_and_cuboid()).unwrap();
    let s = Shape::Compound(c).scale_dyn(&Vector::new(2, 2), 10).unwrap();
    let c2 = s.as_compound().unwrap();
    assert_eq!(c2.shapes()[1].0.translation, Vector::new(6, 0));
    assert_eq!(c2.aabbs()[0], aabb(-2, -2, 2, 2));
    assert_eq!(c2.aabbs()[1], aabb(4, -2, 8, 2));
}
