//! The union of transformed shapes under a static hierarchy of boxes.
use vstd::prelude::*;
use crate::bounding_volume::{
    lemma_union_contains, lemma_union_eq, lemma_union_within, union_of, Aabb, BoundingSphere,
};
use crate::composites::TriMesh;
use crate::math::{Isometry, Point};
use crate::composites::copy_vec;
use crate::decomposition::{
    convex_partition, is_partition, is_partition_by, part_ok, tri_has, part_points, parts_ok, poly_points, views,
};
use crate::primitives::{
    all_wf, lemma_points_aabb, point_box, point_boxes, points_aabb, turn, turn_exec, ConvexPolygon,
    Triangle,
};
use crate::shape::{lemma_local_bounds, Shape, SharedShape, MAX_THICKNESS};

verus! {

/// A node of a bounding-volume hierarchy: it covers the leaves
/// `start..end`, and when it covers more than one, its children are the
/// nodes `left` and `right`.
#[derive(Clone, Copy, Debug, PartialEq, Eq, Structural)]
pub struct BvhNode {
    pub aabb: Aabb,
    pub start: usize,
    pub end: usize,
    pub left: usize,
    pub right: usize,
}

/// A static bounding-volume hierarchy over indexed boxes. The leaves keep the
/// order they were given in; node `0` is the root.
#[derive(Clone, Debug)]
pub struct Bvh {
    pub leaves: Vec<(u32, Aabb)>,
    pub nodes: Vec<BvhNode>,
}

/// The leaves `(i, boxes[i])` in order.
pub open spec fn indexed_leaves(boxes: Seq<Aabb>) -> Seq<(u32, Aabb)> {
    Seq::new(boxes.len(), |i: int| (i as u32, boxes[i]))
}

/// The boxes of a sequence of leaves.
pub open spec fn leaf_boxes(leaves: Seq<(u32, Aabb)>) -> Seq<Aabb> {
    Seq::new(leaves.len(), |i: int| leaves[i].1)
}

/// Node `k` of `nodes` covers a non-empty run of `leaves`, its box is their
/// union, and a node with several leaves has two later nodes as children that
/// split its run in two.
pub open spec fn node_ok_in(nodes: Seq<BvhNode>, leaves: Seq<(u32, Aabb)>, k: int) -> bool {
    let nd = nodes[k];
    &&& nd.start < nd.end <= leaves.len()
    &&& nd.aabb == union_of(leaf_boxes(leaves).subrange(nd.start as int, nd.end as int))
    &&& nd.end - nd.start > 1 ==> {
        &&& k < nd.left < nodes.len()
        &&& k < nd.right < nodes.len()
        &&& nodes[nd.left as int].start == nd.start
        &&& nodes[nd.left as int].end == nodes[nd.right as int].start
        &&& nodes[nd.right as int].end == nd.end
    }
}

impl Bvh {
    /// A hierarchy over exactly the leaves `(i, boxes[i])`.
    pub open spec fn wf_for(self, boxes: Seq<Aabb>) -> bool {
        &&& self.leaves@ == indexed_leaves(boxes)
        &&& self.nodes@.len() > 0
        &&& self.nodes@[0].start == 0
        &&& self.nodes@[0].end == boxes.len()
        &&& forall|k: int|
            0 <= k < self.nodes@.len() ==> #[trigger] node_ok_in(self.nodes@, self.leaves@, k)
    }

    /// The hierarchy over the leaves `(i, boxes[i])`, built top-down by halving
    /// runs of leaves in their given order.
    pub fn from_boxes(boxes: &Vec<Aabb>) -> (r: Bvh)
        requires
            0 < boxes@.len() <= u32::MAX,
        ensures
            r.wf_for(boxes@),
    {
        let mut leaves: Vec<(u32, Aabb)> = Vec::new();
        let mut i: usize = 0;
        while i < boxes.len()
            invariant
                0 <= i <= boxes@.len() <= u32::MAX,
                leaves@ == indexed_leaves(boxes@).subrange(0, i as int),
            decreases boxes@.len() - i,
        {
            leaves.push((i as u32, boxes[i]));
            i = i + 1;
            assert(leaves@ =~= indexed_leaves(boxes@).subrange(0, i as int));
        }
        assert(leaves@ =~= indexed_leaves(boxes@));
        let mut nodes: Vec<BvhNode> = Vec::new();
        build_nodes(&leaves, 0, leaves.len(), &mut nodes);
        Bvh { leaves, nodes }
    }

    /// A copy of the hierarchy.
    pub fn copy(&self) -> (r: Bvh)
        ensures
            r.leaves@ == self.leaves@,
            r.nodes@ == self.nodes@,
    {
        Bvh { leaves: copy_vec(&self.leaves), nodes: copy_vec(&self.nodes) }
    }

    /// The leaves, in order.
    pub fn leaves(&self) -> (r: &[(u32, Aabb)])
        ensures
            r@ == self.leaves@,
    {
        self.leaves.as_slice()
    }

    /// The box of the root node, which holds every leaf.
    pub fn root_aabb(&self) -> (r: Aabb)
        requires
            self.nodes@.len() > 0,
        ensures
            r == self.nodes@[0].aabb,
    {
        self.nodes[0].aabb
    }
}

/// The union of the boxes of `leaves[start..end]`.
fn range_union(leaves: &Vec<(u32, Aabb)>, start: usize, end: usize) -> (r: Aabb)
    requires
        start < end <= leaves@.len(),
    ensures
        r == union_of(leaf_boxes(leaves@).subrange(start as int, end as int)),
{
    let ghost lb = leaf_boxes(leaves@);
    let mut r = Aabb::new_invalid();
    let mut j: usize = start;
    assert(lb.subrange(start as int, start as int) =~= Seq::<Aabb>::empty());
    while j < end
        invariant
            start <= j <= end <= leaves@.len(),
            lb == leaf_boxes(leaves@),
            r == union_of(lb.subrange(start as int, j as int)),
        decreases end - j,
    {
        assert(lb.subrange(start as int, j as int + 1).drop_last() =~= lb.subrange(start as int, j as int));
        r.merge(&leaves[j].1);
        j = j + 1;
    }
    r
}

/// Appends the nodes of the hierarchy over `leaves[start..end]`, its root first.
fn build_nodes(leaves: &Vec<(u32, Aabb)>, start: usize, end: usize, nodes: &mut Vec<BvhNode>)
    requires
        start < end <= leaves@.len(),
    ensures
        final(nodes)@.len() > old(nodes)@.len(),
        final(nodes)@.subrange(0, old(nodes)@.len() as int) == old(nodes)@,
        final(nodes)@[old(nodes)@.len() as int].start == start,
        final(nodes)@[old(nodes)@.len() as int].end == end,
        forall|k: int|
            old(nodes)@.len() <= k < final(nodes)@.len() ==> #[trigger] node_ok_in(
                final(nodes)@,
                leaves@,
                k,
            ),
    decreases end - start,
{
    let idx = nodes.len();
    let aabb = range_union(leaves, start, end);
    nodes.push(BvhNode { aabb, start, end, left: 0, right: 0 });
    if end - start > 1 {
        let mid = start + (end - start) / 2;
        let ghost n1 = nodes@;
        let left = nodes.len();
        build_nodes(leaves, start, mid, nodes);
        let ghost n2 = nodes@;
        let right = nodes.len();
        build_nodes(leaves, mid, end, nodes);
        let ghost n3 = nodes@;
        proof {
            assert(n2.subrange(0, n1.len() as int) == n1);
            assert(n3.subrange(0, n2.len() as int) == n2);
            assert(n2[idx as int] == n1[idx as int]);
            assert(n3[left as int] == n2[left as int]);
            assert forall|k: int| left <= k < n2.len() implies #[trigger] node_ok_in(n3, leaves@, k) by {
                assert(node_ok_in(n2, leaves@, k));
                assert(n3[k] == n2[k]);
                let nd = n2[k];
                if nd.end - nd.start > 1 {
                    assert(n3[nd.left as int] == n2[nd.left as int]);
                    assert(n3[nd.right as int] == n2[nd.right as int]);
                }
            }
        }
        nodes.set(idx, BvhNode { aabb, start, end, left, right });
        proof {
            let n4 = nodes@;
            assert forall|k: int| idx < k < n4.len() implies #[trigger] node_ok_in(n4, leaves@, k) by {
                assert(node_ok_in(n3, leaves@, k));
                assert(n4[k] == n3[k]);
                let nd = n3[k];
                if nd.end - nd.start > 1 {
                    assert(n4[nd.left as int] == n3[nd.left as int]);
                    assert(n4[nd.right as int] == n3[nd.right as int]);
                }
            }
            assert(node_ok_in(n4, leaves@, idx as int));
            assert(n4.subrange(0, idx as int) =~= n3.subrange(0, idx as int));
            assert(n3.subrange(0, idx as int) =~= n1.subrange(0, idx as int));
        }
    }
}

/// A shape made of the union of several non-composite shapes, each placed by
/// its own isometry.
#[derive(Clone, Debug)]
pub struct Compound {
    pub shapes: Vec<(Isometry, SharedShape)>,
    pub bvh: Bvh,
    pub aabbs: Vec<Aabb>,
    pub aabb: Aabb,
}

/// The box of each placed child.
pub open spec fn child_aabbs(shapes: Seq<(Isometry, SharedShape)>) -> Seq<Aabb> {
    Seq::new(shapes.len(), |i: int| shapes[i].1@.aabb_spec(shapes[i].0))
}

/// Each child is placed by a valid isometry and is a valid non-composite shape.
pub open spec fn children_wf(shapes: Seq<(Isometry, SharedShape)>) -> bool {
    forall|i: int| 0 <= i < shapes.len() ==> (#[trigger] shapes[i]).0.wf() && shapes[i].1@.leaf_wf()
}

/// The least thickness among the children; `MAX_THICKNESS` when there is none.
pub open spec fn min_child_thickness(s: Seq<(Isometry, SharedShape)>) -> i64
    decreases s.len(),
{
    if s.len() == 0 {
        MAX_THICKNESS
    } else {
        let a = min_child_thickness(s.drop_last());
        let b = s.last().1@.leaf_ccd_thickness();
        if b < a {
            b
        } else {
            a
        }
    }
}

/// The largest angular thickness among the children; zero when there is none.
pub open spec fn max_child_angular(s: Seq<(Isometry, SharedShape)>) -> u8
    decreases s.len(),
{
    if s.len() == 0 {
        0
    } else {
        let a = max_child_angular(s.drop_last());
        let b = s.last().1@.leaf_angular_thickness();
        if b > a {
            b
        } else {
            a
        }
    }
}

impl Compound {
    pub open spec fn ccd_thickness_spec(self) -> i64 {
        min_child_thickness(self.shapes@)
    }

    pub open spec fn angular_thickness_spec(self) -> u8 {
        max_child_angular(self.shapes@)
    }

    pub open spec fn wf(self) -> bool {
        let n = self.shapes@.len();
        &&& 0 < n <= u32::MAX
        &&& children_wf(self.shapes@)
        &&& self.aabbs@ == child_aabbs(self.shapes@)
        &&& self.aabb == union_of(self.aabbs@)
        &&& self.bvh.wf_for(self.aabbs@)
    }
}


impl Compound {
    /// The least thickness among the children.
    pub fn ccd_thickness(&self) -> (r: i64)
        requires
            self.wf(),
        ensures
            r == self.ccd_thickness_spec(),
    {
        let mut r: i64 = MAX_THICKNESS;
        let mut i: usize = 0;
        while i < self.shapes.len()
            invariant
                self.wf(),
                0 <= i <= self.shapes@.len(),
                r == min_child_thickness(self.shapes@.subrange(0, i as int)),
            decreases self.shapes@.len() - i,
        {
            let t = self.shapes[i].1.shape().leaf_ccd_thickness_exec();
            assert(self.shapes@.subrange(0, i as int + 1).drop_last() =~= self.shapes@.subrange(0, i as int));
            if t < r {
                r = t;
            }
            i = i + 1;
        }
        assert(self.shapes@.subrange(0, i as int) =~= self.shapes@);
        r
    }

    /// The largest angular thickness among the children, in quarters of `π`.
    pub fn ccd_angular_thickness(&self) -> (r: u8)
        requires
            self.wf(),
        ensures
            r == self.angular_thickness_spec(),
            r <= 4,
    {
        let mut r: u8 = 0;
        let mut i: usize = 0;
        while i < self.shapes.len()
            invariant
                self.wf(),
                0 <= i <= self.shapes@.len(),
                r == max_child_angular(self.shapes@.subrange(0, i as int)),
                r <= 4,
            decreases self.shapes@.len() - i,
        {
            let t = self.shapes[i].1.shape().leaf_angular_thickness_exec().quarter_pis;
            assert(self.shapes@.subrange(0, i as int + 1).drop_last() =~= self.shapes@.subrange(0, i as int));
            if t > r {
                r = t;
            }
            i = i + 1;
        }
        assert(self.shapes@.subrange(0, i as int) =~= self.shapes@);
        r
    }
}


/// Why a compound could not be built.
#[derive(Clone, Copy, Debug, PartialEq, Eq, Structural)]
pub enum CompoundError {
    /// No child was given.
    EmptyCompound,
    /// A child is itself made of parts.
    NestedComposite,
    /// A part of a decomposition is not a strictly convex polygon
    /// (`convex_partition` never yields one).
    DegenerateDecomposition,
}

/// Each child is placed by a valid isometry and is a valid shape.
pub open spec fn inputs_wf(shapes: Seq<(Isometry, SharedShape)>) -> bool {
    forall|i: int| 0 <= i < shapes.len() ==> (#[trigger] shapes[i]).0.wf() && shapes[i].1@.wf()
}

/// Some child is made of parts.
pub open spec fn has_composite_child(shapes: Seq<(Isometry, SharedShape)>) -> bool {
    exists|i: int| 0 <= i < shapes.len() && (#[trigger] shapes[i]).1@.kind_spec().is_composite_kind()
}

impl Compound {
    /// The compound of the given children, in this order: it records the box
    /// of each placed child, their union, and a hierarchy over those boxes.
    /// Fails with `EmptyCompound` when there is no child, and with
    /// `NestedComposite` when a child is made of parts.
    pub fn new(shapes: Vec<(Isometry, SharedShape)>) -> (r: Result<Compound, CompoundError>)
        requires
            inputs_wf(shapes@),
            shapes@.len() <= u32::MAX,
        ensures
            shapes@.len() == 0 ==> r == Err::<Compound, CompoundError>(CompoundError::EmptyCompound),
            shapes@.len() > 0 && has_composite_child(shapes@) ==> r == Err::<Compound, CompoundError>(
                CompoundError::NestedComposite,
            ),
            shapes@.len() > 0 && !has_composite_child(shapes@) ==> r is Ok,
            r matches Ok(c) ==> c.wf() && c.shapes@ == shapes@,
    {
        if shapes.len() == 0 {
            return Err(CompoundError::EmptyCompound);
        }
        let mut aabbs: Vec<Aabb> = Vec::new();
        let mut aabb = Aabb::new_invalid();
        let mut i: usize = 0;
        while i < shapes.len()
            invariant
                inputs_wf(shapes@),
                0 <= i <= shapes@.len(),
                aabbs@ == child_aabbs(shapes@).subrange(0, i as int),
                aabb == union_of(aabbs@),
                forall|j: int| 0 <= j < i ==> !(#[trigger] shapes@[j]).1@.kind_spec().is_composite_kind(),
            decreases shapes@.len() - i,
        {
            let (delta, shape) = (&shapes[i].0, shapes[i].1.shape());
            let bv = shape.compute_aabb(delta);
            aabb.merge(&bv);
            aabbs.push(bv);
            assert(aabbs@.drop_last() =~= child_aabbs(shapes@).subrange(0, i as int));
            if shape.shape_type().is_composite() {
                return Err(CompoundError::NestedComposite);
            }
            i = i + 1;
            assert(aabbs@ =~= child_aabbs(shapes@).subrange(0, i as int));
        }
        assert(aabbs@ =~= child_aabbs(shapes@));
        let bvh = Bvh::from_boxes(&aabbs);
        Ok(Compound { shapes, bvh, aabbs, aabb })
    }

    /// The compound of the convex parts of a triangle mesh (see
    /// `convex_partition`), in their order, each placed by the identity: a
    /// part with three vertices becomes a `Triangle`, a larger one (strictly
    /// convex by construction) a `ConvexPolygon`. Fails with
    /// `DegenerateDecomposition` when a part has no area, that is a triangle
    /// of the mesh with collinear vertices that no merge absorbed.
    pub fn decompose_trimesh(trimesh: &TriMesh) -> (r: Result<Compound, CompoundError>)
        requires
            trimesh.wf(),
        ensures
            exists|parts: Seq<Seq<u32>>| #[trigger] decomposes(*trimesh, parts, r),
    {
        let verts = &trimesh.vertices;
        let parts = convex_partition(verts, &trimesh.indices);
        let ghost pv = views(parts@);
        let mut shapes: Vec<(Isometry, SharedShape)> = Vec::new();
        let mut i: usize = 0;
        while i < parts.len()
            invariant
                trimesh.wf(),
                verts == &trimesh.vertices,
                parts_ok(parts@, verts@),
                pv == views(parts@),
                convex_parts_of(*trimesh, pv),
                parts@.len() <= trimesh.indices@.len(),
                0 < parts@.len(),
                0 <= i <= parts@.len(),
                shapes@.len() == i,
                inputs_wf(shapes@),
                forall|j: int| 0 <= j < i ==> (#[trigger] shapes@[j]).0 == Isometry::identity_spec()
                    && is_part_shape(shapes@[j].1@, pv[j], verts@) && !flat_part(pv[j], verts@)
                    && !shapes@[j].1@.kind_spec().is_composite_kind(),
            decreases parts@.len() - i,
        {
            assert(part_ok(parts@[i as int]@, verts@));
            assert(pv[i as int] == parts@[i as int]@);
            let points = part_points(&parts[i], verts);
            proof {
                assert forall|k: int| 0 <= k < points@.len() implies (#[trigger] points@[k]).wf() by {
                    assert(verts@[parts@[i as int]@[k] as int].wf());
                }
            }
            let shape = if points.len() == 3 {
                if turn_exec(points[0], points[1], points[2]) == 0 {
                    assert(flat_part(pv[i as int], verts@));
                    assert(decomposes(*trimesh, pv, Err(CompoundError::DegenerateDecomposition)));
                    return Err(CompoundError::DegenerateDecomposition);
                }
                Shape::Triangle(Triangle::new(points[0], points[1], points[2]))
            } else {
                match ConvexPolygon::from_convex_polyline(points) {
                    Some(p) => Shape::ConvexPolygon(p),
                    None => {
                        return Err(CompoundError::DegenerateDecomposition);
                    },
                }
            };
            shapes.push((Isometry::identity(), SharedShape::new(shape)));
            i = i + 1;
        }
        assert(!has_composite_child(shapes@));
        let ghost sv = shapes@;
        assert forall|j: int| 0 <= j < pv.len() implies !#[trigger] flat_part(pv[j], verts@) by {
            assert(sv[j].0 == Isometry::identity_spec());
        }
        let r = Compound::new(shapes);
        proof {
            if r is Ok {
                let c = r->Ok_0;
                assert(c.shapes@ == sv);
                assert forall|j: int| 0 <= j < pv.len() implies (#[trigger] c.shapes@[j]).0
                    == Isometry::identity_spec() && is_part_shape(c.shapes@[j].1@, pv[j], verts@) by {
                    assert(sv[j].0 == Isometry::identity_spec());
                }
                lemma_decomposition_box(*trimesh, pv, c);
            }
        }
        assert(decomposes(*trimesh, pv, r));
        r
    }

    /// The children with their placements, in the order they were given.
    pub fn shapes(&self) -> (r: &[(Isometry, SharedShape)])
        ensures
            r@ == self.shapes@,
    {
        self.shapes.as_slice()
    }

    /// The union of the boxes of the placed children.
    pub fn local_aabb(&self) -> (r: &Aabb)
        ensures
            *r == self.aabb,
    {
        &self.aabb
    }

    /// The disc around the compound's box.
    pub fn local_bounding_sphere(&self) -> (r: BoundingSphere)
        requires
            self.wf(),
        ensures
            r == self.aabb.bounding_sphere_spec(),
            r.contains_aabb(self.aabb),
    {
        proof {
            lemma_local_bounds(Shape::Compound(*self));
        }
        self.aabb.bounding_sphere()
    }

    /// The box of each placed child, in the children's order.
    pub fn aabbs(&self) -> (r: &[Aabb])
        ensures
            r@ == self.aabbs@,
    {
        self.aabbs.as_slice()
    }

    /// The hierarchy over the children's boxes.
    pub fn bvh(&self) -> (r: &Bvh)
        ensures
            *r == self.bvh,
    {
        &self.bvh
    }

    /// The child `i` with its placement, if there is one.
    pub fn part_at(&self, i: u32) -> (r: Option<&(Isometry, SharedShape)>)
        ensures
            (i as int) < self.shapes@.len() ==> r == Some(&self.shapes@[i as int]),
            (i as int) >= self.shapes@.len() ==> r is None,
    {
        if (i as usize) < self.shapes.len() {
            Some(&self.shapes[i as usize])
        } else {
            None
        }
    }
}

/// A part with three collinear vertices: it has no area.
pub open spec fn flat_part(part: Seq<u32>, verts: Seq<Point>) -> bool {
    part.len() == 3 && turn(verts[part[0] as int], verts[part[1] as int], verts[part[2] as int]) == 0
}

/// `s` is the shape that stands for a part: the triangle through its vertices
/// when it has three, otherwise the convex polygon through them, in order.
pub open spec fn is_part_shape(s: Shape, part: Seq<u32>, verts: Seq<Point>) -> bool {
    if part.len() == 3 {
        s == Shape::Triangle(
            Triangle { a: verts[part[0] as int], b: verts[part[1] as int], c: verts[part[2] as int] },
        )
    } else {
        s matches Shape::ConvexPolygon(p) && p.points@ == poly_points(part, verts)
    }
}

/// `parts` are convex parts that partition the triangles of the mesh.
pub open spec fn convex_parts_of(m: TriMesh, parts: Seq<Seq<u32>>) -> bool {
    &&& 0 < parts.len()
    &&& forall|i: int| 0 <= i < parts.len() ==> #[trigger] part_ok(parts[i], m.vertices@)
    &&& is_partition(parts, m.indices@)
}

/// `r` is the compound of the partition `parts` of the mesh: it fails with
/// `DegenerateDecomposition` exactly when a part has no area, and otherwise
/// holds one child per part, in order, placed by the identity.
pub open spec fn decomposes(m: TriMesh, parts: Seq<Seq<u32>>, r: Result<Compound, CompoundError>) -> bool {
    &&& convex_parts_of(m, parts)
    &&& (r is Ok <==> forall|i: int| 0 <= i < parts.len() ==> !#[trigger] flat_part(parts[i], m.vertices@))
    &&& (r is Err ==> r == Err::<Compound, CompoundError>(CompoundError::DegenerateDecomposition))
    &&& (r matches Ok(c) ==> {
        &&& c.wf()
        &&& c.shapes@.len() == parts.len()
        &&& c.aabb == points_aabb(triangle_corners(m))
        &&& forall|j: int|
            0 <= j < parts.len() ==> (#[trigger] c.shapes@[j]).0 == Isometry::identity_spec()
                && is_part_shape(c.shapes@[j].1@, parts[j], m.vertices@)
    })
}

/// The corners of the mesh's triangles, three per triangle.
pub open spec fn triangle_corners(m: TriMesh) -> Seq<Point> {
    Seq::new(3 * m.indices@.len(), |k: int| m.vertices@[m.indices@[k / 3][k % 3] as int])
}

/// The box of a part's child, placed by the identity, is the box of the
/// part's vertices.
proof fn lemma_part_box(s: Shape, part: Seq<u32>, verts: Seq<Point>)
    requires
        is_part_shape(s, part, verts),
        part_ok(part, verts),
        all_wf(verts),
    ensures
        s.aabb_spec(Isometry::identity_spec()) == points_aabb(poly_points(part, verts)),
        !points_aabb(poly_points(part, verts)).is_empty(),
{
    reveal(Aabb::transform_spec);
    let pp = poly_points(part, verts);
    assert forall|k: int| 0 <= k < pp.len() implies (#[trigger] pp[k]).wf() by {
        assert(verts[part[k] as int].wf());
    }
    lemma_points_aabb(pp);
    if part.len() == 3 {
        let b = point_boxes(pp);
        let b1 = b.drop_last();
        let b2 = b1.drop_last();
        let b3 = b2.drop_last();
        assert(b3 =~= Seq::<Aabb>::empty());
        assert(union_of(b3) == Aabb::invalid_spec());
        assert(union_of(b2) == union_of(b3).merged_spec(b2.last()));
        assert(b2.last() == point_box(pp[0]));
        assert(union_of(b2) == point_box(pp[0]));
        assert(union_of(b1) == union_of(b2).merged_spec(b1.last()));
        assert(b1.last() == point_box(pp[1]));
        assert(union_of(b) == union_of(b1).merged_spec(b.last()));
        assert(b.last() == point_box(pp[2]));
        assert(s->Triangle_0.local_aabb_spec() == union_of(b));
    }
}

/// The compound of a decomposition has the box of the mesh's triangles.
proof fn lemma_decomposition_box(m: TriMesh, parts: Seq<Seq<u32>>, c: Compound)
    requires
        m.wf(),
        convex_parts_of(m, parts),
        c.wf(),
        c.shapes@.len() == parts.len(),
        forall|j: int|
            0 <= j < parts.len() ==> (#[trigger] c.shapes@[j]).0 == Isometry::identity_spec()
                && is_part_shape(c.shapes@[j].1@, parts[j], m.vertices@),
    ensures
        c.aabb == points_aabb(triangle_corners(m)),
{
    let verts = m.vertices@;
    let idx = m.indices@;
    let owner = choose|owner: Seq<int>| is_partition_by(parts, idx, owner);
    let a = c.aabbs@;
    let tc = triangle_corners(m);
    let b = point_boxes(tc);
    assert forall|j: int| 0 <= j < parts.len() implies #[trigger] a[j] == points_aabb(
        poly_points(parts[j], verts),
    ) && !a[j].is_empty() by {
        assert(part_ok(parts[j], verts));
        lemma_part_box(c.shapes@[j].1@, parts[j], verts);
    }
    assert forall|k: int| 0 <= k < tc.len() implies (#[trigger] tc[k]).wf() by {
        assert(idx[k / 3][k % 3] < verts.len());
    }
    lemma_points_aabb(tc);
    assert forall|j: int| 0 <= j < a.len() implies !(#[trigger] a[j]).is_empty() && union_of(b).contains(a[j]) by {
        let part = parts[j];
        assert(part_ok(part, verts));
        let pp = poly_points(part, verts);
        let pb = point_boxes(pp);
        assert forall|l: int| 0 <= l < pb.len() implies !(#[trigger] pb[l]).is_empty() && union_of(b).contains(pb[l]) by {
            let x = part[l];
            assert(part.contains(x));
            let t = choose|t: int| 0 <= t < idx.len() && owner[t] == j && #[trigger] tri_has(idx, t, x);
            let w: int = if idx[t][0] == x { 0 } else if idx[t][1] == x { 1 } else { 2 };
            let k = 3 * t + w;
            assert(k / 3 == t && k % 3 == w);
            assert(tc[k] == verts[x as int]);
            assert(b[k] == pb[l]);
            lemma_union_contains(b, k);
        }
        lemma_union_within(pb, union_of(b));
    }
    assert forall|k: int| 0 <= k < b.len() implies !(#[trigger] b[k]).is_empty() && union_of(a).contains(b[k]) by {
        let t = k / 3;
        let w = k % 3;
        let x = idx[t][w];
        assert(tri_has(idx, t, x));
        let g = owner[t];
        assert(0 <= g < parts.len());
        assert(parts[g].contains(x));
        let l = choose|l: int| 0 <= l < parts[g].len() && parts[g][l] == x;
        let pp = poly_points(parts[g], verts);
        lemma_union_contains(point_boxes(pp), l);
        assert(point_boxes(pp)[l] == b[k]);
        lemma_union_contains(a, g);
    }
    lemma_union_eq(a, b);
}

/// The local box of a compound is the union of its children's boxes, each
/// child's box is that child placed, and the hierarchy's leaves are exactly
/// the pairs `(i, aabbs[i])`, with a root that covers them all.
pub proof fn lemma_compound_boxes(c: Compound)
    requires
        c.wf(),
    ensures
        Shape::Compound(c).local_aabb_spec() == union_of(c.aabbs@),
        c.aabbs@.len() == c.shapes@.len(),
        forall|i: int|
            0 <= i < c.aabbs@.len() ==> #[trigger] c.aabbs@[i] == c.shapes@[i].1@.aabb_spec(c.shapes@[i].0),
        c.bvh.leaves@ == indexed_leaves(c.aabbs@),
        c.bvh.nodes@[0].aabb == union_of(c.aabbs@),
{
    let lb = leaf_boxes(c.bvh.leaves@);
    assert(lb =~= c.aabbs@);
    assert(node_ok_in(c.bvh.nodes@, c.bvh.leaves@, 0));
    assert(lb.subrange(0, c.aabbs@.len() as int) =~= lb);
}

} // verus!
