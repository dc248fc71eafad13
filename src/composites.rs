//! Shapes made of many parts: polylines, triangle meshes, height fields and
//! voxel grids.
use vstd::prelude::*;
use crate::bounding_volume::{lemma_union_bounded, lemma_union_contains, union_of, Aabb};
use crate::compound::Bvh;
use crate::math::{scaled_coord_spec, Point, Vector, MAX_COORD};
use crate::primitives::{
    aabb_of_points, all_wf, point_box, points_aabb, points_scalable, scale_points, scaled_points,
};

verus! {

/// Every index of `idx` names one of `n` vertices.
pub open spec fn segments_valid(idx: Seq<[u32; 2]>, n: int) -> bool {
    forall|i: int| 0 <= i < idx.len() ==> (#[trigger] idx[i])[0] < n && idx[i][1] < n
}

/// Every index of `idx` names one of `n` vertices.
pub open spec fn triangles_valid(idx: Seq<[u32; 3]>, n: int) -> bool {
    forall|i: int|
        0 <= i < idx.len() ==> (#[trigger] idx[i])[0] < n && idx[i][1] < n && idx[i][2] < n
}

/// Vertices usable by a mesh: at least one, each a valid parameter, and few
/// enough to be indexed by `u32`.
pub open spec fn vertices_wf(v: Seq<Point>) -> bool {
    0 < v.len() <= u32::MAX && all_wf(v)
}

fn vertices_ok(v: &Vec<Point>) -> (r: bool)
    ensures
        r == vertices_wf(v@),
{
    let n = v.len();
    if n == 0 || n > u32::MAX as usize {
        return false;
    }
    let mut i: usize = 0;
    while i < n
        invariant
            n == v@.len(),
            0 <= i <= n,
            forall|j: int| 0 <= j < i ==> (#[trigger] v@[j]).wf(),
        decreases n - i,
    {
        let p = v[i];
        if !(-MAX_COORD <= p.x && p.x <= MAX_COORD && -MAX_COORD <= p.y && p.y <= MAX_COORD) {
            return false;
        }
        i = i + 1;
    }
    true
}

/// A copy of `v`.
pub fn copy_vec<T: Copy>(v: &Vec<T>) -> (r: Vec<T>)
    ensures
        r@ == v@,
{
    let mut out: Vec<T> = Vec::new();
    let mut i: usize = 0;
    while i < v.len()
        invariant
            0 <= i <= v@.len(),
            out@ == v@.subrange(0, i as int),
        decreases v@.len() - i,
    {
        out.push(v[i]);
        i = i + 1;
    }
    assert(out@ =~= v@);
    out
}

/// A chain of segments between vertices.
#[derive(Clone, Debug)]
pub struct Polyline {
    pub vertices: Vec<Point>,
    pub indices: Vec<[u32; 2]>,
    pub bvh: Bvh,
}

/// The box of each segment.
pub open spec fn segment_boxes(v: Seq<Point>, idx: Seq<[u32; 2]>) -> Seq<Aabb> {
    Seq::new(
        idx.len(),
        |i: int| point_box(v[idx[i][0] as int]).merged_spec(point_box(v[idx[i][1] as int])),
    )
}

/// The box of each triangle.
pub open spec fn triangle_boxes(v: Seq<Point>, idx: Seq<[u32; 3]>) -> Seq<Aabb> {
    Seq::new(
        idx.len(),
        |i: int|
            point_box(v[idx[i][0] as int]).merged_spec(point_box(v[idx[i][1] as int])).merged_spec(
                point_box(v[idx[i][2] as int]),
            ),
    )
}

fn segment_boxes_exec(v: &Vec<Point>, idx: &Vec<[u32; 2]>) -> (r: Vec<Aabb>)
    requires
        segments_valid(idx@, v@.len() as int),
    ensures
        r@ == segment_boxes(v@, idx@),
{
    let mut out: Vec<Aabb> = Vec::new();
    let mut i: usize = 0;
    while i < idx.len()
        invariant
            segments_valid(idx@, v@.len() as int),
            0 <= i <= idx@.len(),
            out@ == segment_boxes(v@, idx@).subrange(0, i as int),
        decreases idx@.len() - i,
    {
        let s = idx[i];
        assert(s == idx@[i as int]);
        let a = v[s[0] as usize];
        let b = v[s[1] as usize];
        out.push(Aabb { mins: a, maxs: a }.merged(&Aabb { mins: b, maxs: b }));
        i = i + 1;
        assert(out@ =~= segment_boxes(v@, idx@).subrange(0, i as int));
    }
    assert(out@ =~= segment_boxes(v@, idx@));
    out
}

fn triangle_boxes_exec(v: &Vec<Point>, idx: &Vec<[u32; 3]>) -> (r: Vec<Aabb>)
    requires
        triangles_valid(idx@, v@.len() as int),
    ensures
        r@ == triangle_boxes(v@, idx@),
{
    let mut out: Vec<Aabb> = Vec::new();
    let mut i: usize = 0;
    while i < idx.len()
        invariant
            triangles_valid(idx@, v@.len() as int),
            0 <= i <= idx@.len(),
            out@ == triangle_boxes(v@, idx@).subrange(0, i as int),
        decreases idx@.len() - i,
    {
        let t = idx[i];
        assert(t == idx@[i as int]);
        let a = v[t[0] as usize];
        let b = v[t[1] as usize];
        let c = v[t[2] as usize];
        out.push(
            Aabb { mins: a, maxs: a }.merged(&Aabb { mins: b, maxs: b }).merged(
                &Aabb { mins: c, maxs: c },
            ),
        );
        i = i + 1;
        assert(out@ =~= triangle_boxes(v@, idx@).subrange(0, i as int));
    }
    assert(out@ =~= triangle_boxes(v@, idx@));
    out
}

impl Polyline {
    /// Valid vertices, at least one segment, every segment naming two of
    /// them, and a hierarchy over the segments' boxes.
    pub open spec fn wf(self) -> bool {
        &&& vertices_wf(self.vertices@)
        &&& segments_valid(self.indices@, self.vertices@.len() as int)
        &&& 0 < self.indices@.len() <= u32::MAX
        &&& self.bvh.wf_for(segment_boxes(self.vertices@, self.indices@))
    }

    pub open spec fn local_aabb_spec(self) -> Aabb {
        points_aabb(self.vertices@)
    }

    /// The polyline with these vertices and segments, with a hierarchy over the
    /// segments' boxes; `None` when the vertices are not valid, there is no
    /// segment, or a segment names a missing vertex.
    pub fn new(vertices: Vec<Point>, indices: Vec<[u32; 2]>) -> (r: Option<Polyline>)
        ensures
            r is Some <==> vertices_wf(vertices@) && segments_valid(indices@, vertices@.len() as int)
                && 0 < indices@.len() <= u32::MAX,
            r matches Some(p) ==> p.wf() && p.vertices@ == vertices@ && p.indices@ == indices@,
    {
        if !vertices_ok(&vertices) || indices.len() == 0 || indices.len() > u32::MAX as usize {
            return None;
        }
        let n = vertices.len();
        let mut i: usize = 0;
        while i < indices.len()
            invariant
                n == vertices@.len(),
                0 <= i <= indices@.len(),
                forall|j: int| 0 <= j < i ==> (#[trigger] indices@[j])[0] < n && indices@[j][1] < n,
            decreases indices@.len() - i,
        {
            let s = indices[i];
            if s[0] as usize >= n || s[1] as usize >= n {
                return None;
            }
            i = i + 1;
        }
        let boxes = segment_boxes_exec(&vertices, &indices);
        let bvh = Bvh::from_boxes(&boxes);
        Some(Polyline { vertices, indices, bvh })
    }

    pub fn vertices(&self) -> (r: &Vec<Point>)
        ensures
            r == &self.vertices,
    {
        &self.vertices
    }

    pub fn local_aabb(&self) -> (r: Aabb)
        requires
            self.wf(),
        ensures
            r == self.local_aabb_spec(),
            r.bounded(MAX_COORD as int),
    {
        aabb_of_points(&self.vertices)
    }

    /// The polyline with every vertex scaled by `f`; `None` when one leaves
    /// the valid range.
    pub fn scaled(&self, f: &Vector) -> (r: Option<Polyline>)
        requires
            self.wf(),
        ensures
            r is Some <==> points_scalable(self.vertices@, *f),
            r matches Some(p) ==> p.wf() && p.vertices@ == scaled_points(self.vertices@, *f)
                && p.indices@ == self.indices@,
    {
        match scale_points(&self.vertices, f) {
            Some(v) => Polyline::new(v, copy_vec(&self.indices)),
            None => None,
        }
    }
}

/// A mesh of triangles between vertices.
#[derive(Clone, Debug)]
pub struct TriMesh {
    pub vertices: Vec<Point>,
    pub indices: Vec<[u32; 3]>,
    pub bvh: Bvh,
}

impl TriMesh {
    /// Valid vertices, at least one triangle, every triangle naming three of
    /// them, and a hierarchy over the triangles' boxes.
    pub open spec fn wf(self) -> bool {
        &&& vertices_wf(self.vertices@)
        &&& triangles_valid(self.indices@, self.vertices@.len() as int)
        &&& 0 < self.indices@.len() <= u32::MAX
        &&& self.bvh.wf_for(triangle_boxes(self.vertices@, self.indices@))
    }

    pub open spec fn local_aabb_spec(self) -> Aabb {
        points_aabb(self.vertices@)
    }

    /// The mesh with these vertices and triangles, with a hierarchy over the
    /// triangles' boxes; `None` when the vertices are not valid, there is no
    /// triangle, or a triangle names a missing vertex.
    pub fn new(vertices: Vec<Point>, indices: Vec<[u32; 3]>) -> (r: Option<TriMesh>)
        ensures
            r is Some <==> vertices_wf(vertices@) && triangles_valid(indices@, vertices@.len() as int)
                && 0 < indices@.len() <= u32::MAX,
            r matches Some(m) ==> m.wf() && m.vertices@ == vertices@ && m.indices@ == indices@,
    {
        if !vertices_ok(&vertices) || indices.len() == 0 || indices.len() > u32::MAX as usize {
            return None;
        }
        let n = vertices.len();
        let mut i: usize = 0;
        while i < indices.len()
            invariant
                n == vertices@.len(),
                0 <= i <= indices@.len(),
                forall|j: int|
                    0 <= j < i ==> (#[trigger] indices@[j])[0] < n && indices@[j][1] < n
                        && indices@[j][2] < n,
            decreases indices@.len() - i,
        {
            let t = indices[i];
            if t[0] as usize >= n || t[1] as usize >= n || t[2] as usize >= n {
                return None;
            }
            i = i + 1;
        }
        let boxes = triangle_boxes_exec(&vertices, &indices);
        let bvh = Bvh::from_boxes(&boxes);
        Some(TriMesh { vertices, indices, bvh })
    }

    pub fn vertices(&self) -> (r: &Vec<Point>)
        ensures
            r == &self.vertices,
    {
        &self.vertices
    }

    pub fn indices(&self) -> (r: &Vec<[u32; 3]>)
        ensures
            r == &self.indices,
    {
        &self.indices
    }

    pub fn local_aabb(&self) -> (r: Aabb)
        requires
            self.wf(),
        ensures
            r == self.local_aabb_spec(),
            r.bounded(MAX_COORD as int),
    {
        aabb_of_points(&self.vertices)
    }

    /// The mesh with every vertex scaled by `f`; `None` when one leaves the
    /// valid range.
    pub fn scaled(&self, f: &Vector) -> (r: Option<TriMesh>)
        requires
            self.wf(),
        ensures
            r is Some <==> points_scalable(self.vertices@, *f),
            r matches Some(m) ==> m.wf() && m.vertices@ == scaled_points(self.vertices@, *f)
                && m.indices@ == self.indices@,
    {
        match scale_points(&self.vertices, f) {
            Some(v) => TriMesh::new(v, copy_vec(&self.indices)),
            None => None,
        }
    }
}

/// A terrain profile: the polyline through the points
/// `(i * step, heights[i])`.
#[derive(Clone, Debug)]
pub struct HeightField {
    pub heights: Vec<i64>,
    pub step: i64,
}

impl HeightField {
    /// The points of the profile.
    pub open spec fn points_spec(self) -> Seq<Point> {
        Seq::new(
            self.heights@.len(),
            |i: int| Vector { x: (i * self.step) as i64, y: self.heights@[i] },
        )
    }

    pub open spec fn wf(self) -> bool {
        &&& 0 < self.heights@.len()
        &&& 0 <= self.step
        &&& (self.heights@.len() - 1) * self.step <= MAX_COORD
        &&& forall|i: int|
            0 <= i < self.heights@.len() ==> -MAX_COORD <= #[trigger] self.heights@[i] <= MAX_COORD
    }

    pub open spec fn local_aabb_spec(self) -> Aabb {
        points_aabb(self.points_spec())
    }

    /// The box of a valid profile is non-empty and within `MAX_COORD`.
    pub proof fn lemma_bounds(self)
        requires
            self.wf(),
        ensures
            self.local_aabb_spec().bounded(MAX_COORD as int),
            !self.local_aabb_spec().is_empty(),
    {
        let pts = self.points_spec();
        let n = self.heights@.len();
        assert forall|j: int| 0 <= j < pts.len() implies (#[trigger] pts[j]).wf() by {
            assert(0 <= j * self.step <= (n - 1) * self.step) by (nonlinear_arith)
                requires
                    0 <= j <= n - 1,
                    self.step >= 0,
            ;
        }
        crate::primitives::lemma_points_aabb(pts);
    }

    pub fn new(heights: Vec<i64>, step: i64) -> (r: HeightField)
        ensures
            r.heights@ == heights@,
            r.step == step,
    {
        HeightField { heights, step }
    }

    pub fn local_aabb(&self) -> (r: Aabb)
        requires
            self.wf(),
        ensures
            r == self.local_aabb_spec(),
            r.bounded(MAX_COORD as int),
    {
        let ghost pts = self.points_spec();
        let ghost boxes = crate::primitives::point_boxes(pts);
        let n = self.heights.len();
        let mut r = Aabb::new_invalid();
        let mut i: usize = 0;
        let mut x: i64 = 0;
        while i < n
            invariant
                n == self.heights@.len(),
                self.wf(),
                pts == self.points_spec(),
                boxes == crate::primitives::point_boxes(pts),
                0 <= i <= n,
                i < n ==> x == i * self.step,
                r == union_of(boxes.subrange(0, i as int)),
            decreases n - i,
        {
            assert(i * self.step <= (n - 1) * self.step) by (nonlinear_arith)
                requires
                    i <= n - 1,
                    self.step >= 0,
            ;
            assert(0 <= i * self.step) by (nonlinear_arith)
                requires
                    i >= 0,
                    self.step >= 0,
            ;
            let p = Vector { x, y: self.heights[i] };
            assert(p == pts[i as int]);
            assert(boxes.subrange(0, i as int + 1).drop_last() =~= boxes.subrange(0, i as int));
            r.merge(&Aabb { mins: p, maxs: p });
            i = i + 1;
            if i < n {
                assert(i * self.step <= (n - 1) * self.step && i * self.step == (i - 1) * self.step + self.step) by (nonlinear_arith)
                    requires
                        1 <= i <= n - 1,
                        self.step >= 0,
                ;
                x = x + self.step;
            }
        }
        proof {
            assert(boxes.subrange(0, n as int) =~= boxes);
            assert forall|j: int| 0 <= j < boxes.len() implies (#[trigger] boxes[j]).bounded(
                MAX_COORD as int,
            ) by {
                assert(0 <= j * self.step <= (n - 1) * self.step) by (nonlinear_arith)
                    requires
                        0 <= j <= n - 1,
                        self.step >= 0,
                ;
            }
            lemma_union_bounded(boxes, MAX_COORD as int);
        }
        r
    }
}

impl HeightField {
    /// Scaling by `f` succeeds: `f.x` is positive, and the scaled step, the
    /// scaled span `(len - 1) * step * f.x` and every scaled height stay
    /// within `MAX_COORD`.
    pub open spec fn scales(self, f: Vector) -> bool {
        &&& f.x > 0
        &&& scaled_coord_spec(self.step, f.x) is Some
        &&& (self.heights@.len() - 1) * (self.step * f.x) <= MAX_COORD
        &&& forall|i: int|
            0 <= i < self.heights@.len() ==> (#[trigger] scaled_coord_spec(self.heights@[i], f.y)) is Some
    }

    /// The profile scaled by `f`, which must be positive along `x`: heights
    /// are multiplied by `f.y` and the step by `f.x`. `None` when a value leaves
    /// the valid range or `f.x` is not positive.
    pub fn scaled(&self, f: &Vector) -> (r: Option<HeightField>)
        requires
            self.wf(),
        ensures
            r matches Some(h) ==> h.wf() && h.heights@.len() == self.heights@.len() && h.step
                == self.step * f.x && forall|i: int|
                0 <= i < h.heights@.len() ==> #[trigger] h.heights@[i] == self.heights@[i] * f.y,
            r is Some <==> self.scales(*f),
    {
        if f.x <= 0 {
            return None;
        }
        let step = match crate::math::scale_coord(self.step, f.x) {
            Some(s) => s,
            None => {
                return None;
            },
        };
        assert(step >= 0) by (nonlinear_arith)
            requires
                step == self.step * f.x,
                self.step >= 0,
                f.x > 0,
        ;
        let n = self.heights.len();
        assert(0 <= (n - 1) * step <= 0x1_0000_0000_0000_0000 * 0x1000_0000) by (nonlinear_arith)
            requires
                1 <= n <= 0x1_0000_0000_0000_0000,
                0 <= step <= 0x1000_0000,
        ;
        let span: i128 = (n as i128 - 1) * (step as i128);
        if span > MAX_COORD as i128 {
            return None;
        }
        let mut heights: Vec<i64> = Vec::new();
        let mut i: usize = 0;
        while i < n
            invariant
                n == self.heights@.len(),
                0 <= i <= n,
                heights@.len() == i,
                forall|j: int| 0 <= j < i ==> -MAX_COORD <= #[trigger] heights@[j] <= MAX_COORD,
                forall|j: int| 0 <= j < i ==> #[trigger] heights@[j] == self.heights@[j] * f.y,
                forall|j: int| 0 <= j < i ==> (#[trigger] scaled_coord_spec(self.heights@[j], f.y)) is Some,
            decreases n - i,
        {
            match crate::math::scale_coord(self.heights[i], f.y) {
                Some(h) => heights.push(h),
                None => {
                    assert(scaled_coord_spec(self.heights@[i as int], f.y) is None);
                    return None;
                },
            }
            i = i + 1;
        }
        Some(HeightField { heights, step })
    }
}

/// A set of equal axis-aligned cells: cell `k` covers
/// `[origins[k], origins[k] + voxel_size]`.
#[derive(Clone, Debug)]
pub struct Voxels {
    pub voxel_size: Vector,
    pub origins: Vec<Point>,
}

impl Voxels {
    /// The box of each cell.
    pub open spec fn cell_boxes(self) -> Seq<Aabb> {
        Seq::new(
            self.origins@.len(),
            |i: int|
                Aabb {
                    mins: self.origins@[i],
                    maxs: Vector {
                        x: (self.origins@[i].x + self.voxel_size.x) as i64,
                        y: (self.origins@[i].y + self.voxel_size.y) as i64,
                    },
                },
        )
    }

    pub open spec fn wf(self) -> bool {
        &&& 0 < self.origins@.len()
        &&& all_wf(self.origins@)
        &&& 0 < self.voxel_size.x <= MAX_COORD
        &&& 0 < self.voxel_size.y <= MAX_COORD
    }

    pub open spec fn local_aabb_spec(self) -> Aabb {
        union_of(self.cell_boxes())
    }

    /// The box of a valid grid is non-empty and within `2 * MAX_COORD`.
    pub proof fn lemma_bounds(self)
        requires
            self.wf(),
        ensures
            self.local_aabb_spec().bounded(2 * MAX_COORD),
            !self.local_aabb_spec().is_empty(),
    {
        let boxes = self.cell_boxes();
        assert forall|j: int| 0 <= j < boxes.len() implies (#[trigger] boxes[j]).bounded(
            2 * MAX_COORD,
        ) by {
            assert(self.origins@[j].wf());
        }
        lemma_union_bounded(boxes, 2 * MAX_COORD);
        lemma_union_contains(boxes, 0);
    }

    /// The smaller side of a cell.
    pub open spec fn min_voxel_size(self) -> i64 {
        if self.voxel_size.x <= self.voxel_size.y {
            self.voxel_size.x
        } else {
            self.voxel_size.y
        }
    }

    pub fn new(voxel_size: Vector, origins: Vec<Point>) -> (r: Voxels)
        ensures
            r.voxel_size == voxel_size,
            r.origins@ == origins@,
    {
        Voxels { voxel_size, origins }
    }

    pub fn voxel_size(&self) -> (r: Vector)
        ensures
            r == self.voxel_size,
    {
        self.voxel_size
    }

    pub fn local_aabb(&self) -> (r: Aabb)
        requires
            self.wf(),
        ensures
            r == self.local_aabb_spec(),
            r.bounded(2 * MAX_COORD),
    {
        let ghost boxes = self.cell_boxes();
        let mut r = Aabb::new_invalid();
        let mut i: usize = 0;
        while i < self.origins.len()
            invariant
                self.wf(),
                boxes == self.cell_boxes(),
                0 <= i <= self.origins@.len(),
                r == union_of(boxes.subrange(0, i as int)),
            decreases self.origins@.len() - i,
        {
            let o = self.origins[i];
            let b = Aabb {
                mins: o,
                maxs: Vector { x: o.x + self.voxel_size.x, y: o.y + self.voxel_size.y },
            };
            assert(b == boxes[i as int]);
            assert(boxes.subrange(0, i as int + 1).drop_last() =~= boxes.subrange(0, i as int));
            r.merge(&b);
            i = i + 1;
        }
        proof {
            assert(boxes.subrange(0, i as int) =~= boxes);
            assert forall|j: int| 0 <= j < boxes.len() implies (#[trigger] boxes[j]).bounded(
                2 * MAX_COORD,
            ) by {
                assert(self.origins@[j].wf());
            }
            lemma_union_bounded(boxes, 2 * MAX_COORD);
        }
        r
    }

    pub fn ccd_thickness(&self) -> (r: i64)
        ensures
            r == self.min_voxel_size(),
    {
        if self.voxel_size.x <= self.voxel_size.y {
            self.voxel_size.x
        } else {
            self.voxel_size.y
        }
    }

    /// The grid scaled by `f`, which must be positive on both axes: cell origins
    /// and sizes are multiplied by it. `None` when a value leaves the valid range
    /// or `f` is not positive.
    pub fn scaled(&self, f: &Vector) -> (r: Option<Voxels>)
        requires
            self.wf(),
        ensures
            r is Some <==> f.x > 0 && f.y > 0 && points_scalable(self.origins@, *f)
                && self.voxel_size.component_mul_spec(*f) is Some,
            r matches Some(v) ==> v.wf() && v.origins@ == scaled_points(self.origins@, *f)
                && Some(v.voxel_size) == self.voxel_size.component_mul_spec(*f),
    {
        if f.x <= 0 || f.y <= 0 {
            return None;
        }
        match (scale_points(&self.origins, f), self.voxel_size.component_mul(f)) {
            (Some(o), Some(s)) => {
                assert(s.x > 0 && s.y > 0) by (nonlinear_arith)
                    requires
                        s.x == self.voxel_size.x * f.x,
                        s.y == self.voxel_size.y * f.y,
                        self.voxel_size.x > 0,
                        self.voxel_size.y > 0,
                        f.x > 0,
                        f.y > 0,
                ;
                Some(Voxels { voxel_size: s, origins: o })
            },
            _ => None,
        }
    }
}

} // verus!
