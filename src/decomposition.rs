//! Partition of a triangle mesh into convex polygons by removing the shared
//! edges of adjacent parts while the union stays convex.
use vstd::prelude::*;
use crate::composites::{triangles_valid, vertices_wf};
use crate::math::Point;
use crate::primitives::{all_wf, next_index, turn_exec, turns_left, ConvexPolygon};

verus! {

/// The points named by the indices of `poly`.
pub open spec fn poly_points(poly: Seq<u32>, verts: Seq<Point>) -> Seq<Point> {
    Seq::new(poly.len(), |k: int| verts[poly[k] as int])
}

/// A part: at least three vertex indices, all naming vertices, and a strictly
/// convex counter-clockwise polygon when it has more than three.
pub open spec fn part_ok(poly: Seq<u32>, verts: Seq<Point>) -> bool {
    &&& 3 <= poly.len() <= u32::MAX
    &&& forall|k: int| 0 <= k < poly.len() ==> (#[trigger] poly[k]) < verts.len()
    &&& poly.len() > 3 ==> turns_left(poly_points(poly, verts))
}

pub open spec fn parts_ok(polys: Seq<Vec<u32>>, verts: Seq<Point>) -> bool {
    forall|i: int| 0 <= i < polys.len() ==> part_ok((#[trigger] polys[i])@, verts)
}

/// The points of a part.
pub fn part_points(poly: &Vec<u32>, verts: &Vec<Point>) -> (r: Vec<Point>)
    requires
        forall|k: int| 0 <= k < poly@.len() ==> (#[trigger] poly@[k]) < verts@.len(),
    ensures
        r@ == poly_points(poly@, verts@),
{
    let mut out: Vec<Point> = Vec::new();
    let mut k: usize = 0;
    while k < poly.len()
        invariant
            0 <= k <= poly@.len(),
            forall|j: int| 0 <= j < poly@.len() ==> (#[trigger] poly@[j]) < verts@.len(),
            out@ == poly_points(poly@, verts@).subrange(0, k as int),
        decreases poly@.len() - k,
    {
        out.push(verts[poly[k] as usize]);
        k = k + 1;
        assert(out@ =~= poly_points(poly@, verts@).subrange(0, k as int));
    }
    assert(out@ =~= poly_points(poly@, verts@));
    out
}

/// The index after `i` in a cycle of length `n`.
fn next_of(i: usize, n: usize) -> (r: usize)
    requires
        i < n,
    ensures
        r < n,
        r == next_index(i as int, n as int),
{
    if i + 1 < n {
        i + 1
    } else {
        0
    }
}

/// The cycle `p` walked from its vertex after `i` round to vertex `i`, followed
/// by the cycle `q` walked from its vertex after `j + 1` to the vertex before
/// `j`: the union of two parts glued along the edge `p[i] p[i+1]`, which `q`
/// runs as `q[j] q[j+1]`. Its vertices are those of `p` and `q`.
fn glue(p: &Vec<u32>, i: usize, q: &Vec<u32>, j: usize) -> (r: Vec<u32>)
    requires
        i < p@.len(),
        j < q@.len(),
        3 <= q@.len(),
        q@[j as int] == p@[next_index(i as int, p@.len() as int)],
        q@[next_index(j as int, q@.len() as int)] == p@[i as int],
    ensures
        r@.len() == p@.len() + q@.len() - 2,
        forall|x: u32| #[trigger] r@.contains(x) <==> p@.contains(x) || q@.contains(x),
{
    let n = p.len();
    let m = q.len();
    let mut out: Vec<u32> = Vec::new();
    let mut k: usize = i + 1;
    while k < n
        invariant
            n == p@.len(),
            i < n,
            i + 1 <= k <= n,
            out@.len() == k - (i + 1),
            forall|t: int| 0 <= t < out@.len() ==> #[trigger] out@[t] == p@[i + 1 + t],
        decreases n - k,
    {
        out.push(p[k]);
        k = k + 1;
    }
    let mut k: usize = 0;
    while k <= i
        invariant
            n == p@.len(),
            i < n,
            0 <= k <= i + 1,
            out@.len() == n - 1 - i + k,
            forall|t: int| 0 <= t < n - 1 - i ==> #[trigger] out@[t] == p@[i + 1 + t],
            forall|t: int| 0 <= t < k ==> #[trigger] out@[n - 1 - i + t] == p@[t],
        decreases i + 1 - k,
    {
        out.push(p[k]);
        k = k + 1;
    }
    let ghost after_p = out@;
    assert forall|l: int| 0 <= l < n implies after_p.contains(#[trigger] p@[l]) by {
        if l > i {
            assert(after_p[l - i - 1] == p@[l]);
        } else {
            assert(after_p[n - 1 - i + l] == p@[l]);
        }
    }
    assert forall|t: int| 0 <= t < n implies p@.contains(#[trigger] after_p[t]) by {
        if t < n - 1 - i {
            assert(after_p[t] == p@[i + 1 + t]);
        } else {
            let t2 = t - (n - 1 - i);
            assert(after_p[n - 1 - i + t2] == p@[t2]);
        }
    }
    // The vertices of `q` other than `q[j]` and the one after it.
    let (lo, hi, wrap) = if j + 1 < m {
        (j + 2, m, j)
    } else {
        (1, m - 1, 0)
    };
    let mut k: usize = lo;
    assert(out@.subrange(0, n as int) =~= after_p);
    while k < hi
        invariant
            n == p@.len(),
            m == q@.len(),
            after_p.len() == n,
            lo <= k <= hi <= m,
            out@.len() == n + k - lo,
            out@.subrange(0, n as int) == after_p,
            forall|t: int| 0 <= t < k - lo ==> #[trigger] out@[n + t] == q@[lo + t],
        decreases hi - k,
    {
        let ghost before = out@;
        out.push(q[k]);
        proof {
            assert(out@.subrange(0, n as int) =~= before.subrange(0, n as int));
            assert forall|t: int| 0 <= t < k + 1 - lo implies #[trigger] out@[n + t] == q@[lo + t] by {
                if t < k - lo {
                    assert(out@[n + t] == before[n + t]);
                }
            }
        }
        k = k + 1;
    }
    let mut k: usize = 0;
    while k < wrap
        invariant
            n == p@.len(),
            m == q@.len(),
            after_p.len() == n,
            lo <= hi <= m,
            wrap <= m,
            0 <= k <= wrap,
            out@.len() == n + hi - lo + k,
            out@.subrange(0, n as int) == after_p,
            forall|t: int| 0 <= t < hi - lo ==> #[trigger] out@[n + t] == q@[lo + t],
            forall|t: int| 0 <= t < k ==> #[trigger] out@[n + hi - lo + t] == q@[t],
        decreases wrap - k,
    {
        let ghost before = out@;
        out.push(q[k]);
        proof {
            assert(out@.subrange(0, n as int) =~= before.subrange(0, n as int));
            assert forall|t: int| 0 <= t < hi - lo implies #[trigger] out@[n + t] == q@[lo + t] by {
                assert(out@[n + t] == before[n + t]);
            }
            assert forall|t: int| 0 <= t < k + 1 implies #[trigger] out@[n + hi - lo + t] == q@[t] by {
                if t < k {
                    assert(out@[n + hi - lo + t] == before[n + hi - lo + t]);
                }
            }
        }
        k = k + 1;
    }
    let ghost nj = next_index(j as int, m as int);
    assert forall|x: u32| #[trigger] out@.contains(x) implies p@.contains(x) || q@.contains(x) by {
        let t = choose|t: int| 0 <= t < out@.len() && out@[t] == x;
        if t < n {
            assert(out@[t] == after_p[t]);
        } else if t < n + hi - lo {
            let t2 = t - n;
            assert(out@[n + t2] == q@[lo + t2]);
        } else {
            let t3 = t - n - (hi - lo);
            assert(out@[n + hi - lo + t3] == q@[t3]);
        }
    }
    assert forall|x: u32| p@.contains(x) || q@.contains(x) implies #[trigger] out@.contains(x) by {
        if p@.contains(x) {
            let l = choose|l: int| 0 <= l < n && p@[l] == x;
            assert(after_p.contains(p@[l]));
            let t = choose|t: int| 0 <= t < after_p.len() && after_p[t] == x;
            assert(out@[t] == after_p[t]);
        } else {
            let l = choose|l: int| 0 <= l < m && q@[l] == x;
            if l == j {
                assert(after_p.contains(p@[nj]));
                let t = choose|t: int| 0 <= t < after_p.len() && after_p[t] == x;
                assert(out@[t] == after_p[t]);
            } else if l == nj {
                assert(after_p.contains(p@[i as int]));
                let t = choose|t: int| 0 <= t < after_p.len() && after_p[t] == x;
                assert(out@[t] == after_p[t]);
            } else if lo <= l < hi {
                assert(out@[n + (l - lo)] == q@[l]);
            } else {
                assert(out@[n + hi - lo + l] == q@[l]);
            }
        }
    }
    out
}

/// Two distinct parts that share an edge (run in opposite directions) and
/// whose union is a strictly convex polygon, with that union; `None` when no
/// two parts can be merged.
fn find_merge(polys: &Vec<Vec<u32>>, verts: &Vec<Point>) -> (r: Option<(usize, usize, Vec<u32>)>)
    requires
        parts_ok(polys@, verts@),
        all_wf(verts@),
    ensures
        r matches Some((a, b, g)) ==> a < polys@.len() && b < polys@.len() && a != b && part_ok(
            g@,
            verts@,
        ) && forall|x: u32|
            #[trigger] g@.contains(x) <==> polys@[a as int]@.contains(x) || polys@[b as int]@.contains(x),
{
    let nv = verts.len();
    let mut a: usize = 0;
    while a < polys.len()
        invariant
            parts_ok(polys@, verts@),
            all_wf(verts@),
            nv == verts@.len(),
        decreases polys@.len() - a,
    {
        let mut b: usize = 0;
        while b < polys.len()
            invariant
                parts_ok(polys@, verts@),
                all_wf(verts@),
                nv == verts@.len(),
                a < polys@.len(),
            decreases polys@.len() - b,
        {
            if a != b {
                let p = &polys[a];
                let q = &polys[b];
                assert(part_ok(polys@[a as int]@, verts@));
                assert(part_ok(polys@[b as int]@, verts@));
                let mut i: usize = 0;
                while i < p.len()
                    invariant
                        parts_ok(polys@, verts@),
                        all_wf(verts@),
                        nv == verts@.len(),
                        a < polys@.len(),
                        b < polys@.len(),
                        a != b,
                        p == &polys@[a as int],
                        q == &polys@[b as int],
                        part_ok(p@, verts@),
                        part_ok(q@, verts@),
                    decreases p@.len() - i,
                {
                    let u = p[i];
                    let v = p[next_of(i, p.len())];
                    let mut j: usize = 0;
                    while j < q.len()
                        invariant
                            parts_ok(polys@, verts@),
                            all_wf(verts@),
                            nv == verts@.len(),
                            a < polys@.len(),
                            b < polys@.len(),
                            a != b,
                            i < p@.len(),
                            u == p@[i as int],
                            v == p@[next_index(i as int, p@.len() as int)],
                            p == &polys@[a as int],
                            q == &polys@[b as int],
                            part_ok(p@, verts@),
                            part_ok(q@, verts@),
                        decreases q@.len() - j,
                    {
                        if q[j] == v && q[next_of(j, q.len())] == u && p.len() - 2
                            <= u32::MAX as usize - q.len() {
                            assert(q@[j as int] == p@[next_index(i as int, p@.len() as int)]);
                            assert(q@[next_index(j as int, q@.len() as int)] == p@[i as int]);
                            let g = glue(p, i, q, j);
                            proof {
                                assert forall|t: int| 0 <= t < g@.len() implies (#[trigger] g@[t]) < nv by {
                                    assert(g@.contains(g@[t]));
                                    if p@.contains(g@[t]) {
                                        let l = choose|l: int| 0 <= l < p@.len() && p@[l] == g@[t];
                                    } else {
                                        let l = choose|l: int| 0 <= l < q@.len() && q@[l] == g@[t];
                                    }
                                }
                            }
                            let pts = part_points(&g, verts);
                            proof {
                                assert forall|k: int| 0 <= k < pts@.len() implies (#[trigger] pts@[k]).wf() by {
                                    assert(verts@[g@[k] as int].wf());
                                }
                            }
                            if ConvexPolygon::from_convex_polyline(pts).is_some() {
                                return Some((a, b, g));
                            }
                        }
                        j = j + 1;
                    }
                    i = i + 1;
                }
            }
            b = b + 1;
        }
        a = a + 1;
    }
    None
}

/// The views of a sequence of parts.
pub open spec fn views(s: Seq<Vec<u32>>) -> Seq<Seq<u32>> {
    Seq::new(s.len(), |i: int| s[i]@)
}

/// Triangle `t` of the mesh has the vertex index `x`.
pub open spec fn tri_has(idx: Seq<[u32; 3]>, t: int, x: u32) -> bool {
    idx[t][0] == x || idx[t][1] == x || idx[t][2] == x
}

/// `parts` partitions the mesh's triangles, triangle `t` lying in part
/// `owner[t]`: every part holds a triangle, and the vertices of each part are
/// exactly the vertices of its triangles.
pub open spec fn is_partition_by(parts: Seq<Seq<u32>>, idx: Seq<[u32; 3]>, owner: Seq<int>) -> bool {
    &&& owner.len() == idx.len()
    &&& forall|t: int| 0 <= t < idx.len() ==> 0 <= #[trigger] owner[t] < parts.len()
    &&& forall|g: int| 0 <= g < parts.len() ==> #[trigger] owns_some(owner, idx.len() as int, g)
    &&& forall|g: int, x: u32|
        0 <= g < parts.len() ==> (#[trigger] parts[g].contains(x) <==> exists|t: int|
            0 <= t < idx.len() && owner[t] == g && #[trigger] tri_has(idx, t, x))
}

/// Some of the `n` triangles is owned by part `g`.
pub open spec fn owns_some(owner: Seq<int>, n: int, g: int) -> bool {
    exists|t: int| 0 <= t < n && #[trigger] owner[t] == g
}

/// `parts` partitions the mesh's triangles (see `is_partition_by`).
pub open spec fn is_partition(parts: Seq<Seq<u32>>, idx: Seq<[u32; 3]>) -> bool {
    exists|owner: Seq<int>| is_partition_by(parts, idx, owner)
}

/// Merging parts `a` and `b` into `g` (whose vertices are theirs), then
/// dropping `b`, keeps a partition.
proof fn lemma_merge_keeps_partition(
    old: Seq<Seq<u32>>,
    new: Seq<Seq<u32>>,
    idx: Seq<[u32; 3]>,
    owner: Seq<int>,
    a: int,
    b: int,
    g: Seq<u32>,
) -> (owner2: Seq<int>)
    requires
        is_partition_by(old, idx, owner),
        0 <= a < old.len(),
        0 <= b < old.len(),
        a != b,
        forall|x: u32| #[trigger] g.contains(x) <==> old[a].contains(x) || old[b].contains(x),
        new == old.update(a, g).remove(b),
    ensures
        is_partition_by(new, idx, owner2),
{
    let sh = |x: int| if x > b { x - 1 } else { x };
    let unsh = |y: int| if y >= b { y + 1 } else { y };
    let owner2 = Seq::new(owner.len(), |t: int| if owner[t] == b { sh(a) } else { sh(owner[t]) });
    assert forall|t: int| 0 <= t < idx.len() implies 0 <= #[trigger] owner2[t] < new.len() by {
        assert(0 <= owner[t] < old.len());
    }
    assert forall|y: int| 0 <= y < new.len() implies #[trigger] owns_some(owner2, idx.len() as int, y) by {
        let x = unsh(y);
        assert(0 <= x < old.len() && x != b);
        assert(owns_some(owner, idx.len() as int, x));
        let t = choose|t: int| 0 <= t < idx.len() && #[trigger] owner[t] == x;
        assert(owner2[t] == y);
    }
    assert forall|y: int, x: u32| 0 <= y < new.len() implies (#[trigger] new[y].contains(x) <==> exists|t: int|
        0 <= t < idx.len() && owner2[t] == y && #[trigger] tri_has(idx, t, x)) by {
        let o = unsh(y);
        assert(0 <= o < old.len() && o != b);
        if o == a {
            assert(new[y] == g);
            if g.contains(x) {
                if old[a].contains(x) {
                    let t = choose|t: int| 0 <= t < idx.len() && owner[t] == a && #[trigger] tri_has(idx, t, x);
                    assert(owner2[t] == y);
                } else {
                    assert(old[b].contains(x));
                    let t = choose|t: int| 0 <= t < idx.len() && owner[t] == b && #[trigger] tri_has(idx, t, x);
                    assert(owner2[t] == y);
                }
            }
            if exists|t: int| 0 <= t < idx.len() && owner2[t] == y && #[trigger] tri_has(idx, t, x) {
                let t = choose|t: int| 0 <= t < idx.len() && owner2[t] == y && #[trigger] tri_has(idx, t, x);
                assert(0 <= owner[t] < old.len());
                if owner[t] == b {
                    assert(old[b].contains(x));
                } else {
                    assert(owner[t] == a);
                    assert(old[a].contains(x));
                }
            }
        } else {
            assert(new[y] == old[o]);
            if old[o].contains(x) {
                let t = choose|t: int| 0 <= t < idx.len() && owner[t] == o && #[trigger] tri_has(idx, t, x);
                assert(owner2[t] == y);
            }
            if exists|t: int| 0 <= t < idx.len() && owner2[t] == y && #[trigger] tri_has(idx, t, x) {
                let t = choose|t: int| 0 <= t < idx.len() && owner2[t] == y && #[trigger] tri_has(idx, t, x);
                assert(0 <= owner[t] < old.len());
                assert(owner[t] == o);
                assert(old[o].contains(x));
            }
        }
    }
    owner2
}

/// A partition of the mesh into convex parts: its triangles, oriented
/// counter-clockwise, merged two at a time across a shared edge for as long as
/// some merge gives a strictly convex polygon. Each part's vertices are those
/// of the triangles it gathers, and each triangle lies in exactly one part.
pub fn convex_partition(verts: &Vec<Point>, indices: &Vec<[u32; 3]>) -> (r: Vec<Vec<u32>>)
    requires
        vertices_wf(verts@),
        triangles_valid(indices@, verts@.len() as int),
    ensures
        parts_ok(r@, verts@),
        is_partition(views(r@), indices@),
        r@.len() <= indices@.len(),
        indices@.len() > 0 ==> r@.len() > 0,
{
    let mut polys: Vec<Vec<u32>> = Vec::new();
    let mut i: usize = 0;
    let ghost owner: Seq<int> = Seq::empty();
    while i < indices.len()
        invariant
            vertices_wf(verts@),
            triangles_valid(indices@, verts@.len() as int),
            0 <= i <= indices@.len(),
            polys@.len() == i,
            parts_ok(polys@, verts@),
            owner == Seq::new(i as nat, |t: int| t),
            forall|g: int, x: u32|
                0 <= g < i ==> (#[trigger] polys@[g]@.contains(x) <==> tri_has(indices@, g, x)),
        decreases indices@.len() - i,
    {
        let t = indices[i];
        assert(t == indices@[i as int]);
        let mut poly: Vec<u32> = Vec::new();
        poly.push(t[0]);
        if turn_exec(verts[t[0] as usize], verts[t[1] as usize], verts[t[2] as usize]) < 0 {
            poly.push(t[2]);
            poly.push(t[1]);
        } else {
            poly.push(t[1]);
            poly.push(t[2]);
        }
        proof {
            assert forall|x: u32| #[trigger] poly@.contains(x) <==> tri_has(indices@, i as int, x) by {
                if tri_has(indices@, i as int, x) {
                    if x == t[0] {
                        assert(poly@[0] == x);
                    } else if x == t[1] {
                        assert(poly@[1] == x || poly@[2] == x);
                    } else {
                        assert(poly@[1] == x || poly@[2] == x);
                    }
                }
            }
        }
        let ghost before = polys@;
        polys.push(poly);
        proof {
            owner = owner.push(i as int);
            assert(owner =~= Seq::new((i + 1) as nat, |t: int| t));
            assert forall|g: int, x: u32| 0 <= g < i + 1 implies (#[trigger] polys@[g]@.contains(x)
                <==> tri_has(indices@, g, x)) by {
                if g < i {
                    assert(polys@[g] == before[g]);
                }
            }
        }
        i = i + 1;
    }
    proof {
        assert forall|g: int| 0 <= g < views(polys@).len() implies #[trigger] owns_some(
            owner,
            indices@.len() as int,
            g,
        ) by {
            assert(owner[g] == g);
        }
        assert forall|g: int, x: u32| 0 <= g < views(polys@).len() implies (#[trigger] views(
            polys@,
        )[g].contains(x) <==> exists|t: int|
            0 <= t < indices@.len() && owner[t] == g && #[trigger] tri_has(indices@, t, x)) by {
            assert(views(polys@)[g] == polys@[g]@);
            if tri_has(indices@, g, x) {
                assert(owner[g] == g);
            }
        }
        assert(is_partition_by(views(polys@), indices@, owner));
    }
    loop
        invariant
            vertices_wf(verts@),
            parts_ok(polys@, verts@),
            is_partition_by(views(polys@), indices@, owner),
            polys@.len() <= indices@.len(),
            indices@.len() > 0 ==> polys@.len() > 0,
        decreases polys@.len(),
    {
        match find_merge(&polys, verts) {
            Some((a, b, g)) => {
                let ghost old = polys@;
                let ghost gv = g@;
                polys.set(a, g);
                let ghost mid = polys@;
                polys.remove(b);
                proof {
                    assert forall|k: int| 0 <= k < polys@.len() implies part_ok((#[trigger] polys@[k])@, verts@) by {
                        if k < b {
                            assert(polys@[k] == mid[k]);
                        } else {
                            assert(polys@[k] == mid[k + 1]);
                        }
                    }
                    assert(views(polys@) =~= views(old).update(a as int, gv).remove(b as int));
                    owner = lemma_merge_keeps_partition(views(old), views(polys@), indices@, owner, a as int, b as int, gv);
                }
            },
            None => {
                break;
            },
        }
    }
    polys
}

} // verus!
