//! Axis-aligned boxes and bounding spheres.
use vstd::prelude::*;
use crate::math::{Isometry, Point, Vector, AABB_BOUND, MAX_COORD};

verus! {


/// An axis-aligned box `[mins.x, maxs.x] × [mins.y, maxs.y]`. A box with a
/// minimum above its maximum on some axis is empty.
#[derive(Clone, Copy, Debug, PartialEq, Eq, Structural)]
pub struct Aabb {
    pub mins: Point,
    pub maxs: Point,
}

pub open spec fn min_i(a: i64, b: i64) -> i64 {
    if a <= b { a } else { b }
}

pub open spec fn max_i(a: i64, b: i64) -> i64 {
    if a >= b { a } else { b }
}

impl Aabb {
    pub open spec fn is_empty(self) -> bool {
        self.mins.x > self.maxs.x || self.mins.y > self.maxs.y
    }

    pub open spec fn bounded(self, b: int) -> bool {
        self.mins.bounded(b) && self.maxs.bounded(b)
    }

    pub open spec fn contains_point(self, x: int, y: int) -> bool {
        self.mins.x <= x <= self.maxs.x && self.mins.y <= y <= self.maxs.y
    }

    /// Every point of `other` lies in `self`.
    pub open spec fn contains(self, other: Aabb) -> bool {
        other.is_empty() || (self.mins.x <= other.mins.x && other.maxs.x <= self.maxs.x
            && self.mins.y <= other.mins.y && other.maxs.y <= self.maxs.y)
    }

    /// The empty box that is the identity of `merged_spec`.
    pub open spec fn invalid_spec() -> Aabb {
        Aabb {
            mins: Vector { x: i64::MAX, y: i64::MAX },
            maxs: Vector { x: i64::MIN, y: i64::MIN },
        }
    }

    /// The smallest box holding both boxes (componentwise bounds).
    pub open spec fn merged_spec(self, o: Aabb) -> Aabb {
        Aabb {
            mins: Vector { x: min_i(self.mins.x, o.mins.x), y: min_i(self.mins.y, o.mins.y) },
            maxs: Vector { x: max_i(self.maxs.x, o.maxs.x), y: max_i(self.maxs.y, o.maxs.y) },
        }
    }

    /// The box grown by `r` on every side.
    pub open spec fn loosened_spec(self, r: i64) -> Aabb {
        Aabb {
            mins: Vector { x: (self.mins.x - r) as i64, y: (self.mins.y - r) as i64 },
            maxs: Vector { x: (self.maxs.x + r) as i64, y: (self.maxs.y + r) as i64 },
        }
    }

    /// The smallest box holding the image of this box under `m`.
    #[verifier::opaque]
    pub open spec fn transform_spec(self, m: Isometry) -> Aabb {
        let (lx, hx, ly, hy) = if m.quarter_turns == 0 {
            (self.mins.x as int, self.maxs.x as int, self.mins.y as int, self.maxs.y as int)
        } else if m.quarter_turns == 1 {
            (-self.maxs.y, -self.mins.y, self.mins.x as int, self.maxs.x as int)
        } else if m.quarter_turns == 2 {
            (-self.maxs.x, -self.mins.x, -self.maxs.y, -self.mins.y)
        } else {
            (self.mins.y as int, self.maxs.y as int, -self.maxs.x, -self.mins.x)
        };
        Aabb {
            mins: Vector {
                x: (lx + m.translation.x) as i64,
                y: (ly + m.translation.y) as i64,
            },
            maxs: Vector {
                x: (hx + m.translation.x) as i64,
                y: (hy + m.translation.y) as i64,
            },
        }
    }

    pub fn new(mins: Point, maxs: Point) -> (r: Aabb)
        ensures
            r.mins == mins,
            r.maxs == maxs,
    {
        Aabb { mins, maxs }
    }

    /// The empty box that every merge starts from.
    pub fn new_invalid() -> (r: Aabb)
        ensures
            r == Aabb::invalid_spec(),
            r.is_empty(),
    {
        Aabb {
            mins: Vector { x: i64::MAX, y: i64::MAX },
            maxs: Vector { x: i64::MIN, y: i64::MIN },
        }
    }

    /// Grows this box so that it also holds `other`.
    pub fn merge(&mut self, other: &Aabb)
        ensures
            *final(self) == old(self).merged_spec(*other),
    {
        let m = self.merged(other);
        *self = m;
    }

    pub fn merged(&self, other: &Aabb) -> (r: Aabb)
        ensures
            r == self.merged_spec(*other),
    {
        Aabb {
            mins: Vector {
                x: if self.mins.x <= other.mins.x { self.mins.x } else { other.mins.x },
                y: if self.mins.y <= other.mins.y { self.mins.y } else { other.mins.y },
            },
            maxs: Vector {
                x: if self.maxs.x >= other.maxs.x { self.maxs.x } else { other.maxs.x },
                y: if self.maxs.y >= other.maxs.y { self.maxs.y } else { other.maxs.y },
            },
        }
    }

    /// This box grown by `r` on every side.
    pub fn loosened(&self, r: i64) -> (res: Aabb)
        requires
            self.bounded(AABB_BOUND as int),
            0 <= r <= MAX_COORD,
        ensures
            res == self.loosened_spec(r),
            res.bounded(AABB_BOUND + MAX_COORD),
    {
        Aabb {
            mins: Vector { x: self.mins.x - r, y: self.mins.y - r },
            maxs: Vector { x: self.maxs.x + r, y: self.maxs.y + r },
        }
    }

    /// The smallest box holding the image of this box under `m`.
    pub fn transform_by(&self, m: &Isometry) -> (r: Aabb)
        requires
            self.bounded(AABB_BOUND as int),
            m.wf(),
        ensures
            r == self.transform_spec(*m),
            r.bounded(AABB_BOUND + MAX_COORD),
    {
        let (lx, hx, ly, hy) = if m.quarter_turns == 0 {
            (self.mins.x, self.maxs.x, self.mins.y, self.maxs.y)
        } else if m.quarter_turns == 1 {
            (-self.maxs.y, -self.mins.y, self.mins.x, self.maxs.x)
        } else if m.quarter_turns == 2 {
            (-self.maxs.x, -self.mins.x, -self.maxs.y, -self.mins.y)
        } else {
            (self.mins.y, self.maxs.y, -self.maxs.x, -self.mins.x)
        };
        let t = m.translation;
        proof {
            reveal(Aabb::transform_spec);
        }
        Aabb {
            mins: Vector { x: lx + t.x, y: ly + t.y },
            maxs: Vector { x: hx + t.x, y: hy + t.y },
        }
    }

    /// Half of the extent of the box along each axis, rounded down.
    pub fn half_extents(&self) -> (r: Vector)
        requires
            !self.is_empty(),
            self.bounded(AABB_BOUND as int),
        ensures
            r.x == (self.maxs.x - self.mins.x) / 2,
            r.y == (self.maxs.y - self.mins.y) / 2,
    {
        Vector { x: (self.maxs.x - self.mins.x) / 2, y: (self.maxs.y - self.mins.y) / 2 }
    }
}


/// `r` is the smallest natural number whose square reaches `n`.
pub open spec fn is_ceil_sqrt(n: int, r: int) -> bool {
    &&& 0 <= r
    &&& n <= r * r
    &&& (r == 0 || (r - 1) * (r - 1) < n)
}

/// The smallest natural number whose square reaches `n`.
pub open spec fn ceil_sqrt_spec(n: int) -> int {
    choose|r: int| is_ceil_sqrt(n, r)
}

/// There is exactly one such number.
pub proof fn lemma_ceil_sqrt_unique(n: int, r: int)
    requires
        is_ceil_sqrt(n, r),
    ensures
        ceil_sqrt_spec(n) == r,
{
    let c = ceil_sqrt_spec(n);
    assert(is_ceil_sqrt(n, c));
    if c < r {
        assert((c as int) * c <= (r - 1) * (r - 1)) by (nonlinear_arith)
            requires
                0 <= c <= r - 1,
        ;
    } else if r < c {
        assert((r as int) * r <= (c - 1) * (c - 1)) by (nonlinear_arith)
            requires
                0 <= r <= c - 1,
        ;
    }
}

/// The smallest `r` with `r * r >= n`.
pub fn ceil_sqrt(n: u128) -> (r: u64)
    requires
        n <= 0x1_0000_0000_0000_0000_0000_0000,
    ensures
        n <= (r as int) * (r as int),
        r == 0 || ((r - 1) as int) * ((r - 1) as int) < n,
        r <= 0x10_0000_0000_0000,
{
    if n == 0 {
        return 0;
    }
    let mut lo: u64 = 0;
    let mut hi: u64 = 0x10_0000_0000_0000;
    assert(n <= (hi as int) * (hi as int)) by (nonlinear_arith)
        requires
            hi == 0x10_0000_0000_0000,
            n <= 0x1_0000_0000_0000_0000_0000_0000,
    ;
    while hi - lo > 1
        invariant
            lo < hi <= 0x10_0000_0000_0000,
            (lo as int) * (lo as int) < n,
            n <= (hi as int) * (hi as int),
        decreases hi - lo,
    {
        let mid: u64 = lo + (hi - lo) / 2;
        assert((mid as int) * (mid as int) <= 0x100_0000_0000_0000_0000_0000_0000) by (nonlinear_arith)
            requires
                mid <= 0x10_0000_0000_0000,
        ;
        let sq: u128 = (mid as u128) * (mid as u128);
        if sq >= n {
            hi = mid;
        } else {
            lo = mid;
        }
    }
    hi
}

/// A disc given by its center and radius.
#[derive(Clone, Copy, Debug, PartialEq, Eq, Structural)]
pub struct BoundingSphere {
    pub center: Point,
    pub radius: i64,
}

pub open spec fn sq(x: int) -> int {
    x * x
}

impl BoundingSphere {
    pub open spec fn contains_point(self, x: int, y: int) -> bool {
        sq(x - self.center.x) + sq(y - self.center.y) <= sq(self.radius as int)
    }

    /// The disc holds every point of the box.
    pub open spec fn contains_aabb(self, b: Aabb) -> bool {
        forall|x: int, y: int| b.contains_point(x, y) ==> #[trigger] self.contains_point(x, y)
    }

    pub open spec fn loosened_spec(self, r: i64) -> BoundingSphere {
        BoundingSphere { center: self.center, radius: (self.radius + r) as i64 }
    }

    pub open spec fn transform_spec(self, m: Isometry) -> BoundingSphere {
        let c = m.apply_spec(self.center.x as int, self.center.y as int);
        BoundingSphere { center: Vector { x: c.0 as i64, y: c.1 as i64 }, radius: self.radius }
    }

    pub fn new(center: Point, radius: i64) -> (r: BoundingSphere)
        ensures
            r.center == center,
            r.radius == radius,
    {
        BoundingSphere { center, radius }
    }

    /// This disc with its radius grown by `r`.
    pub fn loosened(&self, r: i64) -> (res: BoundingSphere)
        requires
            0 <= self.radius <= 8 * AABB_BOUND,
            0 <= r <= MAX_COORD,
        ensures
            res == self.loosened_spec(r),
    {
        BoundingSphere { center: self.center, radius: self.radius + r }
    }

    /// The image of this disc under `m`.
    pub fn transform_by(&self, m: &Isometry) -> (res: BoundingSphere)
        requires
            self.center.bounded(AABB_BOUND as int),
            m.wf(),
        ensures
            res == self.transform_spec(*m),
    {
        BoundingSphere { center: m.transform_point(&self.center), radius: self.radius }
    }
}

impl Aabb {
    /// The center of the box, rounded down to the lattice.
    pub open spec fn center_spec(self) -> Vector {
        Vector {
            x: (self.mins.x + (self.maxs.x - self.mins.x) / 2) as i64,
            y: (self.mins.y + (self.maxs.y - self.mins.y) / 2) as i64,
        }
    }

    /// The smallest disc centered at `center_spec` that holds the box.
    pub open spec fn bounding_sphere_spec(self) -> BoundingSphere {
        let c = self.center_spec();
        let d2 = sq(self.maxs.x - c.x) + sq(self.maxs.y - c.y);
        BoundingSphere { center: c, radius: ceil_sqrt_spec(d2) as i64 }
    }

    /// The disc centered at the box's (rounded) center with the smallest
    /// radius that holds the box.
    pub fn bounding_sphere(&self) -> (r: BoundingSphere)
        requires
            !self.is_empty(),
            self.bounded(2 * AABB_BOUND),
        ensures
            r == self.bounding_sphere_spec(),
            r.contains_aabb(*self),
            0 <= r.radius <= 8 * AABB_BOUND,
    {
        let cx = self.mins.x + (self.maxs.x - self.mins.x) / 2;
        let cy = self.mins.y + (self.maxs.y - self.mins.y) / 2;
        let dx = (self.maxs.x - cx) as u128;
        let dy = (self.maxs.y - cy) as u128;
        assert(dx * dx + dy * dy <= 0x800_0000_0000_0000_0000_0000) by (nonlinear_arith)
            requires
                dx <= 0x2000_0000_0000,
                dy <= 0x2000_0000_0000,
        ;
        let r = ceil_sqrt(dx * dx + dy * dy);
        if r > 0x4000_0000_0000 {
            assert(((r - 1) as int) * ((r - 1) as int) >= 0x1000_0000_0000_0000_0000_0000)
                by (nonlinear_arith)
                requires
                    r - 1 >= 0x4000_0000_0000,
            ;
        }
        let s = BoundingSphere { center: Vector { x: cx, y: cy }, radius: r as i64 };
        proof {
            lemma_ceil_sqrt_unique((dx * dx + dy * dy) as int, r as int);
        }
        assert forall|x: int, y: int| self.contains_point(x, y) implies #[trigger] s.contains_point(x, y) by {
            lemma_sq_le(x - cx, dx as int);
            lemma_sq_le(y - cy, dy as int);
        }
        s
    }
}

/// The smallest box holding every box of `s`; empty for an empty sequence.
pub open spec fn union_of(s: Seq<Aabb>) -> Aabb
    decreases s.len(),
{
    if s.len() == 0 {
        Aabb::invalid_spec()
    } else {
        union_of(s.drop_last()).merged_spec(s.last())
    }
}

/// The union of non-empty sequence of boxes within `[-b, b]` is within it too,
/// and it is not empty.
pub proof fn lemma_union_bounded(s: Seq<Aabb>, b: int)
    requires
        s.len() > 0,
        forall|i: int| 0 <= i < s.len() ==> (#[trigger] s[i]).bounded(b),
    ensures
        union_of(s).bounded(b),
    decreases s.len(),
{
    if s.len() == 1 {
        assert(union_of(s.drop_last()) == Aabb::invalid_spec());
    } else {
        assert forall|i: int| 0 <= i < s.drop_last().len() implies (#[trigger] s.drop_last()[i]).bounded(b) by {
            assert(s.drop_last()[i] == s[i]);
        }
        lemma_union_bounded(s.drop_last(), b);
    }
}

/// The union holds each of its boxes.
pub proof fn lemma_union_contains(s: Seq<Aabb>, i: int)
    requires
        0 <= i < s.len(),
    ensures
        union_of(s).contains(s[i]),
    decreases s.len(),
{
    if i < s.len() - 1 {
        lemma_union_contains(s.drop_last(), i);
    }
}

/// A transformed box stays within `MAX_COORD` of the bound of the given box.
pub proof fn lemma_transform_bounded(a: Aabb, m: Isometry, b: int)
    requires
        a.bounded(b),
        m.wf(),
        0 <= b <= AABB_BOUND,
    ensures
        a.transform_spec(m).bounded(b + MAX_COORD),
        !a.is_empty() ==> !a.transform_spec(m).is_empty(),
{
    reveal(Aabb::transform_spec);
}

/// A box that holds every (non-empty) box of a non-empty sequence holds their
/// union.
pub proof fn lemma_union_within(s: Seq<Aabb>, x: Aabb)
    requires
        s.len() > 0,
        forall|i: int| 0 <= i < s.len() ==> !(#[trigger] s[i]).is_empty() && x.contains(s[i]),
    ensures
        x.contains(union_of(s)),
        !union_of(s).is_empty(),
    decreases s.len(),
{
    if s.len() == 1 {
        assert(union_of(s.drop_last()) == Aabb::invalid_spec());
        assert(s[0] == s.last());
    } else {
        assert forall|i: int| 0 <= i < s.drop_last().len() implies !(#[trigger] s.drop_last()[i]).is_empty()
            && x.contains(s.drop_last()[i]) by {
            assert(s.drop_last()[i] == s[i]);
        }
        lemma_union_within(s.drop_last(), x);
        assert(s.last() == s[s.len() - 1]);
    }
}

/// Two non-empty sequences of non-empty boxes, each of whose boxes lies in the
/// union of the other, have the same union.
pub proof fn lemma_union_eq(a: Seq<Aabb>, b: Seq<Aabb>)
    requires
        a.len() > 0,
        b.len() > 0,
        forall|i: int| 0 <= i < a.len() ==> !(#[trigger] a[i]).is_empty() && union_of(b).contains(a[i]),
        forall|i: int| 0 <= i < b.len() ==> !(#[trigger] b[i]).is_empty() && union_of(a).contains(b[i]),
    ensures
        union_of(a) == union_of(b),
{
    lemma_union_within(a, union_of(b));
    lemma_union_within(b, union_of(a));
}

/// `|a| <= b` bounds the square.
pub proof fn lemma_sq_le(a: int, b: int)
    requires
        -b <= a <= b,
    ensures
        sq(a) <= sq(b),
{
    assert(a * a <= b * b) by (nonlinear_arith)
        requires
            -b <= a <= b,
    ;
}

} // verus!
