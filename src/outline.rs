//! Lattice outlines of discs and capsules: the rhombus through the four points
//! of an (axis-scaled) circle on the axes, swept along a segment.
use vstd::prelude::*;
use crate::math::{Point, Vector, MAX_COORD};
use crate::primitives::{next_index, turn, turn_at, turns_left, ConvexPolygon};

verus! {

/// Vertex `k` (taken modulo four) of the rhombus with half-diagonals `ha`
/// along `x` and `hb` along `y`, counter-clockwise from the positive `x` axis.
pub open spec fn rv(ha: int, hb: int, k: int) -> (int, int) {
    let k = k % 4;
    if k == 0 {
        (ha, 0)
    } else if k == 1 {
        (0, hb)
    } else if k == 2 {
        (-ha, 0)
    } else {
        (0, -hb)
    }
}

pub open spec fn add2(p: (int, int), q: (int, int)) -> (int, int) {
    (p.0 + q.0, p.1 + q.1)
}

/// `hb * d.x + ha * d.y`: with `qq`, it locates `d` among the rhombus's edge
/// directions.
pub open spec fn pp(ha: int, hb: int, d: (int, int)) -> int {
    hb * d.0 + ha * d.1
}

/// `ha * d.y - hb * d.x`.
pub open spec fn qq(ha: int, hb: int, d: (int, int)) -> int {
    ha * d.1 - hb * d.0
}

/// The index `k` such that the direction of `d` lies after the rhombus edge
/// ending at vertex `k` and no later than the edge leaving it.
pub open spec fn sector(ha: int, hb: int, d: (int, int)) -> int {
    let p = pp(ha, hb, d);
    let q = qq(ha, hb, d);
    if q > 0 && p >= 0 {
        0
    } else if p < 0 && q >= 0 {
        1
    } else if q < 0 && p <= 0 {
        2
    } else {
        3
    }
}

/// The cross product of `d` with the rhombus edge leaving vertex `k` (for `k`
/// from zero to four, four naming vertex zero again).
pub open spec fn edge_cross(ha: int, hb: int, d: (int, int), k: int) -> int {
    let p = pp(ha, hb, d);
    let q = qq(ha, hb, d);
    if k == 0 || k == 4 {
        p
    } else if k == 1 {
        q
    } else if k == 2 {
        -p
    } else {
        -q
    }
}

/// The outline of the rhombus swept from `a` to `a + d`, counter-clockwise:
/// the rhombus itself when `d` is zero, otherwise its vertices before the
/// sweep direction taken at `a` and those after it taken at `a + d`.
pub open spec fn outline_int(a: (int, int), d: (int, int), ha: int, hb: int) -> Seq<(int, int)> {
    let b = add2(a, d);
    if d.0 == 0 && d.1 == 0 {
        seq![add2(rv(ha, hb, 0), a), add2(rv(ha, hb, 1), a), add2(rv(ha, hb, 2), a), add2(rv(ha, hb, 3), a)]
    } else {
        let k = sector(ha, hb, d);
        if edge_cross(ha, hb, d, k) == 0 {
            seq![
                add2(rv(ha, hb, k), a),
                add2(rv(ha, hb, k + 1), b),
                add2(rv(ha, hb, k + 2), b),
                add2(rv(ha, hb, k + 3), a),
            ]
        } else {
            seq![
                add2(rv(ha, hb, k), a),
                add2(rv(ha, hb, k), b),
                add2(rv(ha, hb, k + 1), b),
                add2(rv(ha, hb, k + 2), b),
                add2(rv(ha, hb, k + 2), a),
                add2(rv(ha, hb, k + 3), a),
            ]
        }
    }
}

/// Every coordinate of `s` lies in `[-MAX_COORD, MAX_COORD]`.
pub open spec fn ints_in_range(s: Seq<(int, int)>) -> bool {
    forall|i: int|
        0 <= i < s.len() ==> -MAX_COORD <= (#[trigger] s[i]).0 <= MAX_COORD && -MAX_COORD <= s[i].1
            <= MAX_COORD
}

/// The lattice points with the coordinates of `s`.
pub open spec fn to_points(s: Seq<(int, int)>) -> Seq<Point> {
    Seq::new(s.len(), |i: int| Vector { x: s[i].0 as i64, y: s[i].1 as i64 })
}

pub open spec fn turn_int(p: (int, int), q: (int, int), s: (int, int)) -> int {
    (q.0 - p.0) * (s.1 - q.1) - (q.1 - p.1) * (s.0 - q.0)
}

/// The swept rhombus turns strictly left at every vertex.
pub proof fn lemma_outline_turns_left(a: (int, int), d: (int, int), ha: int, hb: int)
    requires
        ha > 0,
        hb > 0,
        ints_in_range(outline_int(a, d, ha, hb)),
    ensures
        turns_left(to_points(outline_int(a, d, ha, hb))),
{
    let s = outline_int(a, d, ha, hb);
    let t = to_points(s);
    let n = s.len() as int;
    assert forall|i: int| 0 <= i < n implies #[trigger] turn_at(t, i) > 0 by {
        reveal(turn);
        let j = next_index(i, n);
        let l = next_index(j, n);
        assert(t[i].x == s[i].0 && t[i].y == s[i].1);
        assert(t[j].x == s[j].0 && t[j].y == s[j].1);
        assert(t[l].x == s[l].0 && t[l].y == s[l].1);
        lemma_outline_turn(a, d, ha, hb, i);
    }
}

/// The turn at vertex `i + 1` of the swept rhombus is positive.
#[verifier::spinoff_prover]
#[verifier::rlimit(100)]
proof fn lemma_outline_turn(a: (int, int), d: (int, int), ha: int, hb: int, i: int)
    requires
        ha > 0,
        hb > 0,
        0 <= i < outline_int(a, d, ha, hb).len(),
    ensures
        ({
            let s = outline_int(a, d, ha, hb);
            let n = s.len() as int;
            turn_int(s[i], s[next_index(i, n)], s[next_index(next_index(i, n), n)]) > 0
        }),
{
    let s = outline_int(a, d, ha, hb);
    let n = s.len() as int;
    let p = pp(ha, hb, d);
    let q = qq(ha, hb, d);
    if d.0 == 0 && d.1 == 0 {
        let c0 = 0int;
        let c1 = 1int;
        if i == 0 {
            assert(turn_int(s[0], s[1], s[2]) > 0) by (nonlinear_arith)
                requires
                    s[0] == (ha + a.0, 0 + a.1),
                    s[1] == (0 + a.0, hb + a.1),
                    s[2] == (-ha + a.0, 0 + a.1),
                    ha > 0,
                    hb > 0,
                    p == hb * d.0 + ha * d.1,
                    q == ha * d.1 - hb * d.0,
                    c0 >= 0,
                    c1 > 0,
                    true,
            ;
        } else if i == 1 {
            assert(turn_int(s[1], s[2], s[3]) > 0) by (nonlinear_arith)
                requires
                    s[1] == (0 + a.0, hb + a.1),
                    s[2] == (-ha + a.0, 0 + a.1),
                    s[3] == (0 + a.0, -hb + a.1),
                    ha > 0,
                    hb > 0,
                    p == hb * d.0 + ha * d.1,
                    q == ha * d.1 - hb * d.0,
                    c0 >= 0,
                    c1 > 0,
                    true,
            ;
        } else if i == 2 {
            assert(turn_int(s[2], s[3], s[0]) > 0) by (nonlinear_arith)
                requires
                    s[2] == (-ha + a.0, 0 + a.1),
                    s[3] == (0 + a.0, -hb + a.1),
                    s[0] == (ha + a.0, 0 + a.1),
                    ha > 0,
                    hb > 0,
                    p == hb * d.0 + ha * d.1,
                    q == ha * d.1 - hb * d.0,
                    c0 >= 0,
                    c1 > 0,
                    true,
            ;
        } else if i == 3 {
            assert(turn_int(s[3], s[0], s[1]) > 0) by (nonlinear_arith)
                requires
                    s[3] == (0 + a.0, -hb + a.1),
                    s[0] == (ha + a.0, 0 + a.1),
                    s[1] == (0 + a.0, hb + a.1),
                    ha > 0,
                    hb > 0,
                    p == hb * d.0 + ha * d.1,
                    q == ha * d.1 - hb * d.0,
                    c0 >= 0,
                    c1 > 0,
                    true,
            ;
        }
    } else {
        assert(p != 0 || q != 0) by (nonlinear_arith)
            requires
                p == hb * d.0 + ha * d.1,
                q == ha * d.1 - hb * d.0,
                ha > 0,
                hb > 0,
                !(d.0 == 0 && d.1 == 0),
        ;
        let k = sector(ha, hb, d);
        let c0 = edge_cross(ha, hb, d, k);
        let c1 = edge_cross(ha, hb, d, k + 1);
        if k == 0 {
            assert(c0 == p && c1 == q);
            if c0 == 0 {
                if i == 0 {
                    assert(turn_int(s[0], s[1], s[2]) > 0) by (nonlinear_arith)
                        requires
                            s[0] == (ha + a.0, 0 + a.1),
                            s[1] == (0 + a.0 + d.0, hb + a.1 + d.1),
                            s[2] == (-ha + a.0 + d.0, 0 + a.1 + d.1),
                            ha > 0,
                            hb > 0,
                            p == hb * d.0 + ha * d.1,
                            q == ha * d.1 - hb * d.0,
                            c0 >= 0,
                            c1 > 0,
                            c0 == p && c1 == q,
                    ;
                } else if i == 1 {
                    assert(turn_int(s[1], s[2], s[3]) > 0) by (nonlinear_arith)
                        requires
                            s[1] == (0 + a.0 + d.0, hb + a.1 + d.1),
                            s[2] == (-ha + a.0 + d.0, 0 + a.1 + d.1),
                            s[3] == (0 + a.0, -hb + a.1),
                            ha > 0,
                            hb > 0,
                            p == hb * d.0 + ha * d.1,
                            q == ha * d.1 - hb * d.0,
                            c0 >= 0,
                            c1 > 0,
                            c0 == p && c1 == q,
                    ;
                } else if i == 2 {
                    assert(turn_int(s[2], s[3], s[0]) > 0) by (nonlinear_arith)
                        requires
                            s[2] == (-ha + a.0 + d.0, 0 + a.1 + d.1),
                            s[3] == (0 + a.0, -hb + a.1),
                            s[0] == (ha + a.0, 0 + a.1),
                            ha > 0,
                            hb > 0,
                            p == hb * d.0 + ha * d.1,
                            q == ha * d.1 - hb * d.0,
                            c0 >= 0,
                            c1 > 0,
                            c0 == p && c1 == q,
                    ;
                } else if i == 3 {
                    assert(turn_int(s[3], s[0], s[1]) > 0) by (nonlinear_arith)
                        requires
                            s[3] == (0 + a.0, -hb + a.1),
                            s[0] == (ha + a.0, 0 + a.1),
                            s[1] == (0 + a.0 + d.0, hb + a.1 + d.1),
                            ha > 0,
                            hb > 0,
                            p == hb * d.0 + ha * d.1,
                            q == ha * d.1 - hb * d.0,
                            c0 >= 0,
                            c1 > 0,
                            c0 == p && c1 == q,
                    ;
                }
            } else {
                if i == 0 {
                    assert(turn_int(s[0], s[1], s[2]) > 0) by (nonlinear_arith)
                        requires
                            s[0] == (ha + a.0, 0 + a.1),
                            s[1] == (ha + a.0 + d.0, 0 + a.1 + d.1),
                            s[2] == (0 + a.0 + d.0, hb + a.1 + d.1),
                            ha > 0,
                            hb > 0,
                            p == hb * d.0 + ha * d.1,
                            q == ha * d.1 - hb * d.0,
                            c0 >= 0,
                            c1 > 0,
                            c0 == p && c1 == q && c0 > 0,
                    ;
                } else if i == 1 {
                    assert(turn_int(s[1], s[2], s[3]) > 0) by (nonlinear_arith)
                        requires
                            s[1] == (ha + a.0 + d.0, 0 + a.1 + d.1),
                            s[2] == (0 + a.0 + d.0, hb + a.1 + d.1),
                            s[3] == (-ha + a.0 + d.0, 0 + a.1 + d.1),
                            ha > 0,
                            hb > 0,
                            p == hb * d.0 + ha * d.1,
                            q == ha * d.1 - hb * d.0,
                            c0 >= 0,
                            c1 > 0,
                            c0 == p && c1 == q && c0 > 0,
                    ;
                } else if i == 2 {
                    assert(turn_int(s[2], s[3], s[4]) > 0) by (nonlinear_arith)
                        requires
                            s[2] == (0 + a.0 + d.0, hb + a.1 + d.1),
                            s[3] == (-ha + a.0 + d.0, 0 + a.1 + d.1),
                            s[4] == (-ha + a.0, 0 + a.1),
                            ha > 0,
                            hb > 0,
                            p == hb * d.0 + ha * d.1,
                            q == ha * d.1 - hb * d.0,
                            c0 >= 0,
                            c1 > 0,
                            c0 == p && c1 == q && c0 > 0,
                    ;
                } else if i == 3 {
                    assert(turn_int(s[3], s[4], s[5]) > 0) by (nonlinear_arith)
                        requires
                            s[3] == (-ha + a.0 + d.0, 0 + a.1 + d.1),
                            s[4] == (-ha + a.0, 0 + a.1),
                            s[5] == (0 + a.0, -hb + a.1),
                            ha > 0,
                            hb > 0,
                            p == hb * d.0 + ha * d.1,
                            q == ha * d.1 - hb * d.0,
                            c0 >= 0,
                            c1 > 0,
                            c0 == p && c1 == q && c0 > 0,
                    ;
                } else if i == 4 {
                    assert(turn_int(s[4], s[5], s[0]) > 0) by (nonlinear_arith)
                        requires
                            s[4] == (-ha + a.0, 0 + a.1),
                            s[5] == (0 + a.0, -hb + a.1),
                            s[0] == (ha + a.0, 0 + a.1),
                            ha > 0,
                            hb > 0,
                            p == hb * d.0 + ha * d.1,
                            q == ha * d.1 - hb * d.0,
                            c0 >= 0,
                            c1 > 0,
                            c0 == p && c1 == q && c0 > 0,
                    ;
                } else if i == 5 {
                    assert(turn_int(s[5], s[0], s[1]) > 0) by (nonlinear_arith)
                        requires
                            s[5] == (0 + a.0, -hb + a.1),
                            s[0] == (ha + a.0, 0 + a.1),
                            s[1] == (ha + a.0 + d.0, 0 + a.1 + d.1),
                            ha > 0,
                            hb > 0,
                            p == hb * d.0 + ha * d.1,
                            q == ha * d.1 - hb * d.0,
                            c0 >= 0,
                            c1 > 0,
                            c0 == p && c1 == q && c0 > 0,
                    ;
                }
            }
        } else if k == 1 {
            assert(c0 == q && c1 == -p);
            if c0 == 0 {
                if i == 0 {
                    assert(turn_int(s[0], s[1], s[2]) > 0) by (nonlinear_arith)
                        requires
                            s[0] == (0 + a.0, hb + a.1),
                            s[1] == (-ha + a.0 + d.0, 0 + a.1 + d.1),
                            s[2] == (0 + a.0 + d.0, -hb + a.1 + d.1),
                            ha > 0,
                            hb > 0,
                            p == hb * d.0 + ha * d.1,
                            q == ha * d.1 - hb * d.0,
                            c0 >= 0,
                            c1 > 0,
                            c0 == q && c1 == -p,
                    ;
                } else if i == 1 {
                    assert(turn_int(s[1], s[2], s[3]) > 0) by (nonlinear_arith)
                        requires
                            s[1] == (-ha + a.0 + d.0, 0 + a.1 + d.1),
                            s[2] == (0 + a.0 + d.0, -hb + a.1 + d.1),
                            s[3] == (ha + a.0, 0 + a.1),
                            ha > 0,
                            hb > 0,
                            p == hb * d.0 + ha * d.1,
                            q == ha * d.1 - hb * d.0,
                            c0 >= 0,
                            c1 > 0,
                            c0 == q && c1 == -p,
                    ;
                } else if i == 2 {
                    assert(turn_int(s[2], s[3], s[0]) > 0) by (nonlinear_arith)
                        requires
                            s[2] == (0 + a.0 + d.0, -hb + a.1 + d.1),
                            s[3] == (ha + a.0, 0 + a.1),
                            s[0] == (0 + a.0, hb + a.1),
                            ha > 0,
                            hb > 0,
                            p == hb * d.0 + ha * d.1,
                            q == ha * d.1 - hb * d.0,
                            c0 >= 0,
                            c1 > 0,
                            c0 == q && c1 == -p,
                    ;
                } else if i == 3 {
                    assert(turn_int(s[3], s[0], s[1]) > 0) by (nonlinear_arith)
                        requires
                            s[3] == (ha + a.0, 0 + a.1),
                            s[0] == (0 + a.0, hb + a.1),
                            s[1] == (-ha + a.0 + d.0, 0 + a.1 + d.1),
                            ha > 0,
                            hb > 0,
                            p == hb * d.0 + ha * d.1,
                            q == ha * d.1 - hb * d.0,
                            c0 >= 0,
                            c1 > 0,
                            c0 == q && c1 == -p,
                    ;
                }
            } else {
                if i == 0 {
                    assert(turn_int(s[0], s[1], s[2]) > 0) by (nonlinear_arith)
                        requires
                            s[0] == (0 + a.0, hb + a.1),
                            s[1] == (0 + a.0 + d.0, hb + a.1 + d.1),
                            s[2] == (-ha + a.0 + d.0, 0 + a.1 + d.1),
                            ha > 0,
                            hb > 0,
                            p == hb * d.0 + ha * d.1,
                            q == ha * d.1 - hb * d.0,
                            c0 >= 0,
                            c1 > 0,
                            c0 == q && c1 == -p && c0 > 0,
                    ;
                } else if i == 1 {
                    assert(turn_int(s[1], s[2], s[3]) > 0) by (nonlinear_arith)
                        requires
                            s[1] == (0 + a.0 + d.0, hb + a.1 + d.1),
                            s[2] == (-ha + a.0 + d.0, 0 + a.1 + d.1),
                            s[3] == (0 + a.0 + d.0, -hb + a.1 + d.1),
                            ha > 0,
                            hb > 0,
                            p == hb * d.0 + ha * d.1,
                            q == ha * d.1 - hb * d.0,
                            c0 >= 0,
                            c1 > 0,
                            c0 == q && c1 == -p && c0 > 0,
                    ;
                } else if i == 2 {
                    assert(turn_int(s[2], s[3], s[4]) > 0) by (nonlinear_arith)
                        requires
                            s[2] == (-ha + a.0 + d.0, 0 + a.1 + d.1),
                            s[3] == (0 + a.0 + d.0, -hb + a.1 + d.1),
                            s[4] == (0 + a.0, -hb + a.1),
                            ha > 0,
                            hb > 0,
                            p == hb * d.0 + ha * d.1,
                            q == ha * d.1 - hb * d.0,
                            c0 >= 0,
                            c1 > 0,
                            c0 == q && c1 == -p && c0 > 0,
                    ;
                } else if i == 3 {
                    assert(turn_int(s[3], s[4], s[5]) > 0) by (nonlinear_arith)
                        requires
                            s[3] == (0 + a.0 + d.0, -hb + a.1 + d.1),
                            s[4] == (0 + a.0, -hb + a.1),
                            s[5] == (ha + a.0, 0 + a.1),
                            ha > 0,
                            hb > 0,
                            p == hb * d.0 + ha * d.1,
                            q == ha * d.1 - hb * d.0,
                            c0 >= 0,
                            c1 > 0,
                            c0 == q && c1 == -p && c0 > 0,
                    ;
                } else if i == 4 {
                    assert(turn_int(s[4], s[5], s[0]) > 0) by (nonlinear_arith)
                        requires
                            s[4] == (0 + a.0, -hb + a.1),
                            s[5] == (ha + a.0, 0 + a.1),
                            s[0] == (0 + a.0, hb + a.1),
                            ha > 0,
                            hb > 0,
                            p == hb * d.0 + ha * d.1,
                            q == ha * d.1 - hb * d.0,
                            c0 >= 0,
                            c1 > 0,
                            c0 == q && c1 == -p && c0 > 0,
                    ;
                } else if i == 5 {
                    assert(turn_int(s[5], s[0], s[1]) > 0) by (nonlinear_arith)
                        requires
                            s[5] == (ha + a.0, 0 + a.1),
                            s[0] == (0 + a.0, hb + a.1),
                            s[1] == (0 + a.0 + d.0, hb + a.1 + d.1),
                            ha > 0,
                            hb > 0,
                            p == hb * d.0 + ha * d.1,
                            q == ha * d.1 - hb * d.0,
                            c0 >= 0,
                            c1 > 0,
                            c0 == q && c1 == -p && c0 > 0,
                    ;
                }
            }
        } else if k == 2 {
            assert(c0 == -p && c1 == -q);
            if c0 == 0 {
                if i == 0 {
                    assert(turn_int(s[0], s[1], s[2]) > 0) by (nonlinear_arith)
                        requires
                            s[0] == (-ha + a.0, 0 + a.1),
                            s[1] == (0 + a.0 + d.0, -hb + a.1 + d.1),
                            s[2] == (ha + a.0 + d.0, 0 + a.1 + d.1),
                            ha > 0,
                            hb > 0,
                            p == hb * d.0 + ha * d.1,
                            q == ha * d.1 - hb * d.0,
                            c0 >= 0,
                            c1 > 0,
                            c0 == -p && c1 == -q,
                    ;
                } else if i == 1 {
                    assert(turn_int(s[1], s[2], s[3]) > 0) by (nonlinear_arith)
                        requires
                            s[1] == (0 + a.0 + d.0, -hb + a.1 + d.1),
                            s[2] == (ha + a.0 + d.0, 0 + a.1 + d.1),
                            s[3] == (0 + a.0, hb + a.1),
                            ha > 0,
                            hb > 0,
                            p == hb * d.0 + ha * d.1,
                            q == ha * d.1 - hb * d.0,
                            c0 >= 0,
                            c1 > 0,
                            c0 == -p && c1 == -q,
                    ;
                } else if i == 2 {
                    assert(turn_int(s[2], s[3], s[0]) > 0) by (nonlinear_arith)
                        requires
                            s[2] == (ha + a.0 + d.0, 0 + a.1 + d.1),
                            s[3] == (0 + a.0, hb + a.1),
                            s[0] == (-ha + a.0, 0 + a.1),
                            ha > 0,
                            hb > 0,
                            p == hb * d.0 + ha * d.1,
                            q == ha * d.1 - hb * d.0,
                            c0 >= 0,
                            c1 > 0,
                            c0 == -p && c1 == -q,
                    ;
                } else if i == 3 {
                    assert(turn_int(s[3], s[0], s[1]) > 0) by (nonlinear_arith)
                        requires
                            s[3] == (0 + a.0, hb + a.1),
                            s[0] == (-ha + a.0, 0 + a.1),
                            s[1] == (0 + a.0 + d.0, -hb + a.1 + d.1),
                            ha > 0,
                            hb > 0,
                            p == hb * d.0 + ha * d.1,
                            q == ha * d.1 - hb * d.0,
                            c0 >= 0,
                            c1 > 0,
                            c0 == -p && c1 == -q,
                    ;
                }
            } else {
                if i == 0 {
                    assert(turn_int(s[0], s[1], s[2]) > 0) by (nonlinear_arith)
                        requires
                            s[0] == (-ha + a.0, 0 + a.1),
                            s[1] == (-ha + a.0 + d.0, 0 + a.1 + d.1),
                            s[2] == (0 + a.0 + d.0, -hb + a.1 + d.1),
                            ha > 0,
                            hb > 0,
                            p == hb * d.0 + ha * d.1,
                            q == ha * d.1 - hb * d.0,
                            c0 >= 0,
                            c1 > 0,
                            c0 == -p && c1 == -q && c0 > 0,
                    ;
                } else if i == 1 {
                    assert(turn_int(s[1], s[2], s[3]) > 0) by (nonlinear_arith)
                        requires
                            s[1] == (-ha + a.0 + d.0, 0 + a.1 + d.1),
                            s[2] == (0 + a.0 + d.0, -hb + a.1 + d.1),
                            s[3] == (ha + a.0 + d.0, 0 + a.1 + d.1),
                            ha > 0,
                            hb > 0,
                            p == hb * d.0 + ha * d.1,
                            q == ha * d.1 - hb * d.0,
                            c0 >= 0,
                            c1 > 0,
                            c0 == -p && c1 == -q && c0 > 0,
                    ;
                } else if i == 2 {
                    assert(turn_int(s[2], s[3], s[4]) > 0) by (nonlinear_arith)
                        requires
                            s[2] == (0 + a.0 + d.0, -hb + a.1 + d.1),
                            s[3] == (ha + a.0 + d.0, 0 + a.1 + d.1),
                            s[4] == (ha + a.0, 0 + a.1),
                            ha > 0,
                            hb > 0,
                            p == hb * d.0 + ha * d.1,
                            q == ha * d.1 - hb * d.0,
                            c0 >= 0,
                            c1 > 0,
                            c0 == -p && c1 == -q && c0 > 0,
                    ;
                } else if i == 3 {
                    assert(turn_int(s[3], s[4], s[5]) > 0) by (nonlinear_arith)
                        requires
                            s[3] == (ha + a.0 + d.0, 0 + a.1 + d.1),
                            s[4] == (ha + a.0, 0 + a.1),
                            s[5] == (0 + a.0, hb + a.1),
                            ha > 0,
                            hb > 0,
                            p == hb * d.0 + ha * d.1,
                            q == ha * d.1 - hb * d.0,
                            c0 >= 0,
                            c1 > 0,
                            c0 == -p && c1 == -q && c0 > 0,
                    ;
                } else if i == 4 {
                    assert(turn_int(s[4], s[5], s[0]) > 0) by (nonlinear_arith)
                        requires
                            s[4] == (ha + a.0, 0 + a.1),
                            s[5] == (0 + a.0, hb + a.1),
                            s[0] == (-ha + a.0, 0 + a.1),
                            ha > 0,
                            hb > 0,
                            p == hb * d.0 + ha * d.1,
                            q == ha * d.1 - hb * d.0,
                            c0 >= 0,
                            c1 > 0,
                            c0 == -p && c1 == -q && c0 > 0,
                    ;
                } else if i == 5 {
                    assert(turn_int(s[5], s[0], s[1]) > 0) by (nonlinear_arith)
                        requires
                            s[5] == (0 + a.0, hb + a.1),
                            s[0] == (-ha + a.0, 0 + a.1),
                            s[1] == (-ha + a.0 + d.0, 0 + a.1 + d.1),
                            ha > 0,
                            hb > 0,
                            p == hb * d.0 + ha * d.1,
                            q == ha * d.1 - hb * d.0,
                            c0 >= 0,
                            c1 > 0,
                            c0 == -p && c1 == -q && c0 > 0,
                    ;
                }
            }
        } else if k == 3 {
            assert(c0 == -q && c1 == p);
            if c0 == 0 {
                if i == 0 {
                    assert(turn_int(s[0], s[1], s[2]) > 0) by (nonlinear_arith)
                        requires
                            s[0] == (0 + a.0, -hb + a.1),
                            s[1] == (ha + a.0 + d.0, 0 + a.1 + d.1),
                            s[2] == (0 + a.0 + d.0, hb + a.1 + d.1),
                            ha > 0,
                            hb > 0,
                            p == hb * d.0 + ha * d.1,
                            q == ha * d.1 - hb * d.0,
                            c0 >= 0,
                            c1 > 0,
                            c0 == -q && c1 == p,
                    ;
                } else if i == 1 {
                    assert(turn_int(s[1], s[2], s[3]) > 0) by (nonlinear_arith)
                        requires
                            s[1] == (ha + a.0 + d.0, 0 + a.1 + d.1),
                            s[2] == (0 + a.0 + d.0, hb + a.1 + d.1),
                            s[3] == (-ha + a.0, 0 + a.1),
                            ha > 0,
                            hb > 0,
                            p == hb * d.0 + ha * d.1,
                            q == ha * d.1 - hb * d.0,
                            c0 >= 0,
                            c1 > 0,
                            c0 == -q && c1 == p,
                    ;
                } else if i == 2 {
                    assert(turn_int(s[2], s[3], s[0]) > 0) by (nonlinear_arith)
                        requires
                            s[2] == (0 + a.0 + d.0, hb + a.1 + d.1),
                            s[3] == (-ha + a.0, 0 + a.1),
                            s[0] == (0 + a.0, -hb + a.1),
                            ha > 0,
                            hb > 0,
                            p == hb * d.0 + ha * d.1,
                            q == ha * d.1 - hb * d.0,
                            c0 >= 0,
                            c1 > 0,
                            c0 == -q && c1 == p,
                    ;
                } else if i == 3 {
                    assert(turn_int(s[3], s[0], s[1]) > 0) by (nonlinear_arith)
                        requires
                            s[3] == (-ha + a.0, 0 + a.1),
                            s[0] == (0 + a.0, -hb + a.1),
                            s[1] == (ha + a.0 + d.0, 0 + a.1 + d.1),
                            ha > 0,
                            hb > 0,
                            p == hb * d.0 + ha * d.1,
                            q == ha * d.1 - hb * d.0,
                            c0 >= 0,
                            c1 > 0,
                            c0 == -q && c1 == p,
                    ;
                }
            } else {
                if i == 0 {
                    assert(turn_int(s[0], s[1], s[2]) > 0) by (nonlinear_arith)
                        requires
                            s[0] == (0 + a.0, -hb + a.1),
                            s[1] == (0 + a.0 + d.0, -hb + a.1 + d.1),
                            s[2] == (ha + a.0 + d.0, 0 + a.1 + d.1),
                            ha > 0,
                            hb > 0,
                            p == hb * d.0 + ha * d.1,
                            q == ha * d.1 - hb * d.0,
                            c0 >= 0,
                            c1 > 0,
                            c0 == -q && c1 == p && c0 > 0,
                    ;
                } else if i == 1 {
                    assert(turn_int(s[1], s[2], s[3]) > 0) by (nonlinear_arith)
                        requires
                            s[1] == (0 + a.0 + d.0, -hb + a.1 + d.1),
                            s[2] == (ha + a.0 + d.0, 0 + a.1 + d.1),
                            s[3] == (0 + a.0 + d.0, hb + a.1 + d.1),
                            ha > 0,
                            hb > 0,
                            p == hb * d.0 + ha * d.1,
                            q == ha * d.1 - hb * d.0,
                            c0 >= 0,
                            c1 > 0,
                            c0 == -q && c1 == p && c0 > 0,
                    ;
                } else if i == 2 {
                    assert(turn_int(s[2], s[3], s[4]) > 0) by (nonlinear_arith)
                        requires
                            s[2] == (ha + a.0 + d.0, 0 + a.1 + d.1),
                            s[3] == (0 + a.0 + d.0, hb + a.1 + d.1),
                            s[4] == (0 + a.0, hb + a.1),
                            ha > 0,
                            hb > 0,
                            p == hb * d.0 + ha * d.1,
                            q == ha * d.1 - hb * d.0,
                            c0 >= 0,
                            c1 > 0,
                            c0 == -q && c1 == p && c0 > 0,
                    ;
                } else if i == 3 {
                    assert(turn_int(s[3], s[4], s[5]) > 0) by (nonlinear_arith)
                        requires
                            s[3] == (0 + a.0 + d.0, hb + a.1 + d.1),
                            s[4] == (0 + a.0, hb + a.1),
                            s[5] == (-ha + a.0, 0 + a.1),
                            ha > 0,
                            hb > 0,
                            p == hb * d.0 + ha * d.1,
                            q == ha * d.1 - hb * d.0,
                            c0 >= 0,
                            c1 > 0,
                            c0 == -q && c1 == p && c0 > 0,
                    ;
                } else if i == 4 {
                    assert(turn_int(s[4], s[5], s[0]) > 0) by (nonlinear_arith)
                        requires
                            s[4] == (0 + a.0, hb + a.1),
                            s[5] == (-ha + a.0, 0 + a.1),
                            s[0] == (0 + a.0, -hb + a.1),
                            ha > 0,
                            hb > 0,
                            p == hb * d.0 + ha * d.1,
                            q == ha * d.1 - hb * d.0,
                            c0 >= 0,
                            c1 > 0,
                            c0 == -q && c1 == p && c0 > 0,
                    ;
                } else if i == 5 {
                    assert(turn_int(s[5], s[0], s[1]) > 0) by (nonlinear_arith)
                        requires
                            s[5] == (-ha + a.0, 0 + a.1),
                            s[0] == (0 + a.0, -hb + a.1),
                            s[1] == (0 + a.0 + d.0, -hb + a.1 + d.1),
                            ha > 0,
                            hb > 0,
                            p == hb * d.0 + ha * d.1,
                            q == ha * d.1 - hb * d.0,
                            c0 >= 0,
                            c1 > 0,
                            c0 == -q && c1 == p && c0 > 0,
                    ;
                }
            }
        }
    }
}

/// The coordinates of `v` as integers.
pub open spec fn ints_of(v: Seq<(i64, i64)>) -> Seq<(int, int)> {
    Seq::new(v.len(), |i: int| (v[i].0 as int, v[i].1 as int))
}

fn rv_exec(ha: i64, hb: i64, k: u8) -> (r: (i64, i64))
    requires
        0 <= ha <= MAX_COORD,
        0 <= hb <= MAX_COORD,
    ensures
        (r.0 as int, r.1 as int) == rv(ha as int, hb as int, k as int),
        -MAX_COORD <= r.0 <= MAX_COORD,
        -MAX_COORD <= r.1 <= MAX_COORD,
{
    let k = k % 4;
    if k == 0 {
        (ha, 0)
    } else if k == 1 {
        (0, hb)
    } else if k == 2 {
        (-ha, 0)
    } else {
        (0, -hb)
    }
}

fn push_at(v: &mut Vec<(i64, i64)>, c: (i64, i64), o: Point)
    requires
        -MAX_COORD <= c.0 <= MAX_COORD,
        -MAX_COORD <= c.1 <= MAX_COORD,
        o.wf(),
    ensures
        final(v)@ == old(v)@.push(((c.0 + o.x) as i64, (c.1 + o.y) as i64)),
{
    v.push((c.0 + o.x, c.1 + o.y));
}

/// The outline of the rhombus with half-diagonals `ha` and `hb` swept from
/// `a` to `b`.
pub open spec fn swept_outline(a: Point, b: Point, ha: i64, hb: i64) -> Seq<(int, int)> {
    outline_int((a.x as int, a.y as int), (b.x - a.x, b.y - a.y), ha as int, hb as int)
}

/// The rhombus with half-diagonals `ha` and `hb` swept from `a` to `b`, as a
/// convex polygon; `None` when one of its vertices leaves the valid range.
pub fn swept_rhombus(a: Point, b: Point, ha: i64, hb: i64) -> (r: Option<ConvexPolygon>)
    requires
        a.wf(),
        b.wf(),
        0 < ha <= MAX_COORD,
        0 < hb <= MAX_COORD,
    ensures
        r is Some <==> ints_in_range(swept_outline(a, b, ha, hb)),
        r matches Some(p) ==> p.wf() && p.points@ == to_points(swept_outline(a, b, ha, hb)),
{
    let ghost ai = (a.x as int, a.y as int);
    let ghost di = (b.x - a.x, b.y - a.y);
    let ghost o = swept_outline(a, b, ha, hb);
    let dx = b.x - a.x;
    let dy = b.y - a.y;
    let mut v: Vec<(i64, i64)> = Vec::new();
    if dx == 0 && dy == 0 {
        push_at(&mut v, rv_exec(ha, hb, 0), a);
        push_at(&mut v, rv_exec(ha, hb, 1), a);
        push_at(&mut v, rv_exec(ha, hb, 2), a);
        push_at(&mut v, rv_exec(ha, hb, 3), a);
    } else {
        assert(-0x200_0000_0000_0000 <= (hb as int) * (dx as int) <= 0x200_0000_0000_0000) by (nonlinear_arith)
            requires
                0 < hb <= 0x1000_0000,
                -0x2000_0000 <= dx <= 0x2000_0000,
        ;
        assert(-0x200_0000_0000_0000 <= (ha as int) * (dy as int) <= 0x200_0000_0000_0000) by (nonlinear_arith)
            requires
                0 < ha <= 0x1000_0000,
                -0x2000_0000 <= dy <= 0x2000_0000,
        ;
        let p: i64 = hb * dx + ha * dy;
        let q: i64 = ha * dy - hb * dx;
        assert(p == pp(ha as int, hb as int, di) && q == qq(ha as int, hb as int, di));
        let k: u8 = if q > 0 && p >= 0 {
            0
        } else if p < 0 && q >= 0 {
            1
        } else if q < 0 && p <= 0 {
            2
        } else {
            3
        };
        let c0 = if k == 0 {
            p
        } else if k == 1 {
            q
        } else if k == 2 {
            -p
        } else {
            -q
        };
        assert(k == sector(ha as int, hb as int, di));
        assert(c0 == edge_cross(ha as int, hb as int, di, k as int));
        if c0 == 0 {
            push_at(&mut v, rv_exec(ha, hb, k), a);
            push_at(&mut v, rv_exec(ha, hb, k + 1), b);
            push_at(&mut v, rv_exec(ha, hb, k + 2), b);
            push_at(&mut v, rv_exec(ha, hb, k + 3), a);
        } else {
            push_at(&mut v, rv_exec(ha, hb, k), a);
            push_at(&mut v, rv_exec(ha, hb, k), b);
            push_at(&mut v, rv_exec(ha, hb, k + 1), b);
            push_at(&mut v, rv_exec(ha, hb, k + 2), b);
            push_at(&mut v, rv_exec(ha, hb, k + 2), a);
            push_at(&mut v, rv_exec(ha, hb, k + 3), a);
        }
    }
    assert(ints_of(v@) =~= o);
    let mut pts: Vec<Point> = Vec::new();
    let mut i: usize = 0;
    while i < v.len()
        invariant
            o == swept_outline(a, b, ha, hb),
            o == outline_int(ai, di, ha as int, hb as int),
            ints_of(v@) == o,
            0 <= i <= v@.len(),
            ints_in_range(o.subrange(0, i as int)),
            pts@ == to_points(o.subrange(0, i as int)),
        decreases v@.len() - i,
    {
        let (x, y) = v[i];
        if !(-MAX_COORD <= x && x <= MAX_COORD && -MAX_COORD <= y && y <= MAX_COORD) {
            assert(!ints_in_range(o)) by {
                assert(v@[i as int] == (x, y));
                assert(ints_of(v@)[i as int] == (x as int, y as int));
                assert(o[i as int] == (x as int, y as int));
                assert(!(-MAX_COORD <= o[i as int].0 <= MAX_COORD && -MAX_COORD <= o[i as int].1
                    <= MAX_COORD));
            }
            return None;
        }
        pts.push(Vector { x, y });
        i = i + 1;
        assert(pts@ =~= to_points(o.subrange(0, i as int)));
        assert forall|j: int| 0 <= j < i implies -MAX_COORD <= (#[trigger] o.subrange(0, i as int)[j]).0 <= MAX_COORD
            && -MAX_COORD <= o.subrange(0, i as int)[j].1 <= MAX_COORD by {
            if j < i - 1 {
                assert(o.subrange(0, i as int)[j] == o.subrange(0, i - 1)[j]);
            }
        }
    }
    assert(o.subrange(0, i as int) =~= o);
    proof {
        lemma_outline_turns_left(ai, di, ha as int, hb as int);
        assert forall|j: int| 0 <= j < pts@.len() implies (#[trigger] pts@[j]).wf() by {
            assert(o[j].0 == pts@[j].x && o[j].1 == pts@[j].y);
        }
    }
    ConvexPolygon::from_convex_polyline(pts)
}

} // verus!
