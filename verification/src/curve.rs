//! Catmull-Rom curve smoothing over 16.16 fixed-point points. The first
//! and last control points are duplicated as phantom endpoints so the end
//! tangents are defined; every interior segment is subdivided into 16
//! interpolated points using the cubic cardinal basis with tension 1/10.
//! All arithmetic is exact integer arithmetic: the four basis polynomials
//! are scaled by 4096 (16 cubed) and the tension by 10, and one truncating
//! division by 40960 recovers the coordinate.

use vstd::prelude::*;
use crate::math::{Point2, tdiv};

verus! {

/// The first cardinal basis polynomial `2t^3 - 3t^2 + 1` at `t = k/16`,
/// scaled by 4096.
pub open spec fn basis1(k: int) -> int {
    2 * (k * k * k) - 48 * (k * k) + 4096
}

/// The second cardinal basis polynomial `-2t^3 + 3t^2` at `t = k/16`,
/// scaled by 4096.
pub open spec fn basis2(k: int) -> int {
    -2 * (k * k * k) + 48 * (k * k)
}

/// The third cardinal basis polynomial `t^3 - 2t^2 + t` at `t = k/16`,
/// scaled by 4096.
pub open spec fn basis3(k: int) -> int {
    (k * k * k) - 32 * (k * k) + 256 * k
}

/// The fourth cardinal basis polynomial `t^3 - t^2` at `t = k/16`, scaled
/// by 4096.
pub open spec fn basis4(k: int) -> int {
    (k * k * k) - 16 * (k * k)
}

/// Control point `j` of the padded sequence: indices off either end repeat
/// the first or last point.
pub open spec fn ctrl(points: Seq<Point2>, j: int) -> Point2 {
    if j < 0 {
        points[0]
    } else if j >= points.len() {
        points[points.len() - 1]
    } else {
        points[j]
    }
}

/// One interpolated coordinate: the cardinal blend of the segment's two
/// points and its two scaled tangents, divided (truncating) by the
/// combined basis and tension scale.
pub open spec fn curve_coord(c0: int, c1: int, c2: int, c3: int, k: int) -> int {
    tdiv(
        10 * basis1(k) * c1 + 10 * basis2(k) * c2 + basis3(k) * (c2 - c0) + basis4(k) * (c3 - c1),
        40960,
    )
}

/// Interpolated point `k` (of 16) on segment `s` of the curve through
/// `points`.
pub open spec fn curve_point(points: Seq<Point2>, s: int, k: int) -> Point2 {
    let p0 = ctrl(points, s - 1);
    let p1 = ctrl(points, s);
    let p2 = ctrl(points, s + 1);
    let p3 = ctrl(points, s + 2);
    Point2 {
        x: curve_coord(p0.x as int, p1.x as int, p2.x as int, p3.x as int, k) as i64,
        y: curve_coord(p0.y as int, p1.y as int, p2.y as int, p3.y as int, k) as i64,
    }
}

/// Point `j` of the smoothed polyline: point `j % 16` of segment `j / 16`.
pub open spec fn curve_result(points: Seq<Point2>, j: int) -> Point2 {
    curve_point(points, j / 16, j % 16)
}

/// One interpolated coordinate, computed in 64-bit integers.
fn curve_coord_exec(c0: i64, c1: i64, c2: i64, c3: i64, k: i64) -> (r: i64)
    requires
        0 <= k < 16,
        -0x100_0000_0000 <= c0 <= 0x100_0000_0000,
        -0x100_0000_0000 <= c1 <= 0x100_0000_0000,
        -0x100_0000_0000 <= c2 <= 0x100_0000_0000,
        -0x100_0000_0000 <= c3 <= 0x100_0000_0000,
    ensures
        r == curve_coord(c0 as int, c1 as int, c2 as int, c3 as int, k as int),
{
    proof {
        assert(0 <= k * k <= 225 && 0 <= (k * k) * k <= 3375) by (nonlinear_arith)
            requires
                0 <= k <= 15,
        ;
    }
    let k2: i64 = k * k;
    let k3: i64 = k2 * k;
    let b1: i64 = 2 * k3 - 48 * k2 + 4096;
    let b2: i64 = 48 * k2 - 2 * k3;
    let b3: i64 = k3 - 32 * k2 + 256 * k;
    let b4: i64 = k3 - 16 * k2;
    proof {
        let bound: int = 0x100_0000_0000;
        assert(-300000 * bound <= 10 * b1 * c1 <= 300000 * bound && -300000 * bound <= 10
            * b2 * c2 <= 300000 * bound && -300000 * bound * 2 <= b3 * (c2 - c0) <= 300000
            * bound * 2 && -300000 * bound * 2 <= b4 * (c3 - c1) <= 300000 * bound * 2)
            by (nonlinear_arith)
            requires
                -30000 <= b1 <= 30000,
                -30000 <= b2 <= 30000,
                -30000 <= b3 <= 30000,
                -30000 <= b4 <= 30000,
                -bound <= c0 <= bound,
                -bound <= c1 <= bound,
                -bound <= c2 <= bound,
                -bound <= c3 <= bound,
                bound == 0x100_0000_0000,
        ;
    }
    let num: i64 = 10 * b1 * c1 + 10 * b2 * c2 + b3 * (c2 - c0) + b4 * (c3 - c1);
    num / 40960
}

/// Smooths an ordered polyline: for every interior segment, 16
/// interpolated points of the Catmull-Rom curve through the control
/// points, in order. The result replaces the input polyline and has
/// exactly 16 points per segment.
pub fn create_curve(points: &Vec<Point2>) -> (r: Vec<Point2>)
    requires
        points@.len() >= 1,
        forall|i: int|
            0 <= i < points@.len() ==> -0x100_0000_0000 <= (#[trigger] points@[i]).x
                <= 0x100_0000_0000 && -0x100_0000_0000 <= points@[i].y <= 0x100_0000_0000,
    ensures
        r@.len() == 16 * (points@.len() - 1),
        forall|j: int| 0 <= j < r@.len() ==> #[trigger] r@[j] == curve_result(points@, j),
{
    let n: usize = points.len();
    let mut result: Vec<Point2> = Vec::new();
    let mut s: usize = 0;
    while s < n - 1
        invariant
            n == points@.len(),
            n >= 1,
            forall|i: int|
                0 <= i < points@.len() ==> -0x100_0000_0000 <= (#[trigger] points@[i]).x
                    <= 0x100_0000_0000 && -0x100_0000_0000 <= points@[i].y <= 0x100_0000_0000,
            0 <= s <= n - 1,
            result@.len() == 16 * s,
            forall|j: int| 0 <= j < result@.len() ==> #[trigger] result@[j] == curve_result(
                points@,
                j,
            ),
        decreases n - 1 - s,
    {
        let sm1: usize = if s == 0 {
            0
        } else {
            s - 1
        };
        let sp2: usize = if s + 2 <= n - 1 {
            s + 2
        } else {
            n - 1
        };
        let p0 = points[sm1];
        let p1 = points[s];
        let p2 = points[s + 1];
        let p3 = points[sp2];
        proof {
            assert(p0 == ctrl(points@, s as int - 1));
            assert(p1 == ctrl(points@, s as int));
            assert(p2 == ctrl(points@, s as int + 1));
            assert(p3 == ctrl(points@, s as int + 2));
        }
        let mut k: usize = 0;
        while k < 16
            invariant
                n == points@.len(),
                n >= 1,
                0 <= s < n - 1,
                0 <= k <= 16,
                forall|i: int|
                    0 <= i < points@.len() ==> -0x100_0000_0000 <= (#[trigger] points@[i]).x
                        <= 0x100_0000_0000 && -0x100_0000_0000 <= points@[i].y
                        <= 0x100_0000_0000,
                p0 == ctrl(points@, s as int - 1),
                p1 == ctrl(points@, s as int),
                p2 == ctrl(points@, s as int + 1),
                p3 == ctrl(points@, s as int + 2),
                result@.len() == 16 * s + k,
                forall|j: int| 0 <= j < result@.len() ==> #[trigger] result@[j] == curve_result(
                    points@,
                    j,
                ),
            decreases 16 - k,
        {
            let x = curve_coord_exec(p0.x, p1.x, p2.x, p3.x, k as i64);
            let y = curve_coord_exec(p0.y, p1.y, p2.y, p3.y, k as i64);
            let pt = Point2 { x, y };
            proof {
                assert(pt == curve_point(points@, s as int, k as int));
                let j = 16 * (s as int) + k as int;
                vstd::arithmetic::div_mod::lemma_fundamental_div_mod_converse_div(
                    j,
                    16,
                    s as int,
                    k as int,
                );
                vstd::arithmetic::div_mod::lemma_fundamental_div_mod_converse_mod(
                    j,
                    16,
                    s as int,
                    k as int,
                );
                assert(curve_result(points@, j) == pt);
            }
            result.push(pt);
            k = k + 1;
        }
        s = s + 1;
    }
    proof {
        assert(result@.len() == 16 * (points@.len() - 1));
    }
    result
}

} // verus!
