use vstd::prelude::*;

verus! {

/// Largest coordinate magnitude a point may have. The bound is chosen so that
/// every predicate of this module (up to the squared-circumradius comparison,
/// whose intermediate products reach roughly the sixth power of a coordinate
/// difference times the fourth power of another) fits comfortably in `i128`.
pub const COORD_BOUND: i64 = 1024;

/// An immutable 2D point on the bounded integer grid.
#[derive(Debug, Clone, Copy, PartialEq, Eq, Structural)]
pub struct Point {
    pub x: i64,
    pub y: i64,
}

/// A point lies on the grid the predicates are exact on.
pub open spec fn in_bounds(p: Point) -> bool {
    &&& -(COORD_BOUND as int) <= p.x <= COORD_BOUND as int
    &&& -(COORD_BOUND as int) <= p.y <= COORD_BOUND as int
}

/// Every point of a sequence lies on the bounded grid.
pub open spec fn all_in_bounds(s: Seq<Point>) -> bool {
    forall|i: int| 0 <= i < s.len() ==> in_bounds(#[trigger] s[i])
}

/// Twice the signed area of the triangle (p0, p1, p2); positive exactly when
/// the turn p0 -> p1 -> p2 is strictly counter-clockwise.
pub open spec fn cross(p0: Point, p1: Point, p2: Point) -> int {
    (p1.x - p0.x) * (p2.y - p0.y) - (p1.y - p0.y) * (p2.x - p0.x)
}

/// Squared euclidean distance between two points.
pub open spec fn dist_sq(a: Point, b: Point) -> int {
    (a.x - b.x) * (a.x - b.x) + (a.y - b.y) * (a.y - b.y)
}

/// The 3x3 in-circle determinant with rows (p_i - q, |p_i - q|^2). When
/// (p0, p1, p2) is counter-clockwise, the value is positive exactly when q
/// lies strictly inside the circle through p0, p1, p2.
pub open spec fn in_circle_val(q: Point, p0: Point, p1: Point, p2: Point) -> int {
    let dx = p0.x - q.x;
    let dy = p0.y - q.y;
    let ex = p1.x - q.x;
    let ey = p1.y - q.y;
    let fx = p2.x - q.x;
    let fy = p2.y - q.y;
    let ap = dx * dx + dy * dy;
    let bp = ex * ex + ey * ey;
    let cp = fx * fx + fy * fy;
    dx * (ey * cp - bp * fy) - dy * (ex * cp - bp * fx) + ap * (ex * fy - ey * fx)
}

/// Numerator (x component) of the circumcenter offset from p0, with implicit
/// denominator `2 * cross(p0, p1, p2)`.
pub open spec fn circum_qx(p0: Point, p1: Point, p2: Point) -> int {
    let dx = p1.x - p0.x;
    let dy = p1.y - p0.y;
    let ex = p2.x - p0.x;
    let ey = p2.y - p0.y;
    let bl = dx * dx + dy * dy;
    let cl = ex * ex + ey * ey;
    ey * bl - dy * cl
}

/// Numerator (y component) of the circumcenter offset from p0, with implicit
/// denominator `2 * cross(p0, p1, p2)`.
pub open spec fn circum_qy(p0: Point, p1: Point, p2: Point) -> int {
    let dx = p1.x - p0.x;
    let dy = p1.y - p0.y;
    let ex = p2.x - p0.x;
    let ey = p2.y - p0.y;
    let bl = dx * dx + dy * dy;
    let cl = ex * ex + ey * ey;
    dx * cl - ex * bl
}

/// Numerator of the squared circumradius of (p0, p1, p2); the full value is
/// this over `circum_r2_den` of the same triangle.
pub open spec fn circum_r2_num(p0: Point, p1: Point, p2: Point) -> int {
    circum_qx(p0, p1, p2) * circum_qx(p0, p1, p2)
        + circum_qy(p0, p1, p2) * circum_qy(p0, p1, p2)
}

/// Denominator of the squared circumradius of (p0, p1, p2).
pub open spec fn circum_r2_den(p0: Point, p1: Point, p2: Point) -> int {
    (2 * cross(p0, p1, p2)) * (2 * cross(p0, p1, p2))
}

/// `n1/d1 <= n2/d2` for rationals with positive denominators, cleared of
/// divisions.
pub open spec fn rat_le(n1: int, d1: int, n2: int, d2: int) -> bool {
    n1 * d2 <= n2 * d1
}

/// Both factors bounded in magnitude bound the product's magnitude.
pub proof fn lemma_mul_bounds(a: int, b: int, aa: int, bb: int)
    by (nonlinear_arith)
    requires
        -aa <= a <= aa,
        -bb <= b <= bb,
        0 <= aa,
        0 <= bb,
    ensures
        -(aa * bb) <= a * b <= aa * bb,
{
}

/// The square of a nonzero value is strictly positive.
pub proof fn lemma_square_pos(a: int)
    by (nonlinear_arith)
    requires
        a != 0,
    ensures
        a * a > 0,
{
}

/// `rat_le` is transitive over positive denominators.
pub proof fn lemma_rat_le_trans(n1: int, d1: int, n2: int, d2: int, n3: int, d3: int)
    by (nonlinear_arith)
    requires
        d1 > 0,
        d2 > 0,
        d3 > 0,
        n1 * d2 <= n2 * d1,
        n2 * d3 <= n3 * d2,
    ensures
        n1 * d3 <= n3 * d1,
{
}

/// Swapping the last two arguments negates the cross product.
pub proof fn lemma_cross_swap(a: Point, b: Point, c: Point)
    ensures
        cross(a, c, b) == -cross(a, b, c),
{
    lemma_cross_swap_int(a.x as int, a.y as int, b.x as int, b.y as int, c.x as int, c.y as int);
}

proof fn lemma_cross_swap_int(ax: int, ay: int, bx: int, by: int, cx: int, cy: int)
    by (nonlinear_arith)
    ensures
        (cx - ax) * (by - ay) - (cy - ay) * (bx - ax)
            == -((bx - ax) * (cy - ay) - (by - ay) * (cx - ax)),
{
}

/// Rotating the three arguments leaves the cross product unchanged.
pub proof fn lemma_cross_rotate(a: Point, b: Point, c: Point)
    ensures
        cross(b, c, a) == cross(a, b, c),
{
    lemma_cross_rotate_int(a.x as int, a.y as int, b.x as int, b.y as int, c.x as int, c.y as int);
}

proof fn lemma_cross_rotate_int(ax: int, ay: int, bx: int, by: int, cx: int, cy: int)
    by (nonlinear_arith)
    ensures
        (cx - bx) * (ay - by) - (cy - by) * (ax - bx)
            == (bx - ax) * (cy - ay) - (by - ay) * (cx - ax),
{
}

/// A cross product with a repeated argument is zero.
pub proof fn lemma_cross_degenerate(a: Point, b: Point)
    ensures
        cross(a, a, b) == 0,
        cross(a, b, a) == 0,
        cross(a, b, b) == 0,
        cross(a, a, a) == 0,
{
    lemma_cross_degenerate_int(a.x as int, a.y as int, b.x as int, b.y as int);
}

proof fn lemma_cross_degenerate_int(ax: int, ay: int, bx: int, by: int)
    by (nonlinear_arith)
    ensures
        (ax - ax) * (by - ay) - (ay - ay) * (bx - ax) == 0,
        (bx - ax) * (ay - ay) - (by - ay) * (ax - ax) == 0,
        (bx - ax) * (by - ay) - (by - ay) * (bx - ax) == 0,
{
}

/// If one orientation of three points is degenerate, every arrangement of
/// those three points (repeats included) is degenerate too.
pub proof fn lemma_collinear_all_arrangements(a: Point, b: Point, c: Point)
    requires
        cross(a, b, c) == 0,
    ensures
        forall|u: Point, v: Point, w: Point|
            (u == a || u == b || u == c) && (v == a || v == b || v == c)
                && (w == a || w == b || w == c) ==> #[trigger] cross(u, v, w) == 0,
{
    lemma_cross_rotate(a, b, c);
    lemma_cross_rotate(b, c, a);
    lemma_cross_swap(a, b, c);
    lemma_cross_swap(b, c, a);
    lemma_cross_swap(c, a, b);
    lemma_cross_degenerate(a, b);
    lemma_cross_degenerate(a, c);
    lemma_cross_degenerate(b, a);
    lemma_cross_degenerate(b, c);
    lemma_cross_degenerate(c, a);
    lemma_cross_degenerate(c, b);
    lemma_cross_degenerate(a, a);
    lemma_cross_degenerate(b, b);
    lemma_cross_degenerate(c, c);
}

impl Point {
    /// Squared distance to another point, exact.
    pub fn distance_squared(&self, other: &Point) -> (r: i64)
        requires
            in_bounds(*self),
            in_bounds(*other),
        ensures
            r == dist_sq(*self, *other),
            0 <= r <= 8 * (COORD_BOUND as int) * (COORD_BOUND as int),
    {
        let dx = self.x - other.x;
        let dy = self.y - other.y;
        proof {
            lemma_mul_bounds(dx as int, dx as int, 2048, 2048);
            lemma_mul_bounds(dy as int, dy as int, 2048, 2048);
            lemma_square_nonneg(dx as int);
            lemma_square_nonneg(dy as int);
        }
        dx * dx + dy * dy
    }

    /// True exactly when the turn p0 -> p1 -> p2 is strictly counter-clockwise.
    pub fn is_ccw(p0: &Point, p1: &Point, p2: &Point) -> (r: bool)
        requires
            in_bounds(*p0),
            in_bounds(*p1),
            in_bounds(*p2),
        ensures
            r == (cross(*p0, *p1, *p2) > 0),
    {
        let ax = p1.x - p0.x;
        let ay = p1.y - p0.y;
        let bx = p2.x - p0.x;
        let by = p2.y - p0.y;
        proof {
            lemma_mul_bounds(ax as int, by as int, 2048, 2048);
            lemma_mul_bounds(ay as int, bx as int, 2048, 2048);
        }
        ax * by - ay * bx > 0
    }

    /// Circumcenter offset from p0 as an exact rational: `Some((qx, qy, den))`
    /// means the circumcenter is `p0 + (qx/den, qy/den)`; `None` exactly when
    /// the three points are collinear and no circumcenter exists.
    pub fn circumdelta(p0: &Point, p1: &Point, p2: &Point) -> (r: Option<(i64, i64, i64)>)
        requires
            in_bounds(*p0),
            in_bounds(*p1),
            in_bounds(*p2),
        ensures
            r is Some <==> cross(*p0, *p1, *p2) != 0,
            r matches Some((qx, qy, den)) ==> {
                &&& qx == circum_qx(*p0, *p1, *p2)
                &&& qy == circum_qy(*p0, *p1, *p2)
                &&& den == 2 * cross(*p0, *p1, *p2)
                &&& den != 0
                &&& -68719476736 <= qx <= 68719476736
                &&& -68719476736 <= qy <= 68719476736
                &&& -33554432 <= den <= 33554432
            },
    {
        let dx = p1.x - p0.x;
        let dy = p1.y - p0.y;
        let ex = p2.x - p0.x;
        let ey = p2.y - p0.y;
        proof {
            lemma_mul_bounds(dx as int, dx as int, 2048, 2048);
            lemma_mul_bounds(dy as int, dy as int, 2048, 2048);
            lemma_mul_bounds(ex as int, ex as int, 2048, 2048);
            lemma_mul_bounds(ey as int, ey as int, 2048, 2048);
            lemma_mul_bounds(dx as int, ey as int, 2048, 2048);
            lemma_mul_bounds(dy as int, ex as int, 2048, 2048);
            lemma_square_nonneg(dx as int);
            lemma_square_nonneg(dy as int);
            lemma_square_nonneg(ex as int);
            lemma_square_nonneg(ey as int);
        }
        let bl = dx * dx + dy * dy;
        let cl = ex * ex + ey * ey;
        let d = dx * ey - dy * ex;
        if d == 0 {
            None
        } else {
            proof {
                lemma_mul_bounds(ey as int, bl as int, 2048, 8388608);
                lemma_mul_bounds(dy as int, cl as int, 2048, 8388608);
                lemma_mul_bounds(dx as int, cl as int, 2048, 8388608);
                lemma_mul_bounds(ex as int, bl as int, 2048, 8388608);
            }
            let qx = ey * bl - dy * cl;
            let qy = dx * cl - ex * bl;
            Some((qx, qy, 2 * d))
        }
    }

    /// Squared circumradius of (p0, p1, p2) as an exact nonnegative rational
    /// `num/den`; `None` exactly when the points are collinear.
    pub fn square_circumradius(p0: &Point, p1: &Point, p2: &Point) -> (r: Option<(i128, i128)>)
        requires
            in_bounds(*p0),
            in_bounds(*p1),
            in_bounds(*p2),
        ensures
            r is Some <==> cross(*p0, *p1, *p2) != 0,
            r matches Some((num, den)) ==> {
                &&& num == circum_r2_num(*p0, *p1, *p2)
                &&& den == circum_r2_den(*p0, *p1, *p2)
                &&& num >= 0
                &&& den > 0
                &&& num <= 9444732965739290427392
                &&& den <= 2251799813685248
            },
    {
        match Self::circumdelta(p0, p1, p2) {
            None => None,
            Some((qx, qy, den)) => {
                let qx128 = qx as i128;
                let qy128 = qy as i128;
                let den128 = den as i128;
                proof {
                    lemma_mul_bounds(qx128 as int, qx128 as int, 68719476736, 68719476736);
                    lemma_mul_bounds(qy128 as int, qy128 as int, 68719476736, 68719476736);
                    lemma_mul_bounds(den128 as int, den128 as int, 33554432, 33554432);
                    lemma_square_nonneg(qx128 as int);
                    lemma_square_nonneg(qy128 as int);
                    lemma_square_pos(den128 as int);
                }
                Some((qx128 * qx128 + qy128 * qy128, den128 * den128))
            },
        }
    }

    /// Circumcenter of (p0, p1, p2) as an exact rational `(cx/den, cy/den)`;
    /// `None` exactly when the points are collinear.
    pub fn circumcenter(p0: &Point, p1: &Point, p2: &Point) -> (r: Option<(i64, i64, i64)>)
        requires
            in_bounds(*p0),
            in_bounds(*p1),
            in_bounds(*p2),
        ensures
            r is Some <==> cross(*p0, *p1, *p2) != 0,
            r matches Some((cx, cy, den)) ==> {
                &&& den == 2 * cross(*p0, *p1, *p2)
                &&& den != 0
                &&& cx == p0.x * den + circum_qx(*p0, *p1, *p2)
                &&& cy == p0.y * den + circum_qy(*p0, *p1, *p2)
                &&& -274877906944 <= cx <= 274877906944
                &&& -274877906944 <= cy <= 274877906944
                &&& -33554432 <= den <= 33554432
            },
    {
        match Self::circumdelta(p0, p1, p2) {
            None => None,
            Some((qx, qy, den)) => {
                proof {
                    lemma_mul_bounds(p0.x as int, den as int, 1024, 33554432);
                    lemma_mul_bounds(p0.y as int, den as int, 1024, 33554432);
                }
                Some((p0.x * den + qx, p0.y * den + qy, den))
            },
        }
    }

    /// True exactly when `self` lies strictly inside the circle through
    /// p0, p1, p2, provided (p0, p1, p2) is counter-clockwise.
    pub fn in_circle(&self, p0: &Point, p1: &Point, p2: &Point) -> (r: bool)
        requires
            in_bounds(*self),
            in_bounds(*p0),
            in_bounds(*p1),
            in_bounds(*p2),
        ensures
            r == (in_circle_val(*self, *p0, *p1, *p2) > 0),
    {
        let dx = p0.x - self.x;
        let dy = p0.y - self.y;
        let ex = p1.x - self.x;
        let ey = p1.y - self.y;
        let fx = p2.x - self.x;
        let fy = p2.y - self.y;
        proof {
            lemma_mul_bounds(dx as int, dx as int, 2048, 2048);
            lemma_mul_bounds(dy as int, dy as int, 2048, 2048);
            lemma_mul_bounds(ex as int, ex as int, 2048, 2048);
            lemma_mul_bounds(ey as int, ey as int, 2048, 2048);
            lemma_mul_bounds(fx as int, fx as int, 2048, 2048);
            lemma_mul_bounds(fy as int, fy as int, 2048, 2048);
            lemma_square_nonneg(dx as int);
            lemma_square_nonneg(dy as int);
            lemma_square_nonneg(ex as int);
            lemma_square_nonneg(ey as int);
            lemma_square_nonneg(fx as int);
            lemma_square_nonneg(fy as int);
        }
        let ap = dx * dx + dy * dy;
        let bp = ex * ex + ey * ey;
        let cp = fx * fx + fy * fy;
        let dx128 = dx as i128;
        let dy128 = dy as i128;
        let ex128 = ex as i128;
        let ey128 = ey as i128;
        let fx128 = fx as i128;
        let fy128 = fy as i128;
        let ap128 = ap as i128;
        let bp128 = bp as i128;
        let cp128 = cp as i128;
        proof {
            lemma_mul_bounds(ey128 as int, cp128 as int, 2048, 8388608);
            lemma_mul_bounds(bp128 as int, fy128 as int, 8388608, 2048);
            lemma_mul_bounds(ex128 as int, cp128 as int, 2048, 8388608);
            lemma_mul_bounds(bp128 as int, fx128 as int, 8388608, 2048);
            lemma_mul_bounds(ex128 as int, fy128 as int, 2048, 2048);
            lemma_mul_bounds(ey128 as int, fx128 as int, 2048, 2048);
            lemma_mul_bounds(dx128 as int, (ey128 * cp128 - bp128 * fy128) as int, 2048, 34359738368);
            lemma_mul_bounds(dy128 as int, (ex128 * cp128 - bp128 * fx128) as int, 2048, 34359738368);
            lemma_mul_bounds(ap128 as int, (ex128 * fy128 - ey128 * fx128) as int, 8388608, 16777216);
        }
        dx128 * (ey128 * cp128 - bp128 * fy128) - dy128 * (ex128 * cp128 - bp128 * fx128)
            + ap128 * (ex128 * fy128 - ey128 * fx128) > 0
    }
}

/// The square of any value is nonnegative.
pub proof fn lemma_square_nonneg(a: int)
    by (nonlinear_arith)
    ensures
        a * a >= 0,
{
}

} // verus!
