use vstd::prelude::*;

use crate::geometry::{
    all_in_bounds, circum_r2_den, circum_r2_num, cross, dist_sq, in_bounds, in_circle_val,
    lemma_cross_degenerate, lemma_cross_swap, lemma_mul_bounds, lemma_rat_le_trans,
    lemma_square_pos, rat_le, Point,
};
use crate::graph_datastructure::{
    edges_wf, face_has_infinite, faces_wf, lemma_twin_in_range, next_wf, parts_wf, twin, twin_of,
    vertices_wf, Graph, GraphEdge, GraphFace, GraphVertex,
};

verus! {

/// A Delaunay-triangulated mesh; faces not touching the infinite vertex are
/// the triangulation's real triangles.
#[derive(Debug)]
pub struct Delaunay(pub Graph);

/// Smallest x coordinate of a nonempty point sequence.
pub open spec fn xs_min(s: Seq<Point>) -> int
    decreases s.len(),
{
    if s.len() <= 1 {
        s[0].x as int
    } else {
        let m = xs_min(s.drop_last());
        if s.last().x < m {
            s.last().x as int
        } else {
            m
        }
    }
}

/// Largest x coordinate of a nonempty point sequence.
pub open spec fn xs_max(s: Seq<Point>) -> int
    decreases s.len(),
{
    if s.len() <= 1 {
        s[0].x as int
    } else {
        let m = xs_max(s.drop_last());
        if s.last().x > m {
            s.last().x as int
        } else {
            m
        }
    }
}

/// Smallest y coordinate of a nonempty point sequence.
pub open spec fn ys_min(s: Seq<Point>) -> int
    decreases s.len(),
{
    if s.len() <= 1 {
        s[0].y as int
    } else {
        let m = ys_min(s.drop_last());
        if s.last().y < m {
            s.last().y as int
        } else {
            m
        }
    }
}

/// Largest y coordinate of a nonempty point sequence.
pub open spec fn ys_max(s: Seq<Point>) -> int
    decreases s.len(),
{
    if s.len() <= 1 {
        s[0].y as int
    } else {
        let m = ys_max(s.drop_last());
        if s.last().y > m {
            s.last().y as int
        } else {
            m
        }
    }
}

/// Squared distance of `p` to the bounding-box center given doubled center
/// coordinates (the center itself may be a half-integer).
pub open spec fn center_key(p: Point, cx2: int, cy2: int) -> int {
    (2 * p.x - cx2) * (2 * p.x - cx2) + (2 * p.y - cy2) * (2 * p.y - cy2)
}

/// No valid seed triangle exists: fewer than three points, or some chosen
/// pair of points is collinear with every point of the set (in particular,
/// a fully collinear or fully duplicate set).
pub open spec fn degenerate_seed(s: Seq<Point>) -> bool {
    ||| s.len() < 3
    ||| exists|a: int, b: int|
        #![trigger s[a], s[b]]
        0 <= a < s.len() && 0 <= b < s.len() && a != b && (forall|j: int|
            0 <= j < s.len() ==> cross(s[a], s[b], #[trigger] s[j]) == 0)
}

/// Every triple of points of the sequence (repeats included) is collinear.
pub open spec fn all_collinear(s: Seq<Point>) -> bool {
    forall|i: int, j: int, k: int|
        0 <= i < s.len() && 0 <= j < s.len() && 0 <= k < s.len() ==> #[trigger] cross(
            s[i],
            s[j],
            s[k],
        ) == 0
}

/// Doubled coordinates of the bounding-box center of all points, or `None`
/// for an empty set.
pub fn bbox_center(points: &Vec<Point>) -> (r: Option<(i64, i64)>)
    requires
        all_in_bounds(points@),
    ensures
        r is Some <==> points@.len() > 0,
        r matches Some((cx2, cy2)) ==> {
            &&& cx2 == xs_min(points@) + xs_max(points@)
            &&& cy2 == ys_min(points@) + ys_max(points@)
            &&& -2048 <= cx2 <= 2048
            &&& -2048 <= cy2 <= 2048
        },
{
    if points.len() == 0 {
        return None;
    }
    let mut min_x = points[0].x;
    let mut max_x = points[0].x;
    let mut min_y = points[0].y;
    let mut max_y = points[0].y;
    let mut i: usize = 1;
    proof {
        assert(points@.take(1) =~= seq![points@[0]]);
    }
    while i < points.len()
        invariant
            1 <= i <= points@.len(),
            all_in_bounds(points@),
            min_x == xs_min(points@.take(i as int)),
            max_x == xs_max(points@.take(i as int)),
            min_y == ys_min(points@.take(i as int)),
            max_y == ys_max(points@.take(i as int)),
            -1024 <= min_x <= 1024,
            -1024 <= max_x <= 1024,
            -1024 <= min_y <= 1024,
            -1024 <= max_y <= 1024,
        decreases points@.len() - i,
    {
        let p = points[i];
        proof {
            assert(points@.take(i + 1).drop_last() =~= points@.take(i as int));
            assert(points@.take(i + 1).last() == points@[i as int]);
        }
        if p.x < min_x {
            min_x = p.x;
        }
        if p.x > max_x {
            max_x = p.x;
        }
        if p.y < min_y {
            min_y = p.y;
        }
        if p.y > max_y {
            max_y = p.y;
        }
        i = i + 1;
    }
    proof {
        assert(points@.take(points@.len() as int) =~= points@);
    }
    Some((min_x + max_x, min_y + max_y))
}

/// Index of a point closest to the given doubled-coordinate position, or
/// `None` for an empty set. Among equally close points the result is the one
/// the scan settles on last.
pub fn find_closest_to_position(points: &Vec<Point>, cx2: i64, cy2: i64) -> (r: Option<usize>)
    requires
        all_in_bounds(points@),
        -2048 <= cx2 <= 2048,
        -2048 <= cy2 <= 2048,
    ensures
        r is Some <==> points@.len() > 0,
        r matches Some(v) ==> v < points@.len() && (forall|j: int|
            0 <= j < points@.len() ==> center_key(points@[v as int], cx2 as int, cy2 as int)
                <= center_key(#[trigger] points@[j], cx2 as int, cy2 as int)),
{
    if points.len() == 0 {
        return None;
    }
    let mut best: usize = 0;
    let mut best_key = center_key_exec(&points[0], cx2, cy2);
    let mut j: usize = 1;
    while j < points.len()
        invariant
            1 <= j <= points@.len(),
            all_in_bounds(points@),
            -2048 <= cx2 <= 2048,
            -2048 <= cy2 <= 2048,
            best < j,
            best_key == center_key(points@[best as int], cx2 as int, cy2 as int),
            forall|k: int|
                0 <= k < j ==> best_key <= center_key(#[trigger] points@[k], cx2 as int, cy2 as int),
        decreases points@.len() - j,
    {
        let key = center_key_exec(&points[j], cx2, cy2);
        if !(best_key < key) {
            best = j;
            best_key = key;
        }
        j = j + 1;
    }
    Some(best)
}

/// Exact squared distance of `p` to the doubled-coordinate center.
fn center_key_exec(p: &Point, cx2: i64, cy2: i64) -> (r: i64)
    requires
        in_bounds(*p),
        -2048 <= cx2 <= 2048,
        -2048 <= cy2 <= 2048,
    ensures
        r == center_key(*p, cx2 as int, cy2 as int),
        0 <= r <= 33554432,
{
    let dx = 2 * p.x - cx2;
    let dy = 2 * p.y - cy2;
    proof {
        lemma_mul_bounds(dx as int, dx as int, 4096, 4096);
        lemma_mul_bounds(dy as int, dy as int, 4096, 4096);
        crate::geometry::lemma_square_nonneg(dx as int);
        crate::geometry::lemma_square_nonneg(dy as int);
    }
    dx * dx + dy * dy
}

/// The given vertex index paired with the index of the point closest to it
/// (itself excluded), or `None` when no other point exists.
pub fn find_closest_to_vertex(points: &Vec<Point>, index: usize) -> (r: Option<(usize, usize)>)
    requires
        all_in_bounds(points@),
        index < points@.len(),
    ensures
        r is Some <==> points@.len() >= 2,
        r matches Some((a, b)) ==> a == index && b < points@.len() && b != index && (forall|j: int|
            0 <= j < points@.len() && j != index ==> dist_sq(
                points@[b as int],
                points@[index as int],
            ) <= dist_sq(#[trigger] points@[j], points@[index as int])),
{
    let mut found: bool = false;
    let mut best: usize = 0;
    let mut best_key: i64 = 0;
    let mut j: usize = 0;
    while j < points.len()
        invariant
            j <= points@.len(),
            index < points@.len(),
            all_in_bounds(points@),
            !found ==> (j == 0 || (j == 1 && index == 0)),
            found ==> {
                &&& best < j
                &&& best != index
                &&& best_key == dist_sq(points@[best as int], points@[index as int])
                &&& forall|k: int|
                    0 <= k < j && k != index ==> best_key <= dist_sq(
                        #[trigger] points@[k],
                        points@[index as int],
                    )
            },
        decreases points@.len() - j,
    {
        if j != index {
            let key = points[j].distance_squared(&points[index]);
            if !found || !(best_key < key) {
                found = true;
                best = j;
                best_key = key;
            }
        }
        j = j + 1;
    }
    if found {
        Some((index, best))
    } else {
        None
    }
}

/// The pair (v0, v1) completed by the remaining point whose triangle with
/// them has the smallest squared circumradius; collinear candidates offer no
/// circumradius and are passed over. `None` exactly when every other point is
/// collinear with (v0, v1).
pub fn find_delaunay_triangle(points: &Vec<Point>, v0: usize, v1: usize) -> (r: Option<
    (usize, usize, usize),
>)
    requires
        all_in_bounds(points@),
        v0 < points@.len(),
        v1 < points@.len(),
    ensures
        r is None <==> (forall|j: int|
            0 <= j < points@.len() && j != v0 && j != v1 ==> cross(
                points@[v0 as int],
                points@[v1 as int],
                #[trigger] points@[j],
            ) == 0),
        r matches Some((a, b, c)) ==> {
            &&& a == v0
            &&& b == v1
            &&& c < points@.len()
            &&& c != v0
            &&& c != v1
            &&& cross(points@[v0 as int], points@[v1 as int], points@[c as int]) != 0
            &&& forall|j: int|
                0 <= j < points@.len() && j != v0 && j != v1 && cross(
                    points@[v0 as int],
                    points@[v1 as int],
                    #[trigger] points@[j],
                ) != 0 ==> rat_le(
                    circum_r2_num(points@[v0 as int], points@[v1 as int], points@[c as int]),
                    circum_r2_den(points@[v0 as int], points@[v1 as int], points@[c as int]),
                    circum_r2_num(points@[v0 as int], points@[v1 as int], points@[j]),
                    circum_r2_den(points@[v0 as int], points@[v1 as int], points@[j]),
                )
        },
{
    let ghost p0 = points@[v0 as int];
    let ghost p1 = points@[v1 as int];
    let mut found: bool = false;
    let mut best: usize = 0;
    let mut best_num: i128 = 0;
    let mut best_den: i128 = 1;
    let mut j: usize = 0;
    while j < points.len()
        invariant
            j <= points@.len(),
            v0 < points@.len(),
            v1 < points@.len(),
            all_in_bounds(points@),
            p0 == points@[v0 as int],
            p1 == points@[v1 as int],
            !found ==> best_num == 0 && best_den == 1,
            !found ==> forall|k: int|
                0 <= k < j && k != v0 && k != v1 ==> cross(p0, p1, #[trigger] points@[k]) == 0,
            found ==> {
                &&& best < j
                &&& best != v0
                &&& best != v1
                &&& cross(p0, p1, points@[best as int]) != 0
                &&& best_num == circum_r2_num(p0, p1, points@[best as int])
                &&& best_den == circum_r2_den(p0, p1, points@[best as int])
                &&& 0 <= best_num <= 9444732965739290427392
                &&& 0 < best_den <= 2251799813685248
                &&& forall|k: int|
                    0 <= k < j && k != v0 && k != v1 && cross(p0, p1, #[trigger] points@[k]) != 0
                        ==> rat_le(
                        best_num as int,
                        best_den as int,
                        circum_r2_num(p0, p1, points@[k]),
                        circum_r2_den(p0, p1, points@[k]),
                    )
            },
        decreases points@.len() - j,
    {
        if j != v0 && j != v1 {
            match Point::square_circumradius(&points[v0], &points[v1], &points[j]) {
                None => {},
                Some((num, den)) => {
                    proof {
                        lemma_mul_bounds(
                            best_num as int,
                            den as int,
                            9444732965739290427392,
                            2251799813685248,
                        );
                        lemma_mul_bounds(
                            num as int,
                            best_den as int,
                            9444732965739290427392,
                            2251799813685248,
                        );
                    }
                    if !found || !(best_num * den < num * best_den) {
                        proof {
                            if found {
                                // the new candidate is at most the old best;
                                // carry minimality over by transitivity
                                assert forall|k: int|
                                    0 <= k < j && k != v0 && k != v1 && cross(
                                        p0,
                                        p1,
                                        #[trigger] points@[k],
                                    ) != 0 implies rat_le(
                                    num as int,
                                    den as int,
                                    circum_r2_num(p0, p1, points@[k]),
                                    circum_r2_den(p0, p1, points@[k]),
                                ) by {
                                    lemma_square_pos(2 * cross(p0, p1, points@[k]));
                                    lemma_rat_le_trans(
                                        num as int,
                                        den as int,
                                        best_num as int,
                                        best_den as int,
                                        circum_r2_num(p0, p1, points@[k]),
                                        circum_r2_den(p0, p1, points@[k]),
                                    );
                                }
                            }
                        }
                        found = true;
                        best = j;
                        best_num = num;
                        best_den = den;
                    }
                },
            }
        }
        j = j + 1;
    }
    if found {
        Some((v0, v1, best))
    } else {
        None
    }
}

/// Point `a` is (one of) the closest to the bounding-box center of the set.
pub open spec fn closest_to_bbox_center(s: Seq<Point>, a: int) -> bool {
    forall|j: int|
        0 <= j < s.len() ==> center_key(s[a], xs_min(s) + xs_max(s), ys_min(s) + ys_max(s))
            <= center_key(#[trigger] s[j], xs_min(s) + xs_max(s), ys_min(s) + ys_max(s))
}

/// Point `b` is (one of) the closest to point `a` among all others.
pub open spec fn closest_remaining(s: Seq<Point>, a: int, b: int) -> bool {
    forall|j: int|
        0 <= j < s.len() && j != a ==> dist_sq(s[b], s[a]) <= dist_sq(#[trigger] s[j], s[a])
}

/// No other choice of third point gives the pair (a, b) a strictly smaller
/// squared circumradius than `c` does.
pub open spec fn smallest_circumradius(s: Seq<Point>, a: int, b: int, c: int) -> bool {
    forall|j: int|
        0 <= j < s.len() && j != a && j != b && cross(s[a], s[b], #[trigger] s[j]) != 0
            ==> rat_le(
            circum_r2_num(s[a], s[b], s[c]),
            circum_r2_den(s[a], s[b], s[c]),
            circum_r2_num(s[a], s[b], s[j]),
            circum_r2_den(s[a], s[b], s[j]),
        )
}

/// Select the seed triangle: the point closest to the bounding-box center,
/// the point closest to that one, and the remaining point minimizing the
/// circumradius with them, oriented counter-clockwise. `None` when no valid
/// (non-collinear) seed exists.
pub fn find_seed_triangle(points: &Vec<Point>) -> (r: Option<(usize, usize, usize)>)
    requires
        all_in_bounds(points@),
    ensures
        r matches Some((a, b, c)) ==> {
            &&& a < points@.len()
            &&& b < points@.len()
            &&& c < points@.len()
            &&& a != b
            &&& a != c
            &&& b != c
            &&& cross(points@[a as int], points@[b as int], points@[c as int]) > 0
            &&& closest_to_bbox_center(points@, a as int)
            &&& ((closest_remaining(points@, a as int, b as int) && smallest_circumradius(
                points@,
                a as int,
                b as int,
                c as int,
            )) || (closest_remaining(points@, a as int, c as int) && smallest_circumradius(
                points@,
                a as int,
                c as int,
                b as int,
            )))
        },
        points@.len() < 3 ==> r is None,
        all_collinear(points@) ==> r is None,
        r is None ==> degenerate_seed(points@),
{
    let (cx2, cy2) = match bbox_center(points) {
        None => {
            return None;
        },
        Some(c) => c,
    };
    let v0 = match find_closest_to_position(points, cx2, cy2) {
        None => {
            return None;
        },
        Some(v) => v,
    };
    let (v0, v1) = match find_closest_to_vertex(points, v0) {
        None => {
            return None;
        },
        Some(p) => p,
    };
    match find_delaunay_triangle(points, v0, v1) {
        None => {
            proof {
                lemma_cross_degenerate(points@[v0 as int], points@[v1 as int]);
                assert(forall|j: int|
                    0 <= j < points@.len() ==> cross(
                        points@[v0 as int],
                        points@[v1 as int],
                        #[trigger] points@[j],
                    ) == 0);
            }
            None
        },
        Some((a, b, c)) => {
            proof {
                if all_collinear(points@) {
                    assert(cross(points@[a as int], points@[b as int], points@[c as int]) == 0);
                }
            }
            if Point::is_ccw(&points[a], &points[b], &points[c]) {
                Some((a, b, c))
            } else {
                proof {
                    lemma_cross_swap(points@[a as int], points@[b as int], points@[c as int]);
                }
                Some((a, c, b))
            }
        },
    }
}

/// Assemble the minimal mesh around the seed triangle (i0, i1, i2): one
/// finite triangle, an infinite vertex connected to each corner, 4 faces,
/// 12 half-edges and 4 vertices, satisfying every mesh invariant.
pub fn add_seed_triangle(
    edges: &mut Vec<GraphEdge>,
    faces: &mut Vec<GraphFace>,
    vertices: &mut Vec<GraphVertex>,
    i0: usize,
    i1: usize,
    i2: usize,
)
    requires
        old(edges)@.len() == 0,
        old(faces)@.len() == 0,
        old(vertices)@.len() == 0,
    ensures
        final(edges)@.len() == 12,
        final(faces)@.len() == 4,
        final(vertices)@.len() == 4,
        edges_wf(final(edges)@, 4, 4),
        next_wf(final(edges)@),
        faces_wf(final(edges)@, final(faces)@),
        final(vertices)@[0].position is None,
        final(vertices)@[1].position == Some(i2),
        final(vertices)@[2].position == Some(i1),
        final(vertices)@[3].position == Some(i0),
        final(edges)@[final(vertices)@[0].edge as int].vertex == 0,
        forall|v: int| 0 <= v < 4 ==> (#[trigger] final(vertices)@[v]).edge < 12,
        final(edges)@[1].vertex == 1 && final(edges)@[7].vertex == 3 && final(edges)@[9].vertex == 2,
        final(edges)@[1].face == 1 && final(faces)@[1].edge == 1,
        final(edges)@[1].next == 7 && final(edges)@[7].next == 9 && final(edges)@[9].next == 1,
        !crate::graph_datastructure::face_has_infinite(final(edges)@, 1),
        final(faces)@[0].edge == 0 && final(faces)@[2].edge == 6 && final(faces)@[3].edge == 8,
        crate::graph_datastructure::face_has_infinite(final(edges)@, 0),
        crate::graph_datastructure::face_has_infinite(final(edges)@, 6),
        crate::graph_datastructure::face_has_infinite(final(edges)@, 8),
{
    vertices.push(GraphVertex::new(None, 2));
    vertices.push(GraphVertex::new(Some(i2), 1));
    vertices.push(GraphVertex::new(Some(i1), 6));
    vertices.push(GraphVertex::new(Some(i0), 0));

    faces.push(GraphFace::new(0));
    faces.push(GraphFace::new(1));
    faces.push(GraphFace::new(6));
    faces.push(GraphFace::new(8));

    edges.push(GraphEdge::new(3, 3, 0));
    edges.push(GraphEdge::new(1, 7, 1));
    edges.push(GraphEdge::new(0, 8, 3));
    edges.push(GraphEdge::new(1, 5, 0));
    edges.push(GraphEdge::new(3, 11, 2));
    edges.push(GraphEdge::new(0, 0, 0));
    edges.push(GraphEdge::new(2, 4, 2));
    edges.push(GraphEdge::new(3, 9, 1));
    edges.push(GraphEdge::new(1, 10, 3));
    edges.push(GraphEdge::new(2, 1, 1));
    edges.push(GraphEdge::new(2, 2, 3));
    edges.push(GraphEdge::new(0, 6, 2));
}

/// Overwrite the `next` field of one half-edge record.
fn set_next(edges: &mut Vec<GraphEdge>, e: usize, n: usize)
    requires
        e < old(edges)@.len(),
    ensures
        final(edges)@.len() == old(edges)@.len(),
        final(edges)@[e as int].vertex == old(edges)@[e as int].vertex,
        final(edges)@[e as int].face == old(edges)@[e as int].face,
        final(edges)@[e as int].next == n,
        forall|k: int|
            0 <= k < final(edges)@.len() && k != e ==> final(edges)@[k] == old(edges)@[k],
{
    let mut rec = edges[e];
    rec.next = n;
    edges.set(e, rec);
}

/// Overwrite the `face` field of one half-edge record.
fn set_face(edges: &mut Vec<GraphEdge>, e: usize, f: usize)
    requires
        e < old(edges)@.len(),
    ensures
        final(edges)@.len() == old(edges)@.len(),
        final(edges)@[e as int].vertex == old(edges)@[e as int].vertex,
        final(edges)@[e as int].face == f,
        final(edges)@[e as int].next == old(edges)@[e as int].next,
        forall|k: int|
            0 <= k < final(edges)@.len() && k != e ==> final(edges)@[k] == old(edges)@[k],
{
    let mut rec = edges[e];
    rec.face = f;
    edges.set(e, rec);
}

/// Overwrite the `vertex` field of one half-edge record.
fn set_vertex(edges: &mut Vec<GraphEdge>, e: usize, v: usize)
    requires
        e < old(edges)@.len(),
    ensures
        final(edges)@.len() == old(edges)@.len(),
        final(edges)@[e as int].vertex == v,
        final(edges)@[e as int].face == old(edges)@[e as int].face,
        final(edges)@[e as int].next == old(edges)@[e as int].next,
        forall|k: int|
            0 <= k < final(edges)@.len() && k != e ==> final(edges)@[k] == old(edges)@[k],
{
    let mut rec = edges[e];
    rec.vertex = v;
    edges.set(e, rec);
}

/// Overwrite the stored incident half-edge of one vertex record.
fn set_vertex_edge(vertices: &mut Vec<GraphVertex>, v: usize, e: usize)
    requires
        v < old(vertices)@.len(),
    ensures
        final(vertices)@.len() == old(vertices)@.len(),
        final(vertices)@[v as int].position == old(vertices)@[v as int].position,
        final(vertices)@[v as int].edge == e,
        forall|k: int|
            0 <= k < final(vertices)@.len() && k != v ==> final(vertices)@[k] == old(vertices)@[k],
{
    let mut rec = vertices[v];
    rec.edge = e;
    vertices.set(v, rec);
}

/// Splice one new triangle joining `vertex` to the boundary edge pair
/// (current_edge, next_edge): six new half-edges and two new faces are added
/// and the surrounding records re-linked, preserving every mesh invariant.
/// Returns the half-edge opposite the new vertex, to be legalized.
pub fn add_triangle(
    edges: &mut Vec<GraphEdge>,
    faces: &mut Vec<GraphFace>,
    vertices: &mut Vec<GraphVertex>,
    vertex: usize,
    current_edge: usize,
    next_edge: usize,
) -> (r: usize)
    requires
        edges_wf(
            old(edges)@,
            old(faces)@.len() as int,
            old(vertices)@.len() as int,
        ),
        next_wf(old(edges)@),
        faces_wf(old(edges)@, old(faces)@),
        current_edge < old(edges)@.len(),
        old(edges)@[current_edge as int].next == twin_of(next_edge as int),
        vertex < old(vertices)@.len(),
        vertex != 0,
        old(vertices)@.len() >= 1,
        forall|v: int|
            0 <= v < old(vertices)@.len() ==> (#[trigger] old(vertices)@[v]).edge
                < old(edges)@.len(),
        old(edges)@.len() + 6 <= usize::MAX,
        old(faces)@.len() + 2 <= usize::MAX,
    ensures
        final(edges)@.len() == old(edges)@.len() + 6,
        final(faces)@.len() == old(faces)@.len() + 2,
        final(vertices)@.len() == old(vertices)@.len(),
        edges_wf(
            final(edges)@,
            final(faces)@.len() as int,
            final(vertices)@.len() as int,
        ),
        next_wf(final(edges)@),
        faces_wf(final(edges)@, final(faces)@),
        forall|v: int|
            0 <= v < final(vertices)@.len()
                ==> (#[trigger] final(vertices)@[v]).position == old(vertices)@[v].position,
        forall|v: int|
            0 <= v < final(vertices)@.len()
                ==> (#[trigger] final(vertices)@[v]).edge < final(edges)@.len(),
        final(vertices)@[0].edge == old(edges)@.len() + 2,
        final(edges)@[old(edges)@.len() as int + 2].vertex == 0,
        final(edges)@[old(edges)@.len() as int + 3].next == twin_of(next_edge as int),
        final(edges)@[old(edges)@.len() as int + 3].vertex == vertex,
        final(edges)@[old(edges)@.len() as int + 2].next == old(edges)@.len(),
        final(edges)@[old(edges)@.len() as int].next == current_edge,
        final(edges)@[old(edges)@.len() as int + 2].face == old(faces)@.len(),
        final(edges)@[old(edges)@.len() as int + 3].face == old(faces)@.len() + 1,
        final(edges)@[current_edge as int].face == old(faces)@.len(),
        final(edges)@[current_edge as int].next == old(edges)@.len() + 2,
        final(edges)@[current_edge as int].vertex == old(edges)@[current_edge as int].vertex,
        forall|e: int|
            0 <= e < old(edges)@.len()
                ==> (#[trigger] final(edges)@[e]).vertex == old(edges)@[e].vertex,
        r < old(edges)@.len(),
        r == twin_of(old(edges)@[twin_of(next_edge as int)].next as int),
        forall|e: int|
            0 <= e < old(edges)@.len() && e != current_edge && e != twin_of(next_edge as int)
                && e != twin_of(r as int) ==> final(edges)@[e] == old(edges)@[e],
        final(faces)@[old(faces)@.len() as int].edge == old(edges)@.len(),
        final(faces)@[old(faces)@.len() as int + 1].edge == old(edges)@.len() + 4,
        final(faces)@[old(edges)@[twin_of(next_edge as int)].face as int].edge == twin_of(
            r as int,
        ),
        forall|f: int|
            0 <= f < old(faces)@.len() && f != old(edges)@[twin_of(next_edge as int)].face
                ==> final(faces)@[f] == old(faces)@[f],
        forall|v: int|
            0 <= v < old(vertices)@.len() && v != 0 && v != vertex ==> final(vertices)@[v] == old(
                vertices,
            )@[v],
        final(vertices)@[vertex as int].edge == old(edges)@.len(),
        final(edges)@[old(edges)@.len() as int + 1].vertex == old(edges)@[
            current_edge as int].vertex,
        final(edges)@[old(edges)@.len() as int + 5].vertex == vertex,
        final(edges)@[old(edges)@.len() as int + 1].next == old(edges)@.len() + 5,
        final(edges)@[old(edges)@.len() as int + 5].next == twin_of(r as int),
        final(edges)@[twin_of(r as int)].next == old(edges)@.len() + 1,
        final(edges)@[old(edges)@.len() as int + 1].face == old(edges)@[twin_of(
            next_edge as int,
        )].face,
{
    proof {
        lemma_twin_in_range(next_edge as int, old(edges)@.len() as int);
    }
    let tne = twin(next_edge);
    let current_vertex = edges[current_edge].vertex;
    let next_vertex = edges[next_edge].vertex;
    let face = edges[tne].face;
    proof {
        lemma_twin_in_range(
            edges@[tne as int].next as int,
            old(edges)@.len() as int,
        );
    }
    let opposite_edge = twin(edges[tne].next);
    let toe = twin(opposite_edge);

    let ghost old_edges = edges@;
    let ghost ce = current_edge as int;
    let ghost tn = tne as int;
    let ghost to = toe as int;

    // the pre-state boundary cycle being subdivided is exactly
    // {current_edge, twin(next_edge), twin(opposite_edge)}
    proof {
        assert(old_edges[ce].next == tn);
        assert(old_edges[tn].next == to);
        assert(old_edges[to].next as int == ce);
        assert(tn != ce && to != ce);
        assert(to != tn) by {
            assert(old_edges[tn].next as int != tn);
        }
        assert(old_edges[tn].face == old_edges[ce].face);
        assert(old_edges[to].face == old_edges[tn].face);
    }

    let new_current_face = faces.len();
    let new_next_face = new_current_face + 1;
    let edge = edges.len();

    faces.push(GraphFace::new(edge));
    faces.push(GraphFace::new(edge + 4));

    edges.push(GraphEdge::new(vertex, current_edge, new_current_face));
    edges.push(GraphEdge::new(current_vertex, edge + 5, face));
    edges.push(GraphEdge::new(0, edge, new_current_face));
    edges.push(GraphEdge::new(vertex, tne, new_next_face));
    edges.push(GraphEdge::new(next_vertex, edge + 3, new_next_face));
    edges.push(GraphEdge::new(vertex, toe, face));

    set_next(edges, tne, edge + 4);
    set_next(edges, current_edge, edge + 2);
    set_next(edges, toe, edge + 1);

    set_face(edges, current_edge, new_current_face);
    set_face(edges, tne, new_next_face);

    faces.set(face, GraphFace::new(toe));

    set_vertex_edge(vertices, vertex, edge);
    set_vertex_edge(vertices, 0, edge + 2);

    proof {
        let n = edges@;
        let nl = n.len() as int;
        let el = edge as int;
        assert(n.len() == old_edges.len() + 6);
        // the three rewired cycles close in three steps
        assert(n[el].next as int == ce && n[ce].next as int == el + 2 && n[el + 2].next as int
            == el);
        assert(n[el + 4].next as int == el + 3 && n[el + 3].next as int == tn && n[tn].next as int
            == el + 4);
        assert(n[el + 1].next as int == el + 5 && n[el + 5].next as int == to && n[to].next as int
            == el + 1);
        // untouched old edges keep their cycles: their successors cannot be
        // one of the three rewired edges, which formed one whole cycle
        crate::graph_datastructure::lemma_cycles_untouched(old_edges, n, ce, tn, to, ce, tn, to);
        assert(next_wf(n));
        assert(faces_wf(n, faces@));
    }

    opposite_edge
}

/// Successor of a hull-boundary half-edge along the walk: the twin of its
/// face successor, which points at the infinite vertex again.
pub open spec fn hull_next(edges: Seq<GraphEdge>, e: int) -> int {
    twin_of(edges[e].next as int)
}

/// The half-edge reached after `k` hull-walk steps from `e`.
pub open spec fn hull_reach(edges: Seq<GraphEdge>, e: int, k: nat) -> int
    decreases k,
{
    if k == 0 {
        e
    } else {
        hull_next(edges, hull_reach(edges, e, (k - 1) as nat))
    }
}

/// The walk steps past hull edge `e`: the query point lies strictly left of
/// the segment from `e`'s origin to its successor's origin (`e` is not
/// visible from the point).
pub open spec fn hull_step_left(
    edges: Seq<GraphEdge>,
    vertices: Seq<GraphVertex>,
    points: Seq<Point>,
    position: int,
    e: int,
) -> bool {
    let u = edges[e].vertex as int;
    let w = edges[hull_next(edges, e)].vertex as int;
    cross(
        points[position],
        points[vertices[u].position->0 as int],
        points[vertices[w].position->0 as int],
    ) > 0
}

/// The walk cannot step past `e`: its successor is not a well-formed hull
/// record (unresolvable origin, or not pointing back at the infinite vertex).
pub open spec fn hull_walk_stuck(
    edges: Seq<GraphEdge>,
    vertices: Seq<GraphVertex>,
    plen: int,
    e: int,
) -> bool {
    let nxt = hull_next(edges, e);
    let w = edges[nxt].vertex as int;
    ||| !(vertices[w].position is Some)
    ||| vertices[w].position->0 >= plen
    ||| edges[twin_of(nxt)].vertex != 0
    ||| w == 0
}

/// The stored start of the walk is itself unusable.
pub open spec fn hull_start_bad(
    edges: Seq<GraphEdge>,
    vertices: Seq<GraphVertex>,
    plen: int,
) -> bool {
    let initial = twin_of(vertices[0].edge as int);
    let u = edges[initial].vertex as int;
    ||| !(vertices[u].position is Some)
    ||| vertices[u].position->0 >= plen
    ||| u == 0
}

/// Walk the outer hull boundary from the infinite vertex's stored half-edge
/// until a half-edge visible from the point at `position` is found: one whose
/// hull segment the point is not strictly left of. The result is the first
/// visible edge met along the walk; `None` comes only when the walk closed
/// the full boundary with the point strictly left of every edge (the point is
/// then dropped as a no-op), or when it met a malformed record, or when the
/// step budget ran out. The flag reports whether the visible edge was the
/// very first one, in which case the caller also fans backwards.
pub fn find_visible_edge(
    edges: &Vec<GraphEdge>,
    vertices: &Vec<GraphVertex>,
    points: &Vec<Point>,
    position: usize,
) -> (r: Option<(usize, bool)>)
    requires
        edges@.len() % 2 == 0,
        edges@.len() < usize::MAX,
        forall|e: int|
            0 <= e < edges@.len() ==> (#[trigger] edges@[e]).vertex < vertices@.len()
                && edges@[e].next < edges@.len(),
        vertices@.len() >= 1,
        vertices@[0].edge < edges@.len(),
        edges@[vertices@[0].edge as int].vertex == 0,
        vertices@[0].position is None,
        all_in_bounds(points@),
        position < points@.len(),
    ensures
        r matches Some((e, flg)) ==> {
            let u = edges@[e as int].vertex as int;
            let nx = twin_of(edges@[e as int].next as int);
            let w = edges@[nx].vertex as int;
            &&& e < edges@.len()
            &&& edges@[twin_of(e as int)].vertex == 0
            &&& edges@[e as int].vertex != 0
            &&& vertices@[u].position is Some
            &&& vertices@[w].position is Some
            &&& vertices@[u].position->0 < points@.len()
            &&& vertices@[w].position->0 < points@.len()
            &&& cross(
                points@[position as int],
                points@[vertices@[u].position->0 as int],
                points@[vertices@[w].position->0 as int],
            ) <= 0
            &&& flg == (e as int == twin_of(vertices@[0].edge as int))
            &&& exists|k: nat|
                e as int == #[trigger] hull_reach(
                    edges@,
                    twin_of(vertices@[0].edge as int),
                    k,
                ) && (forall|j: nat|
                    j < k ==> hull_step_left(
                        edges@,
                        vertices@,
                        points@,
                        position as int,
                        #[trigger] hull_reach(edges@, twin_of(vertices@[0].edge as int), j),
                    ))
        },
        r is None ==> hull_start_bad(edges@, vertices@, points@.len() as int) || (exists|k: nat|
            #![trigger hull_reach(edges@, twin_of(vertices@[0].edge as int), k)]
            (forall|j: nat|
                j < k ==> hull_step_left(
                    edges@,
                    vertices@,
                    points@,
                    position as int,
                    #[trigger] hull_reach(edges@, twin_of(vertices@[0].edge as int), j),
                )) && {
                ||| hull_walk_stuck(
                    edges@,
                    vertices@,
                    points@.len() as int,
                    hull_reach(edges@, twin_of(vertices@[0].edge as int), k),
                )
                ||| (k > 0 && hull_reach(edges@, twin_of(vertices@[0].edge as int), k)
                    == twin_of(vertices@[0].edge as int))
                ||| k > edges@.len()
            }),
{
    proof {
        lemma_twin_in_range(vertices@[0].edge as int, edges@.len() as int);
    }
    let initial = twin(vertices[0].edge);
    let mut current = initial;
    let cu0 = edges[current].vertex;
    let mut current_position: usize = match vertices[cu0].position {
        None => {
            return None;
        },
        Some(p) => p,
    };
    if current_position >= points.len() {
        return None;
    }
    if cu0 == 0 {
        return None;
    }
    let ghost mut steps: nat = 0;
    let mut fuel: usize = edges.len() + 1;
    while fuel > 0
        invariant
            fuel <= edges@.len() + 1,
            fuel as int == edges@.len() + 1 - steps,
            current as int == hull_reach(edges@, initial as int, steps),
            forall|j: nat|
                j < steps ==> hull_step_left(
                    edges@,
                    vertices@,
                    points@,
                    position as int,
                    #[trigger] hull_reach(edges@, initial as int, j),
                ),
            edges@.len() % 2 == 0,
            edges@.len() < usize::MAX,
            forall|e: int|
                0 <= e < edges@.len() ==> (#[trigger] edges@[e]).vertex < vertices@.len()
                    && edges@[e].next < edges@.len(),
            vertices@.len() >= 1,
            vertices@[0].edge < edges@.len(),
            vertices@[0].position is None,
            all_in_bounds(points@),
            position < points@.len(),
            initial == twin_of(vertices@[0].edge as int),
            current < edges@.len(),
            edges@[twin_of(current as int)].vertex == 0,
            edges@[current as int].vertex != 0,
            vertices@[edges@[current as int].vertex as int].position == Some(current_position),
            current_position < points@.len(),
        decreases fuel,
    {
        proof {
            lemma_twin_in_range(current as int, edges@.len() as int);
            lemma_twin_in_range(edges@[current as int].next as int, edges@.len() as int);
        }
        let next = twin(edges[current].next);
        let nv = edges[next].vertex;
        let next_position: usize = match vertices[nv].position {
            None => {
                proof {
                    assert(hull_walk_stuck(edges@, vertices@, points@.len() as int, current as int));
                }
                return None;
            },
            Some(p) => p,
        };
        if next_position >= points.len() {
            proof {
                assert(hull_walk_stuck(edges@, vertices@, points@.len() as int, current as int));
            }
            return None;
        }
        if !Point::is_ccw(&points[position], &points[current_position], &points[next_position]) {
            proof {
                assert(current as int == hull_reach(edges@, initial as int, steps));
            }
            return Some((current, current == initial));
        }
        proof {
            assert(hull_step_left(edges@, vertices@, points@, position as int, current as int));
        }
        if edges[twin(next)].vertex != 0 {
            proof {
                assert(hull_walk_stuck(edges@, vertices@, points@.len() as int, current as int));
            }
            return None;
        }
        if nv == 0 {
            proof {
                assert(hull_walk_stuck(edges@, vertices@, points@.len() as int, current as int));
            }
            return None;
        }
        current = next;
        current_position = next_position;
        proof {
            steps = steps + 1;
            assert(current as int == hull_reach(edges@, initial as int, steps));
        }
        if current == initial {
            proof {
                assert(steps > 0 && hull_reach(edges@, initial as int, steps) == initial as int);
            }
            return None;
        }
        fuel = fuel - 1;
    }
    proof {
        assert(steps > edges@.len());
    }
    None
}

/// The quad around half-edge `e` demands a Lawson flip: both sides are
/// distinct faces whose four corners are finite and pairwise distinct across
/// the edge, and the apex opposite `e` lies strictly inside the other
/// triangle's circumcircle.
#[verifier::opaque]
pub open spec fn flip_demanded(
    edges: Seq<GraphEdge>,
    vertices: Seq<GraphVertex>,
    points: Seq<Point>,
    e: int,
) -> bool {
    let t1e1 = twin_of(edges[e].next as int);
    let t1e0 = twin_of(e);
    let t0e1 = twin_of(edges[t1e0].next as int);
    let t0e2 = twin_of(edges[twin_of(t0e1)].next as int);
    let t1e2 = twin_of(edges[twin_of(t1e1)].next as int);
    let va = edges[e].vertex as int;
    let vb = edges[t1e0].vertex as int;
    let v0 = edges[t0e1].vertex as int;
    let v1 = edges[t1e1].vertex as int;
    &&& v1 != 0
    &&& vertices[v0].position is Some
    &&& vertices[va].position is Some
    &&& vertices[vb].position is Some
    &&& vertices[v1].position is Some
    &&& edges[e].face != edges[t1e0].face
    &&& edges[twin_of(t1e1)].vertex != 0
    &&& edges[twin_of(t1e2)].vertex != 0
    &&& edges[twin_of(t0e1)].vertex != 0
    &&& edges[twin_of(t0e2)].vertex != 0
    &&& v1 != va
    &&& v0 != vb
    &&& in_circle_val(
        points[vertices[v0].position->0 as int],
        points[vertices[va].position->0 as int],
        points[vertices[vb].position->0 as int],
        points[vertices[v1].position->0 as int],
    ) > 0
}

/// Lawson legalization with an explicit work stack: while the quad around a
/// newly internal half-edge violates the empty-circumcircle test, flip that
/// edge and re-examine the two edges that became newly internal. Flips touch
/// only quads whose four corners are finite, so the outer boundary and every
/// face at the infinite vertex stay untouched. The result reports whether the
/// entry edge itself was flipped: it is flipped exactly when its quad demands
/// it, and then ends joining the two vertices opposite it; when it is not,
/// the whole pass is a no-op.
#[verifier::rlimit(100)]
pub fn legalize(
    edges: &mut Vec<GraphEdge>,
    faces: &mut Vec<GraphFace>,
    vertices: &mut Vec<GraphVertex>,
    points: &Vec<Point>,
    t0e0: usize,
) -> (flipped: bool)
    requires
        edges_wf(old(edges)@, old(faces)@.len() as int, old(vertices)@.len() as int),
        next_wf(old(edges)@),
        faces_wf(old(edges)@, old(faces)@),
        vertices_wf(old(vertices)@, old(edges)@, points@.len() as int),
        all_in_bounds(points@),
        t0e0 < old(edges)@.len(),
    ensures
        flipped == flip_demanded(old(edges)@, old(vertices)@, points@, t0e0 as int),
        !flipped ==> final(edges)@ == old(edges)@ && final(faces)@ == old(faces)@
            && final(vertices)@ == old(vertices)@,
        flipped ==> {
            &&& final(edges)@[t0e0 as int].vertex == old(edges)@[twin_of(
                old(edges)@[t0e0 as int].next as int,
            )].vertex
            &&& final(edges)@[twin_of(t0e0 as int)].vertex == old(edges)@[twin_of(
                old(edges)@[twin_of(t0e0 as int)].next as int,
            )].vertex
            &&& final(edges)@[t0e0 as int].vertex != old(edges)@[t0e0 as int].vertex
            &&& final(edges)@[twin_of(t0e0 as int)].vertex != old(edges)@[twin_of(
                t0e0 as int,
            )].vertex
        },
        final(edges)@.len() == old(edges)@.len(),
        final(faces)@.len() == old(faces)@.len(),
        final(vertices)@.len() == old(vertices)@.len(),
        edges_wf(final(edges)@, final(faces)@.len() as int, final(vertices)@.len() as int),
        next_wf(final(edges)@),
        faces_wf(final(edges)@, final(faces)@),
        vertices_wf(final(vertices)@, final(edges)@, points@.len() as int),
        forall|v: int|
            0 <= v < final(vertices)@.len()
                ==> (#[trigger] final(vertices)@[v]).position == old(vertices)@[v].position,
        final(vertices)@[0] == old(vertices)@[0],
        forall|e: int|
            0 <= e < old(edges)@.len() && crate::graph_datastructure::face_has_infinite(
                old(edges)@,
                e,
            ) ==> final(edges)@[e] == old(edges)@[e],
{
    let ghost entry_edges = old(edges)@;
    let mut stack: Vec<usize> = Vec::new();
    stack.push(t0e0);
    let mut flipped = false;
    let mut fuel: u64 = 18446744073709551615u64;
    while stack.len() > 0 && fuel > 0
        invariant
            t0e0 < edges@.len(),
            !flipped ==> edges@ == entry_edges && faces@ == old(faces)@ && vertices@ == old(
                vertices,
            )@,
            !flipped ==> (stack@.len() == 0 || (stack@.len() == 1 && stack@[0] == t0e0)),
            !flipped && stack@.len() == 0 ==> !flip_demanded(
                entry_edges,
                old(vertices)@,
                points@,
                t0e0 as int,
            ),
            !flipped && stack@.len() > 0 ==> fuel == 18446744073709551615u64,
            flipped ==> flip_demanded(entry_edges, old(vertices)@, points@, t0e0 as int),
            flipped ==> {
                &&& edges@[t0e0 as int].vertex == entry_edges[twin_of(
                    entry_edges[t0e0 as int].next as int,
                )].vertex
                &&& edges@[twin_of(t0e0 as int)].vertex == entry_edges[twin_of(
                    entry_edges[twin_of(t0e0 as int)].next as int,
                )].vertex
                &&& edges@[t0e0 as int].vertex != entry_edges[t0e0 as int].vertex
                &&& edges@[twin_of(t0e0 as int)].vertex != entry_edges[twin_of(
                    t0e0 as int,
                )].vertex
            },
            edges@.len() == entry_edges.len(),
            faces@.len() == old(faces)@.len(),
            vertices@.len() == old(vertices)@.len(),
            edges_wf(edges@, faces@.len() as int, vertices@.len() as int),
            next_wf(edges@),
            faces_wf(edges@, faces@),
            vertices_wf(vertices@, edges@, points@.len() as int),
            all_in_bounds(points@),
            forall|v: int|
                0 <= v < vertices@.len()
                    ==> (#[trigger] vertices@[v]).position == old(vertices)@[v].position,
            vertices@[0] == old(vertices)@[0],
            forall|k: int| 0 <= k < stack@.len() ==> (#[trigger] stack@[k]) < edges@.len(),
            forall|e: int|
                0 <= e < entry_edges.len() && crate::graph_datastructure::face_has_infinite(entry_edges, e)
                    ==> edges@[e] == entry_edges[e],
        decreases fuel,
    {
        fuel = fuel - 1;
        let e0 = match stack.pop() {
            Some(x) => x,
            None => {
                proof {
                    assert(false);
                }
                0
            },
        };
        proof {
            lemma_twin_in_range(e0 as int, edges@.len() as int);
            lemma_twin_in_range(edges@[e0 as int].next as int, edges@.len() as int);
        }
        if flipped && (e0 == t0e0 || e0 == twin(t0e0)) {
            // the entry pair is the diagonal the first flip created; the
            // cascade never has to revisit it
            continue ;
        }
        let t1e1 = twin(edges[e0].next);
        let p = edges[t1e1].vertex;
        if p != 0 {
            let t1e0 = twin(e0);
            proof {
                lemma_twin_in_range(edges@[t1e0 as int].next as int, edges@.len() as int);
            }
            let t0e1 = twin(edges[t1e0].next);
            proof {
                lemma_twin_in_range(edges@[twin_of(t0e1 as int)].next as int, edges@.len() as int);
                lemma_twin_in_range(edges@[twin_of(t1e1 as int)].next as int, edges@.len() as int);
            }
            let t0e2 = twin(edges[twin(t0e1)].next);
            let t1e2 = twin(edges[twin(t1e1)].next);

            let va = edges[e0].vertex;
            let vb = edges[t1e0].vertex;
            let v0 = edges[t0e1].vertex;
            let v1 = edges[t1e1].vertex;

            let quad = (
                vertices[v0].position,
                vertices[va].position,
                vertices[vb].position,
                vertices[v1].position,
            );
            if let (Some(p0i), Some(pai), Some(pbi), Some(p1i)) = quad {
                // a flip may only touch a quad of four finite corners; the
                // same must hold of the boundary records it rewires
                if edges[e0].face != edges[t1e0].face && edges[twin(t1e1)].vertex != 0
                    && edges[twin(t1e2)].vertex != 0 && edges[twin(t0e1)].vertex != 0 && edges[twin(
                    t0e2,
                )].vertex != 0 && v1 != va && v0 != vb {
                    if points[p0i].in_circle(&points[pai], &points[pbi], &points[p1i]) {
                        proof {
                            if !flipped {
                                reveal(flip_demanded);
                                assert(e0 == t0e0 && edges@ == entry_edges && vertices@ == old(
                                    vertices,
                                )@);
                                assert(flip_demanded(
                                    entry_edges,
                                    old(vertices)@,
                                    points@,
                                    t0e0 as int,
                                ));
                            }
                        }
                        let ghost pre = edges@;
                        let ghost a0 = e0 as int;
                        let ghost a1 = twin_of(t1e1 as int);
                        let ghost a2 = twin_of(t1e2 as int);
                        let ghost b0 = twin_of(e0 as int);
                        let ghost b1 = twin_of(t0e1 as int);
                        let ghost b2 = twin_of(t0e2 as int);
                        proof {
                            // the two pre-state face cycles around the edge
                            assert(pre[a0].next as int == a1 && pre[a1].next as int == a2
                                && pre[a2].next as int == a0);
                            assert(pre[b0].next as int == b1 && pre[b1].next as int == b2
                                && pre[b2].next as int == b0);
                            assert(a1 != a0 && a2 != a0 && a1 != a2) by {
                                assert(pre[a1].next as int != a1);
                            }
                            assert(b1 != b0 && b2 != b0 && b1 != b2) by {
                                assert(pre[b1].next as int != b1);
                            }
                            assert(pre[a1].face == pre[a0].face && pre[a2].face == pre[a0].face);
                            assert(pre[b1].face == pre[b0].face && pre[b2].face == pre[b0].face);
                        }
                        let t0 = edges[twin(t0e2)].face;
                        let t1 = edges[twin(t1e2)].face;

                        set_vertex_edge(vertices, va, twin(t0e1));
                        set_vertex_edge(vertices, vb, twin(t1e1));
                        set_next(edges, twin(t0e2), twin(t1e1));
                        set_next(edges, twin(t1e2), twin(t0e1));
                        set_vertex(edges, e0, v1);
                        set_vertex(edges, t1e0, v0);
                        set_next(edges, e0, twin(t0e2));
                        set_next(edges, t1e0, twin(t1e2));
                        set_next(edges, twin(t0e1), t1e0);
                        set_next(edges, twin(t1e1), e0);
                        set_face(edges, twin(t0e2), t1);
                        set_face(edges, twin(t1e2), t0);
                        faces.set(t0, GraphFace::new(twin(t0e1)));
                        faces.set(t1, GraphFace::new(twin(t1e1)));

                        proof {
                            let n = edges@;
                            // the two rewired cycles close in three steps
                            assert(n[a0].next as int == b2 && n[b2].next as int == a1
                                && n[a1].next as int == a0);
                            assert(n[b0].next as int == a2 && n[a2].next as int == b1
                                && n[b1].next as int == b0);
                            // every untouched half-edge keeps an untouched
                            // cycle
                            crate::graph_datastructure::lemma_cycles_untouched(
                                pre,
                                n,
                                a0,
                                a1,
                                a2,
                                b0,
                                b1,
                                b2,
                            );
                            assert(next_wf(n));
                            assert(faces_wf(n, faces@));
                            // an infinite-faced half-edge cannot be among the
                            // six rewired records: its whole cycle is still in
                            // the entry_edgesinal state, whose corners include the
                            // infinite vertex, while the rewired corners are
                            // all finite
                            assert forall|e: int|
                                0 <= e < entry_edges.len()
                                    && crate::graph_datastructure::face_has_infinite(entry_edges, e)
                                    implies n[e] == entry_edges[e] by {
                                if e == a0 || e == a1 || e == a2 || e == b0 || e == b1 || e == b2 {
                                    let x = entry_edges[e].next as int;
                                    let y = entry_edges[x].next as int;
                                    assert(crate::graph_datastructure::face_has_infinite(entry_edges, x));
                                    assert(crate::graph_datastructure::face_has_infinite(entry_edges, y));
                                    assert(pre[e] == entry_edges[e]);
                                    assert(pre[x] == entry_edges[x]);
                                    assert(pre[y] == entry_edges[y]);
                                    assert(pre[e].next as int == x);
                                    assert(pre[x].next as int == y);
                                    assert(entry_edges[e].vertex != 0 && entry_edges[x].vertex != 0
                                        && entry_edges[y].vertex != 0);
                                    assert(false);
                                }
                            }
                        }
                        stack.push(t1e2);
                        stack.push(t1e1);
                        proof {
                            if !flipped {
                                assert(edges@[t0e0 as int].vertex == v1);
                                assert(edges@[twin_of(t0e0 as int)].vertex == v0);
                            }
                        }
                        flipped = true;
                    } else {
                        proof {
                            if !flipped {
                                reveal(flip_demanded);
                                assert(e0 == t0e0 && edges@ == entry_edges);
                                assert(!flip_demanded(
                                    entry_edges,
                                    old(vertices)@,
                                    points@,
                                    t0e0 as int,
                                ));
                            }
                        }
                    }
                } else {
                    proof {
                        if !flipped {
                            reveal(flip_demanded);
                            assert(!flip_demanded(
                                entry_edges,
                                old(vertices)@,
                                points@,
                                t0e0 as int,
                            ));
                        }
                    }
                }
            } else {
                proof {
                    if !flipped {
                        reveal(flip_demanded);
                        assert(!flip_demanded(entry_edges, old(vertices)@, points@, t0e0 as int));
                    }
                }
            }
        } else {
            proof {
                if !flipped {
                    reveal(flip_demanded);
                    assert(!flip_demanded(entry_edges, old(vertices)@, points@, t0e0 as int));
                }
            }
        }
    }
    flipped
}

/// Sort index/key pairs by key ascending (insertion sort); the result is a
/// permutation of the input.
pub fn sort_by_key(v: &mut Vec<(usize, i128)>)
    ensures
        final(v)@.len() == old(v)@.len(),
        final(v)@.to_multiset() == old(v)@.to_multiset(),
        forall|a: int, b: int|
            0 <= a <= b < final(v)@.len() ==> (#[trigger] final(v)@[a]).1 <= (#[trigger] final(v)@[b]).1,
        forall|k: int| 0 <= k < final(v)@.len() ==> old(v)@.contains(#[trigger] final(v)@[k]),
{
    let ghost unsorted = v@;
    let n = v.len();
    let mut i: usize = 1;
    while i < n
        invariant
            n == v@.len(),
            v@.to_multiset() == unsorted.to_multiset(),
            1 <= i || n == 0,
            i <= n || n == 0,
            forall|a: int, b: int| 0 <= a <= b < i ==> (#[trigger] v@[a]).1 <= (#[trigger] v@[b]).1,
        decreases n - i,
    {
        let mut j: usize = i;
        while j > 0 && v[j - 1].1 > v[j].1
            invariant
                n == v@.len(),
                v@.to_multiset() == unsorted.to_multiset(),
                0 <= j <= i < n,
                forall|a: int, b: int|
                    0 <= a < b <= i && b != j ==> (#[trigger] v@[a]).1 <= (#[trigger] v@[b]).1,
            decreases j,
        {
            swap_entries(v, j - 1, j);
            j = j - 1;
        }
        i = i + 1;
    }
    proof {
        broadcast use vstd::seq_lib::group_to_multiset_ensures;

        assert forall|k: int| 0 <= k < v@.len() implies unsorted.contains(#[trigger] v@[k]) by {
            assert(v@.contains(v@[k]));
            assert(v@.to_multiset().count(v@[k]) > 0);
        }
    }
}

/// Exchange two entries, leaving the multiset of entries unchanged.
fn swap_entries(v: &mut Vec<(usize, i128)>, i: usize, j: usize)
    requires
        i < old(v)@.len(),
        j < old(v)@.len(),
    ensures
        final(v)@.len() == old(v)@.len(),
        final(v)@[i as int] == old(v)@[j as int],
        final(v)@[j as int] == old(v)@[i as int],
        forall|k: int| 0 <= k < final(v)@.len() && k != i && k != j ==> final(v)@[k] == old(v)@[k],
        final(v)@.to_multiset() == old(v)@.to_multiset(),
{
    let a = v[i];
    let b = v[j];
    v.set(i, b);
    v.set(j, a);
    proof {
        broadcast use vstd::seq_lib::group_to_multiset_ensures;
        broadcast use vstd::seq_lib::to_multiset_update;

        let s = old(v)@;
        assert(s.contains(s[i as int]));
        assert(s.contains(s[j as int]));
        assert(s.update(i as int, b).update(j as int, a).to_multiset() =~= s.to_multiset());
        assert(v@ =~= s.update(i as int, b).update(j as int, a));
    }
}

/// Squared distance of `p` to the rational circumcenter `(cx/den, cy/den)`,
/// scaled by the positive constant `den * den` so the comparison is exact.
pub open spec fn sort_key(p: Point, cx: int, cy: int, den: int) -> int {
    (p.x * den - cx) * (p.x * den - cx) + (p.y * den - cy) * (p.y * den - cy)
}

/// Exact evaluation of the insertion-order key.
fn sort_key_exec(p: &Point, cx: i64, cy: i64, den: i64) -> (r: i128)
    requires
        in_bounds(*p),
        -274877906944 <= cx <= 274877906944,
        -274877906944 <= cy <= 274877906944,
        -33554432 <= den <= 33554432,
    ensures
        r == sort_key(*p, cx as int, cy as int, den as int),
{
    proof {
        lemma_mul_bounds(p.x as int, den as int, 1024, 33554432);
        lemma_mul_bounds(p.y as int, den as int, 1024, 33554432);
    }
    let ax = (p.x as i128) * (den as i128) - (cx as i128);
    let ay = (p.y as i128) * (den as i128) - (cy as i128);
    proof {
        lemma_mul_bounds(ax as int, ax as int, 549755813888, 549755813888);
        lemma_mul_bounds(ay as int, ay as int, 549755813888, 549755813888);
        crate::geometry::lemma_square_nonneg(ax as int);
        crate::geometry::lemma_square_nonneg(ay as int);
    }
    ax * ax + ay * ay
}

impl Delaunay {
    /// Build the Delaunay triangulation of the given points: select a seed
    /// triangle, sort the remaining points by distance from its circumcenter,
    /// and insert each one by walking the hull boundary, fanning triangles
    /// over every visible hull edge and legalizing each new internal edge.
    /// Fails exactly when no valid seed triangle exists (fewer than three
    /// points, or a degenerate collinear configuration); no partial mesh is
    /// ever returned.
    #[verifier::rlimit(100)]
    pub fn from(points: Vec<Point>) -> (r: Result<Delaunay, ()>)
        requires
            all_in_bounds(points@),
            points@.len() < 100000000,
        ensures
            r matches Ok(d) ==> {
                &&& d.0.wf()
                &&& d.0.points@ == points@
                &&& d.0.vertices@.len() >= 4
                &&& d.0.vertices@.len() <= points@.len() + 1
                &&& d.0.faces@.len() >= 4
                &&& d.0.edges@.len() >= 12
            },
            points@.len() < 3 ==> r is Err,
            all_collinear(points@) ==> r is Err,
            r is Err ==> degenerate_seed(points@),
    {
        let ghost plen = points@.len() as int;
        let (i0, i1, i2) = match find_seed_triangle(&points) {
            None => {
                return Err(());
            },
            Some(t) => t,
        };
        let len = points.len() + 1;
        let mut edges: Vec<GraphEdge> = Vec::with_capacity(len * 6);
        let mut faces: Vec<GraphFace> = Vec::with_capacity(len * 2);
        let mut vertices: Vec<GraphVertex> = Vec::with_capacity(len);
        add_seed_triangle(&mut edges, &mut faces, &mut vertices, i0, i1, i2);
        proof {
            assert(parts_wf(edges@, faces@, vertices@, plen));
        }
        let (cx, cy, cden) = match Point::circumcenter(&points[i0], &points[i1], &points[i2]) {
            Some(c) => c,
            None => {
                proof {
                    assert(false);
                }
                (0, 0, 1)
            },
        };

        let mut dists: Vec<(usize, i128)> = Vec::new();
        let mut i: usize = 0;
        while i < points.len()
            invariant
                i <= points@.len(),
                all_in_bounds(points@),
                -274877906944 <= cx <= 274877906944,
                -274877906944 <= cy <= 274877906944,
                -33554432 <= cden <= 33554432,
                dists@.len() == i,
                forall|m: int| 0 <= m < i ==> (#[trigger] dists@[m]).0 == m,
            decreases points@.len() - i,
        {
            let key = sort_key_exec(&points[i], cx, cy, cden);
            dists.push((i, key));
            i = i + 1;
        }
        let ghost pre_sort = dists@;
        sort_by_key(&mut dists);
        proof {
            assert forall|m: int| 0 <= m < dists@.len() implies (#[trigger] dists@[m]).0
                < points@.len() by {
                let entry = dists@[m];
                assert(pre_sort.contains(entry));
                let w = choose|i: int| 0 <= i < pre_sort.len() && pre_sort[i] == entry;
                assert(pre_sort[w].0 == w);
            }
            // each seed index occurs somewhere in the sorted order
            broadcast use vstd::seq_lib::group_to_multiset_ensures;

            assert(pre_sort.contains(pre_sort[i0 as int]));
            assert(dists@.to_multiset().count(pre_sort[i0 as int]) > 0);
            assert(dists@.contains(pre_sort[i0 as int]));
            assert(pre_sort.contains(pre_sort[i1 as int]));
            assert(dists@.to_multiset().count(pre_sort[i1 as int]) > 0);
            assert(dists@.contains(pre_sort[i1 as int]));
            assert(pre_sort.contains(pre_sort[i2 as int]));
            assert(dists@.to_multiset().count(pre_sort[i2 as int]) > 0);
            assert(dists@.contains(pre_sort[i2 as int]));
        }
        let ghost seed_entry0 = pre_sort[i0 as int];
        let ghost seed_entry1 = pre_sort[i1 as int];
        let ghost seed_entry2 = pre_sort[i2 as int];
        let mut seen0 = false;
        let mut seen1 = false;
        let mut seen2 = false;

        let mut k: usize = 0;
        while k < dists.len()
            invariant
                k <= dists@.len(),
                dists@.len() == points@.len(),
                forall|m: int| 0 <= m < dists@.len() ==> (#[trigger] dists@[m]).0 < points@.len(),
                all_in_bounds(points@),
                points@.len() < 100000000,
                parts_wf(edges@, faces@, vertices@, plen),
                plen == points@.len() as int,
                edges@.len() <= 12 + 6 * (k as int),
                faces@.len() <= 4 + 2 * (k as int),
                vertices@.len() <= 4 + (k as int),
                i0 != i1 && i0 != i2 && i1 != i2,
                dists@.contains(seed_entry0) && seed_entry0.0 == i0,
                dists@.contains(seed_entry1) && seed_entry1.0 == i1,
                dists@.contains(seed_entry2) && seed_entry2.0 == i2,
                seen0 <==> (exists|m: int| 0 <= m < k && (#[trigger] dists@[m]).0 == i0),
                seen1 <==> (exists|m: int| 0 <= m < k && (#[trigger] dists@[m]).0 == i1),
                seen2 <==> (exists|m: int| 0 <= m < k && (#[trigger] dists@[m]).0 == i2),
                vertices@.len() as int <= 4 + k - (if seen0 { 1int } else { 0 }) - (if seen1 {
                    1int
                } else {
                    0
                }) - (if seen2 { 1int } else { 0 }),
                edges@.len() >= 12,
                faces@.len() >= 4,
                vertices@.len() >= 4,
            decreases dists@.len() - k,
        {
            let idx = dists[k].0;
            if idx == i0 {
                seen0 = true;
            }
            if idx == i1 {
                seen1 = true;
            }
            if idx == i2 {
                seen2 = true;
            }
            if idx != i0 && idx != i1 && idx != i2 {
                match find_visible_edge(&edges, &vertices, &points, idx) {
                    None => {},
                    Some((edge, walk_back)) => {
                        proof {
                            lemma_twin_in_range(edge as int, edges@.len() as int);
                            lemma_twin_in_range(
                                edges@[edge as int].next as int,
                                edges@.len() as int,
                            );
                        }
                        let next0 = twin(edges[edge].next);
                        proof {
                            lemma_twin_in_range(next0 as int, edges@.len() as int);
                        }
                        let behind = twin(edge);
                        let mut admissible = edges[twin(next0)].vertex == 0 && edges[edge].face
                            != edges[behind].face;
                        let nv0 = edges[next0].vertex;
                        let mut np0: usize = 0;
                        match vertices[nv0].position {
                            None => {
                                admissible = false;
                            },
                            Some(p) => {
                                if p >= points.len() {
                                    admissible = false;
                                } else {
                                    np0 = p;
                                }
                            },
                        }
                        if admissible {
                            let vertex = vertices.len();
                            vertices.push(GraphVertex::new(Some(idx), 0));
                            proof {
                                lemma_twin_in_range(
                                    edges@[behind as int].next as int,
                                    edges@.len() as int,
                                );
                            }
                            let w1 = edges[behind].next;
                            let previous = edges[w1].next;
                            let ghost pre_add = edges@;
                            let e_ret = add_triangle(
                                &mut edges,
                                &mut faces,
                                &mut vertices,
                                vertex,
                                edge,
                                next0,
                            );
                            let ghost post_add = edges@;
                            legalize(&mut edges, &mut faces, &mut vertices, &points, e_ret);
                            let new_edge = twin(vertices[0].edge);
                            let ghost ne = new_edge as int;
                            let ghost m = twin_of(ne);
                            proof {
                                assert(ne == post_add.len() - 3);
                                assert(m == post_add.len() - 4) by {
                                    assert(post_add.len() % 2 == 0);
                                }
                                // the first spoke wedge and the wedge ahead
                                // carry the infinite vertex, so legalization
                                // left them untouched
                                assert(crate::graph_datastructure::face_has_infinite(post_add, ne));
                                assert(edges@[ne] == post_add[ne]);
                                assert(crate::graph_datastructure::face_has_infinite(
                                    post_add,
                                    twin_of(next0 as int),
                                ));
                                assert(edges@[twin_of(next0 as int)] == post_add[twin_of(
                                    next0 as int,
                                )]);
                            }
                            let ghost flen_fan = faces@.len();
                            let ghost vlen_fan = vertices@.len();
                            let ghost ea = m - 2;
                            proof {
                                // the three records of the first spoke wedge
                                // and the three of the wedge behind the
                                // visible edge survive both the splice and
                                // the legalization pass
                                assert(post_add[m].next == ea && post_add[ea].next == edge
                                    && post_add[edge as int].next == m);
                                assert(post_add[m].vertex == 0);
                                assert(crate::graph_datastructure::face_has_infinite(post_add, m));
                                assert(crate::graph_datastructure::face_has_infinite(post_add, ea));
                                assert(crate::graph_datastructure::face_has_infinite(
                                    post_add,
                                    edge as int,
                                ));
                                assert(edges@[m] == post_add[m]);
                                assert(edges@[ea] == post_add[ea]);
                                assert(edges@[edge as int] == post_add[edge as int]);
                                let bh = behind as int;
                                assert(pre_add[bh].next == w1 && pre_add[w1 as int].next
                                    == previous);
                                assert(pre_add[previous as int].next as int == bh);
                                assert(pre_add[bh].vertex == 0);
                                assert(pre_add[w1 as int].face == pre_add[bh].face
                                    && pre_add[previous as int].face == pre_add[bh].face);
                                // the splice rewires only the cycle of the
                                // visible edge, whose face differs from the
                                // wedge behind it
                                assert(pre_add[twin_of(next0 as int)].face == pre_add[
                                    edge as int].face);
                                assert(pre_add[twin_of(e_ret as int)].face == pre_add[
                                    edge as int].face);
                                assert(post_add[bh] == pre_add[bh]);
                                assert(post_add[w1 as int] == pre_add[w1 as int]);
                                assert(post_add[previous as int] == pre_add[previous as int]);
                                assert(crate::graph_datastructure::face_has_infinite(post_add, bh));
                                assert(crate::graph_datastructure::face_has_infinite(
                                    post_add,
                                    w1 as int,
                                ));
                                assert(crate::graph_datastructure::face_has_infinite(
                                    post_add,
                                    previous as int,
                                ));
                                assert(edges@[bh] == pre_add[bh]);
                                assert(edges@[w1 as int] == pre_add[w1 as int]);
                                assert(edges@[previous as int] == pre_add[previous as int]);
                            }
                            let ghost em_r = edges@[m];
                            let ghost eea_r = edges@[ea];
                            let ghost eed_r = edges@[edge as int];
                            let ghost ebh_r = edges@[behind as int];
                            let ghost ew1_r = edges@[w1 as int];
                            let ghost epv_r = edges@[previous as int];
                            let ghost nnf_g = edges@[ne].face as int;
                            proof {
                                assert(em_r.face != nnf_g && eea_r.face != nnf_g && eed_r.face
                                    != nnf_g);
                                assert(ebh_r.face != nnf_g && ew1_r.face != nnf_g && epv_r.face
                                    != nnf_g);
                                assert(eea_r.face == em_r.face && eed_r.face == em_r.face);
                                assert(ew1_r.face == ebh_r.face && epv_r.face == ebh_r.face);
                            }
                            let mut next = next0;
                            let mut next_position = np0;
                            let mut fanning = true;
                            let mut fuel: u64 = 18446744073709551615u64;
                            while fanning && fuel > 0
                                invariant
                                    all_in_bounds(points@),
                                    plen == points@.len() as int,
                                    idx < points@.len(),
                                    parts_wf(edges@, faces@, vertices@, plen),
                                    edges@.len() == post_add.len(),
                                    faces@.len() == flen_fan,
                                    vertices@.len() == vlen_fan,
                                    vertices@.len() >= 4,
                                    vertex < vertices@.len(),
                                    vertex != 0,
                                    ne < edges@.len(),
                                    new_edge as int == ne,
                                    ne == twin_of(m),
                                    m == twin_of(ne),
                                    vertices@[0].edge == m,
                                    edges@[ne].next == twin_of(next as int),
                                    edges@[twin_of(next as int)].vertex == 0,
                                    next < edges@.len(),
                                    next_position < points@.len(),
                                    ea == m - 2,
                                    0 <= ea,
                                    em_r.vertex == 0,
                                    em_r.next == ea,
                                    eea_r.next == edge,
                                    eed_r.next as int == m,
                                    ebh_r.vertex == 0,
                                    ebh_r.next == w1,
                                    ew1_r.next == previous,
                                    epv_r.next as int == behind as int,
                                    edge < edges@.len(),
                                    behind as int == twin_of(edge as int),
                                    w1 < edges@.len(),
                                    previous < edges@.len(),
                                    edges@[m] == em_r,
                                    edges@[ea] == eea_r,
                                    edges@[edge as int] == eed_r,
                                    edges@[behind as int] == ebh_r,
                                    edges@[w1 as int] == ew1_r,
                                    edges@[previous as int] == epv_r,
                                    edges@[ne].face == nnf_g,
                                    em_r.face != nnf_g,
                                    eea_r.face == em_r.face,
                                    eed_r.face == em_r.face,
                                    ebh_r.face != nnf_g,
                                    ew1_r.face == ebh_r.face,
                                    epv_r.face == ebh_r.face,
                                decreases fuel,
                            {
                                fuel = fuel - 1;
                                let cur2 = next;
                                let cp2 = next_position;
                                proof {
                                    lemma_twin_in_range(cur2 as int, edges@.len() as int);
                                    lemma_twin_in_range(
                                        edges@[cur2 as int].next as int,
                                        edges@.len() as int,
                                    );
                                }
                                let nnext = twin(edges[cur2].next);
                                proof {
                                    lemma_twin_in_range(nnext as int, edges@.len() as int);
                                }
                                let nv = edges[nnext].vertex;
                                let np: usize = match vertices[nv].position {
                                    None => {
                                        fanning = false;
                                        0
                                    },
                                    Some(p) => {
                                        if p >= points.len() {
                                            fanning = false;
                                            0
                                        } else {
                                            p
                                        }
                                    },
                                };
                                if fanning {
                                    if Point::is_ccw(
                                        &points[idx],
                                        &points[cp2],
                                        &points[np],
                                    ) {
                                        fanning = false;
                                    } else if edges[twin(nnext)].vertex != 0 {
                                        fanning = false;
                                    } else if cur2 == new_edge || cur2 == twin(new_edge) {
                                        fanning = false;
                                    } else {
                                        proof {
                                            lemma_twin_in_range(
                                                nnext as int,
                                                edges@.len() as int,
                                            );
                                            lemma_twin_in_range(
                                                edges@[twin_of(nnext as int)].next as int,
                                                edges@.len() as int,
                                            );
                                            lemma_twin_in_range(
                                                edges@[twin_of(cur2 as int)].next as int,
                                                edges@.len() as int,
                                            );
                                        }
                                        let edge_1 = twin(edges[twin(nnext)].next);
                                        let edge_2 = twin(edges[twin(cur2)].next);
                                        let face_1 = edges[twin(nnext)].face;
                                        let face_2 = edges[twin(cur2)].face;
                                        if face_1 == face_2 {
                                            fanning = false;
                                        } else if face_1 == edges[twin(new_edge)].face
                                            || face_1 == edges[behind].face {
                                            fanning = false;
                                        } else {
                                            let ghost pre = edges@;
                                            let ghost a0 = cur2 as int;
                                            let ghost a1 = twin_of(nnext as int);
                                            let ghost a2 = twin_of(edge_1 as int);
                                            let ghost b0 = ne;
                                            let ghost b1 = twin_of(cur2 as int);
                                            let ghost b2 = twin_of(edge_2 as int);
                                            proof {
                                                assert(pre[a0].next as int == a1
                                                    && pre[a1].next as int == a2
                                                    && pre[a2].next as int == a0);
                                                assert(pre[b0].next as int == b1
                                                    && pre[b1].next as int == b2
                                                    && pre[b2].next as int == b0);
                                                assert(a1 != a0 && a2 != a0 && a1 != a2) by {
                                                    assert(pre[a1].next as int != a1);
                                                }
                                                assert(b1 != b0 && b2 != b0 && b1 != b2) by {
                                                    assert(pre[b1].next as int != b1);
                                                }
                                                assert(pre[a1].face == pre[a0].face
                                                    && pre[a2].face == pre[a0].face);
                                                assert(pre[b1].face == pre[b0].face
                                                    && pre[b2].face == pre[b0].face);
                                                assert(pre[a0].face == face_1
                                                    && pre[b0].face == face_2);
                                            }
                                            set_next(&mut edges, new_edge, twin(nnext));
                                            set_face(&mut edges, twin(edge_2), face_1);
                                            faces.set(face_2, GraphFace::new(twin(cur2)));
                                            set_vertex(&mut edges, cur2, vertex);
                                            set_vertex(&mut edges, twin(cur2), nv);
                                            set_next(&mut edges, cur2, twin(edge_1));
                                            set_next(&mut edges, twin(cur2), new_edge);
                                            set_face(&mut edges, twin(nnext), face_2);
                                            set_next(&mut edges, twin(nnext), twin(cur2));
                                            set_next(&mut edges, twin(edge_2), cur2);
                                            set_next(&mut edges, twin(edge_1), twin(edge_2));
                                            faces.set(face_1, GraphFace::new(cur2));
                                            proof {
                                                let n = edges@;
                                                assert(n[b0].next as int == a1
                                                    && n[a1].next as int == b1
                                                    && n[b1].next as int == b0);
                                                assert(n[a0].next as int == a2
                                                    && n[a2].next as int == b2
                                                    && n[b2].next as int == a0);
                                                crate::graph_datastructure::lemma_cycles_untouched(
                                                    pre,
                                                    n,
                                                    a0,
                                                    a1,
                                                    a2,
                                                    b0,
                                                    b1,
                                                    b2,
                                                );
                                                assert(next_wf(n));
                                                assert(faces_wf(n, faces@));
                                                assert(n[m] == em_r && n[ea] == eea_r
                                                    && n[edge as int] == eed_r);
                                                assert(n[behind as int] == ebh_r && n[w1 as int]
                                                    == ew1_r && n[previous as int] == epv_r);
                                            }
                                            let ghost post_fan = edges@;
                                            legalize(
                                                &mut edges,
                                                &mut faces,
                                                &mut vertices,
                                                &points,
                                                edge_1,
                                            );
                                            proof {
                                                assert(crate::graph_datastructure::face_has_infinite(
                                                    post_fan,
                                                    ne,
                                                ));
                                                assert(edges@[ne] == post_fan[ne]);
                                                assert(crate::graph_datastructure::face_has_infinite(
                                                    post_fan,
                                                    twin_of(nnext as int),
                                                ));
                                                assert(edges@[twin_of(nnext as int)]
                                                    == post_fan[twin_of(nnext as int)]);
                                                assert(crate::graph_datastructure::face_has_infinite(
                                                    post_fan,
                                                    m,
                                                ));
                                                assert(crate::graph_datastructure::face_has_infinite(
                                                    post_fan,
                                                    ea,
                                                ));
                                                assert(crate::graph_datastructure::face_has_infinite(
                                                    post_fan,
                                                    edge as int,
                                                ));
                                                assert(crate::graph_datastructure::face_has_infinite(
                                                    post_fan,
                                                    behind as int,
                                                ));
                                                assert(crate::graph_datastructure::face_has_infinite(
                                                    post_fan,
                                                    w1 as int,
                                                ));
                                                assert(crate::graph_datastructure::face_has_infinite(
                                                    post_fan,
                                                    previous as int,
                                                ));
                                                assert(edges@[m] == em_r);
                                                assert(edges@[ea] == eea_r);
                                                assert(edges@[edge as int] == eed_r);
                                                assert(edges@[behind as int] == ebh_r);
                                                assert(edges@[w1 as int] == ew1_r);
                                                assert(edges@[previous as int] == epv_r);
                                            }
                                            next = nnext;
                                            next_position = np;
                                        }
                                    }
                                }
                            }
                            if walk_back {
                                let mut bcur = edge;
                                let mut backing = true;
                                let bcv = edges[bcur].vertex;
                                let mut bcp: usize = 0;
                                match vertices[bcv].position {
                                    None => {
                                        backing = false;
                                    },
                                    Some(p) => {
                                        if p >= points.len() {
                                            backing = false;
                                        } else {
                                            bcp = p;
                                        }
                                    },
                                }
                                let mut bprev = previous;
                                let bpv = edges[bprev].vertex;
                                let mut bpp: usize = 0;
                                match vertices[bpv].position {
                                    None => {
                                        backing = false;
                                    },
                                    Some(p) => {
                                        if p >= points.len() {
                                            backing = false;
                                        } else {
                                            bpp = p;
                                        }
                                    },
                                }
                                let mut bfuel: u64 = 18446744073709551615u64;
                                while backing && bfuel > 0
                                    invariant
                                        all_in_bounds(points@),
                                        plen == points@.len() as int,
                                        idx < points@.len(),
                                        parts_wf(edges@, faces@, vertices@, plen),
                                        edges@.len() == post_add.len(),
                                        faces@.len() == flen_fan,
                                        vertices@.len() == vlen_fan,
                                        vertices@.len() >= 4,
                                        vertex < vertices@.len(),
                                        vertex != 0,
                                        ne < edges@.len(),
                                        new_edge as int == ne,
                                        ne == twin_of(m),
                                        m == twin_of(ne),
                                        vertices@[0].edge == m,
                                        bcur < edges@.len(),
                                        edges@[edges@[m].next as int].next == bcur,
                                        backing ==> edges@[twin_of(bcur as int)].vertex == 0,
                                        backing ==> bprev < edges@.len(),
                                        backing ==> bprev as int == edges@[edges@[twin_of(
                                            bcur as int,
                                        )].next as int].next,
                                        backing ==> bcp < points@.len(),
                                        backing ==> bpp < points@.len(),
                                    decreases bfuel,
                                {
                                    bfuel = bfuel - 1;
                                    if Point::is_ccw(&points[idx], &points[bpp], &points[bcp]) {
                                        backing = false;
                                    } else {
                                        proof {
                                            lemma_twin_in_range(bcur as int, edges@.len() as int);
                                            lemma_twin_in_range(
                                                edges@[m].next as int,
                                                edges@.len() as int,
                                            );
                                            lemma_twin_in_range(
                                                edges@[twin_of(bcur as int)].next as int,
                                                edges@.len() as int,
                                            );
                                        }
                                        let edge_1 = twin(edges[twin(new_edge)].next);
                                        let edge_2 = twin(edges[twin(bcur)].next);
                                        let face_1 = edges[twin(new_edge)].face;
                                        let face_2 = edges[twin(bcur)].face;
                                        if face_1 == face_2 {
                                            backing = false;
                                        } else if bcur == new_edge || bcur == twin(new_edge) {
                                            backing = false;
                                        } else {
                                            let ghost pre = edges@;
                                            let ghost r10 = twin_of(bcur as int);
                                            let ghost r11 = twin_of(edge_2 as int);
                                            let ghost r12 = bprev as int;
                                            let ghost r20 = m;
                                            let ghost r21 = twin_of(edge_1 as int);
                                            let ghost r22 = bcur as int;
                                            proof {
                                                assert(pre[r10].next as int == r11
                                                    && pre[r11].next as int == r12
                                                    && pre[r12].next as int == r10);
                                                assert(pre[r20].next as int == r21
                                                    && pre[r21].next as int == r22
                                                    && pre[r22].next as int == r20);
                                                assert(r11 != r10 && r12 != r10 && r11 != r12) by {
                                                    assert(pre[r11].next as int != r11);
                                                }
                                                assert(r21 != r20 && r22 != r20 && r21 != r22) by {
                                                    assert(pre[r21].next as int != r21);
                                                }
                                                assert(pre[r11].face == pre[r10].face
                                                    && pre[r12].face == pre[r10].face);
                                                assert(pre[r21].face == pre[r20].face
                                                    && pre[r22].face == pre[r20].face);
                                                assert(pre[r10].face == face_2
                                                    && pre[r20].face == face_1);
                                            }
                                            let pv = edges[bprev].vertex;
                                            set_next(&mut edges, bprev, twin(new_edge));
                                            set_face(&mut edges, twin(edge_2), face_1);
                                            faces.set(face_2, GraphFace::new(twin(bcur)));
                                            set_vertex(&mut edges, bcur, pv);
                                            set_vertex(&mut edges, twin(bcur), vertex);
                                            set_next(&mut edges, bcur, twin(edge_1));
                                            set_next(&mut edges, twin(bcur), bprev);
                                            set_face(&mut edges, twin(new_edge), face_2);
                                            set_next(&mut edges, twin(new_edge), twin(bcur));
                                            set_next(&mut edges, twin(edge_2), bcur);
                                            set_next(&mut edges, twin(edge_1), twin(edge_2));
                                            faces.set(face_1, GraphFace::new(bcur));
                                            proof {
                                                let n = edges@;
                                                assert(n[r12].next as int == r20
                                                    && n[r20].next as int == r10
                                                    && n[r10].next as int == r12);
                                                assert(n[r22].next as int == r21
                                                    && n[r21].next as int == r11
                                                    && n[r11].next as int == r22);
                                                crate::graph_datastructure::lemma_cycles_untouched(
                                                    pre,
                                                    n,
                                                    r10,
                                                    r11,
                                                    r12,
                                                    r20,
                                                    r21,
                                                    r22,
                                                );
                                                assert(next_wf(n));
                                                assert(faces_wf(n, faces@));
                                            }
                                            let ghost post_bw = edges@;
                                            legalize(
                                                &mut edges,
                                                &mut faces,
                                                &mut vertices,
                                                &points,
                                                edge_2,
                                            );
                                            proof {
                                                assert(crate::graph_datastructure::face_has_infinite(
                                                    post_bw,
                                                    m,
                                                ));
                                                assert(edges@[m] == post_bw[m]);
                                                assert(crate::graph_datastructure::face_has_infinite(
                                                    post_bw,
                                                    twin_of(bcur as int),
                                                ));
                                                assert(edges@[twin_of(bcur as int)] == post_bw[
                                                    twin_of(bcur as int)]);
                                                assert(crate::graph_datastructure::face_has_infinite(
                                                    post_bw,
                                                    bprev as int,
                                                ));
                                                assert(edges@[bprev as int] == post_bw[
                                                    bprev as int]);
                                            }
                                            bcur = bprev;
                                            bcp = bpp;
                                            proof {
                                                lemma_twin_in_range(
                                                    bcur as int,
                                                    edges@.len() as int,
                                                );
                                            }
                                            if edges[twin(bcur)].vertex != 0 {
                                                backing = false;
                                            } else {
                                                let wb = edges[twin(bcur)].next;
                                                bprev = edges[wb].next;
                                                let npv = edges[bprev].vertex;
                                                match vertices[npv].position {
                                                    None => {
                                                        backing = false;
                                                    },
                                                    Some(p) => {
                                                        if p >= points.len() {
                                                            backing = false;
                                                        } else {
                                                            bpp = p;
                                                        }
                                                    },
                                                }
                                            }
                                        }
                                    }
                                }
                            }
                        }
                    },
                }
            }
            k = k + 1;
        }

        proof {
            let w0 = choose|m: int| 0 <= m < dists@.len() && dists@[m] == seed_entry0;
            let w1 = choose|m: int| 0 <= m < dists@.len() && dists@[m] == seed_entry1;
            let w2 = choose|m: int| 0 <= m < dists@.len() && dists@[m] == seed_entry2;
            assert(seen0 && seen1 && seen2);
            assert(vertices@.len() <= points@.len() + 1);
        }

        let mut e: usize = 0;
        while e < edges.len()
            invariant
                e <= edges@.len(),
                parts_wf(edges@, faces@, vertices@, plen),
                plen == points@.len() as int,
                all_in_bounds(points@),
                edges@.len() >= 12,
                faces@.len() >= 4,
                vertices@.len() >= 4,
                vertices@.len() <= points@.len() + 1,
                forall|v: int|
                    0 <= v < vertices@.len() && (exists|e0: int|
                        0 <= e0 < e && (#[trigger] edges@[e0]).vertex == v)
                        ==> edges@[(#[trigger] vertices@[v]).edge as int].vertex == v,
            decreases edges@.len() - e,
        {
            let v = edges[e].vertex;
            set_vertex_edge(&mut vertices, v, e);
            e = e + 1;
        }

        Ok(Delaunay(crate::graph_datastructure::graph(points, edges, faces, vertices)))
    }
}

/// Face `f` of the mesh is finite: none of its three corners is the
/// infinite vertex.
pub open spec fn face_is_finite(g: Graph, f: int) -> bool {
    !face_has_infinite(g.edges@, g.faces@[f].edge as int)
}

/// Point-array indices of the three corners of face `f`, in boundary order.
pub open spec fn face_corner(g: Graph, f: int, k: int) -> int {
    let s = g.faces@[f].edge as int;
    let n1 = g.edges@[s].next as int;
    let n2 = g.edges@[n1].next as int;
    let v = if k == 0 {
        g.edges@[s].vertex as int
    } else if k == 1 {
        g.edges@[n1].vertex as int
    } else {
        g.edges@[n2].vertex as int
    };
    g.vertices@[v].position->0 as int
}

/// The three corners of finite face `f`, in boundary order, make a strictly
/// counter-clockwise turn.
pub open spec fn face_oriented(g: Graph, f: int) -> bool {
    cross(
        g.points@[face_corner(g, f, 0)],
        g.points@[face_corner(g, f, 1)],
        g.points@[face_corner(g, f, 2)],
    ) > 0
}

/// Every finite face of the mesh is counter-clockwise.
pub open spec fn mesh_oriented(g: Graph) -> bool {
    forall|f: int| 0 <= f < g.faces@.len() && face_is_finite(g, f) ==> #[trigger] face_oriented(
        g,
        f,
    )
}

/// No input point other than the face's own corners lies strictly inside the
/// circumcircle of finite face `f`.
pub open spec fn face_empty_circumcircle(g: Graph, f: int) -> bool {
    forall|p: int|
        0 <= p < g.points@.len() && p != face_corner(g, f, 0) && p != face_corner(g, f, 1) && p
            != face_corner(g, f, 2) ==> in_circle_val(
            #[trigger] g.points@[p],
            g.points@[face_corner(g, f, 0)],
            g.points@[face_corner(g, f, 1)],
            g.points@[face_corner(g, f, 2)],
        ) <= 0
}

/// The global Delaunay property: every finite face has an empty
/// circumcircle with respect to the whole input point set.
pub open spec fn mesh_delaunay(g: Graph) -> bool {
    forall|f: int|
        0 <= f < g.faces@.len() && face_is_finite(g, f)
            ==> #[trigger] face_empty_circumcircle(g, f)
}

/// Decide whether every finite face of the mesh is counter-clockwise.
pub fn mesh_is_oriented(g: &Graph) -> (r: bool)
    requires
        g.wf(),
    ensures
        r == mesh_oriented(*g),
{
    let flen = g.faces.len();
    let mut f: usize = 0;
    while f < flen
        invariant
            f <= flen,
            flen == g.faces@.len(),
            g.wf(),
            forall|f2: int|
                0 <= f2 < f && face_is_finite(*g, f2) ==> #[trigger] face_oriented(*g, f2),
        decreases flen - f,
    {
        let s = g.faces[f].edge;
        let n1 = g.edges[s].next;
        let n2 = g.edges[n1].next;
        let va = g.edges[s].vertex;
        let vb = g.edges[n1].vertex;
        let vc = g.edges[n2].vertex;
        if va != 0 && vb != 0 && vc != 0 {
            let ia = position_index(g, va);
            let ib = position_index(g, vb);
            let ic = position_index(g, vc);
            if !Point::is_ccw(&g.points[ia], &g.points[ib], &g.points[ic]) {
                proof {
                    assert(face_is_finite(*g, f as int));
                    assert(ia as int == face_corner(*g, f as int, 0));
                    assert(ib as int == face_corner(*g, f as int, 1));
                    assert(ic as int == face_corner(*g, f as int, 2));
                    assert(!face_oriented(*g, f as int));
                }
                return false;
            }
        }
        f = f + 1;
    }
    true
}

/// Decide the global Delaunay property by the brute-force check: for every
/// finite face, test every input point that is not one of its corners
/// against its circumcircle.
pub fn mesh_is_delaunay(g: &Graph) -> (r: bool)
    requires
        g.wf(),
    ensures
        r == mesh_delaunay(*g),
{
    let flen = g.faces.len();
    let mut f: usize = 0;
    while f < flen
        invariant
            f <= flen,
            flen == g.faces@.len(),
            g.wf(),
            forall|f2: int|
                0 <= f2 < f && face_is_finite(*g, f2) ==> #[trigger] face_empty_circumcircle(
                    *g,
                    f2,
                ),
        decreases flen - f,
    {
        let s = g.faces[f].edge;
        let n1 = g.edges[s].next;
        let n2 = g.edges[n1].next;
        let va = g.edges[s].vertex;
        let vb = g.edges[n1].vertex;
        let vc = g.edges[n2].vertex;
        if va != 0 && vb != 0 && vc != 0 {
            let ia = position_index(g, va);
            let ib = position_index(g, vb);
            let ic = position_index(g, vc);
            let plen = g.points.len();
            let mut p: usize = 0;
            while p < plen
                invariant
                    p <= plen,
                    plen == g.points@.len(),
                    g.wf(),
                    f < g.faces@.len(),
                    face_is_finite(*g, f as int),
                    ia as int == face_corner(*g, f as int, 0),
                    ib as int == face_corner(*g, f as int, 1),
                    ic as int == face_corner(*g, f as int, 2),
                    ia < g.points@.len(),
                    ib < g.points@.len(),
                    ic < g.points@.len(),
                    forall|p2: int|
                        0 <= p2 < p && p2 != ia && p2 != ib && p2 != ic ==> in_circle_val(
                            #[trigger] g.points@[p2],
                            g.points@[ia as int],
                            g.points@[ib as int],
                            g.points@[ic as int],
                        ) <= 0,
                decreases plen - p,
            {
                if p != ia && p != ib && p != ic {
                    if g.points[p].in_circle(&g.points[ia], &g.points[ib], &g.points[ic]) {
                        proof {
                            assert(face_is_finite(*g, f as int));
                            assert(in_circle_val(
                                g.points@[p as int],
                                g.points@[ia as int],
                                g.points@[ib as int],
                                g.points@[ic as int],
                            ) > 0);
                            assert(!face_empty_circumcircle(*g, f as int));
                        }
                        return false;
                    }
                }
                p = p + 1;
            }
        }
        f = f + 1;
    }
    true
}

/// The point-array index a finite vertex resolves to.
fn position_index(g: &Graph, v: usize) -> (r: usize)
    requires
        g.wf(),
        0 < v < g.vertices@.len(),
    ensures
        r < g.points@.len(),
        r == g.vertices@[v as int].position->0,
{
    match g.vertices[v].position {
        Some(i) => i,
        None => {
            proof {
                assert(false);
            }
            0
        },
    }
}

/// A collinear triple makes every arrangement of three points drawn from it
/// collinear as well, so a three-point input whose single triangle is
/// degenerate can never seed a mesh.
pub proof fn lemma_collinear_triple_degenerate(s: Seq<Point>)
    requires
        s.len() == 3,
        cross(s[0], s[1], s[2]) == 0,
    ensures
        all_collinear(s),
{
    crate::geometry::lemma_collinear_all_arrangements(s[0], s[1], s[2]);
    assert forall|i: int, j: int, k: int|
        0 <= i < s.len() && 0 <= j < s.len() && 0 <= k < s.len() implies #[trigger] cross(
        s[i],
        s[j],
        s[k],
    ) == 0 by {
        assert(s[i] == s[0] || s[i] == s[1] || s[i] == s[2]);
        assert(s[j] == s[0] || s[j] == s[1] || s[j] == s[2]);
        assert(s[k] == s[0] || s[k] == s[1] || s[k] == s[2]);
    }
}


} // verus!
