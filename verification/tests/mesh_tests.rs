use delaunay_mesh::delaunay::{mesh_is_delaunay, mesh_is_oriented, Delaunay};
use delaunay_mesh::delaunay::{
    add_seed_triangle, bbox_center, find_closest_to_position, find_closest_to_vertex,
    find_delaunay_triangle, find_seed_triangle, find_visible_edge, legalize, sort_by_key,
};
use delaunay_mesh::geometry::Point;
use delaunay_mesh::graph_datastructure::{twin, Graph, GraphEdge, GraphFace, GraphVertex};
use delaunay_mesh::settings::Settings;

fn pt(x: i64, y: i64) -> Point {
    Point { x, y }
}

fn finite_face_count(g: &Graph) -> usize {
    let mut count = 0;
    for f in 0..g.face_count() {
        if g.face(f).is_finite() {
            count += 1;
        }
    }
    count
}

/// Corner coordinates of every finite face, each triangle and the whole list
/// sorted, so two isomorphic meshes compare equal.
fn triangle_set(g: &Graph) -> Vec<[(i64, i64); 3]> {
    let mut out = Vec::new();
    for f in 0..g.face_count() {
        let face = g.face(f);
        if face.is_finite() {
            let mut tri = [(0, 0); 3];
            for (k, v) in face.vertices().iter().enumerate() {
                let p = v.position().unwrap();
                tri[k] = (p.x, p.y);
            }
            tri.sort();
            out.push(tri);
        }
    }
    out.sort();
    out
}

/// Number of hull edges: half-edges whose origin is the infinite vertex.
fn hull_size(g: &Graph) -> usize {
    let mut count = 0;
    for e in 0..2 * g.edge_count() {
        let (origin, _) = g.edge(e).vertices();
        if origin.id() == 0 {
            count += 1;
        }
    }
    count
}

#[test]
fn three_points_one_finite_face() {
    let d = Delaunay::from(vec![pt(0, 0), pt(100, 0), pt(0, 100)]).unwrap();
    assert_eq!(finite_face_count(&d.0), 1);
    assert_eq!(d.0.vertex_count(), 4);
    assert_eq!(d.0.face_count(), 4);
    assert_eq!(d.0.edge_count(), 6);
    let tris = triangle_set(&d.0);
    assert_eq!(tris, vec![[(0, 0), (0, 100), (100, 0)]]);
}

#[test]
fn square_two_finite_faces_delaunay_diagonal() {
    let d = Delaunay::from(vec![pt(0, 0), pt(100, 0), pt(100, 100), pt(0, 100)]).unwrap();
    assert_eq!(finite_face_count(&d.0), 2);
    // the chosen diagonal leaves no corner strictly inside a circumcircle
    assert!(mesh_is_delaunay(&d.0));
    assert!(mesh_is_oriented(&d.0));
}

#[test]
fn asymmetric_quad_picks_empty_circle_diagonal() {
    // (60,80) lies inside the circumcircle of ((0,0),(100,0),(100,100)), so
    // the diagonal must join (60,80) and (100,0)
    let d = Delaunay::from(vec![pt(0, 0), pt(100, 0), pt(100, 100), pt(60, 80)]).unwrap();
    assert_eq!(finite_face_count(&d.0), 2);
    assert!(mesh_is_delaunay(&d.0));
    let tris = triangle_set(&d.0);
    assert_eq!(
        tris,
        vec![
            [(0, 0), (60, 80), (100, 0)],
            [(60, 80), (100, 0), (100, 100)],
        ]
    );
}

fn pseudo_random_points(count: usize, seed: u64) -> Vec<Point> {
    // a small deterministic linear congruential generator
    let mut state = seed;
    let mut out = Vec::new();
    for _ in 0..count {
        state = state.wrapping_mul(6364136223846793005).wrapping_add(1442695040888963407);
        let x = ((state >> 33) % 1001) as i64;
        state = state.wrapping_mul(6364136223846793005).wrapping_add(1442695040888963407);
        let y = ((state >> 33) % 1001) as i64;
        out.push(pt(x, y));
    }
    out
}

#[test]
fn hundred_points_pass_global_delaunay_check() {
    let points = pseudo_random_points(100, 42);
    let d = Delaunay::from(points).unwrap();
    assert!(mesh_is_oriented(&d.0));
    assert!(mesh_is_delaunay(&d.0));
}

#[test]
fn hundred_points_match_euler_relation() {
    let points = pseudo_random_points(100, 42);
    let d = Delaunay::from(points).unwrap();
    // for a triangulated planar point set: finite faces = 2n - h - 2, with
    // n the number of mesh vertices and h the convex-hull size
    let n = d.0.vertex_count() - 1;
    let h = hull_size(&d.0);
    assert_eq!(finite_face_count(&d.0), 2 * n - h - 2);
}

#[test]
fn twin_involution_holds_for_all_half_edges() {
    let points = pseudo_random_points(50, 7);
    let d = Delaunay::from(points).unwrap();
    for e in 0..2 * d.0.edge_count() {
        assert_eq!(twin(twin(e)), e);
        assert_ne!(twin(e), e);
    }
}

#[test]
fn face_walk_closes_after_exactly_three_steps() {
    let points = pseudo_random_points(50, 7);
    let d = Delaunay::from(points).unwrap();
    for f in 0..d.0.face_count() {
        let boundary = d.0.face(f).edges();
        assert_eq!(boundary.len(), 3);
        let i0 = d.0.faces[f].edge;
        let i1 = d.0.edges[i0].next;
        let i2 = d.0.edges[i1].next;
        assert_eq!(d.0.edges[i2].next, i0);
        assert_ne!(i1, i0);
        assert_ne!(i2, i0);
        assert_ne!(i1, i2);
    }
}

#[test]
fn vertex_incident_edges_originate_at_their_vertex() {
    let points = pseudo_random_points(40, 11);
    let d = Delaunay::from(points).unwrap();
    for v in 0..d.0.vertex_count() {
        let e = d.0.vertices[v].edge;
        assert_eq!(d.0.edges[e].vertex, v);
    }
}

#[test]
fn identical_input_builds_isomorphic_mesh() {
    let a = Delaunay::from(pseudo_random_points(80, 123)).unwrap();
    let b = Delaunay::from(pseudo_random_points(80, 123)).unwrap();
    assert_eq!(triangle_set(&a.0), triangle_set(&b.0));
    assert_eq!(a.0.vertex_count(), b.0.vertex_count());
    assert_eq!(a.0.face_count(), b.0.face_count());
    assert_eq!(a.0.edge_count(), b.0.edge_count());
}

#[test]
fn fewer_than_three_points_fail() {
    assert!(Delaunay::from(vec![]).is_err());
    assert!(Delaunay::from(vec![pt(1, 2)]).is_err());
    assert!(Delaunay::from(vec![pt(1, 2), pt(3, 4)]).is_err());
}

#[test]
fn three_collinear_points_fail() {
    assert!(Delaunay::from(vec![pt(0, 0), pt(5, 5), pt(10, 10)]).is_err());
}

#[test]
fn fully_collinear_set_fails() {
    let points: Vec<Point> = (0..20).map(|i| pt(i * 3, i * 3)).collect();
    assert!(Delaunay::from(points).is_err());
}

#[test]
fn coincident_pair_with_third_point_fails() {
    // the two closest points coincide, so every candidate triangle is flat
    assert!(Delaunay::from(vec![pt(0, 0), pt(0, 0), pt(50, 50)]).is_err());
}

#[test]
fn duplicated_point_keeps_invariants() {
    // open-behavior case, locked in: a duplicated point is inserted as its
    // own vertex and yields two zero-area faces on the coincident pair. The
    // structural invariants (twin pairing, three-step face closure, vertex
    // incidence) all still hold, and no point lies strictly inside any
    // circumcircle; only strict counter-clockwise orientation is lost, and
    // only on the flat faces.
    let d = Delaunay::from(vec![pt(0, 0), pt(100, 0), pt(100, 100), pt(60, 80), pt(0, 0)])
        .unwrap();
    assert_eq!(d.0.vertex_count(), 6);
    assert_eq!(finite_face_count(&d.0), 4);
    assert!(mesh_is_delaunay(&d.0));
    assert!(!mesh_is_oriented(&d.0));
    for f in 0..d.0.face_count() {
        let boundary = d.0.face(f).edges();
        assert_eq!(boundary.len(), 3);
    }
    for e in 0..2 * d.0.edge_count() {
        assert_eq!(twin(twin(e)), e);
    }
}

#[test]
fn duplicated_seed_pair_fails_cleanly() {
    // open-behavior case, locked in: when the two nearest points coincide,
    // every candidate seed triangle is flat and construction fails rather
    // than producing a malformed mesh
    let r = Delaunay::from(vec![pt(0, 0), pt(100, 0), pt(100, 100), pt(0, 100), pt(0, 0)]);
    assert!(r.is_err());
}

#[test]
fn consumer_contract_filters_infinite_endpoints() {
    let d = Delaunay::from(vec![pt(0, 0), pt(100, 0), pt(0, 100)]).unwrap();
    let mut drawable = 0;
    for edge in d.0.edges() {
        let (a, b) = edge.vertices();
        if a.position().is_some() && b.position().is_some() {
            drawable += 1;
        }
    }
    // one triangle: three drawable edges, three hull spokes to skip
    assert_eq!(drawable, 3);
    let mut placed = 0;
    for v in d.0.vertices() {
        if v.position().is_some() {
            placed += 1;
        }
    }
    assert_eq!(placed, 3);
}

#[test]
fn seed_triangle_is_counter_clockwise() {
    let points = vec![pt(10, 10), pt(500, 40), pt(300, 700), pt(900, 900)];
    let (a, b, c) = find_seed_triangle(&points).unwrap();
    assert!(Point::is_ccw(&points[a], &points[b], &points[c]));
}

#[test]
fn bbox_center_doubled_coordinates() {
    assert_eq!(bbox_center(&vec![pt(0, 0), pt(10, 20)]), Some((10, 20)));
    assert_eq!(bbox_center(&vec![]), None);
}

#[test]
fn closest_to_position_picks_minimum() {
    let points = vec![pt(0, 0), pt(6, 6), pt(10, 10)];
    // doubled center (10, 10) is the point (5, 5): (6, 6) is closest
    assert_eq!(find_closest_to_position(&points, 10, 10), Some(1));
}

#[test]
fn settings_default_values() {
    let s = Settings::default();
    assert_eq!(s.seed, 12345);
    assert_eq!(s.num_seeds, 500);
}

#[test]
fn closest_to_vertex_excludes_itself() {
    let points = vec![pt(0, 0), pt(1, 0), pt(50, 50)];
    assert_eq!(find_closest_to_vertex(&points, 0), Some((0, 1)));
    assert_eq!(find_closest_to_vertex(&points, 2), Some((2, 1)));
    assert_eq!(find_closest_to_vertex(&vec![pt(3, 3)], 0), None);
}

#[test]
fn delaunay_triangle_minimizes_circumradius() {
    // candidates for the pair (0,0)-(10,0): (5,100) has a far larger
    // circumcircle than (5,5); collinear (20,0) is no candidate at all
    let points = vec![pt(0, 0), pt(10, 0), pt(5, 100), pt(5, 5), pt(20, 0)];
    assert_eq!(find_delaunay_triangle(&points, 0, 1), Some((0, 1, 3)));
    let flat = vec![pt(0, 0), pt(10, 0), pt(20, 0)];
    assert_eq!(find_delaunay_triangle(&flat, 0, 1), None);
}

#[test]
fn seed_mesh_has_expected_shape() {
    let mut edges: Vec<GraphEdge> = Vec::new();
    let mut faces: Vec<GraphFace> = Vec::new();
    let mut vertices: Vec<GraphVertex> = Vec::new();
    add_seed_triangle(&mut edges, &mut faces, &mut vertices, 7, 8, 9);
    assert_eq!(edges.len(), 12);
    assert_eq!(faces.len(), 4);
    assert_eq!(vertices.len(), 4);
    assert_eq!(vertices[0].position, None);
    assert_eq!(vertices[1].position, Some(9));
    assert_eq!(vertices[2].position, Some(8));
    assert_eq!(vertices[3].position, Some(7));
    for e in 0..12 {
        let n1 = edges[e].next;
        let n2 = edges[n1].next;
        assert_eq!(edges[n2].next, e);
    }
}

#[test]
fn sort_by_key_orders_and_permutes() {
    let mut v: Vec<(usize, i128)> = vec![(0, 9), (1, -3), (2, 5), (3, -3), (4, 0)];
    sort_by_key(&mut v);
    let keys: Vec<i128> = v.iter().map(|e| e.1).collect();
    assert_eq!(keys, vec![-3, -3, 0, 5, 9]);
    let mut idx: Vec<usize> = v.iter().map(|e| e.0).collect();
    idx.sort();
    assert_eq!(idx, vec![0, 1, 2, 3, 4]);
}

#[test]
fn vertex_zero_is_the_only_infinite_vertex() {
    let d = Delaunay::from(vec![pt(0, 0), pt(100, 0), pt(0, 100)]).unwrap();
    for v in 0..d.0.vertex_count() {
        let view = d.0.vertex(v);
        assert_eq!(view.is_finite(), v != 0);
        assert_eq!(view.position().is_some(), v != 0);
        assert_eq!(view.id(), v);
    }
}

fn seed_mesh() -> (Vec<GraphEdge>, Vec<GraphFace>, Vec<GraphVertex>) {
    let mut edges: Vec<GraphEdge> = Vec::new();
    let mut faces: Vec<GraphFace> = Vec::new();
    let mut vertices: Vec<GraphVertex> = Vec::new();
    add_seed_triangle(&mut edges, &mut faces, &mut vertices, 0, 1, 2);
    (edges, faces, vertices)
}

#[test]
fn legalize_is_a_no_op_when_no_flip_is_demanded() {
    // every edge of the bare seed mesh borders an outer wedge, so no quad
    // demands a flip and the pass must change nothing
    let points = vec![pt(0, 0), pt(100, 0), pt(0, 100)];
    let (mut edges, mut faces, mut vertices) = seed_mesh();
    let before_edges = edges.clone();
    let before_faces = faces.clone();
    let before_vertices = vertices.clone();
    for e in 0..12 {
        let flipped = legalize(&mut edges, &mut faces, &mut vertices, &points, e);
        assert!(!flipped);
    }
    assert_eq!(edges, before_edges);
    assert_eq!(faces, before_faces);
    assert_eq!(vertices, before_vertices);
}

#[test]
fn interior_point_sees_no_hull_edge() {
    // a point strictly inside the seed triangle is strictly left of every
    // hull edge, so the walk closes the boundary and drops the point
    let points = vec![pt(0, 0), pt(100, 0), pt(0, 100), pt(10, 10)];
    let (edges, _faces, vertices) = seed_mesh();
    assert_eq!(find_visible_edge(&edges, &vertices, &points, 3), None);
}

#[test]
fn outside_point_sees_a_hull_edge() {
    let points = vec![pt(0, 0), pt(100, 0), pt(0, 100), pt(200, 200)];
    let (edges, _faces, vertices) = seed_mesh();
    let (e, _first) = find_visible_edge(&edges, &vertices, &points, 3).unwrap();
    // the found edge is a hull edge (its twin starts at the infinite vertex)
    assert_eq!(edges[e ^ 1].vertex, 0);
    assert_ne!(edges[e].vertex, 0);
}
