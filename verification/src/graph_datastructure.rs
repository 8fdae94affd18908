use vstd::prelude::*;

use crate::geometry::{all_in_bounds, Point};

verus! {

/// A directed half-edge record: the index of its origin vertex, the index of
/// the next half-edge counter-clockwise around the same face boundary, and
/// the index of the face it bounds. Half-edges are stored in pairs; the twin
/// of half-edge `e` is `e ^ 1`.
#[derive(Debug, Clone, Copy, PartialEq, Eq, Structural)]
pub struct GraphEdge {
    pub vertex: usize,
    pub next: usize,
    pub face: usize,
}

impl GraphEdge {
    pub fn new(vertex: usize, next: usize, face: usize) -> (r: GraphEdge)
        ensures
            r.vertex == vertex,
            r.next == next,
            r.face == face,
    {
        GraphEdge { vertex, next, face }
    }
}

/// A face record: one half-edge on its boundary; the other two boundary
/// half-edges are reached by following `next`.
#[derive(Debug, Clone, Copy, PartialEq, Eq, Structural)]
pub struct GraphFace {
    pub edge: usize,
}

impl GraphFace {
    pub fn new(edge: usize) -> (r: GraphFace)
        ensures
            r.edge == edge,
    {
        GraphFace { edge }
    }
}

/// A vertex record: an optional index into the point array (absent only for
/// the synthetic infinite vertex, index 0) and one incident half-edge.
#[derive(Debug, Clone, Copy, PartialEq, Eq, Structural)]
pub struct GraphVertex {
    pub position: Option<usize>,
    pub edge: usize,
}

impl GraphVertex {
    pub fn new(position: Option<usize>, edge: usize) -> (r: GraphVertex)
        ensures
            r.position == position,
            r.edge == edge,
    {
        GraphVertex { position, edge }
    }
}

/// Index of the twin of half-edge `e` under pair-addressing: even indices pair
/// upward, odd indices pair downward. Equals `e ^ 1` on machine integers.
pub open spec fn twin_of(e: int) -> int {
    if e % 2 == 0 {
        e + 1
    } else {
        e - 1
    }
}

/// The twin relation is an involution: following it twice returns to the
/// starting half-edge. This is the twin invariant of every mesh this crate
/// produces, for every half-edge index without exception.
pub proof fn lemma_twin_involution(e: int)
    ensures
        twin_of(twin_of(e)) == e,
        twin_of(e) != e,
{
}

/// Twins stay inside an even-length edge array.
pub proof fn lemma_twin_in_range(e: int, n: int)
    requires
        0 <= e < n,
        n % 2 == 0,
    ensures
        0 <= twin_of(e) < n,
{
}

proof fn lemma_xor_one(e: usize)
    by (bit_vector)
    ensures
        e % 2 == 0 ==> e ^ 1 == e + 1,
        e % 2 == 1 ==> e ^ 1 == e - 1,
{
}

/// The twin of half-edge `e`, computed by flipping the lowest index bit.
pub fn twin(e: usize) -> (r: usize)
    ensures
        r == twin_of(e as int),
{
    proof {
        lemma_xor_one(e);
    }
    e ^ 1
}

/// Every half-edge field stays inside the mesh arrays, and half-edges come in
/// twin pairs.
pub open spec fn edges_wf(edges: Seq<GraphEdge>, flen: int, vlen: int) -> bool {
    &&& edges.len() % 2 == 0
    &&& forall|e: int|
        0 <= e < edges.len() ==> {
            &&& (#[trigger] edges[e]).vertex < vlen
            &&& edges[e].next < edges.len()
            &&& edges[e].face < flen
        }
}

/// The triangulation invariant on `next`: from every half-edge, following
/// `next` three times returns to the start and never earlier, and `next`
/// stays within the same face. Together with `faces_wf` this makes every
/// face's boundary walk close after exactly three steps.
pub open spec fn next_wf(edges: Seq<GraphEdge>) -> bool {
    forall|e: int|
        0 <= e < edges.len() ==> {
            let n1 = (#[trigger] edges[e]).next as int;
            let n2 = edges[n1].next as int;
            let n3 = edges[n2].next as int;
            &&& n3 == e
            &&& n1 != e
            &&& n2 != e
            &&& edges[n1].face == edges[e].face
        }
}

/// Rewiring the six half-edges of two boundary cycles leaves every other
/// half-edge's record and three-step cycle untouched: a successor inside a
/// rewired cycle would place the edge itself inside that cycle.
pub proof fn lemma_cycles_untouched(
    pre: Seq<GraphEdge>,
    n: Seq<GraphEdge>,
    c0: int,
    c1: int,
    c2: int,
    d0: int,
    d1: int,
    d2: int,
)
    requires
        pre.len() <= n.len(),
        next_wf(pre),
        0 <= c0 < pre.len(),
        0 <= d0 < pre.len(),
        pre[c0].next == c1 && pre[c1].next == c2 && pre[c2].next == c0,
        pre[d0].next == d1 && pre[d1].next == d2 && pre[d2].next == d0,
        forall|e: int|
            0 <= e < pre.len() && e != c0 && e != c1 && e != c2 && e != d0 && e != d1 && e != d2
                ==> n[e] == #[trigger] pre[e],
    ensures
        forall|e: int|
            0 <= e < pre.len() && e != c0 && e != c1 && e != c2 && e != d0 && e != d1 && e != d2
                ==> {
                &&& n[e] == #[trigger] pre[e]
                &&& pre[e].next as int != c0
                &&& pre[e].next as int != c1
                &&& pre[e].next as int != c2
                &&& pre[e].next as int != d0
                &&& pre[e].next as int != d1
                &&& pre[e].next as int != d2
            },
{
    assert forall|e: int|
        0 <= e < pre.len() && e != c0 && e != c1 && e != c2 && e != d0 && e != d1 && e != d2
            implies {
        &&& n[e] == #[trigger] pre[e]
        &&& pre[e].next as int != c0
        &&& pre[e].next as int != c1
        &&& pre[e].next as int != c2
        &&& pre[e].next as int != d0
        &&& pre[e].next as int != d1
        &&& pre[e].next as int != d2
    } by {
        let x = pre[e].next as int;
        let y = pre[x].next as int;
        let z = pre[y].next as int;
        assert(z == e);
        if x == c0 {
            assert(e == c2);
        }
        if x == c1 {
            assert(e == c0);
        }
        if x == c2 {
            assert(e == c1);
        }
        if x == d0 {
            assert(e == d2);
        }
        if x == d1 {
            assert(e == d0);
        }
        if x == d2 {
            assert(e == d1);
        }
    }
}

/// Every face's stored representative half-edge lies on that face's boundary.
pub open spec fn faces_wf(edges: Seq<GraphEdge>, faces: Seq<GraphFace>) -> bool {
    forall|f: int|
        0 <= f < faces.len() ==> {
            &&& (#[trigger] faces[f]).edge < edges.len()
            &&& edges[faces[f].edge as int].face == f
        }
}

/// Vertex records are well-formed: vertex 0 is the synthetic infinite vertex
/// with no position, every other vertex resolves to a point of the input
/// array, every stored incident edge index is in range, and the infinite
/// vertex's stored half-edge really originates at it.
pub open spec fn vertices_wf(
    vertices: Seq<GraphVertex>,
    edges: Seq<GraphEdge>,
    plen: int,
) -> bool {
    &&& vertices.len() >= 1
    &&& vertices[0].position is None
    &&& forall|v: int|
        0 <= v < vertices.len() ==> (#[trigger] vertices[v]).edge < edges.len()
    &&& forall|v: int|
        1 <= v < vertices.len() ==> ((#[trigger] vertices[v]).position matches Some(i)
            && i < plen)
    &&& edges[vertices[0].edge as int].vertex == 0
}

/// The combined structural invariant of a mesh under construction and of
/// every finished mesh.
pub open spec fn parts_wf(
    edges: Seq<GraphEdge>,
    faces: Seq<GraphFace>,
    vertices: Seq<GraphVertex>,
    plen: int,
) -> bool {
    &&& edges_wf(edges, faces.len() as int, vertices.len() as int)
    &&& next_wf(edges)
    &&& faces_wf(edges, faces)
    &&& vertices_wf(vertices, edges, plen)
}

/// Every vertex that is the origin of at least one half-edge stores an
/// incident half-edge originating at it. (A finished mesh has no isolated
/// vertices, so this covers them all.)
pub open spec fn vertex_edges_wf(vertices: Seq<GraphVertex>, edges: Seq<GraphEdge>) -> bool {
    forall|v: int|
        0 <= v < vertices.len() && (exists|e: int|
            0 <= e < edges.len() && (#[trigger] edges[e]).vertex == v) ==> edges[(
        #[trigger] vertices[v]).edge as int].vertex == v
}

/// The half-edge face of a boundary member contains the infinite vertex among
/// its three corner origins.
pub open spec fn face_has_infinite(edges: Seq<GraphEdge>, e: int) -> bool {
    let n1 = edges[e].next as int;
    let n2 = edges[n1].next as int;
    &&& edges[e].vertex == 0 || edges[n1].vertex == 0 || edges[n2].vertex == 0
}

/// A planar subdivision: the fixed point array plus the half-edge, face and
/// vertex arrays. Built once by the incremental builder, then read-only.
#[derive(Debug)]
pub struct Graph {
    pub points: Vec<Point>,
    pub edges: Vec<GraphEdge>,
    pub faces: Vec<GraphFace>,
    pub vertices: Vec<GraphVertex>,
}

impl Graph {
    /// Full mesh invariant: structure plus bounded points plus stored
    /// incident edges.
    pub open spec fn wf(&self) -> bool {
        &&& parts_wf(self.edges@, self.faces@, self.vertices@, self.points@.len() as int)
        &&& vertex_edges_wf(self.vertices@, self.edges@)
        &&& all_in_bounds(self.points@)
    }

    /// Number of undirected edges (half the number of half-edges).
    pub fn edge_count(&self) -> (r: usize)
        ensures
            r == self.edges@.len() / 2,
    {
        self.edges.len() / 2
    }

    pub fn face_count(&self) -> (r: usize)
        ensures
            r == self.faces@.len(),
    {
        self.faces.len()
    }

    pub fn vertex_count(&self) -> (r: usize)
        ensures
            r == self.vertices@.len(),
    {
        self.vertices.len()
    }

    /// View of the half-edge with the given index.
    pub fn edge(&self, index: usize) -> (r: Edge)
        ensures
            r.graph == self,
            r.index == index,
    {
        Edge { graph: self, index }
    }

    pub fn face(&self, index: usize) -> (r: Face)
        ensures
            r.graph == self,
            r.index == index,
    {
        Face { graph: self, index }
    }

    pub fn vertex(&self, index: usize) -> (r: Vertex)
        ensures
            r.graph == self,
            r.index == index,
    {
        Vertex { graph: self, index }
    }

    /// One representative view per undirected edge (the even half-edge of
    /// each twin pair), in index order.
    pub fn edges(&self) -> (r: Vec<Edge>)
        ensures
            r@.len() == self.edges@.len() / 2,
            forall|i: int| 0 <= i < r@.len() ==> (#[trigger] r@[i]).graph == self
                && r@[i].index == 2 * i,
    {
        let count = self.edges.len() / 2;
        let mut out: Vec<Edge> = Vec::new();
        let mut i: usize = 0;
        while i < count
            invariant
                i <= count,
                count == self.edges@.len() / 2,
                self.edges@.len() <= usize::MAX,
                out@.len() == i,
                forall|k: int| 0 <= k < i ==> (#[trigger] out@[k]).graph == self
                    && out@[k].index == 2 * k,
            decreases count - i,
        {
            out.push(Edge { graph: self, index: 2 * i });
            i = i + 1;
        }
        out
    }

    /// Views of all faces, in index order.
    pub fn faces(&self) -> (r: Vec<Face>)
        ensures
            r@.len() == self.faces@.len(),
            forall|i: int| 0 <= i < r@.len() ==> (#[trigger] r@[i]).graph == self
                && r@[i].index == i,
    {
        let count = self.faces.len();
        let mut out: Vec<Face> = Vec::new();
        let mut i: usize = 0;
        while i < count
            invariant
                i <= count,
                count == self.faces@.len(),
                out@.len() == i,
                forall|k: int| 0 <= k < i ==> (#[trigger] out@[k]).graph == self
                    && out@[k].index == k,
            decreases count - i,
        {
            out.push(Face { graph: self, index: i });
            i = i + 1;
        }
        out
    }

    /// Views of all vertices (the infinite vertex included), in index order.
    pub fn vertices(&self) -> (r: Vec<Vertex>)
        ensures
            r@.len() == self.vertices@.len(),
            forall|i: int| 0 <= i < r@.len() ==> (#[trigger] r@[i]).graph == self
                && r@[i].index == i,
    {
        let count = self.vertices.len();
        let mut out: Vec<Vertex> = Vec::new();
        let mut i: usize = 0;
        while i < count
            invariant
                i <= count,
                count == self.vertices@.len(),
                out@.len() == i,
                forall|k: int| 0 <= k < i ==> (#[trigger] out@[k]).graph == self
                    && out@[k].index == k,
            decreases count - i,
        {
            out.push(Vertex { graph: self, index: i });
            i = i + 1;
        }
        out
    }
}

/// Assemble a mesh from fully formed arrays. The mesh itself never mutates;
/// all topology decisions are the builder's.
pub fn graph(
    points: Vec<Point>,
    edges: Vec<GraphEdge>,
    faces: Vec<GraphFace>,
    vertices: Vec<GraphVertex>,
) -> (r: Graph)
    ensures
        r.points == points,
        r.edges == edges,
        r.faces == faces,
        r.vertices == vertices,
{
    Graph { points, edges, faces, vertices }
}

/// A lightweight handle binding a half-edge index to its owning mesh.
#[derive(Clone, Copy)]
pub struct Edge<'a> {
    pub graph: &'a Graph,
    pub index: usize,
}

impl<'a> Edge<'a> {
    /// Identifier of the undirected edge this half-edge belongs to.
    pub fn id(&self) -> (r: usize)
        ensures
            r == self.index as int / 2,
    {
        self.index / 2
    }

    /// The two endpoint views: origin of this half-edge and origin of its
    /// twin.
    pub fn vertices(&self) -> (r: (Vertex<'a>, Vertex<'a>))
        requires
            self.graph.wf(),
            self.index < self.graph.edges@.len(),
        ensures
            r.0.graph == self.graph,
            r.1.graph == self.graph,
            r.0.index == self.graph.edges@[self.index as int].vertex,
            r.1.index == self.graph.edges@[twin_of(self.index as int)].vertex,
    {
        let id = self.index;
        proof {
            lemma_twin_in_range(id as int, self.graph.edges@.len() as int);
        }
        let left = Vertex { graph: self.graph, index: self.graph.edges[id].vertex };
        let right = Vertex { graph: self.graph, index: self.graph.edges[twin(id)].vertex };
        (left, right)
    }
}

/// A lightweight handle binding a face index to its owning mesh.
#[derive(Clone, Copy)]
pub struct Face<'a> {
    pub graph: &'a Graph,
    pub index: usize,
}

impl<'a> Face<'a> {
    pub fn id(&self) -> (r: usize)
        ensures
            r == self.index,
    {
        self.index
    }

    /// The three boundary half-edges, walking `next` from the stored
    /// representative; the walk returns to its start after exactly 3 steps.
    pub fn edges(&self) -> (r: Vec<Edge<'a>>)
        requires
            self.graph.wf(),
            self.index < self.graph.faces@.len(),
        ensures
            r@.len() == 3,
            forall|i: int| 0 <= i < 3 ==> (#[trigger] r@[i]).graph == self.graph,
            r@[0].index == self.graph.faces@[self.index as int].edge,
            r@[1].index == self.graph.edges@[r@[0].index as int].next,
            r@[2].index == self.graph.edges@[r@[1].index as int].next,
            self.graph.edges@[r@[2].index as int].next == r@[0].index,
    {
        let start = self.graph.faces[self.index].edge;
        let second = self.graph.edges[start].next;
        let third = self.graph.edges[second].next;
        let mut out: Vec<Edge<'a>> = Vec::new();
        out.push(Edge { graph: self.graph, index: start });
        out.push(Edge { graph: self.graph, index: second });
        out.push(Edge { graph: self.graph, index: third });
        out
    }

    /// The three corner vertices in boundary order (the origins of the three
    /// boundary half-edges).
    pub fn vertices(&self) -> (r: Vec<Vertex<'a>>)
        requires
            self.graph.wf(),
            self.index < self.graph.faces@.len(),
        ensures
            r@.len() == 3,
            forall|i: int| 0 <= i < 3 ==> (#[trigger] r@[i]).graph == self.graph,
            ({
                let s = self.graph.faces@[self.index as int].edge as int;
                let n1 = self.graph.edges@[s].next as int;
                let n2 = self.graph.edges@[n1].next as int;
                &&& r@[0].index == self.graph.edges@[s].vertex
                &&& r@[1].index == self.graph.edges@[n1].vertex
                &&& r@[2].index == self.graph.edges@[n2].vertex
            }),
    {
        let boundary = self.edges();
        let mut out: Vec<Vertex<'a>> = Vec::new();
        out.push(Vertex { graph: self.graph, index: self.graph.edges[boundary[0].index].vertex });
        out.push(Vertex { graph: self.graph, index: self.graph.edges[boundary[1].index].vertex });
        out.push(Vertex { graph: self.graph, index: self.graph.edges[boundary[2].index].vertex });
        out
    }
}

impl<'a> Face<'a> {
    /// True when none of the face's three corners is the infinite vertex:
    /// the face is a real triangle of the triangulation rather than an
    /// unbounded exterior wedge.
    pub fn is_finite(&self) -> (r: bool)
        requires
            self.graph.wf(),
            self.index < self.graph.faces@.len(),
        ensures
            r == !face_has_infinite(
                self.graph.edges@,
                self.graph.faces@[self.index as int].edge as int,
            ),
    {
        let s = self.graph.faces[self.index].edge;
        let n1 = self.graph.edges[s].next;
        let n2 = self.graph.edges[n1].next;
        self.graph.edges[s].vertex != 0 && self.graph.edges[n1].vertex != 0
            && self.graph.edges[n2].vertex != 0
    }
}

/// A lightweight handle binding a vertex index to its owning mesh.
#[derive(Clone, Copy)]
pub struct Vertex<'a> {
    pub graph: &'a Graph,
    pub index: usize,
}

impl Vertex<'_> {
    /// True for every vertex except the synthetic infinite vertex at index 0.
    pub fn is_finite(&self) -> (r: bool)
        ensures
            r == (self.index != 0),
    {
        self.index != 0
    }

    pub fn id(&self) -> (r: usize)
        ensures
            r == self.index,
    {
        self.index
    }

    /// The vertex's coordinate, or `None` for the synthetic infinite vertex.
    pub fn position(&self) -> (r: Option<Point>)
        requires
            self.graph.wf(),
            self.index < self.graph.vertices@.len(),
        ensures
            self.index == 0 ==> r is None,
            self.index != 0 ==> (r matches Some(p)
                && self.graph.vertices@[self.index as int].position matches Some(i)
                && p == self.graph.points@[i as int]),
    {
        match self.graph.vertices[self.index].position {
            Some(i) => Some(self.graph.points[i]),
            None => None,
        }
    }
}

/// Face closure: under the mesh invariant, every face's boundary walk via
/// `next` returns to its start after exactly three steps — no fewer (the
/// three boundary half-edges are pairwise distinct) and no more.
pub proof fn lemma_face_closure(g: &Graph, f: int)
    requires
        g.wf(),
        0 <= f < g.faces@.len(),
    ensures
        ({
            let s = g.faces@[f].edge as int;
            let n1 = g.edges@[s].next as int;
            let n2 = g.edges@[n1].next as int;
            &&& g.edges@[n2].next == s
            &&& n1 != s
            &&& n2 != s
            &&& n1 != n2
            &&& g.edges@[s].face == f
            &&& g.edges@[n1].face == f
            &&& g.edges@[n2].face == f
        }),
{
    let s = g.faces@[f].edge as int;
    let n1 = g.edges@[s].next as int;
    let n2 = g.edges@[n1].next as int;
    assert(g.edges@[n2].next == s && n1 != s && n2 != s);
    assert(n2 != n1) by {
        assert(g.edges@[n1].next as int != n1);
    }
    assert(g.edges@[n1].face == g.edges@[s].face);
    assert(g.edges@[n2].face == g.edges@[n1].face);
}

} // verus!
