use vstd::prelude::*;
use crate::consistency::{
    lemma_add_triangle_sizes, lemma_corners_used, lemma_joins_kept, lemma_record_triangle_linked,
    lemma_register_linked, lemma_with_edge_linked, lemma_with_vertex_wf,
};
use crate::counting::counts_after;
use crate::edge::{Edge, EdgeView};
use crate::index_map::{
    entries, index_map_get, index_map_insert, index_map_len, index_map_new, IndexMap,
};
use crate::stencil::{accepts_stencils, Stencil};
use crate::subdiv_surface::{is_subdivision, reached, subdivide_once};
use crate::triangle::Triangle;
use crate::vertex::{Vertex, VertexView};

verus! {

/// A triangle mesh: the owner of its vertices, edges and triangles.
///
/// Every vertex that was made for the model lives in `arena`, at the slot
/// that is its identifier. `vertices` names those that belong to the mesh:
/// the corners of its triangles. The identifier of an edge or a triangle
/// is its place in `edges` or `triangles`.
#[derive(Debug)]
pub struct Model<P> {
    pub vertices: IndexMap,
    pub arena: Vec<Vertex<P>>,
    pub edges: Vec<Edge>,
    pub triangles: Vec<Triangle>,
}

/// A vertex was named that the arena of the model does not hold.
#[derive(Clone, Copy, Debug, PartialEq, Eq, Structural)]
pub struct StaleReference {
    pub vertex: usize,
}

/// The mathematical value of a [`Model`].
pub struct ModelView<P> {
    pub vertices: Map<usize, usize>,
    pub arena: Seq<VertexView<P>>,
    pub edges: Seq<EdgeView>,
    pub triangles: Seq<Triangle>,
}

impl<P> View for Model<P> {
    type V = ModelView<P>;

    open spec fn view(&self) -> ModelView<P> {
        ModelView {
            vertices: entries(self.vertices),
            arena: self.arena@.map_values(|v: Vertex<P>| v@),
            edges: self.edges@.map_values(|e: Edge| e@),
            triangles: self.triangles@,
        }
    }
}

impl<P> ModelView<P> {
    /// The mesh without any vertex, edge or triangle.
    pub open spec fn empty() -> Self {
        ModelView {
            vertices: Map::empty(),
            arena: Seq::empty(),
            edges: Seq::empty(),
            triangles: Seq::empty(),
        }
    }

    /// The model with one more vertex in its arena, bare and not yet part
    /// of the mesh.
    pub open spec fn with_vertex(self, position: P, index: Option<usize>) -> Self {
        ModelView {
            arena: self.arena.push(VertexView::bare(self.arena.len() as usize, position, index)),
            ..self
        }
    }

    /// The model with `vertex` named among the vertices of the mesh.
    pub open spec fn register(self, vertex: usize) -> Self {
        ModelView { vertices: self.vertices.insert(vertex, vertex), ..self }
    }

    /// The model with `edge` recorded on the vertex `vertex`, where the
    /// arena has such a vertex.
    pub open spec fn vertex_add_edge(self, vertex: usize, edge: usize) -> Self {
        if vertex < self.arena.len() {
            ModelView {
                arena: self.arena.update(vertex as int, self.arena[vertex as int].add_edge(edge)),
                ..self
            }
        } else {
            self
        }
    }

    /// The model with `triangle` recorded on the vertex `vertex`, where the
    /// arena has such a vertex.
    pub open spec fn vertex_add_triangle(self, vertex: usize, triangle: usize) -> Self {
        if vertex < self.arena.len() {
            ModelView {
                arena: self.arena.update(
                    vertex as int,
                    self.arena[vertex as int].add_triangle(triangle),
                ),
                ..self
            }
        } else {
            self
        }
    }

    /// The model with `triangle` recorded on the edge `edge`, where the
    /// model has such an edge.
    pub open spec fn edge_add_triangle(self, edge: usize, triangle: usize) -> Self {
        if edge < self.edges.len() {
            ModelView {
                edges: self.edges.update(
                    edge as int,
                    self.edges[edge as int].add_triangle(triangle),
                ),
                ..self
            }
        } else {
            self
        }
    }

    /// The model with a new edge between `a` and `b` at the end of `edges`.
    pub open spec fn push_edge(self, a: usize, b: usize) -> Self {
        ModelView { edges: self.edges.push(EdgeView::bare(self.edges.len() as usize, a, b)), ..self }
    }

    /// The model with `triangle` at the end of `triangles`.
    pub open spec fn push_triangle(self, triangle: Triangle) -> Self {
        ModelView { triangles: self.triangles.push(triangle), ..self }
    }

    /// True if `edge` names an edge of the model that joins `v0` and `v1`.
    pub open spec fn joins(self, edge: usize, v0: usize, v1: usize) -> bool {
        edge < self.edges.len() && self.edges[edge as int].connects(v0, v1)
    }

    /// The first edge at or after place `from` of `list` that joins `v0`
    /// and `v1`.
    pub open spec fn first_joining(
        self,
        list: Seq<usize>,
        v0: usize,
        v1: usize,
        from: int,
    ) -> Option<usize>
        decreases list.len() - from,
    {
        if from < 0 || from >= list.len() {
            None
        } else if self.joins(list[from], v0, v1) {
            Some(list[from])
        } else {
            self.first_joining(list, v0, v1, from + 1)
        }
    }

    /// The edge between `v0` and `v1` that `v0` already knows of: the first
    /// in its edge list whose ends are `v0` and `v1`.
    pub open spec fn find_edge(self, v0: usize, v1: usize) -> Option<usize> {
        self.first_joining(self.arena[v0 as int].edges, v0, v1, 0)
    }

    /// The identifier that `get_or_create_edge` answers with: that of the
    /// edge found, else the one that the new edge gets.
    pub open spec fn edge_for(self, v0: usize, v1: usize) -> usize {
        match self.find_edge(v0, v1) {
            Some(edge) => edge,
            None => self.edges.len() as usize,
        }
    }

    /// The model after `get_or_create_edge`: unchanged where the edge was
    /// found; else with a new edge from `v0` to `v1` at the end of `edges`,
    /// recorded on `v0` and then on `v1`.
    pub open spec fn with_edge(self, v0: usize, v1: usize) -> Self {
        match self.find_edge(v0, v1) {
            Some(_) => self,
            None => {
                let edge = self.edges.len() as usize;
                self.push_edge(v0, v1).vertex_add_edge(v0, edge).vertex_add_edge(v1, edge)
            },
        }
    }

    /// The model with a new triangle at the end of `triangles`, recorded
    /// on its three corners and then on its three sides.
    pub open spec fn record_triangle(
        self,
        v0: usize,
        v1: usize,
        v2: usize,
        e0: usize,
        e1: usize,
        e2: usize,
    ) -> Self {
        let t = self.triangles.len() as usize;
        self.push_triangle(Triangle { id: t, v0, v1, v2, e0, e1, e2 })
            .vertex_add_triangle(v0, t)
            .vertex_add_triangle(v1, t)
            .vertex_add_triangle(v2, t)
            .edge_add_triangle(e0, t)
            .edge_add_triangle(e1, t)
            .edge_add_triangle(e2, t)
    }

    /// The model with the three corners named among the vertices of the
    /// mesh and with an edge between `v0` and `v1`, between `v1` and `v2`,
    /// and between `v2` and `v0`, got or created in this order.
    pub open spec fn with_sides(self, v0: usize, v1: usize, v2: usize) -> Self {
        self.register(v0).register(v1).register(v2).with_edge(v0, v1).with_edge(v1, v2).with_edge(
            v2,
            v0,
        )
    }

    /// The model after `add_triangle`: the three corners belong to the
    /// mesh, the three sides exist once each, the new triangle stands at
    /// the end of `triangles` and is recorded on its corners and sides.
    #[verifier::opaque]
    pub open spec fn add_triangle(self, v0: usize, v1: usize, v2: usize) -> Self {
        let m0 = self.register(v0).register(v1).register(v2);
        let e0 = m0.edge_for(v0, v1);
        let m1 = m0.with_edge(v0, v1);
        let e1 = m1.edge_for(v1, v2);
        let m2 = m1.with_edge(v1, v2);
        let e2 = m2.edge_for(v2, v0);
        let m3 = m2.with_edge(v2, v0);
        m3.record_triangle(v0, v1, v2, e0, e1, e2)
    }

    /// True if `vertex` names a slot of the arena.
    pub open spec fn has_vertex(self, vertex: usize) -> bool {
        vertex < self.arena.len()
    }

    /// True if `id` is named as a vertex of the mesh, under a slot of the
    /// arena.
    pub open spec fn names_vertex(self, id: usize) -> bool {
        self.vertices.contains_key(id) && self.has_vertex(self.vertices[id])
    }

    /// The first of the three identifiers that names no slot of the arena.
    pub open spec fn first_stale(self, v0: usize, v1: usize, v2: usize) -> Option<usize> {
        if !self.has_vertex(v0) {
            Some(v0)
        } else if !self.has_vertex(v1) {
            Some(v1)
        } else if !self.has_vertex(v2) {
            Some(v2)
        } else {
            None
        }
    }

    /// True if `edge` is an edge of the model with `vertex` as an end.
    pub open spec fn edge_at(self, edge: usize, vertex: usize) -> bool {
        edge < self.edges.len() && self.edges[edge as int].has(vertex)
    }

    /// True if `triangle` is a triangle of the model with `vertex` as a
    /// corner.
    pub open spec fn corner_of(self, vertex: usize, triangle: usize) -> bool {
        triangle < self.triangles.len() && self.triangles[triangle as int].has_corner(vertex)
    }

    /// True if `triangle` is a triangle of the model with `edge` as a side.
    pub open spec fn side_of(self, edge: usize, triangle: usize) -> bool {
        triangle < self.triangles.len() && self.triangles[triangle as int].has_side(edge)
    }

    /// Every identifier is the place of its entity, and fits the machine.
    pub open spec fn ids_in_order(self) -> bool {
        &&& self.arena.len() <= usize::MAX
        &&& self.edges.len() <= usize::MAX
        &&& self.triangles.len() <= usize::MAX
        &&& forall|i: int| 0 <= i < self.arena.len() ==> (#[trigger] self.arena[i]).id == i
        &&& forall|i: int| 0 <= i < self.edges.len() ==> (#[trigger] self.edges[i]).id == i
        &&& forall|i: int| 0 <= i < self.triangles.len() ==> (#[trigger] self.triangles[i]).id == i
    }

    /// The vertex at slot `v` lists only edges that end in it and triangles
    /// that have it as a corner.
    pub open spec fn vertex_ok(self, v: int) -> bool {
        let vertex = self.arena[v];
        &&& forall|k: int|
            0 <= k < vertex.edges.len() ==> self.edge_at(#[trigger] vertex.edges[k], v as usize)
        &&& forall|k: int|
            0 <= k < vertex.triangles.len() ==> self.corner_of(
                v as usize,
                #[trigger] vertex.triangles[k],
            )
    }

    /// The edge at place `e` ends in two vertices of the arena that both
    /// list it, and lists only triangles that have it as a side.
    pub open spec fn edge_ok(self, e: int) -> bool {
        let edge = self.edges[e];
        &&& self.has_vertex(edge.a)
        &&& self.has_vertex(edge.b)
        &&& self.arena[edge.a as int].edges.contains(e as usize)
        &&& self.arena[edge.b as int].edges.contains(e as usize)
        &&& forall|k: int|
            0 <= k < edge.triangles.len() ==> self.side_of(e as usize, #[trigger] edge.triangles[k])
    }

    /// The triangle at place `t` has corners that belong to the mesh and
    /// sides that join them in winding order, and each corner and each side
    /// lists it.
    pub open spec fn triangle_ok(self, t: int) -> bool {
        let tri = self.triangles[t];
        &&& self.has_vertex(tri.v0)
        &&& self.has_vertex(tri.v1)
        &&& self.has_vertex(tri.v2)
        &&& self.vertices.contains_key(tri.v0)
        &&& self.vertices.contains_key(tri.v1)
        &&& self.vertices.contains_key(tri.v2)
        &&& self.joins(tri.e0, tri.v0, tri.v1)
        &&& self.joins(tri.e1, tri.v1, tri.v2)
        &&& self.joins(tri.e2, tri.v2, tri.v0)
        &&& self.arena[tri.v0 as int].triangles.contains(t as usize)
        &&& self.arena[tri.v1 as int].triangles.contains(t as usize)
        &&& self.arena[tri.v2 as int].triangles.contains(t as usize)
        &&& self.edges[tri.e0 as int].triangles.contains(t as usize)
        &&& self.edges[tri.e1 as int].triangles.contains(t as usize)
        &&& self.edges[tri.e2 as int].triangles.contains(t as usize)
    }

    /// No two edges of the model have the same two ends.
    pub open spec fn edges_unique(self) -> bool {
        forall|i: int, j: int|
            0 <= i < self.edges.len() && 0 <= j < self.edges.len() && (#[trigger] self.edges[i]).connects(
                (#[trigger] self.edges[j]).a,
                self.edges[j].b,
            ) ==> i == j
    }

    /// Only slots of the arena are named as vertices of the mesh, each
    /// under its own identifier.
    pub open spec fn registry_ok(self) -> bool {
        forall|id: usize| #[trigger]
            self.vertices.contains_key(id) ==> self.has_vertex(id) && self.vertices[id] == id
    }

    /// Every vertex of the mesh is a corner of a triangle that it lists.
    pub open spec fn registered_used(self) -> bool {
        forall|id: usize| #[trigger]
            self.vertices.contains_key(id) ==> self.arena[id as int].triangles.len() > 0
    }

    /// The consistency that every operation of the library keeps: all
    /// references resolve, adjacency is recorded on both sides, between two
    /// vertices there is at most one edge, and the vertices of the mesh are
    /// the corners of its triangles.
    pub open spec fn wf(self) -> bool {
        self.linked() && self.registered_used()
    }

    /// The part of the consistency that also holds while a triangle is
    /// being added: all references resolve, adjacency is recorded on both
    /// sides, and between two vertices there is at most one edge.
    pub open spec fn linked(self) -> bool {
        &&& self.ids_in_order()
        &&& self.registry_ok()
        &&& self.edges_unique()
        &&& forall|v: int| 0 <= v < self.arena.len() ==> #[trigger] self.vertex_ok(v)
        &&& forall|e: int| 0 <= e < self.edges.len() ==> #[trigger] self.edge_ok(e)
        &&& forall|t: int| 0 <= t < self.triangles.len() ==> #[trigger] self.triangle_ok(t)
    }
}

impl<P> Model<P> {
    /// A mesh without any vertex, edge or triangle.
    pub fn new() -> (m: Self)
        ensures
            m@ == ModelView::<P>::empty(),
            m@.wf(),
    {
        let m = Model {
            vertices: index_map_new(),
            arena: Vec::new(),
            edges: Vec::new(),
            triangles: Vec::new(),
        };
        assert(m@.arena =~= Seq::empty());
        assert(m@.edges =~= Seq::empty());
        assert(m@.vertices =~= Map::empty());
        m
    }

    /// Makes a vertex at `position` and returns its identifier. The vertex
    /// becomes part of the mesh with the first triangle that uses it.
    pub fn new_vertex(&mut self, position: P) -> (id: usize)
        ensures
            id == old(self)@.arena.len(),
            final(self)@ == old(self)@.with_vertex(position, None),
            old(self)@.wf() ==> final(self)@.wf(),
    {
        self.new_vertex_with_index(position, None)
    }

    /// Makes a vertex at `position` with the lineage mark `index` and
    /// returns its identifier.
    pub fn new_vertex_with_index(&mut self, position: P, index: Option<usize>) -> (id: usize)
        ensures
            id == old(self)@.arena.len(),
            final(self)@ == old(self)@.with_vertex(position, index),
            old(self)@.wf() ==> final(self)@.wf(),
    {
        let id = self.arena.len();
        self.arena.push(Vertex::with_index(id, position, index));
        assert(self@.arena =~= old(self)@.with_vertex(position, index).arena);
        proof {
            assert(self@.arena.len() == self.arena.len());
            if old(self)@.wf() {
                lemma_with_vertex_wf(old(self)@, position, index);
            }
        }
        id
    }

    /// The number of vertices that belong to the mesh.
    pub fn vertex_count(&self) -> (n: usize)
        ensures
            n == self@.vertices.dom().len(),
    {
        index_map_len(&self.vertices)
    }

    /// The vertex of the mesh with identifier `id`, if there is one: the
    /// vertex at the slot that `vertices` names for `id`, which in a
    /// consistent model is the slot `id`.
    pub fn vertex(&self, id: usize) -> (r: Option<&Vertex<P>>)
        ensures
            match r {
                Some(vertex) => self@.names_vertex(id) && vertex@ == self@.arena[self@.vertices[id] as int],
                None => !self@.names_vertex(id),
            },
    {
        assert(self@.arena.len() == self.arena.len());
        match index_map_get(&self.vertices, id) {
            Some(slot) => {
                if slot < self.arena.len() {
                    Some(&self.arena[slot])
                } else {
                    None
                }
            },
            None => None,
        }
    }

    /// The identifiers of the vertices of the mesh that lie in the arena,
    /// in rising order.
    pub fn vertex_ids(&self) -> (ids: Vec<usize>)
        ensures
            forall|id: usize|
                ids@.contains(id) <==> self@.has_vertex(id) && self@.vertices.contains_key(id),
            forall|i: int, j: int| 0 <= i < j < ids@.len() ==> ids@[i] < ids@[j],
    {
        let mut ids: Vec<usize> = Vec::new();
        let count = self.arena.len();
        assert(count == self@.arena.len());
        let mut id: usize = 0;
        while id < count
            invariant
                0 <= id <= count,
                count == self@.arena.len(),
                forall|k: usize| ids@.contains(k) <==> k < id && self@.vertices.contains_key(k),
                forall|i: int| 0 <= i < ids@.len() ==> ids@[i] < id,
                forall|i: int, j: int| 0 <= i < j < ids@.len() ==> ids@[i] < ids@[j],
            decreases count - id,
        {
            if index_map_get(&self.vertices, id).is_some() {
                let ghost before = ids@;
                ids.push(id);
                proof {
                    assert forall|k: usize| ids@.contains(k) <==> k < id + 1
                        && self@.vertices.contains_key(k) by {
                        if ids@.contains(k) {
                            let i = choose|i: int| 0 <= i < ids@.len() && ids@[i] == k;
                            if i < before.len() {
                                assert(before.contains(before[i]));
                            }
                        }
                        if k < id + 1 && self@.vertices.contains_key(k) {
                            if k < id {
                                assert(before.contains(k));
                                let i = choose|i: int| 0 <= i < before.len() && before[i] == k;
                                assert(ids@[i] == k);
                            } else {
                                assert(ids@[before.len() as int] == k);
                            }
                        }
                    }
                }
            }
            id += 1;
        }
        ids
    }

    fn vertex_add_edge(&mut self, vertex: usize, edge: usize)
        requires
            old(self)@.has_vertex(vertex),
        ensures
            final(self)@ == old(self)@.vertex_add_edge(vertex, edge),
    {
        self.arena[vertex].add_edge(edge);
        assert(self@.arena =~= old(self)@.vertex_add_edge(vertex, edge).arena);
        assert(self@.edges =~= old(self)@.edges);
    }

    fn vertex_add_triangle(&mut self, vertex: usize, triangle: usize)
        requires
            old(self)@.has_vertex(vertex),
        ensures
            final(self)@ == old(self)@.vertex_add_triangle(vertex, triangle),
    {
        self.arena[vertex].add_triangle(triangle);
        assert(self@.arena =~= old(self)@.vertex_add_triangle(vertex, triangle).arena);
        assert(self@.edges =~= old(self)@.edges);
    }

    fn edge_add_triangle(&mut self, edge: usize, triangle: usize)
        requires
            edge < old(self)@.edges.len(),
        ensures
            final(self)@ == old(self)@.edge_add_triangle(edge, triangle),
    {
        self.edges[edge].add_triangle(triangle);
        assert(self@.edges =~= old(self)@.edge_add_triangle(edge, triangle).edges);
        assert(self@.arena =~= old(self)@.arena);
    }

    /// Looks through the edges that `v0` lists for one between `v0` and
    /// `v1`.
    pub fn find_edge(&self, v0: usize, v1: usize) -> (r: Option<usize>)
        requires
            self@.has_vertex(v0),
        ensures
            r == self@.find_edge(v0, v1),
            r matches Some(edge) ==> self@.joins(edge, v0, v1),
    {
        let list = &self.arena[v0].edges;
        let mut k: usize = 0;
        while k < list.len()
            invariant
                0 <= k <= list.len(),
                list@ == self@.arena[v0 as int].edges,
                self@.find_edge(v0, v1) == self@.first_joining(list@, v0, v1, k as int),
            decreases list.len() - k,
        {
            let edge = list[k];
            if edge < self.edges.len() && self.edges[edge].connects(v0, v1) {
                return Some(edge);
            }
            k += 1;
        }
        None
    }

    /// The edge between `v0` and `v1`: the one that `v0` lists already, or
    /// else a new one, which is then recorded on both vertices.
    pub fn get_or_create_edge(&mut self, v0: usize, v1: usize) -> (edge: usize)
        requires
            old(self)@.has_vertex(v0),
            old(self)@.has_vertex(v1),
        ensures
            edge == old(self)@.edge_for(v0, v1),
            final(self)@ == old(self)@.with_edge(v0, v1),
            final(self)@.joins(edge, v0, v1),
            final(self)@.arena.len() == old(self)@.arena.len(),
            final(self)@.edges.len() >= old(self)@.edges.len(),
            old(self)@.linked() ==> final(self)@.linked(),
            old(self)@.wf() ==> final(self)@.wf(),
    {
        let edge = match self.find_edge(v0, v1) {
            Some(edge) => edge,
            None => {
                let edge = self.edges.len();
                self.edges.push(Edge::new(edge, v0, v1));
                assert(self@.edges =~= old(self)@.push_edge(v0, v1).edges);
                assert(self@.arena =~= old(self)@.arena);
                self.vertex_add_edge(v0, edge);
                self.vertex_add_edge(v1, edge);
                edge
            },
        };
        proof {
            assert(self@.edges.len() == self.edges.len());
            if old(self)@.linked() {
                lemma_with_edge_linked(old(self)@, v0, v1);
            }
        }
        edge
    }

    /// Adds the triangle with corners `v0`, `v1`, `v2`, in this winding
    /// order. The corners become vertices of the mesh if they were not;
    /// each side is the edge that exists between its ends, or a new one.
    pub fn add_triangle(&mut self, v0: usize, v1: usize, v2: usize)
        requires
            old(self)@.has_vertex(v0),
            old(self)@.has_vertex(v1),
            old(self)@.has_vertex(v2),
        ensures
            final(self)@ == old(self)@.add_triangle(v0, v1, v2),
            final(self)@.arena.len() == old(self)@.arena.len(),
            final(self)@.triangles.len() == old(self)@.triangles.len() + 1,
            old(self)@.edges.len() <= final(self)@.edges.len() <= old(self)@.edges.len() + 3,
            old(self)@.wf() ==> final(self)@.wf(),
    {
        reveal(ModelView::add_triangle);
        proof {
            lemma_add_triangle_sizes(old(self)@, v0, v1, v2);
        }
        index_map_insert(&mut self.vertices, v0, v0);
        index_map_insert(&mut self.vertices, v1, v1);
        index_map_insert(&mut self.vertices, v2, v2);
        assert(self@ == old(self)@.register(v0).register(v1).register(v2));
        proof {
            if old(self)@.wf() {
                lemma_register_linked(old(self)@, v0);
                lemma_register_linked(old(self)@.register(v0), v1);
                lemma_register_linked(old(self)@.register(v0).register(v1), v2);
            }
        }
        let e0 = self.get_or_create_edge(v0, v1);
        let e1 = self.get_or_create_edge(v1, v2);
        let e2 = self.get_or_create_edge(v2, v0);
        let ghost before = self@;
        assert(before == old(self)@.with_sides(v0, v1, v2));
        assert(before.edges.len() == self.edges.len());
        let t = self.triangles.len();
        self.triangles.push(Triangle::new(t, v0, v1, v2, e0, e1, e2));
        proof {
            assert(before.triangles.len() < self.triangles.len());
            if old(self)@.wf() {
                lemma_joins_kept(old(self)@.register(v0).register(v1).register(v2), v0, v1, v2);
                lemma_record_triangle_linked(before, v0, v1, v2, e0, e1, e2);
                lemma_corners_used(old(self)@, v0, v1, v2);
            }
        }
        self.vertex_add_triangle(v0, t);
        self.vertex_add_triangle(v1, t);
        self.vertex_add_triangle(v2, t);
        self.edge_add_triangle(e0, t);
        self.edge_add_triangle(e1, t);
        self.edge_add_triangle(e2, t);
    }
}

impl<P> Model<P> {
    /// `get_or_create_edge` for a caller that cannot vouch for the two
    /// vertices: where one of them is not in the arena the model stays as
    /// it is and the first such vertex is reported.
    pub fn try_get_or_create_edge(&mut self, v0: usize, v1: usize) -> (r: Result<
        usize,
        StaleReference,
    >)
        ensures
            match r {
                Ok(edge) => {
                    &&& old(self)@.first_stale(v0, v1, v1) is None
                    &&& edge == old(self)@.edge_for(v0, v1)
                    &&& final(self)@ == old(self)@.with_edge(v0, v1)
                    &&& old(self)@.linked() ==> final(self)@.linked()
                    &&& old(self)@.wf() ==> final(self)@.wf()
                },
                Err(stale) => {
                    &&& old(self)@.first_stale(v0, v1, v1) == Some(stale.vertex)
                    &&& final(self)@ == old(self)@
                },
            },
    {
        let count = self.arena.len();
        assert(count == self@.arena.len());
        if v0 >= count {
            Err(StaleReference { vertex: v0 })
        } else if v1 >= count {
            Err(StaleReference { vertex: v1 })
        } else {
            Ok(self.get_or_create_edge(v0, v1))
        }
    }

    /// `add_triangle` for a caller that cannot vouch for the three
    /// vertices: where one of them is not in the arena the model stays as
    /// it is and the first such vertex is reported.
    pub fn try_add_triangle(&mut self, v0: usize, v1: usize, v2: usize) -> (r: Result<
        (),
        StaleReference,
    >)
        ensures
            match r {
                Ok(_) => {
                    &&& old(self)@.first_stale(v0, v1, v2) is None
                    &&& final(self)@ == old(self)@.add_triangle(v0, v1, v2)
                    &&& final(self)@.arena.len() == old(self)@.arena.len()
                    &&& old(self)@.wf() ==> final(self)@.wf()
                },
                Err(stale) => {
                    &&& old(self)@.first_stale(v0, v1, v2) == Some(stale.vertex)
                    &&& final(self)@ == old(self)@
                },
            },
    {
        let count = self.arena.len();
        assert(count == self@.arena.len());
        if v0 >= count {
            Err(StaleReference { vertex: v0 })
        } else if v1 >= count {
            Err(StaleReference { vertex: v1 })
        } else if v2 >= count {
            Err(StaleReference { vertex: v2 })
        } else {
            self.add_triangle(v0, v1, v2);
            Ok(())
        }
    }
}

impl<P: Copy> Model<P> {
    /// The mesh after `iterations` passes of Loop subdivision, each on the
    /// result of the one before. With no pass at all it is the mesh itself.
    pub fn subdivide<F: Fn(&Stencil<P>) -> P>(self, iterations: usize, blend: &F) -> (fine: Self)
        requires
            self@.wf(),
            accepts_stencils(blend),
        ensures
            fine@.wf(),
            reached(blend, self@, fine@, iterations as nat),
            iterations == 0 ==> fine == self,
            self@.is_regular() ==> fine@.is_regular() && fine@.counts() == counts_after(
                self@.counts(),
                iterations as nat,
            ),
    {
        let mut model = self;
        let mut done: usize = 0;
        while done < iterations
            invariant
                0 <= done <= iterations,
                model@.wf(),
                accepts_stencils(blend),
                reached(blend, self@, model@, done as nat),
                done == 0 ==> model == self,
                self@.is_regular() ==> model@.is_regular() && model@.counts() == counts_after(
                    self@.counts(),
                    done as nat,
                ),
            decreases iterations - done,
        {
            let ghost mid = model@;
            model = subdivide_once(model, blend);
            done += 1;
            assert(reached(blend, self@, mid, (done - 1) as nat) && is_subdivision(
                blend,
                mid,
                model@,
            ));
        }
        model
    }
}

impl<P> Default for Model<P> {
    fn default() -> (m: Self)
        ensures
            m@ == ModelView::<P>::empty(),
            m@.wf(),
    {
        Model::new()
    }
}

} // verus!
