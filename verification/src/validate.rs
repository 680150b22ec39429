use vstd::prelude::*;
use crate::index_map::{index_map_get, index_map_keys};
use crate::model::{Model, ModelView};

verus! {

/// True if `x` occurs in `list`.
fn list_contains(list: &Vec<usize>, x: usize) -> (found: bool)
    ensures
        found == list@.contains(x),
{
    let mut k: usize = 0;
    while k < list.len()
        invariant
            0 <= k <= list.len(),
            forall|i: int| 0 <= i < k ==> list@[i] != x,
        decreases list.len() - k,
    {
        if list[k] == x {
            assert(list@[k as int] == x);
            return true;
        }
        k += 1;
    }
    false
}

impl<P> ModelView<P> {
    /// True if no two different edges that `vertex` lists have the same two
    /// ends.
    pub open spec fn unique_at(self, vertex: int) -> bool {
        let list = self.arena[vertex].edges;
        forall|p: int, q: int|
            0 <= p < list.len() && 0 <= q < list.len() && #[trigger] list[p] != #[trigger] list[q]
                ==> !self.edges[list[p] as int].connects(
                self.edges[list[q] as int].a,
                self.edges[list[q] as int].b,
            )
    }
}

/// Two different edges with the same ends on one vertex are two edges of
/// the model with the same ends.
proof fn lemma_clash_breaks_uniqueness<P>(m: ModelView<P>, v: int)
    requires
        0 <= v < m.arena.len(),
        m.vertex_ok(v),
        !m.unique_at(v),
    ensures
        !m.edges_unique(),
{
    let list = m.arena[v].edges;
    let (p, q) = choose|p: int, q: int|
        0 <= p < list.len() && 0 <= q < list.len() && #[trigger] list[p] != #[trigger] list[q]
            && m.edges[list[p] as int].connects(
            m.edges[list[q] as int].a,
            m.edges[list[q] as int].b,
        );
    assert(m.edge_at(list[p], v as usize));
    assert(m.edge_at(list[q], v as usize));
    let i = list[p] as int;
    let j = list[q] as int;
    assert(m.edges[i].connects(m.edges[j].a, m.edges[j].b));
}

/// Where every edge is listed on both its ends and no vertex lists two
/// different edges with the same ends, the model has no two edges with the
/// same ends.
proof fn lemma_unique_everywhere<P>(m: ModelView<P>)
    requires
        m.edges.len() <= usize::MAX,
        forall|e: int| 0 <= e < m.edges.len() ==> #[trigger] m.edge_ok(e),
        forall|v: int| 0 <= v < m.arena.len() ==> #[trigger] m.unique_at(v),
    ensures
        m.edges_unique(),
{
    assert forall|i: int, j: int|
        0 <= i < m.edges.len() && 0 <= j < m.edges.len() && (#[trigger] m.edges[i]).connects(
            (#[trigger] m.edges[j]).a,
            m.edges[j].b,
        ) implies i == j by {
        assert(m.edge_ok(i));
        assert(m.edge_ok(j));
        let v = m.edges[i].a;
        let list = m.arena[v as int].edges;
        assert(m.unique_at(v as int));
        assert(list.contains(i as usize));
        assert(list.contains(j as usize));
        let p = choose|p: int| 0 <= p < list.len() && list[p] == i as usize;
        let q = choose|q: int| 0 <= q < list.len() && list[q] == j as usize;
        if i != j {
            assert(list[p] != list[q]);
            assert(m.edges[list[p] as int].connects(
                m.edges[list[q] as int].a,
                m.edges[list[q] as int].b,
            ));
        }
    }
}

impl<P> Model<P> {
    fn check_ids(&self) -> (ok: bool)
        ensures
            ok == self@.ids_in_order(),
    {
        assert(self@.arena.len() == self.arena.len());
        assert(self@.edges.len() == self.edges.len());
        assert(self@.triangles.len() == self.triangles.len());
        let mut i: usize = 0;
        while i < self.arena.len()
            invariant
                0 <= i <= self.arena.len(),
                forall|j: int| 0 <= j < i ==> (#[trigger] self@.arena[j]).id == j,
            decreases self.arena.len() - i,
        {
            if self.arena[i].id != i {
                assert(self@.arena[i as int].id != i);
                return false;
            }
            i += 1;
        }
        let mut i: usize = 0;
        while i < self.edges.len()
            invariant
                0 <= i <= self.edges.len(),
                forall|j: int| 0 <= j < i ==> (#[trigger] self@.edges[j]).id == j,
            decreases self.edges.len() - i,
        {
            if self.edges[i].id != i {
                assert(self@.edges[i as int].id != i);
                return false;
            }
            i += 1;
        }
        let mut i: usize = 0;
        while i < self.triangles.len()
            invariant
                0 <= i <= self.triangles.len(),
                forall|j: int| 0 <= j < i ==> (#[trigger] self@.triangles[j]).id == j,
            decreases self.triangles.len() - i,
        {
            if self.triangles[i].id != i {
                assert(self@.triangles[i as int].id != i);
                return false;
            }
            i += 1;
        }
        true
    }

    fn check_registry(&self) -> (ok: bool)
        ensures
            ok == (self@.registry_ok() && self@.registered_used()),
    {
        let keys = index_map_keys(&self.vertices);
        assert(self@.arena.len() == self.arena.len());
        let mut k: usize = 0;
        while k < keys.len()
            invariant
                0 <= k <= keys.len(),
                self@.arena.len() == self.arena.len(),
                forall|key: usize| keys@.contains(key) <==> self@.vertices.contains_key(key),
                forall|i: int|
                    0 <= i < k ==> {
                        let id = #[trigger] keys@[i];
                        &&& self@.has_vertex(id)
                        &&& self@.vertices[id] == id
                        &&& self@.arena[id as int].triangles.len() > 0
                    },
            decreases keys.len() - k,
        {
            let id = keys[k];
            assert(keys@.contains(keys@[k as int]));
            assert(self@.vertices.contains_key(id));
            if id >= self.arena.len() {
                return false;
            }
            match index_map_get(&self.vertices, id) {
                Some(value) => {
                    if value != id {
                        return false;
                    }
                },
                None => {
                    return false;
                },
            }
            if self.arena[id].triangles.len() == 0 {
                assert(self@.arena[id as int].triangles.len() == 0);
                return false;
            }
            k += 1;
        }
        proof {
            assert forall|id: usize| #[trigger] self@.vertices.contains_key(id) implies self@.has_vertex(
                id,
            ) && self@.vertices[id] == id && self@.arena[id as int].triangles.len() > 0 by {
                assert(keys@.contains(id));
                let i = choose|i: int| 0 <= i < keys@.len() && keys@[i] == id;
                assert(keys@[i] == id);
            }
        }
        true
    }

    fn check_vertex(&self, v: usize) -> (ok: bool)
        requires
            v < self.arena.len(),
        ensures
            ok == self@.vertex_ok(v as int),
    {
        let vertex = &self.arena[v];
        assert(vertex@ == self@.arena[v as int]);
        assert(self@.edges.len() == self.edges.len());
        assert(self@.triangles.len() == self.triangles.len());
        let mut k: usize = 0;
        while k < vertex.edges.len()
            invariant
                0 <= k <= vertex.edges.len(),
                vertex@ == self@.arena[v as int],
                self@.edges.len() == self.edges.len(),
                forall|i: int| 0 <= i < k ==> self@.edge_at(#[trigger] vertex@.edges[i], v),
            decreases vertex.edges.len() - k,
        {
            let e = vertex.edges[k];
            if e >= self.edges.len() {
                assert(!self@.edge_at(vertex@.edges[k as int], v));
                return false;
            }
            assert(self.edges[e as int]@ == self@.edges[e as int]);
            if !self.edges[e].has(v) {
                assert(!self@.edge_at(vertex@.edges[k as int], v));
                return false;
            }
            k += 1;
        }
        let mut k: usize = 0;
        while k < vertex.triangles.len()
            invariant
                0 <= k <= vertex.triangles.len(),
                vertex@ == self@.arena[v as int],
                self@.triangles.len() == self.triangles.len(),
                forall|i: int| 0 <= i < vertex@.edges.len() ==> self@.edge_at(#[trigger] vertex@.edges[i], v),
                forall|i: int| 0 <= i < k ==> self@.corner_of(v, #[trigger] vertex@.triangles[i]),
            decreases vertex.triangles.len() - k,
        {
            let t = vertex.triangles[k];
            if t >= self.triangles.len() {
                assert(!self@.corner_of(v, vertex@.triangles[k as int]));
                return false;
            }
            let tri = self.triangles[t];
            if !(tri.v0 == v || tri.v1 == v || tri.v2 == v) {
                assert(!self@.corner_of(v, vertex@.triangles[k as int]));
                return false;
            }
            k += 1;
        }
        true
    }

    fn check_edge(&self, e: usize) -> (ok: bool)
        requires
            e < self.edges.len(),
        ensures
            ok == self@.edge_ok(e as int),
    {
        let edge = &self.edges[e];
        assert(edge@ == self@.edges[e as int]);
        assert(self@.arena.len() == self.arena.len());
        assert(self@.triangles.len() == self.triangles.len());
        if edge.a >= self.arena.len() || edge.b >= self.arena.len() {
            return false;
        }
        assert(self.arena[edge.a as int]@ == self@.arena[edge.a as int]);
        assert(self.arena[edge.b as int]@ == self@.arena[edge.b as int]);
        if !list_contains(&self.arena[edge.a].edges, e) {
            return false;
        }
        if !list_contains(&self.arena[edge.b].edges, e) {
            return false;
        }
        let mut k: usize = 0;
        while k < edge.triangles.len()
            invariant
                0 <= k <= edge.triangles.len(),
                edge@ == self@.edges[e as int],
                self@.triangles.len() == self.triangles.len(),
                forall|i: int| 0 <= i < k ==> self@.side_of(e, #[trigger] edge@.triangles[i]),
            decreases edge.triangles.len() - k,
        {
            let t = edge.triangles[k];
            if t >= self.triangles.len() {
                assert(!self@.side_of(e, edge@.triangles[k as int]));
                return false;
            }
            let tri = self.triangles[t];
            if !(tri.e0 == e || tri.e1 == e || tri.e2 == e) {
                assert(!self@.side_of(e, edge@.triangles[k as int]));
                return false;
            }
            k += 1;
        }
        true
    }

    /// True if `edge` names an edge of the model between `v0` and `v1`.
    fn joins(&self, edge: usize, v0: usize, v1: usize) -> (ok: bool)
        ensures
            ok == self@.joins(edge, v0, v1),
    {
        assert(self@.edges.len() == self.edges.len());
        if edge >= self.edges.len() {
            return false;
        }
        assert(self.edges[edge as int]@ == self@.edges[edge as int]);
        self.edges[edge].connects(v0, v1)
    }

    /// True if `vertex` is a vertex of the mesh that lists `triangle`.
    fn corner_listed(&self, vertex: usize, triangle: usize) -> (ok: bool)
        ensures
            ok == (self@.has_vertex(vertex) && self@.vertices.contains_key(vertex)
                && self@.arena[vertex as int].triangles.contains(triangle)),
    {
        assert(self@.arena.len() == self.arena.len());
        if vertex >= self.arena.len() {
            return false;
        }
        assert(self.arena[vertex as int]@ == self@.arena[vertex as int]);
        index_map_get(&self.vertices, vertex).is_some() && list_contains(
            &self.arena[vertex].triangles,
            triangle,
        )
    }

    /// True if `edge` joins `v0` and `v1` and lists `triangle`.
    fn side_listed(&self, edge: usize, v0: usize, v1: usize, triangle: usize) -> (ok: bool)
        ensures
            ok == (self@.joins(edge, v0, v1) && self@.edges[edge as int].triangles.contains(
                triangle,
            )),
    {
        if !self.joins(edge, v0, v1) {
            return false;
        }
        assert(self.edges[edge as int]@ == self@.edges[edge as int]);
        list_contains(&self.edges[edge].triangles, triangle)
    }

    fn check_triangle(&self, t: usize) -> (ok: bool)
        requires
            t < self.triangles.len(),
        ensures
            ok == self@.triangle_ok(t as int),
    {
        let tri = self.triangles[t];
        self.corner_listed(tri.v0, t) && self.corner_listed(tri.v1, t) && self.corner_listed(
            tri.v2,
            t,
        ) && self.side_listed(tri.e0, tri.v0, tri.v1, t) && self.side_listed(
            tri.e1,
            tri.v1,
            tri.v2,
            t,
        ) && self.side_listed(tri.e2, tri.v2, tri.v0, t)
    }

    fn check_unique_at(&self, v: usize) -> (ok: bool)
        requires
            v < self.arena.len(),
            self@.vertex_ok(v as int),
        ensures
            ok == self@.unique_at(v as int),
    {
        let list = &self.arena[v].edges;
        assert(list@ == self@.arena[v as int].edges);
        assert(self@.edges.len() == self.edges.len());
        let mut p: usize = 0;
        while p < list.len()
            invariant
                0 <= p <= list.len(),
                list@ == self@.arena[v as int].edges,
                self@.vertex_ok(v as int),
                self@.edges.len() == self.edges.len(),
                forall|i: int, j: int|
                    0 <= i < p && 0 <= j < list@.len() && #[trigger] list@[i] != #[trigger] list@[j]
                        ==> !self@.edges[list@[i] as int].connects(
                        self@.edges[list@[j] as int].a,
                        self@.edges[list@[j] as int].b,
                    ),
            decreases list.len() - p,
        {
            let first = list[p];
            assert(self@.edge_at(list@[p as int], v));
            assert(self.edges[first as int]@ == self@.edges[first as int]);
            let mut q: usize = 0;
            while q < list.len()
                invariant
                    0 <= q <= list.len(),
                    0 <= p < list.len(),
                    first == list@[p as int],
                    first < self.edges.len(),
                    self.edges[first as int]@ == self@.edges[first as int],
                    list@ == self@.arena[v as int].edges,
                    self@.vertex_ok(v as int),
                    self@.edges.len() == self.edges.len(),
                    forall|j: int|
                        0 <= j < q && list@[p as int] != #[trigger] list@[j]
                            ==> !self@.edges[first as int].connects(
                            self@.edges[list@[j] as int].a,
                            self@.edges[list@[j] as int].b,
                        ),
                decreases list.len() - q,
            {
                let second = list[q];
                assert(self@.edge_at(list@[q as int], v));
                assert(self.edges[second as int]@ == self@.edges[second as int]);
                if first != second && self.edges[first].connects(
                    self.edges[second].a,
                    self.edges[second].b,
                ) {
                    assert(list@[p as int] != list@[q as int]);
                    return false;
                }
                q += 1;
            }
            p += 1;
        }
        true
    }

    /// Tells whether the model is consistent: whether every reference in it
    /// resolves, adjacency is recorded on both sides, no two edges have the
    /// same two ends, and the vertices of the mesh are the corners of its
    /// triangles.
    pub fn is_consistent(&self) -> (ok: bool)
        ensures
            ok == self@.wf(),
    {
        assert(self@.arena.len() == self.arena.len());
        assert(self@.edges.len() == self.edges.len());
        assert(self@.triangles.len() == self.triangles.len());
        if !self.check_ids() || !self.check_registry() {
            return false;
        }
        let mut v: usize = 0;
        while v < self.arena.len()
            invariant
                0 <= v <= self.arena.len(),
                self@.arena.len() == self.arena.len(),
                forall|i: int| 0 <= i < v ==> #[trigger] self@.vertex_ok(i),
            decreases self.arena.len() - v,
        {
            if !self.check_vertex(v) {
                return false;
            }
            v += 1;
        }
        let mut e: usize = 0;
        while e < self.edges.len()
            invariant
                0 <= e <= self.edges.len(),
                self@.edges.len() == self.edges.len(),
                forall|i: int| 0 <= i < e ==> #[trigger] self@.edge_ok(i),
            decreases self.edges.len() - e,
        {
            if !self.check_edge(e) {
                return false;
            }
            e += 1;
        }
        let mut t: usize = 0;
        while t < self.triangles.len()
            invariant
                0 <= t <= self.triangles.len(),
                self@.triangles.len() == self.triangles.len(),
                forall|i: int| 0 <= i < t ==> #[trigger] self@.triangle_ok(i),
            decreases self.triangles.len() - t,
        {
            if !self.check_triangle(t) {
                return false;
            }
            t += 1;
        }
        let mut v: usize = 0;
        while v < self.arena.len()
            invariant
                0 <= v <= self.arena.len(),
                self@.arena.len() == self.arena.len(),
                forall|i: int| 0 <= i < self@.arena.len() ==> #[trigger] self@.vertex_ok(i),
                forall|i: int| 0 <= i < v ==> #[trigger] self@.unique_at(i),
            decreases self.arena.len() - v,
        {
            if !self.check_unique_at(v) {
                proof {
                    lemma_clash_breaks_uniqueness(self@, v as int);
                }
                return false;
            }
            v += 1;
        }
        proof {
            lemma_unique_everywhere(self@);
        }
        true
    }
}

} // verus!
