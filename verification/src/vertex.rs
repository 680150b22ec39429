use vstd::prelude::*;

verus! {

/// A point of the mesh, with the edges and triangles that meet in it.
///
/// `edges` and `triangles` hold identifiers of entities of the model that
/// owns the vertex. `index` is a lineage mark that subdivision hands on
/// unchanged.
#[derive(Clone, Debug)]
pub struct Vertex<P> {
    pub id: usize,
    pub position: P,
    pub edges: Vec<usize>,
    pub triangles: Vec<usize>,
    pub index: Option<usize>,
}

/// The mathematical value of a [`Vertex`].
pub struct VertexView<P> {
    pub id: usize,
    pub position: P,
    pub edges: Seq<usize>,
    pub triangles: Seq<usize>,
    pub index: Option<usize>,
}

impl<P> View for Vertex<P> {
    type V = VertexView<P>;

    open spec fn view(&self) -> VertexView<P> {
        VertexView {
            id: self.id,
            position: self.position,
            edges: self.edges@,
            triangles: self.triangles@,
            index: self.index,
        }
    }
}

impl<P> VertexView<P> {
    /// A vertex that no edge and no triangle touches yet.
    pub open spec fn bare(id: usize, position: P, index: Option<usize>) -> Self {
        VertexView { id, position, edges: Seq::empty(), triangles: Seq::empty(), index }
    }

    /// True if no edge and no triangle is recorded on the vertex.
    pub open spec fn is_bare(self) -> bool {
        self.edges == Seq::<usize>::empty() && self.triangles == Seq::<usize>::empty()
    }

    /// True if `other` has the same identifier, position and lineage mark.
    pub open spec fn same_point(self, other: Self) -> bool {
        self.id == other.id && self.position == other.position && self.index == other.index
    }

    pub open spec fn add_edge(self, edge: usize) -> Self {
        VertexView { edges: self.edges.push(edge), ..self }
    }

    pub open spec fn add_triangle(self, triangle: usize) -> Self {
        VertexView { triangles: self.triangles.push(triangle), ..self }
    }
}

impl<P> Vertex<P> {
    /// A vertex without lineage mark and without adjacency.
    pub fn new(id: usize, position: P) -> (v: Self)
        ensures
            v@ == VertexView::bare(id, position, None),
    {
        Vertex { id, position, edges: Vec::new(), triangles: Vec::new(), index: None }
    }

    /// A vertex with the given lineage mark and without adjacency.
    pub fn with_index(id: usize, position: P, index: Option<usize>) -> (v: Self)
        ensures
            v@ == VertexView::bare(id, position, index),
    {
        Vertex { id, position, edges: Vec::new(), triangles: Vec::new(), index }
    }

    /// Records one more incident edge, after those already there.
    pub fn add_edge(&mut self, edge: usize)
        ensures
            final(self)@ == old(self)@.add_edge(edge),
    {
        self.edges.push(edge);
    }

    /// Records one more incident triangle, after those already there.
    pub fn add_triangle(&mut self, triangle: usize)
        ensures
            final(self)@ == old(self)@.add_triangle(triangle),
    {
        self.triangles.push(triangle);
    }
}

/// Vertices are equal when their identifiers are.
impl<P> PartialEq for Vertex<P> {
    fn eq(&self, other: &Self) -> (r: bool) {
        self.id == other.id
    }
}

impl<P> Eq for Vertex<P> {}

/// Equal vertices hash alike: only the identifier is hashed.
impl<P> core::hash::Hash for Vertex<P> {
    fn hash<H: core::hash::Hasher>(&self, state: &mut H) {
        self.id.hash(state)
    }
}

impl<P> vstd::std_specs::cmp::PartialEqSpecImpl for Vertex<P> {
    open spec fn obeys_eq_spec() -> bool {
        true
    }

    open spec fn eq_spec(&self, other: &Self) -> bool {
        self.id == other.id
    }
}

} // verus!
