use vstd::prelude::*;

verus! {

/// A side shared by the triangles listed in `triangles`, between the
/// vertices `a` and `b`. The two ends are unordered in meaning and stored in
/// fixed slots.
#[derive(Clone, Debug)]
pub struct Edge {
    pub id: usize,
    pub a: usize,
    pub b: usize,
    pub triangles: Vec<usize>,
}

/// The mathematical value of an [`Edge`].
pub struct EdgeView {
    pub id: usize,
    pub a: usize,
    pub b: usize,
    pub triangles: Seq<usize>,
}

impl View for Edge {
    type V = EdgeView;

    open spec fn view(&self) -> EdgeView {
        EdgeView { id: self.id, a: self.a, b: self.b, triangles: self.triangles@ }
    }
}

impl EdgeView {
    /// An edge between `a` and `b` that belongs to no triangle yet.
    pub open spec fn bare(id: usize, a: usize, b: usize) -> Self {
        EdgeView { id, a, b, triangles: Seq::empty() }
    }

    /// True if `vertex` is one of the two ends.
    pub open spec fn has(self, vertex: usize) -> bool {
        self.a == vertex || self.b == vertex
    }

    /// True if the two ends are `v0` and `v1`, in either order.
    pub open spec fn connects(self, v0: usize, v1: usize) -> bool {
        (self.a == v0 && self.b == v1) || (self.a == v1 && self.b == v0)
    }

    /// The end that is not `vertex`, for a `vertex` that is an end.
    pub open spec fn other_vertex(self, vertex: usize) -> usize {
        if self.a == vertex {
            self.b
        } else {
            self.a
        }
    }

    /// An edge is interior when exactly two triangles share it. With any
    /// other number of triangles, none included, it is a boundary edge.
    pub open spec fn is_boundary(self) -> bool {
        self.triangles.len() != 2
    }

    pub open spec fn add_triangle(self, triangle: usize) -> Self {
        EdgeView { triangles: self.triangles.push(triangle), ..self }
    }
}

impl Edge {
    pub fn new(id: usize, a: usize, b: usize) -> (e: Self)
        ensures
            e@ == EdgeView::bare(id, a, b),
    {
        Edge { id, a, b, triangles: Vec::new() }
    }

    pub fn a(&self) -> (v: usize)
        ensures
            v == self.a,
    {
        self.a
    }

    pub fn b(&self) -> (v: usize)
        ensures
            v == self.b,
    {
        self.b
    }

    /// Records one more incident triangle, after those already there.
    pub fn add_triangle(&mut self, triangle: usize)
        ensures
            final(self)@ == old(self)@.add_triangle(triangle),
    {
        self.triangles.push(triangle);
    }

    pub fn has(&self, vertex: usize) -> (r: bool)
        ensures
            r == self@.has(vertex),
    {
        self.a == vertex || self.b == vertex
    }

    pub fn connects(&self, v0: usize, v1: usize) -> (r: bool)
        ensures
            r == self@.connects(v0, v1),
    {
        (self.a == v0 && self.b == v1) || (self.a == v1 && self.b == v0)
    }

    /// The end opposite to `vertex`, which the caller knows to be an end.
    pub fn get_other_vertex(&self, vertex: usize) -> (v: usize)
        requires
            self@.has(vertex),
        ensures
            v == self@.other_vertex(vertex),
            self@.connects(vertex, v),
    {
        if self.a == vertex {
            self.b
        } else {
            self.a
        }
    }

    pub fn is_boundary(&self) -> (r: bool)
        ensures
            r == self@.is_boundary(),
    {
        self.triangles.len() != 2
    }
}

/// Edges are equal when their identifiers are.
impl PartialEq for Edge {
    fn eq(&self, other: &Self) -> (r: bool) {
        self.id == other.id
    }
}

impl Eq for Edge {}

/// Equal edges hash alike: only the identifier is hashed.
impl core::hash::Hash for Edge {
    fn hash<H: core::hash::Hasher>(&self, state: &mut H) {
        self.id.hash(state)
    }
}

impl vstd::std_specs::cmp::PartialEqSpecImpl for Edge {
    open spec fn obeys_eq_spec() -> bool {
        true
    }

    open spec fn eq_spec(&self, other: &Self) -> bool {
        self.id == other.id
    }
}

} // verus!
