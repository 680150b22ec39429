use vstd::prelude::*;
use crate::edge::{Edge, EdgeView};

verus! {

/// A face of the mesh: three corners in winding order and the three sides
/// between them. `e0` joins `v0` and `v1`, `e1` joins `v1` and `v2`, `e2`
/// joins `v2` and `v0`.
#[derive(Clone, Copy, Debug)]
pub struct Triangle {
    pub id: usize,
    pub v0: usize,
    pub v1: usize,
    pub v2: usize,
    pub e0: usize,
    pub e1: usize,
    pub e2: usize,
}

/// An edge was handed to a triangle that does not have it as a side.
#[derive(Clone, Copy, Debug, PartialEq, Eq, Structural)]
pub struct TopologyMismatch {
    pub triangle: usize,
    pub edge: usize,
}

impl Triangle {
    /// True if `vertex` is one of the three corners.
    pub open spec fn has_corner(self, vertex: usize) -> bool {
        self.v0 == vertex || self.v1 == vertex || self.v2 == vertex
    }

    /// True if the edge with identifier `edge` is one of the three sides.
    pub open spec fn has_side(self, edge: usize) -> bool {
        self.e0 == edge || self.e1 == edge || self.e2 == edge
    }

    /// True if the three corners are three different vertices.
    pub open spec fn is_proper(self) -> bool {
        self.v0 != self.v1 && self.v1 != self.v2 && self.v2 != self.v0
    }

    /// The corner that `edge` does not touch: the first of `v0` and `v1`
    /// that is no end of `edge`, else `v2`.
    pub open spec fn opposite(self, edge: EdgeView) -> usize {
        if !edge.has(self.v0) {
            self.v0
        } else if !edge.has(self.v1) {
            self.v1
        } else {
            self.v2
        }
    }

    pub fn new(
        id: usize,
        v0: usize,
        v1: usize,
        v2: usize,
        e0: usize,
        e1: usize,
        e2: usize,
    ) -> (t: Self)
        ensures
            t.id == id,
            t.v0 == v0,
            t.v1 == v1,
            t.v2 == v2,
            t.e0 == e0,
            t.e1 == e1,
            t.e2 == e2,
    {
        Triangle { id, v0, v1, v2, e0, e1, e2 }
    }

    pub fn v0(&self) -> (v: usize)
        ensures
            v == self.v0,
    {
        self.v0
    }

    pub fn v1(&self) -> (v: usize)
        ensures
            v == self.v1,
    {
        self.v1
    }

    pub fn v2(&self) -> (v: usize)
        ensures
            v == self.v2,
    {
        self.v2
    }

    pub fn e0(&self) -> (e: usize)
        ensures
            e == self.e0,
    {
        self.e0
    }

    pub fn e1(&self) -> (e: usize)
        ensures
            e == self.e1,
    {
        self.e1
    }

    pub fn e2(&self) -> (e: usize)
        ensures
            e == self.e2,
    {
        self.e2
    }

    /// The corner across from `edge`, which the caller knows to be one of
    /// the three sides.
    pub fn get_opposite_vertex(&self, edge: &Edge) -> (v: usize)
        requires
            self.has_side(edge.id),
        ensures
            v == self.opposite(edge@),
            self.has_corner(v),
    {
        if !edge.has(self.v0) {
            self.v0
        } else if !edge.has(self.v1) {
            self.v1
        } else {
            self.v2
        }
    }

    /// The corner across from `edge`, or the mismatch where `edge` is none
    /// of the three sides.
    pub fn try_get_opposite_vertex(&self, edge: &Edge) -> (r: Result<usize, TopologyMismatch>)
        ensures
            self.has_side(edge.id) ==> r == Ok::<usize, TopologyMismatch>(self.opposite(edge@)),
            !self.has_side(edge.id) ==> r == Err::<usize, TopologyMismatch>(
                TopologyMismatch { triangle: self.id, edge: edge.id },
            ),
    {
        if edge.id == self.e0 || edge.id == self.e1 || edge.id == self.e2 {
            Ok(self.get_opposite_vertex(edge))
        } else {
            Err(TopologyMismatch { triangle: self.id, edge: edge.id })
        }
    }
}

/// Triangles are equal when their identifiers are.
impl PartialEq for Triangle {
    fn eq(&self, other: &Self) -> (r: bool) {
        self.id == other.id
    }
}

impl Eq for Triangle {}

/// Equal triangles hash alike: only the identifier is hashed.
impl core::hash::Hash for Triangle {
    fn hash<H: core::hash::Hasher>(&self, state: &mut H) {
        self.id.hash(state)
    }
}

impl vstd::std_specs::cmp::PartialEqSpecImpl for Triangle {
    open spec fn obeys_eq_spec() -> bool {
        true
    }

    open spec fn eq_spec(&self, other: &Self) -> bool {
        self.id == other.id
    }
}

/// In a triangle with three different corners, the corner across from a
/// side that joins two of them is the third: no end of that side.
pub proof fn theorem_opposite_is_the_third_corner(t: Triangle, edge: EdgeView)
    requires
        t.is_proper(),
        edge.connects(t.v0, t.v1) || edge.connects(t.v1, t.v2) || edge.connects(t.v2, t.v0),
    ensures
        !edge.has(t.opposite(edge)),
        edge.connects(t.v0, t.v1) ==> t.opposite(edge) == t.v2,
        edge.connects(t.v1, t.v2) ==> t.opposite(edge) == t.v0,
        edge.connects(t.v2, t.v0) ==> t.opposite(edge) == t.v1,
{
}

} // verus!
