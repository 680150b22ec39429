//! Triangle meshes with full adjacency, and Loop subdivision of them.
//!
//! A [`Model`] owns its vertices, edges and triangles; they refer to each
//! other by identifier. The library never looks inside a position: where a
//! new position has to be computed it hands a [`Stencil`], the weighted
//! combination that the subdivision rules prescribe, to a function of the
//! caller.

pub mod consistency;
pub mod counting;
pub mod edge;
pub mod identity;
pub mod index_map;
pub mod model;
pub mod stencil;
pub mod subdiv_surface;
pub mod theorems;
pub mod triangle;
pub mod validate;
pub mod vertex;

pub use crate::edge::{Edge, EdgeView};
pub use crate::model::{Model, ModelView, StaleReference};
pub use crate::stencil::{Stencil, Weight};
pub use crate::subdiv_surface::subdivide_once;
pub use crate::triangle::{TopologyMismatch, Triangle};
pub use crate::vertex::{Vertex, VertexView};
