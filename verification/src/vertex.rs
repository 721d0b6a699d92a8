//! The layout contract between a vertex type and the vertex arrays
//! that carry it. The vertex types themselves hold floating-point
//! components and live in the outer layer; they reach this crate only
//! through this trait and as type parameters of mesh data.

use vstd::prelude::*;

use crate::vertex_array::VAO;

verus! {

/// Implemented by a vertex type to declare its attribute layout on a
/// vertex array. The implementation makes GL attribute-pointer calls,
/// so it lives with the vertex types in the outer layer.
pub trait VertexLayout {
    fn setup_attributes(vao: &VAO);
}

} // verus!
