//! Vertex array object record, and the arithmetic behind declaring a
//! vertex attribute: the GL wants stride and offset in bytes, while a
//! vertex layout counts in floats.

use vstd::prelude::*;

verus! {

/// Number of bytes in one single-precision float attribute component.
pub const FLOAT_BYTES: usize = 4;

/// A GL vertex array object name.
pub struct VAO {
    id: u32,
}

impl VAO {
    pub closed spec fn spec_id(self) -> u32 {
        self.id
    }

    /// Wraps the name of a vertex array the outer layer generated.
    pub fn from_raw(id: u32) -> (r: VAO)
        ensures
            r.spec_id() == id,
    {
        VAO { id }
    }

    pub fn id(&self) -> (r: u32)
        ensures
            r == self.spec_id(),
    {
        self.id
    }

    /// Converts a stride and an offset counted in floats — as a vertex
    /// layout states them — into the byte values an attribute pointer
    /// declaration passes to the GL.
    pub fn attrib_byte_layout(stride: usize, offset: usize) -> (r: (usize, usize))
        requires
            stride * FLOAT_BYTES <= usize::MAX,
            offset * FLOAT_BYTES <= usize::MAX,
        ensures
            r.0 == stride * FLOAT_BYTES,
            r.1 == offset * FLOAT_BYTES,
    {
        (stride * FLOAT_BYTES, offset * FLOAT_BYTES)
    }
}

} // verus!
