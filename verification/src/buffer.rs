//! GPU buffer records. A buffer object lives on the GPU; the outer
//! layer creates it with a GL call and hands the resulting name (id)
//! to this record. The record keeps the id and the binding target the
//! buffer is used with; the target is part of the type.

use vstd::prelude::*;

use crate::gl_value::ARRAY_BUFFER;
use crate::gl_value::DYNAMIC_DRAW;
use crate::gl_value::ELEMENT_ARRAY_BUFFER;
use crate::gl_value::SHADER_STORAGE_BUFFER;
use crate::gl_value::STATIC_DRAW;
use crate::gl_value::STREAM_DRAW;
use crate::gl_value::UNIFORM_BUFFER;

verus! {

/// How often a buffer's contents are expected to change; passed to the
/// GL when the buffer's storage is allocated.
#[derive(Copy, Clone, Debug)]
pub enum BufferUsage {
    StaticDraw,
    DynamicDraw,
    StreamDraw,
}

impl BufferUsage {
    /// The GL enumerant for this usage hint.
    pub fn to_gl(self) -> (r: u32)
        ensures
            r == match self {
                BufferUsage::StaticDraw => STATIC_DRAW,
                BufferUsage::DynamicDraw => DYNAMIC_DRAW,
                BufferUsage::StreamDraw => STREAM_DRAW,
            },
    {
        match self {
            BufferUsage::StaticDraw => STATIC_DRAW,
            BufferUsage::DynamicDraw => DYNAMIC_DRAW,
            BufferUsage::StreamDraw => STREAM_DRAW,
        }
    }
}

/// A GPU buffer name together with the target it is bound to.
pub struct Buffer<const TARGET: u32> {
    id: u32,
}

impl<const TARGET: u32> Buffer<TARGET> {
    /// The buffer's GL name.
    pub closed spec fn spec_id(self) -> u32 {
        self.id
    }

    /// Wraps the name of a buffer the outer layer generated.
    pub fn from_raw(id: u32) -> (r: Buffer<TARGET>)
        ensures
            r.spec_id() == id,
    {
        Buffer { id }
    }

    pub fn id(&self) -> (r: u32)
        ensures
            r == self.spec_id(),
    {
        self.id
    }

    /// The target this buffer binds to.
    pub fn target(&self) -> (r: u32)
        ensures
            r == TARGET,
    {
        TARGET
    }

    /// Byte count of a slice of `count` elements of `elem_size` bytes
    /// each, as handed to the GL when the buffer is filled.
    pub fn byte_len(count: usize, elem_size: usize) -> (r: usize)
        requires
            count * elem_size <= usize::MAX,
        ensures
            r == count * elem_size,
    {
        count * elem_size
    }
}

/// Vertex buffer.
pub type VBO = Buffer<ARRAY_BUFFER>;

/// Element (index) buffer.
pub type EBO = Buffer<ELEMENT_ARRAY_BUFFER>;

/// Uniform buffer.
pub type UBO = Buffer<UNIFORM_BUFFER>;

/// Shader storage buffer.
pub type SSBO = Buffer<SHADER_STORAGE_BUFFER>;

} // verus!
