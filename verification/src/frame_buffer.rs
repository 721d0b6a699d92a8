//! Off-screen render target record. The framebuffer, its colour
//! texture and its depth renderbuffer are created by the outer layer
//! with GL calls; this record keeps their names together.

use vstd::prelude::*;

verus! {

/// The three GL names that make up one off-screen render target.
pub struct Framebuffer {
    id: u32,
    screen_buffer_id: u32,
    depth_buffer_id: u32,
}

impl Framebuffer {
    pub closed spec fn spec_id(self) -> u32 {
        self.id
    }

    pub closed spec fn spec_screen_texture_id(self) -> u32 {
        self.screen_buffer_id
    }

    pub closed spec fn spec_depth_buffer_id(self) -> u32 {
        self.depth_buffer_id
    }

    /// Wraps the names of a framebuffer, its colour texture and its
    /// depth renderbuffer as generated by the outer layer.
    pub fn from_raw(id: u32, screen_buffer_id: u32, depth_buffer_id: u32) -> (r: Framebuffer)
        ensures
            r.spec_id() == id,
            r.spec_screen_texture_id() == screen_buffer_id,
            r.spec_depth_buffer_id() == depth_buffer_id,
    {
        Framebuffer { id, screen_buffer_id, depth_buffer_id }
    }

    pub fn id(&self) -> (r: u32)
        ensures
            r == self.spec_id(),
    {
        self.id
    }

    /// The colour texture that a later pass samples the frame from.
    pub fn screen_texture_id(&self) -> (r: u32)
        ensures
            r == self.spec_screen_texture_id(),
    {
        self.screen_buffer_id
    }

    pub fn depth_buffer_id(&self) -> (r: u32)
        ensures
            r == self.spec_depth_buffer_id(),
    {
        self.depth_buffer_id
    }
}

} // verus!
