//! The per-frame draw loop's one piece of state: which shader program
//! is currently bound. Binding a program is a GL call made by the outer
//! layer; this module decides when that call is due.

use vstd::prelude::*;

verus! {

/// Issues draw calls for one frame. Remembers the shader program bound
/// by the previous draw so that a program switch is only requested when
/// the program actually changes.
pub struct Renderer {
    current_shader: Option<u32>,
}

impl Renderer {
    /// The shader program this renderer believes is bound, if any.
    pub closed spec fn bound_shader(self) -> Option<u32> {
        self.current_shader
    }

    /// A fresh renderer has no shader program bound.
    pub fn new() -> (r: Renderer)
        ensures
            r.bound_shader() is None,
    {
        Renderer { current_shader: None }
    }

    /// Called at the start of each object's draw with the program the
    /// object's material wants. Returns whether the outer layer must
    /// bind that program: only when it differs from the one bound.
    pub fn select_shader(&mut self, shader_id: u32) -> (rebind: bool)
        ensures
            final(self).bound_shader() == Some(shader_id),
            rebind == (old(self).bound_shader() != Some(shader_id)),
    {
        let rebind = self.current_shader != Some(shader_id);
        self.current_shader = Some(shader_id);
        rebind
    }

    /// Ends the frame. The bound program carries over into the next
    /// frame, so nothing is reset.
    pub fn end_frame(&mut self)
        ensures
            final(self).bound_shader() == old(self).bound_shader(),
    {
    }
}

} // verus!
