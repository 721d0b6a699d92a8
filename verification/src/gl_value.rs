//! Numeric values of the OpenGL enumerants this engine passes to the
//! graphics layer. The values are fixed by the OpenGL registry; the
//! test suite checks each one against the GL bindings the outer layer
//! links.

use vstd::prelude::*;

verus! {

// Buffer binding targets.
pub const ARRAY_BUFFER: u32 = 0x8892;
pub const ELEMENT_ARRAY_BUFFER: u32 = 0x8893;
pub const UNIFORM_BUFFER: u32 = 0x8A11;
pub const SHADER_STORAGE_BUFFER: u32 = 0x90D2;

// Buffer usage hints.
pub const STREAM_DRAW: u32 = 0x88E0;
pub const STATIC_DRAW: u32 = 0x88E4;
pub const DYNAMIC_DRAW: u32 = 0x88E8;

// Texture filtering and wrapping.
pub const LINEAR: u32 = 0x2601;
pub const LINEAR_MIPMAP_LINEAR: u32 = 0x2703;
pub const REPEAT: u32 = 0x2901;

// Internal formats for texture storage.
pub const RGB8: u32 = 0x8051;
pub const RGBA8: u32 = 0x8058;
pub const SRGB8: u32 = 0x8C41;
pub const SRGB8_ALPHA8: u32 = 0x8C43;

// Pixel data formats.
pub const RED: u32 = 0x1903;
pub const RG: u32 = 0x8227;
pub const RGB: u32 = 0x1907;
pub const RGBA: u32 = 0x1908;

// The first texture unit; unit `n` is `TEXTURE0 + n`.
pub const TEXTURE0: u32 = 0x84C0;

} // verus!
