//! CPU-side core of a small real-time rendering engine: resource
//! records, mesh index generation, OBJ model parsing, format decoding
//! and the caching decisions of an immediate-mode render pass.
//!
//! The engine's other half — window creation, the GL calls themselves
//! and the floating-point vector math — cannot be verified and lives
//! outside this crate. Everything here is plain verified logic; the
//! contracts state exactly what each decision hands that outer layer.

pub mod buffer;
pub mod frame_buffer;
pub mod gl_value;
pub mod input_state;
pub mod mesh;
pub mod mesh_data;
pub mod renderer;
pub mod runtime;
pub mod shader;
pub mod texture;
pub mod vertex;
pub mod vertex_array;

pub use buffer::Buffer;
pub use mesh::load_from_obj;
pub use mesh_data::MeshData;
pub use renderer::Renderer;
pub use runtime::AppConfig;
pub use runtime::AppControl;
pub use shader::Shader;
pub use texture::Texture;
