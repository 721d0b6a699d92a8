//! The engine's CPU-side state: renderer shader cache, input
//! tracking, shader uniform cache, and the resource records.

use bun::buffer::{Buffer, BufferUsage, EBO, UBO, VBO};
use bun::frame_buffer::Framebuffer;
use bun::input_state::InputState;
use bun::renderer::Renderer;
use bun::runtime::AppConfig;
use bun::shader::Shader;
use bun::texture::{pixel_format, Texture, TextureSpec};
use bun::vertex_array::VAO;

#[test]
fn renderer_rebinds_only_on_program_change() {
    let mut r = Renderer::new();
    assert!(r.select_shader(7));
    assert!(!r.select_shader(7));
    r.end_frame();
    assert!(!r.select_shader(7));
    assert!(r.select_shader(9));
}

#[test]
fn input_tracks_held_keys() {
    let mut input = InputState::new();
    let w = 26;
    let a = 4;
    assert!(!input.is_down(w));
    input.key_down(w);
    assert!(input.is_down(w));
    input.key_down(w);
    input.key_down(a);
    assert!(input.is_down(a));
    assert_eq!(input.pressed_keys().len(), 2);
    input.key_up(w);
    assert!(!input.is_down(w));
    assert!(input.is_down(a));
    input.key_up(w);
    assert_eq!(input.pressed_keys(), &vec![a]);
}

#[test]
fn shader_uniform_cache() {
    let mut s = Shader::from_source(3);
    assert_eq!(s.id(), 3);
    assert!(!s.can_reload());
    assert_eq!(s.cached_location("model_mat"), None);
    // the GL reported the uniform missing: not cached
    assert_eq!(s.note_location("model_mat", -1), None);
    assert_eq!(s.cached_location("model_mat"), None);
    // a real location is cached
    assert_eq!(s.note_location("model_mat", 4), Some(4));
    assert_eq!(s.cached_location("model_mat"), Some(4));
    assert_eq!(s.note_location("view_mat", 8), Some(8));
    assert_eq!(s.cached_location("model_mat"), Some(4));
    assert_eq!(s.cached_location("view_mat"), Some(8));
}

#[test]
fn shader_reload_resets_cache() {
    let mut s = Shader::new(3, String::from("a.vert"), String::from("a.frag"));
    assert!(s.can_reload());
    assert_eq!(s.vertex_path().as_deref(), Some("a.vert"));
    assert_eq!(s.fragment_path().as_deref(), Some("a.frag"));
    s.note_location("tint", 2);
    s.adopt_program(11);
    assert_eq!(s.id(), 11);
    assert_eq!(s.cached_location("tint"), None);
    assert!(s.can_reload());
}

#[test]
fn buffer_records() {
    let vbo: VBO = Buffer::from_raw(5);
    assert_eq!(vbo.id(), 5);
    assert_eq!(vbo.target(), gl::ARRAY_BUFFER);
    let ebo: EBO = Buffer::from_raw(6);
    assert_eq!(ebo.target(), gl::ELEMENT_ARRAY_BUFFER);
    let ubo: UBO = Buffer::from_raw(7);
    assert_eq!(ubo.target(), gl::UNIFORM_BUFFER);
    assert_eq!(VBO::byte_len(10, 4), 40);
    assert_eq!(BufferUsage::StaticDraw.to_gl(), gl::STATIC_DRAW);
    assert_eq!(BufferUsage::DynamicDraw.to_gl(), gl::DYNAMIC_DRAW);
    assert_eq!(BufferUsage::StreamDraw.to_gl(), gl::STREAM_DRAW);
}

#[test]
fn framebuffer_and_vao_records() {
    let fb = Framebuffer::from_raw(1, 2, 3);
    assert_eq!(fb.id(), 1);
    assert_eq!(fb.screen_texture_id(), 2);
    assert_eq!(fb.depth_buffer_id(), 3);
    let vao = VAO::from_raw(9);
    assert_eq!(vao.id(), 9);
    // a stride of 11 floats and an offset of 8 floats, in bytes
    assert_eq!(VAO::attrib_byte_layout(11, 8), (44, 32));
}

#[test]
fn empty_texture_uploads_zeroed_rgba() {
    let (t, img) = Texture::empty(4, 2, 17);
    assert_eq!(t.id(), 17);
    assert_eq!(t.width(), 4);
    assert_eq!(t.height(), 2);
    assert_eq!(img.width, 4);
    assert_eq!(img.height, 2);
    assert_eq!(img.channels, 4);
    assert_eq!(img.data.len(), 4 * 2 * 4);
    assert!(img.data.iter().all(|b| *b == 0));
}

#[test]
fn texture_units() {
    assert_eq!(Texture::unit_enum(0), Some(gl::TEXTURE0));
    assert_eq!(Texture::unit_enum(5), Some(gl::TEXTURE5));
    assert_eq!(Texture::unit_enum(31), Some(gl::TEXTURE31));
    assert_eq!(Texture::unit_enum(32), None);
}

#[test]
fn texture_formats() {
    assert_eq!(pixel_format(1), gl::RED);
    assert_eq!(pixel_format(2), gl::RG);
    assert_eq!(pixel_format(3), gl::RGB);
    assert_eq!(pixel_format(4), gl::RGBA);
    assert_eq!(TextureSpec::albedo().internal_format(true), gl::SRGB8_ALPHA8);
    assert_eq!(TextureSpec::albedo().internal_format(false), gl::SRGB8);
    assert_eq!(TextureSpec::emissive().internal_format(true), gl::SRGB8_ALPHA8);
    assert_eq!(TextureSpec::normal().internal_format(true), gl::RGBA8);
    assert_eq!(TextureSpec::normal().internal_format(false), gl::RGB8);
    assert_eq!(TextureSpec::data().internal_format(true), gl::RGBA8);
    let spec = TextureSpec::albedo();
    assert_eq!(spec.min_filter, gl::LINEAR_MIPMAP_LINEAR);
    assert_eq!(spec.mag_filter, gl::LINEAR);
    assert_eq!(spec.wrap_s, gl::REPEAT);
    assert_eq!(spec.wrap_t, gl::REPEAT);
    assert!(spec.generate_mipmaps);
}

#[test]
fn default_app_config() {
    let config = AppConfig::default();
    assert_eq!(config.width, 1280);
    assert_eq!(config.height, 720);
    assert_eq!(config.title, "bun app");
    assert_eq!(config.max_fps, Some(60));
}
