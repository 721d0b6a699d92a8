//! The GL enumerant values the library states, held against the GL
//! bindings the outer layer links.

use bun::gl_value;

#[test]
fn buffer_targets_match_gl() {
    assert_eq!(gl_value::ARRAY_BUFFER, gl::ARRAY_BUFFER);
    assert_eq!(gl_value::ELEMENT_ARRAY_BUFFER, gl::ELEMENT_ARRAY_BUFFER);
    assert_eq!(gl_value::UNIFORM_BUFFER, gl::UNIFORM_BUFFER);
    assert_eq!(gl_value::SHADER_STORAGE_BUFFER, gl::SHADER_STORAGE_BUFFER);
}

#[test]
fn usage_hints_match_gl() {
    assert_eq!(gl_value::STREAM_DRAW, gl::STREAM_DRAW);
    assert_eq!(gl_value::STATIC_DRAW, gl::STATIC_DRAW);
    assert_eq!(gl_value::DYNAMIC_DRAW, gl::DYNAMIC_DRAW);
}

#[test]
fn sampling_values_match_gl() {
    assert_eq!(gl_value::LINEAR, gl::LINEAR);
    assert_eq!(gl_value::LINEAR_MIPMAP_LINEAR, gl::LINEAR_MIPMAP_LINEAR);
    assert_eq!(gl_value::REPEAT, gl::REPEAT);
}

#[test]
fn internal_formats_match_gl() {
    assert_eq!(gl_value::RGB8, gl::RGB8);
    assert_eq!(gl_value::RGBA8, gl::RGBA8);
    assert_eq!(gl_value::SRGB8, gl::SRGB8);
    assert_eq!(gl_value::SRGB8_ALPHA8, gl::SRGB8_ALPHA8);
}

#[test]
fn pixel_formats_match_gl() {
    assert_eq!(gl_value::RED, gl::RED);
    assert_eq!(gl_value::RG, gl::RG);
    assert_eq!(gl_value::RGB, gl::RGB);
    assert_eq!(gl_value::RGBA, gl::RGBA);
}

#[test]
fn texture_unit_base_matches_gl() {
    assert_eq!(gl_value::TEXTURE0, gl::TEXTURE0);
}
