//! Loading meshes from OBJ text: attribute collection, face
//! resolution, vertex de-duplication, quad triangulation and every
//! error case.

use bun::mesh::{load_from_obj, parse_i32, is_float_token, ObjError, ObjVertex};

fn tokens(v: &[u8]) -> Vec<u8> {
    v.to_vec()
}

fn position_of(vert: &ObjVertex) -> (Vec<u8>, Vec<u8>, Vec<u8>) {
    (vert.v.x.clone(), vert.v.y.clone(), vert.v.z.clone())
}

#[test]
fn single_triangle() {
    let text = b"v 0 0 0\nv 1 0 0\nv 0 1 0\nvt 0 0\nvn 0 0 1\nf 1/1/1 2/1/1 3/1/1\n";
    let (faces, indices) = load_from_obj(text).unwrap();
    assert_eq!(faces.len(), 3);
    assert_eq!(indices, vec![0, 1, 2]);
    assert_eq!(position_of(&faces[0]), (tokens(b"0"), tokens(b"0"), tokens(b"0")));
    assert_eq!(position_of(&faces[1]), (tokens(b"1"), tokens(b"0"), tokens(b"0")));
    assert_eq!(position_of(&faces[2]), (tokens(b"0"), tokens(b"1"), tokens(b"0")));
    assert_eq!(faces[0].vn.z, tokens(b"1"));
    assert_eq!(faces[0].vt.x, tokens(b"0"));
}

#[test]
fn quad_becomes_two_triangles() {
    let text = b"v 0 0 0\nv 1 0 0\nv 1 1 0\nv 0 1 0\nvt 0 0\nvn 0 0 1\nf 1/1/1 2/1/1 3/1/1 4/1/1\n";
    let (faces, indices) = load_from_obj(text).unwrap();
    assert_eq!(faces.len(), 4);
    assert_eq!(indices, vec![0, 1, 2, 0, 2, 3]);
}

#[test]
fn shared_references_reuse_vertices() {
    let text = b"v 0 0 0\nv 1 0 0\nv 0 1 0\nv 1 1 0\nvt 0 0\nvn 0 0 1\n\
                 f 1/1/1 2/1/1 3/1/1\nf 2/1/1 4/1/1 3/1/1\n";
    let (faces, indices) = load_from_obj(&text[..]).unwrap();
    // the second triangle reuses vertices 1 and 2 of the first
    assert_eq!(faces.len(), 4);
    assert_eq!(indices, vec![0, 1, 2, 1, 3, 2]);
}

#[test]
fn distinct_attribute_triples_make_distinct_vertices() {
    // same position under two normals: two vertices are built
    let text = b"v 0 0 0\nv 1 0 0\nv 0 1 0\nvt 0 0\nvn 0 0 1\nvn 1 0 0\n\
                 f 1/1/1 2/1/1 3/1/1\nf 1/1/2 2/1/1 3/1/1\n";
    let (faces, indices) = load_from_obj(&text[..]).unwrap();
    assert_eq!(faces.len(), 4);
    assert_eq!(indices, vec![0, 1, 2, 3, 1, 2]);
    assert_eq!(faces[3].vn.x, tokens(b"1"));
}

#[test]
fn comments_and_unknown_lines_are_ignored() {
    let text = b"# a comment\no something\ns off\nv 1 2 3\n";
    let (faces, indices) = load_from_obj(text).unwrap();
    assert!(faces.is_empty());
    assert!(indices.is_empty());
}

#[test]
fn uv_tokens_are_kept_as_read() {
    // the flip of the second texture coordinate happens when tokens
    // are converted to floats, not here
    let text = b"v 0 0 0\nv 1 0 0\nv 0 1 0\nvt 0.25 0.75\nvn 0 0 1\nf 1/1/1 2/1/1 3/1/1\n";
    let (faces, _indices) = load_from_obj(text).unwrap();
    assert_eq!(faces[0].vt.x, tokens(b"0.25"));
    assert_eq!(faces[0].vt.y, tokens(b"0.75"));
}

#[test]
fn crlf_and_missing_final_newline_are_accepted() {
    let text = b"v 0 0 0\r\nv 1 0 0\r\nv 0 1 0\r\nvt 0 0\r\nvn 0 0 1\r\nf 1/1/1 2/1/1 3/1/1";
    let (faces, indices) = load_from_obj(&text[..]).unwrap();
    assert_eq!(faces.len(), 3);
    assert_eq!(indices, vec![0, 1, 2]);
}

#[test]
fn short_position_line_is_rejected() {
    assert_eq!(load_from_obj(b"v 1 2\n").unwrap_err(), ObjError::Vec3Components);
}

#[test]
fn short_uv_line_is_rejected() {
    assert_eq!(load_from_obj(b"vt 1\n").unwrap_err(), ObjError::Vec2Components);
}

#[test]
fn bad_float_is_rejected() {
    assert_eq!(load_from_obj(b"v 1 x 3\n").unwrap_err(), ObjError::BadFloat);
}

#[test]
fn bad_face_index_is_rejected() {
    let text = b"v 0 0 0\nvt 0 0\nvn 0 0 1\nf a/1/1 1/1/1 1/1/1\n";
    assert_eq!(load_from_obj(text).unwrap_err(), ObjError::BadInt);
}

#[test]
fn short_face_reference_is_rejected() {
    let text = b"v 0 0 0\nvt 0 0\nvn 0 0 1\nf 1/1 1/1/1 1/1/1\n";
    assert_eq!(load_from_obj(text).unwrap_err(), ObjError::Vec3Components);
}

#[test]
fn face_with_two_vertices_is_rejected() {
    let text = b"v 0 0 0\nvt 0 0\nvn 0 0 1\nf 1/1/1 1/1/1\n";
    assert_eq!(load_from_obj(text).unwrap_err(), ObjError::FaceTooShort);
}

#[test]
fn ngon_is_rejected() {
    let text = b"v 0 0 0\nvt 0 0\nvn 0 0 1\nf 1/1/1 1/1/1 1/1/1 1/1/1 1/1/1\n";
    assert_eq!(load_from_obj(text).unwrap_err(), ObjError::NGonsUnsupported);
}

#[test]
fn out_of_range_face_index_is_rejected() {
    let text = b"v 0 0 0\nvt 0 0\nvn 0 0 1\nf 9/1/1 1/1/1 1/1/1\n";
    assert_eq!(load_from_obj(text).unwrap_err(), ObjError::FaceIndexOutOfBounds);
    let zero = b"v 0 0 0\nvt 0 0\nvn 0 0 1\nf 0/1/1 1/1/1 1/1/1\n";
    assert_eq!(load_from_obj(zero).unwrap_err(), ObjError::FaceIndexOutOfBounds);
}

#[test]
fn error_messages() {
    assert_eq!(ObjError::Vec2Components.message(), "Vec 2 needs 2 elements");
    assert_eq!(ObjError::Vec3Components.message(), "Vec 3 needs 3 elements");
    assert_eq!(ObjError::BadFloat.message(), "bad f32");
    assert_eq!(ObjError::BadInt.message(), "bad i32");
    assert_eq!(ObjError::FaceTooShort.message(), "Face has less then 3 vertices");
    assert_eq!(ObjError::NGonsUnsupported.message(), "N-Gons are not supported");
}

#[test]
fn parse_i32_accepts_what_from_str_accepts() {
    assert_eq!(parse_i32(b"42"), Some(42));
    assert_eq!(parse_i32(b"+7"), Some(7));
    assert_eq!(parse_i32(b"-13"), Some(-13));
    assert_eq!(parse_i32(b"0"), Some(0));
    assert_eq!(parse_i32(b"2147483647"), Some(i32::MAX));
    assert_eq!(parse_i32(b"-2147483648"), Some(i32::MIN));
    assert_eq!(parse_i32(b"2147483648"), None);
    assert_eq!(parse_i32(b"-2147483649"), None);
    assert_eq!(parse_i32(b""), None);
    assert_eq!(parse_i32(b"+"), None);
    assert_eq!(parse_i32(b"4x"), None);
    assert_eq!(parse_i32(b" 1"), None);
    // hold the checker against the standard library's own parser
    for case in [&b"99"[..], b"-0", b"007", b"12a", b"", b"--4", b"2147483648"] {
        let text = std::str::from_utf8(case).unwrap();
        assert_eq!(parse_i32(case), text.parse::<i32>().ok(), "case {:?}", text);
    }
}

#[test]
fn float_tokens_accept_what_from_str_accepts() {
    for case in [
        &b"1"[..],
        b"1.",
        b".5",
        b"-0.5",
        b"+3.25",
        b"1e5",
        b"1.5E-3",
        b"2E+4",
        b"inf",
        b"-inf",
        b"Infinity",
        b"NaN",
        b"+nan",
        b"",
        b".",
        b"1e",
        b"e5",
        b"1.2.3",
        b"--1",
        b"0x1",
        b"1f",
        b"in",
        b"infx",
        b"+-1",
        b"1e2.5",
    ] {
        let text = std::str::from_utf8(case).unwrap();
        assert_eq!(
            is_float_token(case),
            text.parse::<f32>().is_ok(),
            "case {:?}",
            text
        );
    }
}

#[test]
fn empty_content_yields_empty_mesh() {
    let (faces, indices) = load_from_obj(b"").unwrap();
    assert!(faces.is_empty());
    assert!(indices.is_empty());
}

#[test]
fn extra_components_are_ignored() {
    // only the first three components of a position line are read
    let text = b"v 1 2 3 9 9\n";
    let (faces, _) = load_from_obj(text).unwrap();
    assert!(faces.is_empty());
}

#[test]
fn doubled_blank_makes_an_empty_component() {
    // splitting keeps empty parts, so a doubled blank shifts the
    // components and the empty one fails float validation
    let text = b"v  1 2 3\n";
    assert_eq!(load_from_obj(text).unwrap_err(), ObjError::BadFloat);
}

#[test]
fn blank_lines_are_ignored() {
    let text = b"\n\nv 1 2 3\n\n";
    let (faces, indices) = load_from_obj(text).unwrap();
    assert!(faces.is_empty());
    assert!(indices.is_empty());
}

#[test]
fn negative_face_index_is_rejected() {
    let text = b"v 0 0 0\nvt 0 0\nvn 0 0 1\nf -1/1/1 1/1/1 1/1/1\n";
    assert_eq!(load_from_obj(text).unwrap_err(), ObjError::FaceIndexOutOfBounds);
}
