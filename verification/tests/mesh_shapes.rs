//! The index patterns of the built-in shapes, and mesh data
//! plumbing.

use bun::mesh_data::{grid_indices, quad_face_indices, quad_indices, MeshData};
use bun::vertex::VertexLayout;
use bun::vertex_array::VAO;

struct FlatVertex {
    #[allow(dead_code)]
    pos: [i32; 3],
}

impl VertexLayout for FlatVertex {
    fn setup_attributes(_vao: &VAO) {}
}

#[test]
fn quad_pattern() {
    assert_eq!(quad_indices(), vec![0, 1, 2, 0, 2, 3]);
}

#[test]
fn cube_faces_pattern() {
    // six independent quad faces, as a cube is indexed
    let idx = quad_face_indices(6);
    assert_eq!(idx.len(), 36);
    assert_eq!(
        &idx[..12],
        &[0, 1, 2, 2, 3, 0, 4, 5, 6, 6, 7, 4][..]
    );
    assert_eq!(&idx[30..], &[20, 21, 22, 22, 23, 20][..]);
}

#[test]
fn single_grid_cell() {
    // one quad over a 2-by-2 vertex grid
    assert_eq!(grid_indices(1), vec![0, 1, 2, 2, 1, 3]);
}

#[test]
fn two_by_two_grid() {
    let idx = grid_indices(2);
    assert_eq!(idx.len(), 24);
    // first quad of the first row, stride 3
    assert_eq!(&idx[..6], &[0, 1, 3, 3, 1, 4][..]);
    // second quad of the first row
    assert_eq!(&idx[6..12], &[1, 2, 4, 4, 2, 5][..]);
    // first quad of the second row
    assert_eq!(&idx[12..18], &[3, 4, 6, 6, 4, 7][..]);
    // every index addresses one of the nine grid vertices
    assert!(idx.iter().all(|i| *i < 9));
}

#[test]
fn zero_resolution_grid_is_empty() {
    assert_eq!(grid_indices(0), Vec::<u32>::new());
}

#[test]
fn mesh_data_holds_what_it_was_given() {
    let vertices = vec![FlatVertex { pos: [0, 0, 0] }, FlatVertex { pos: [1, 0, 0] }];
    let indices = vec![0, 1, 0];
    let mut data: MeshData<FlatVertex> = MeshData::new(vertices, indices);
    assert_eq!(data.vertices().len(), 2);
    assert_eq!(data.indices(), &vec![0, 1, 0]);
    data.vertices_mut().push(FlatVertex { pos: [0, 1, 0] });
    assert_eq!(data.vertices().len(), 3);
    assert_eq!(data.indices(), &vec![0, 1, 0]);
}

#[test]
fn cube_sphere_is_not_generated_yet() {
    let data: MeshData<FlatVertex> = MeshData::cube_sphere();
    assert!(data.vertices().is_empty());
    assert!(data.indices().is_empty());
}
