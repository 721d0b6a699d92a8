//! Mesh data on the CPU: a vertex list and a triangle index list, plus
//! the index patterns the built-in shapes are triangulated with. The
//! vertex positions of those shapes are floating-point values filled
//! in by the outer layer; the index arithmetic is what this module
//! owns and proves.

use vstd::prelude::*;

use crate::vertex::VertexLayout;

verus! {

/// A vertex list and the triangle indices into it, ready to upload
/// into GPU buffers.
pub struct MeshData<V: VertexLayout> {
    vertices: Vec<V>,
    indices: Vec<u32>,
}

impl<V: VertexLayout> MeshData<V> {
    pub closed spec fn spec_vertices(self) -> Seq<V> {
        self.vertices@
    }

    pub closed spec fn spec_indices(self) -> Seq<u32> {
        self.indices@
    }

    /// Packs a vertex list with its index list.
    pub fn new(vertices: Vec<V>, indices: Vec<u32>) -> (r: MeshData<V>)
        ensures
            r.spec_vertices() == vertices@,
            r.spec_indices() == indices@,
    {
        MeshData { vertices, indices }
    }

    pub fn vertices(&self) -> (r: &Vec<V>)
        ensures
            r@ == self.spec_vertices(),
    {
        &self.vertices
    }

    pub fn vertices_mut(&mut self) -> (r: &mut Vec<V>)
        ensures
            r@ == old(self).spec_vertices(),
            final(self).spec_vertices() == final(r)@,
            final(self).spec_indices() == old(self).spec_indices(),
    {
        &mut self.vertices
    }

    pub fn indices(&self) -> (r: &Vec<u32>)
        ensures
            r@ == self.spec_indices(),
    {
        &self.indices
    }

    /// A sphere mesh built by subdividing a cube; its generation is
    /// not written yet, so the mesh is empty.
    pub fn cube_sphere() -> (r: MeshData<V>)
        ensures
            r.spec_vertices() == Seq::<V>::empty(),
            r.spec_indices() == Seq::<u32>::empty(),
    {
        MeshData { vertices: Vec::new(), indices: Vec::new() }
    }
}

/// The two triangles of a single quad whose corners are vertices
/// `0, 1, 2, 3` in winding order.
pub fn quad_indices() -> (r: Vec<u32>)
    ensures
        r@ == seq![0u32, 1u32, 2u32, 0u32, 2u32, 3u32],
{
    let mut r: Vec<u32> = Vec::new();
    r.push(0);
    r.push(1);
    r.push(2);
    r.push(0);
    r.push(2);
    r.push(3);
    proof {
        assert(r@ =~= seq![0u32, 1u32, 2u32, 0u32, 2u32, 3u32]);
    }
    r
}

/// Triangulation of `faces` independent quad faces laid out one after
/// another in the vertex list, four corners per face in winding order
/// — the pattern a cube's six faces are indexed with.
pub fn quad_face_indices(faces: u32) -> (r: Vec<u32>)
    requires
        faces <= 0x4000_0000,
    ensures
        r@.len() == 6 * faces,
        forall|f: int|
            #![trigger r@[6 * f]]
            0 <= f < faces ==> r@[6 * f] == 4 * f && r@[6 * f + 1] == 4 * f + 1 && r@[6 * f + 2]
                == 4 * f + 2 && r@[6 * f + 3] == 4 * f + 2 && r@[6 * f + 4] == 4 * f + 3 && r@[6 * f
                + 5] == 4 * f,
{
    let mut r: Vec<u32> = Vec::new();
    let mut f: u32 = 0;
    while f < faces
        invariant
            f <= faces,
            faces <= 0x4000_0000,
            r@.len() == 6 * f,
            forall|g: int|
                #![trigger r@[6 * g]]
                0 <= g < f ==> r@[6 * g] == 4 * g && r@[6 * g + 1] == 4 * g + 1 && r@[6 * g + 2]
                    == 4 * g + 2 && r@[6 * g + 3] == 4 * g + 2 && r@[6 * g + 4] == 4 * g + 3 && r@[6
                    * g + 5] == 4 * g,
        decreases faces - f,
    {
        let base: u32 = 4 * f;
        let ghost prev = r@;
        r.push(base);
        r.push(base + 1);
        r.push(base + 2);
        r.push(base + 2);
        r.push(base + 3);
        r.push(base);
        proof {
            assert forall|g: int|
                #![trigger r@[6 * g]]
                0 <= g < f + 1 implies r@[6 * g] == 4 * g && r@[6 * g + 1] == 4 * g + 1 && r@[6 * g
                + 2] == 4 * g + 2 && r@[6 * g + 3] == 4 * g + 2 && r@[6 * g + 4] == 4 * g + 3 && r@[
            6 * g + 5] == 4 * g by {
                if g < f {
                    assert(prev[6 * g] == 4 * g && prev[6 * g + 1] == 4 * g + 1 && prev[6 * g + 2]
                        == 4 * g + 2 && prev[6 * g + 3] == 4 * g + 2 && prev[6 * g + 4] == 4 * g + 3
                        && prev[6 * g + 5] == 4 * g);
                } else {
                    assert(r@[6 * g] == base);
                }
            }
        }
        f = f + 1;
    }
    r
}

/// Triangulation of a square grid of `res` by `res` quads over a grid
/// of `res + 1` by `res + 1` vertices laid out row by row: each quad
/// becomes two triangles. This is the index pattern of the subdivided
/// ground plane.
pub fn grid_indices(res: u32) -> (r: Vec<u32>)
    requires
        res < 65535,
    ensures
        r@.len() == 6 * res * res,
        forall|row: int, col: int|
            #![trigger r@[6 * (row * res + col)]]
            0 <= row < res && 0 <= col < res ==> {
                let q = 6 * (row * res + col);
                let s = res + 1;
                &&& r@[q] == col + row * s
                &&& r@[q + 1] == (col + 1) + row * s
                &&& r@[q + 2] == col + (row + 1) * s
                &&& r@[q + 3] == col + (row + 1) * s
                &&& r@[q + 4] == (col + 1) + row * s
                &&& r@[q + 5] == (col + 1) + (row + 1) * s
            },
{
    let mut r: Vec<u32> = Vec::new();
    let stride: u32 = res + 1;
    let mut row: u32 = 0;
    proof {
        assert(6 * row * res == 0) by (nonlinear_arith)
            requires
                row == 0,
        ;
    }
    while row < res
        invariant
            row <= res,
            res < 65535,
            stride == res + 1,
            r@.len() == 6 * row * res,
            forall|rr: int, cc: int|
                #![trigger r@[6 * (rr * res + cc)]]
                0 <= rr < row && 0 <= cc < res ==> {
                    let q = 6 * (rr * res + cc);
                    let s = res + 1;
                    &&& r@[q] == cc + rr * s
                    &&& r@[q + 1] == (cc + 1) + rr * s
                    &&& r@[q + 2] == cc + (rr + 1) * s
                    &&& r@[q + 3] == cc + (rr + 1) * s
                    &&& r@[q + 4] == (cc + 1) + rr * s
                    &&& r@[q + 5] == (cc + 1) + (rr + 1) * s
                },
        decreases res - row,
    {
        let mut col: u32 = 0;
        while col < res
            invariant
                row < res,
                col <= res,
                res < 65535,
                stride == res + 1,
                r@.len() == 6 * row * res + 6 * col,
                forall|rr: int, cc: int|
                    #![trigger r@[6 * (rr * res + cc)]]
                    0 <= rr < res && 0 <= cc < res && (rr < row || (rr == row && cc < col)) ==> {
                        let q = 6 * (rr * res + cc);
                        let s = res + 1;
                        &&& r@[q] == cc + rr * s
                        &&& r@[q + 1] == (cc + 1) + rr * s
                        &&& r@[q + 2] == cc + (rr + 1) * s
                        &&& r@[q + 3] == cc + (rr + 1) * s
                        &&& r@[q + 4] == (cc + 1) + rr * s
                        &&& r@[q + 5] == (cc + 1) + (rr + 1) * s
                    },
            decreases res - col,
        {
            proof {
                assert(row * stride <= (row + 1) * stride && (row + 1) * stride <= res
                    * stride) by (nonlinear_arith)
                    requires
                        row < res,
                        0 <= row,
                        0 <= stride,
                ;
                assert(res * stride + res < 0x1_0000_0000) by (nonlinear_arith)
                    requires
                        res < 65535,
                        stride == res + 1,
                ;
                assert(6 * (row * res + col) == 6 * row * res + 6 * col) by (nonlinear_arith);
            }
            let a: u32 = col + row * stride;
            let b: u32 = (col + 1) + row * stride;
            let c: u32 = col + (row + 1) * stride;
            let d: u32 = (col + 1) + (row + 1) * stride;
            let ghost prev = r@;
            r.push(a);
            r.push(b);
            r.push(c);
            r.push(c);
            r.push(b);
            r.push(d);
            proof {
                assert forall|rr: int, cc: int|
                    #![trigger r@[6 * (rr * res + cc)]]
                    0 <= rr < res && 0 <= cc < res && (rr < row || (rr == row && cc < col
                        + 1)) implies {
                    let q = 6 * (rr * res + cc);
                    let s = res + 1;
                    &&& r@[q] == cc + rr * s
                    &&& r@[q + 1] == (cc + 1) + rr * s
                    &&& r@[q + 2] == cc + (rr + 1) * s
                    &&& r@[q + 3] == cc + (rr + 1) * s
                    &&& r@[q + 4] == (cc + 1) + rr * s
                    &&& r@[q + 5] == (cc + 1) + (rr + 1) * s
                } by {
                    assert(6 * (row * res + col) == 6 * row * res + 6 * col) by (nonlinear_arith);
                    if rr == row && cc == col {
                        assert(r@[6 * (rr * res + cc)] == a);
                    } else {
                        assert(rr * res + cc < row * res + col) by (nonlinear_arith)
                            requires
                                0 <= rr,
                                0 <= cc < res,
                                (rr < row || (rr == row && cc < col)),
                        ;
                        assert(6 * (rr * res + cc) + 6 <= 6 * (row * res + col)) by (
                        nonlinear_arith)
                            requires
                                rr * res + cc < row * res + col,
                        ;
                        assert(prev[6 * (rr * res + cc)] == r@[6 * (rr * res + cc)]);
                    }
                }
            }
            col = col + 1;
        }
        proof {
            assert(6 * row * res + 6 * res == 6 * (row + 1) * res) by (nonlinear_arith);
        }
        row = row + 1;
    }
    proof {
        assert(6 * res * res == 6 * res * res);
    }
    r
}

} // verus!
