use vstd::prelude::*;

use crate::mesh::{base_uv, base_uv_at, quad_pattern, quad_pattern_at, MeshData, Uv, Vertex};

verus! {

/// The number of vertices of the unit cube's mesh: four per face.
pub const CUBE_VERTEX_COUNT: usize = 24;

/// The number of indices of the unit cube's mesh: six per face.
pub const CUBE_INDEX_COUNT: usize = 36;

/// Corner `k` (of eight) of the unit cube: bit 0 of `k` gives x, bit 1 gives
/// y, bit 2 gives z.
pub open spec fn cube_corner(k: int) -> (int, int, int) {
    (k % 2, (k / 2) % 2, k / 4)
}

/// Which corner each vertex of the unit cube's mesh is, four per face, in the
/// face order -Z, -Y, -X, +X, +Z, +Y.
pub open spec fn cube_vertex_order() -> Seq<int> {
    seq![1, 0, 3, 2, 0, 1, 4, 5, 0, 4, 2, 6, 5, 1, 7, 3, 4, 5, 6, 7, 6, 7, 2, 3]
}

/// The mesh of one unit cube with its corner at the origin: six quads, each
/// textured with the whole texture.
pub fn cube() -> (r: MeshData)
    ensures
        r.vertex_amount == CUBE_VERTEX_COUNT,
        r@.vertices == Seq::new(
            CUBE_VERTEX_COUNT as nat,
            |m: int| cube_corner(cube_vertex_order()[m]),
        ),
        r@.uvs == Seq::new(CUBE_VERTEX_COUNT as nat, |m: int| base_uv(m % 4)),
        r@.indices == Seq::new(
            CUBE_INDEX_COUNT as nat,
            |m: int| 4 * (m / 6) + quad_pattern(m % 6),
        ),
{
    let base_vertices: [Vertex; 8] = [
        Vertex { x: 0, y: 0, z: 0 },
        Vertex { x: 1, y: 0, z: 0 },
        Vertex { x: 0, y: 1, z: 0 },
        Vertex { x: 1, y: 1, z: 0 },
        Vertex { x: 0, y: 0, z: 1 },
        Vertex { x: 1, y: 0, z: 1 },
        Vertex { x: 0, y: 1, z: 1 },
        Vertex { x: 1, y: 1, z: 1 },
    ];
    let vertex_indices: [usize; 24] = [
        1, 0, 3, 2,
        0, 1, 4, 5,
        0, 4, 2, 6,
        5, 1, 7, 3,
        4, 5, 6, 7,
        6, 7, 2, 3,
    ];
    assert forall|k: int| 0 <= k < 8 implies #[trigger] base_vertices@[k]@ == cube_corner(k) by {
        if k == 0 {
        } else if k == 1 {
        } else if k == 2 {
        } else if k == 3 {
        } else if k == 4 {
        } else if k == 5 {
        } else if k == 6 {
        } else {
        }
    }
    assert forall|m: int| 0 <= m < 24 implies #[trigger] vertex_indices@[m] as int
        == cube_vertex_order()[m] && vertex_indices@[m] < 8 by {
        assert(vertex_indices@ == seq![
            1usize, 0, 3, 2, 0, 1, 4, 5, 0, 4, 2, 6, 5, 1, 7, 3, 4, 5, 6, 7, 6, 7, 2, 3,
        ]);
    }
    let mut vertices: Vec<Vertex> = Vec::new();
    let mut uvs: Vec<Uv> = Vec::new();
    let mut m: usize = 0;
    while m < CUBE_VERTEX_COUNT
        invariant
            0 <= m <= CUBE_VERTEX_COUNT,
            forall|k: int| 0 <= k < 8 ==> #[trigger] base_vertices@[k]@ == cube_corner(k),
            forall|i: int|
                0 <= i < 24 ==> #[trigger] vertex_indices@[i] as int == cube_vertex_order()[i]
                    && vertex_indices@[i] < 8,
            vertices@.len() == m,
            uvs@.len() == m,
            forall|i: int|
                0 <= i < m ==> #[trigger] vertices@[i]@ == cube_corner(cube_vertex_order()[i]),
            forall|i: int| 0 <= i < m ==> #[trigger] uvs@[i]@ == base_uv(i % 4),
        decreases CUBE_VERTEX_COUNT - m,
    {
        let k = vertex_indices[m];
        vertices.push(base_vertices[k]);
        uvs.push(base_uv_at(m % 4));
        m = m + 1;
    }
    let mut indices: Vec<u32> = Vec::new();
    let mut face: usize = 0;
    while face < 6
        invariant
            0 <= face <= 6,
            indices@.len() == 6 * face,
            forall|i: int|
                0 <= i < 6 * face ==> #[trigger] indices@[i] as int == 4 * (i / 6) + quad_pattern(
                    i % 6,
                ),
        decreases 6 - face,
    {
        let mut j: usize = 0;
        while j < 6
            invariant
                0 <= face < 6,
                0 <= j <= 6,
                indices@.len() == 6 * face + j,
                forall|i: int|
                    0 <= i < 6 * face + j ==> #[trigger] indices@[i] as int == 4 * (i / 6)
                        + quad_pattern(i % 6),
            decreases 6 - j,
        {
            indices.push(4 * (face as u32) + quad_pattern_at(j));
            proof {
                let i = 6 * face + j;
                assert(i / 6 == face && i % 6 == j);
            }
            j = j + 1;
        }
        face = face + 1;
    }
    let r = MeshData { indices, vertices, uvs, vertex_amount: CUBE_VERTEX_COUNT as u32 };
    assert(r@.vertices =~= Seq::new(
        CUBE_VERTEX_COUNT as nat,
        |m: int| cube_corner(cube_vertex_order()[m]),
    ));
    assert(r@.uvs =~= Seq::new(CUBE_VERTEX_COUNT as nat, |m: int| base_uv(m % 4)));
    assert(r@.indices =~= Seq::new(
        CUBE_INDEX_COUNT as nat,
        |m: int| 4 * (m / 6) + quad_pattern(m % 6),
    ));
    r
}

} // verus!
