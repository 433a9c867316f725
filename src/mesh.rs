use vstd::prelude::*;

use crate::chunk::ChunkView;
use crate::direction::{direction_at_spec, step, Direction, DIRECTION_COUNT};

verus! {

/// A mesh vertex position. Vertices lie on the integer grid, since every
/// corner of a unit cell does.
#[derive(Clone, Copy, Debug, PartialEq, Eq, Structural)]
pub struct Vertex {
    pub x: i32,
    pub y: i32,
    pub z: i32,
}

impl View for Vertex {
    type V = (int, int, int);

    open spec fn view(&self) -> (int, int, int) {
        (self.x as int, self.y as int, self.z as int)
    }
}

/// A texture coordinate; each component is 0 or 1.
#[derive(Clone, Copy, Debug, PartialEq, Eq, Structural)]
pub struct Uv {
    pub u: u32,
    pub v: u32,
}

impl View for Uv {
    type V = (int, int);

    open spec fn view(&self) -> (int, int) {
        (self.u as int, self.v as int)
    }
}

/// An indexed triangle list: parallel vertex positions and texture
/// coordinates, and three vertex indices per triangle.
pub struct MeshData {
    pub indices: Vec<u32>,
    pub vertices: Vec<Vertex>,
    pub uvs: Vec<Uv>,
    /// The number of entries of `vertices`.
    pub vertex_amount: u32,
}

/// A mesh as a mathematical value.
pub struct MeshView {
    pub indices: Seq<int>,
    pub vertices: Seq<(int, int, int)>,
    pub uvs: Seq<(int, int)>,
}

impl View for MeshData {
    type V = MeshView;

    open spec fn view(&self) -> MeshView {
        MeshView {
            indices: self.indices@.map_values(|i: u32| i as int),
            vertices: self.vertices@.map_values(|p: Vertex| p@),
            uvs: self.uvs@.map_values(|t: Uv| t@),
        }
    }
}

/// One visible face: the side of `cell` that `direction` points to.
pub struct Face {
    pub cell: (int, int, int),
    pub direction: Direction,
}

/// The number of vertices of a quad.
pub const QUAD_VERTICES: usize = 4;

/// The number of indices of a quad: two triangles.
pub const QUAD_INDICES: usize = 6;

/// The `j`-th corner (of four) of the unit cube's face along `d`, as an offset
/// from the cell's own corner. For every direction, corners 0, 1, 2 and
/// corners 2, 1, 3 wind counter-clockwise seen from outside the cube.
pub open spec fn corner(d: Direction, j: int) -> (int, int, int) {
    match d {
        Direction::Left => if j == 0 {
            (1, 0, 1)
        } else if j == 1 {
            (1, 0, 0)
        } else if j == 2 {
            (1, 1, 1)
        } else {
            (1, 1, 0)
        },
        Direction::Right => if j == 0 {
            (0, 0, 0)
        } else if j == 1 {
            (0, 0, 1)
        } else if j == 2 {
            (0, 1, 0)
        } else {
            (0, 1, 1)
        },
        Direction::Up => if j == 0 {
            (1, 1, 0)
        } else if j == 1 {
            (0, 1, 0)
        } else if j == 2 {
            (1, 1, 1)
        } else {
            (0, 1, 1)
        },
        Direction::Down => if j == 0 {
            (1, 0, 1)
        } else if j == 1 {
            (0, 0, 1)
        } else if j == 2 {
            (1, 0, 0)
        } else {
            (0, 0, 0)
        },
        Direction::Back => if j == 0 {
            (0, 0, 1)
        } else if j == 1 {
            (1, 0, 1)
        } else if j == 2 {
            (0, 1, 1)
        } else {
            (1, 1, 1)
        },
        Direction::Front => if j == 0 {
            (1, 0, 0)
        } else if j == 1 {
            (0, 0, 0)
        } else if j == 2 {
            (1, 1, 0)
        } else {
            (0, 1, 0)
        },
    }
}

/// The local index pattern of a quad's two triangles: 0, 1, 2, 2, 1, 3.
pub open spec fn quad_pattern(j: int) -> int {
    if j == 0 {
        0
    } else if j == 1 {
        1
    } else if j == 2 {
        2
    } else if j == 3 {
        2
    } else if j == 4 {
        1
    } else {
        3
    }
}

/// The texture coordinate of a quad's `j`-th corner: bottom left, bottom
/// right, top left, top right.
pub open spec fn base_uv(j: int) -> (int, int) {
    if j == 0 {
        (0, 1)
    } else if j == 1 {
        (1, 1)
    } else if j == 2 {
        (0, 0)
    } else {
        (1, 0)
    }
}

/// The `j`-th vertex of the quad of face `f`.
pub open spec fn face_vertex(f: Face, j: int) -> (int, int, int) {
    let c = corner(f.direction, j);
    (f.cell.0 + c.0, f.cell.1 + c.1, f.cell.2 + c.2)
}

/// The mesh of a sequence of faces: four vertices and texture coordinates and
/// six indices per face, in the order of the faces, the indices of the `k`-th
/// face offset by `4 * k`.
pub open spec fn mesh_of(faces: Seq<Face>) -> MeshView {
    MeshView {
        indices: Seq::new(6 * faces.len(), |m: int| 4 * (m / 6) + quad_pattern(m % 6)),
        vertices: Seq::new(4 * faces.len(), |m: int| face_vertex(faces[m / 4], m % 4)),
        uvs: Seq::new(4 * faces.len(), |m: int| base_uv(m % 4)),
    }
}

/// Whether the side of cell `p` along `d` is visible: the cell holds a voxel
/// and its neighbour along `d` does not (outside the chunk counts as empty).
pub open spec fn exposed(v: ChunkView, p: (int, int, int), d: Direction) -> bool {
    v.occupied(p) && !v.occupied(step(p, d))
}

/// The visible faces of cell `p` among the first `n` directions of the fixed
/// visiting order.
pub open spec fn cell_faces(v: ChunkView, p: (int, int, int), n: nat) -> Seq<Face>
    decreases n,
{
    if n == 0 {
        Seq::empty()
    } else {
        let d = direction_at_spec(n - 1);
        cell_faces(v, p, (n - 1) as nat) + if exposed(v, p, d) {
            seq![Face { cell: p, direction: d }]
        } else {
            Seq::empty()
        }
    }
}

/// The visible faces of the first `n` cells of row `(y, z)`.
pub open spec fn row_faces(v: ChunkView, y: int, z: int, n: nat) -> Seq<Face>
    decreases n,
{
    if n == 0 {
        Seq::empty()
    } else {
        row_faces(v, y, z, (n - 1) as nat) + cell_faces(
            v,
            (n - 1, y, z),
            DIRECTION_COUNT as nat,
        )
    }
}

/// The visible faces of the first `n` rows of layer `z`.
pub open spec fn layer_faces(v: ChunkView, z: int, n: nat) -> Seq<Face>
    decreases n,
{
    if n == 0 {
        Seq::empty()
    } else {
        layer_faces(v, z, (n - 1) as nat) + row_faces(v, n - 1, z, v.size_x)
    }
}

/// The visible faces of the first `n` layers.
pub open spec fn layers_faces(v: ChunkView, n: nat) -> Seq<Face>
    decreases n,
{
    if n == 0 {
        Seq::empty()
    } else {
        layers_faces(v, (n - 1) as nat) + layer_faces(v, n - 1, v.size_y)
    }
}

/// Every visible face of the chunk, cell by cell in increasing linear index
/// order, and within a cell in the fixed direction order.
pub open spec fn exposed_faces(v: ChunkView) -> Seq<Face> {
    layers_faces(v, v.size_z)
}

/// A cell without a voxel shows no face.
pub proof fn lemma_empty_cell_faces(v: ChunkView, p: (int, int, int), n: nat)
    requires
        !v.occupied(p),
    ensures
        cell_faces(v, p, n) == Seq::<Face>::empty(),
    decreases n,
{
    if n > 0 {
        lemma_empty_cell_faces(v, p, (n - 1) as nat);
        assert(cell_faces(v, p, n) =~= Seq::<Face>::empty());
    }
}

/// A cell shows at most one face per direction.
pub proof fn lemma_cell_faces_len(v: ChunkView, p: (int, int, int), n: nat)
    ensures
        cell_faces(v, p, n).len() <= n,
    decreases n,
{
    if n > 0 {
        lemma_cell_faces_len(v, p, (n - 1) as nat);
    }
}

/// The corner offsets of the face of direction `d`.
fn corner_offset(d: Direction, j: usize) -> (r: (i32, i32, i32))
    requires
        j < QUAD_VERTICES,
    ensures
        (r.0 as int, r.1 as int, r.2 as int) == corner(d, j as int),
        0 <= r.0 <= 1 && 0 <= r.1 <= 1 && 0 <= r.2 <= 1,
{
    match d {
        Direction::Left => if j == 0 {
            (1, 0, 1)
        } else if j == 1 {
            (1, 0, 0)
        } else if j == 2 {
            (1, 1, 1)
        } else {
            (1, 1, 0)
        },
        Direction::Right => if j == 0 {
            (0, 0, 0)
        } else if j == 1 {
            (0, 0, 1)
        } else if j == 2 {
            (0, 1, 0)
        } else {
            (0, 1, 1)
        },
        Direction::Up => if j == 0 {
            (1, 1, 0)
        } else if j == 1 {
            (0, 1, 0)
        } else if j == 2 {
            (1, 1, 1)
        } else {
            (0, 1, 1)
        },
        Direction::Down => if j == 0 {
            (1, 0, 1)
        } else if j == 1 {
            (0, 0, 1)
        } else if j == 2 {
            (1, 0, 0)
        } else {
            (0, 0, 0)
        },
        Direction::Back => if j == 0 {
            (0, 0, 1)
        } else if j == 1 {
            (1, 0, 1)
        } else if j == 2 {
            (0, 1, 1)
        } else {
            (1, 1, 1)
        },
        Direction::Front => if j == 0 {
            (1, 0, 0)
        } else if j == 1 {
            (0, 0, 0)
        } else if j == 2 {
            (1, 1, 0)
        } else {
            (0, 1, 0)
        },
    }
}

pub(crate) fn quad_pattern_at(j: usize) -> (r: u32)
    requires
        j < QUAD_INDICES,
    ensures
        r == quad_pattern(j as int),
        r <= 3,
{
    if j == 0 {
        0
    } else if j == 1 {
        1
    } else if j == 2 {
        2
    } else if j == 3 {
        2
    } else if j == 4 {
        1
    } else {
        3
    }
}

pub(crate) fn base_uv_at(j: usize) -> (r: Uv)
    requires
        j < QUAD_VERTICES,
    ensures
        r@ == base_uv(j as int),
{
    if j == 0 {
        Uv { u: 0, v: 1 }
    } else if j == 1 {
        Uv { u: 1, v: 1 }
    } else if j == 2 {
        Uv { u: 0, v: 0 }
    } else {
        Uv { u: 1, v: 0 }
    }
}

/// Appends the quad of the face on side `direction` of cell `(x, y, z)`: a
/// mesh of `faces` becomes the mesh of `faces` followed by that face.
pub(crate) fn push_quad(
    mesh: &mut MeshData,
    x: i32,
    y: i32,
    z: i32,
    direction: Direction,
    Ghost(faces): Ghost<Seq<Face>>,
)
    requires
        old(mesh)@ == mesh_of(faces),
        4 * faces.len() + 4 <= u32::MAX,
        0 <= x < i32::MAX && 0 <= y < i32::MAX && 0 <= z < i32::MAX,
    ensures
        final(mesh)@ == mesh_of(
            faces.push(Face { cell: (x as int, y as int, z as int), direction }),
        ),
        final(mesh).vertex_amount == old(mesh).vertex_amount,
{
    let ghost f = Face { cell: (x as int, y as int, z as int), direction };
    let ghost nfaces = faces.push(f);
    let ghost n = faces.len() as int;
    let ghost m0 = mesh@;
    assert(mesh@.vertices.len() == 4 * n);
    assert(mesh@.uvs.len() == 4 * n);
    assert(mesh@.indices.len() == 6 * n);
    assert forall|m: int| 0 <= m < 4 * n implies #[trigger] m0.vertices[m] == mesh_of(
        nfaces,
    ).vertices[m] by {
        assert(nfaces[m / 4] == faces[m / 4]);
    }
    let base: u32 = mesh.vertices.len() as u32;
    let mut j: usize = 0;
    while j < QUAD_VERTICES
        invariant
            0 <= j <= QUAD_VERTICES,
            0 <= x < i32::MAX && 0 <= y < i32::MAX && 0 <= z < i32::MAX,
            base == 4 * n,
            n == faces.len(),
            nfaces == faces.push(f),
            f == (Face { cell: (x as int, y as int, z as int), direction }),
            mesh.indices@ == old(mesh).indices@,
            mesh.vertex_amount == old(mesh).vertex_amount,
            mesh.vertices@.len() == 4 * n + j,
            mesh.uvs@.len() == 4 * n + j,
            forall|m: int| 0 <= m < 4 * n ==> #[trigger] m0.vertices[m] == mesh_of(nfaces).vertices[m],
            forall|m: int| 0 <= m < 4 * n + j ==> #[trigger] mesh@.vertices[m] == mesh_of(
                nfaces,
            ).vertices[m],
            forall|m: int| 0 <= m < 4 * n + j ==> #[trigger] mesh@.uvs[m] == mesh_of(
                nfaces,
            ).uvs[m],
        decreases QUAD_VERTICES - j,
    {
        let c = corner_offset(direction, j);
        let ghost prev = mesh@;
        mesh.vertices.push(Vertex { x: x + c.0, y: y + c.1, z: z + c.2 });
        mesh.uvs.push(base_uv_at(j));
        proof {
            assert forall|m: int| 0 <= m < 4 * n + j + 1 implies #[trigger] mesh@.vertices[m]
                == mesh_of(nfaces).vertices[m] by {
                if m < 4 * n + j {
                    assert(mesh@.vertices[m] == prev.vertices[m]);
                } else {
                    assert(m / 4 == n);
                    assert(m % 4 == j);
                    assert(nfaces[n] == f);
                    assert(mesh.vertices@[m]@ == (x + c.0, y + c.1, z + c.2));
                }
            }
            assert forall|m: int| 0 <= m < 4 * n + j + 1 implies #[trigger] mesh@.uvs[m]
                == mesh_of(nfaces).uvs[m] by {
                if m < 4 * n + j {
                    assert(mesh@.uvs[m] == prev.uvs[m]);
                } else {
                    assert(m % 4 == j);
                    assert(mesh.uvs@[m]@ == base_uv(j as int));
                }
            }
        }
        j = j + 1;
    }
    let mut j: usize = 0;
    while j < QUAD_INDICES
        invariant
            0 <= j <= QUAD_INDICES,
            base == 4 * n,
            n == faces.len(),
            nfaces == faces.push(f),
            4 * n + 4 <= u32::MAX,
            mesh@.vertices =~= mesh_of(nfaces).vertices,
            mesh@.uvs =~= mesh_of(nfaces).uvs,
            mesh.vertex_amount == old(mesh).vertex_amount,
            mesh.indices@.len() == 6 * n + j,
            forall|m: int| 0 <= m < 6 * n + j ==> #[trigger] mesh@.indices[m] == mesh_of(
                nfaces,
            ).indices[m],
        decreases QUAD_INDICES - j,
    {
        let p = quad_pattern_at(j);
        let ghost prev = mesh@;
        mesh.indices.push(base + p);
        proof {
            assert forall|m: int| 0 <= m < 6 * n + j + 1 implies #[trigger] mesh@.indices[m]
                == mesh_of(nfaces).indices[m] by {
                if m < 6 * n + j {
                    assert(mesh@.indices[m] == prev.indices[m]);
                } else {
                    assert(m / 6 == n);
                    assert(m % 6 == j);
                    assert(mesh.indices@[m] == base + p);
                }
            }
        }
        j = j + 1;
    }
    assert(mesh@.indices =~= mesh_of(nfaces).indices);
}

} // verus!
