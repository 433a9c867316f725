use vstd::prelude::*;

use crate::chunk::{lemma_index_in_range, ChunkView};
use crate::direction::{
    direction_at_spec, direction_index, lemma_direction_order, step, unit_offset, Direction,
    DIRECTION_COUNT,
};
use crate::mesh::{
    base_uv, cell_faces, corner, exposed, exposed_faces, face_vertex, layer_faces, layers_faces,
    mesh_of, quad_pattern, row_faces, Face, MeshData,
};

verus! {

proof fn lemma_contains_concat(a: Seq<Face>, b: Seq<Face>, e: Face)
    requires
        a.contains(e) || b.contains(e),
    ensures
        (a + b).contains(e),
{
    if a.contains(e) {
        let i = choose|i: int| 0 <= i < a.len() && a[i] == e;
        assert((a + b)[i] == e);
    } else {
        let i = choose|i: int| 0 <= i < b.len() && b[i] == e;
        assert((a + b)[a.len() + i] == e);
    }
}

/// The faces of one cell: each is a visible side of that cell, among the
/// first `n` directions, none twice, and every such side is there.
proof fn lemma_cell_faces_shape(v: ChunkView, p: (int, int, int), n: nat)
    requires
        n <= DIRECTION_COUNT,
    ensures
        forall|k: int|
            0 <= k < cell_faces(v, p, n).len() ==> {
                let f = #[trigger] cell_faces(v, p, n)[k];
                &&& f.cell == p
                &&& exposed(v, p, f.direction)
                &&& direction_index(f.direction) < n
            },
        cell_faces(v, p, n).no_duplicates(),
        forall|d: Direction|
            exposed(v, p, d) && direction_index(d) < n ==> #[trigger] cell_faces(
                v,
                p,
                n,
            ).contains(Face { cell: p, direction: d }),
    decreases n,
{
    if n > 0 {
        lemma_cell_faces_shape(v, p, (n - 1) as nat);
        let prev = cell_faces(v, p, (n - 1) as nat);
        let d = direction_at_spec(n - 1);
        lemma_direction_order(d);
        let tail = if exposed(v, p, d) {
            seq![Face { cell: p, direction: d }]
        } else {
            Seq::<Face>::empty()
        };
        assert(cell_faces(v, p, n) == prev + tail);
        vstd::seq_lib::lemma_no_dup_in_concat(prev, tail);
        assert forall|e: Direction|
            exposed(v, p, e) && direction_index(e) < n implies #[trigger] cell_faces(
            v,
            p,
            n,
        ).contains(Face { cell: p, direction: e }) by {
            lemma_direction_order(e);
            if direction_index(e) < n - 1 {
                lemma_contains_concat(prev, tail, Face { cell: p, direction: e });
            } else {
                assert(tail[0] == Face { cell: p, direction: e });
                lemma_contains_concat(prev, tail, Face { cell: p, direction: e });
            }
        }
    }
}

/// The faces of the first `n` cells of row `(y, z)`.
proof fn lemma_row_faces_shape(v: ChunkView, y: int, z: int, n: nat)
    ensures
        forall|k: int|
            0 <= k < row_faces(v, y, z, n).len() ==> {
                let f = #[trigger] row_faces(v, y, z, n)[k];
                &&& 0 <= f.cell.0 < n
                &&& f.cell.1 == y
                &&& f.cell.2 == z
                &&& exposed(v, f.cell, f.direction)
            },
        row_faces(v, y, z, n).no_duplicates(),
        forall|x: int, d: Direction|
            0 <= x < n && exposed(v, (x, y, z), d) ==> #[trigger] row_faces(
                v,
                y,
                z,
                n,
            ).contains(Face { cell: (x, y, z), direction: d }),
    decreases n,
{
    if n > 0 {
        lemma_row_faces_shape(v, y, z, (n - 1) as nat);
        let prev = row_faces(v, y, z, (n - 1) as nat);
        let p = (n - 1, y, z);
        let cell = cell_faces(v, p, DIRECTION_COUNT as nat);
        lemma_cell_faces_shape(v, p, DIRECTION_COUNT as nat);
        vstd::seq_lib::lemma_no_dup_in_concat(prev, cell);
        assert forall|x: int, d: Direction|
            0 <= x < n && exposed(v, (x, y, z), d) implies #[trigger] row_faces(
            v,
            y,
            z,
            n,
        ).contains(Face { cell: (x, y, z), direction: d }) by {
            lemma_direction_order(d);
            lemma_contains_concat(prev, cell, Face { cell: (x, y, z), direction: d });
        }
    }
}

/// The faces of the first `n` rows of layer `z`.
proof fn lemma_layer_faces_shape(v: ChunkView, z: int, n: nat)
    ensures
        forall|k: int|
            0 <= k < layer_faces(v, z, n).len() ==> {
                let f = #[trigger] layer_faces(v, z, n)[k];
                &&& 0 <= f.cell.1 < n
                &&& f.cell.2 == z
                &&& exposed(v, f.cell, f.direction)
            },
        layer_faces(v, z, n).no_duplicates(),
        forall|x: int, y: int, d: Direction|
            0 <= y < n && exposed(v, (x, y, z), d) ==> #[trigger] layer_faces(
                v,
                z,
                n,
            ).contains(Face { cell: (x, y, z), direction: d }),
    decreases n,
{
    if n > 0 {
        lemma_layer_faces_shape(v, z, (n - 1) as nat);
        let prev = layer_faces(v, z, (n - 1) as nat);
        let row = row_faces(v, n - 1, z, v.size_x);
        lemma_row_faces_shape(v, n - 1, z, v.size_x);
        vstd::seq_lib::lemma_no_dup_in_concat(prev, row);
        assert forall|x: int, y: int, d: Direction|
            0 <= y < n && exposed(v, (x, y, z), d) implies #[trigger] layer_faces(
            v,
            z,
            n,
        ).contains(Face { cell: (x, y, z), direction: d }) by {
            lemma_contains_concat(prev, row, Face { cell: (x, y, z), direction: d });
        }
    }
}

/// The faces of the first `n` layers.
proof fn lemma_layers_faces_shape(v: ChunkView, n: nat)
    ensures
        forall|k: int|
            0 <= k < layers_faces(v, n).len() ==> {
                let f = #[trigger] layers_faces(v, n)[k];
                &&& 0 <= f.cell.2 < n
                &&& exposed(v, f.cell, f.direction)
            },
        layers_faces(v, n).no_duplicates(),
        forall|x: int, y: int, z: int, d: Direction|
            0 <= z < n && exposed(v, (x, y, z), d) ==> #[trigger] layers_faces(v, n).contains(
                Face { cell: (x, y, z), direction: d },
            ),
    decreases n,
{
    if n > 0 {
        lemma_layers_faces_shape(v, (n - 1) as nat);
        let prev = layers_faces(v, (n - 1) as nat);
        let layer = layer_faces(v, n - 1, v.size_y);
        lemma_layer_faces_shape(v, n - 1, v.size_y);
        vstd::seq_lib::lemma_no_dup_in_concat(prev, layer);
        assert forall|x: int, y: int, z: int, d: Direction|
            0 <= z < n && exposed(v, (x, y, z), d) implies #[trigger] layers_faces(
            v,
            n,
        ).contains(Face { cell: (x, y, z), direction: d }) by {
            lemma_contains_concat(prev, layer, Face { cell: (x, y, z), direction: d });
        }
    }
}

/// No face is emitted whose neighbour is occupied: every face of the mesh
/// belongs to an occupied cell whose neighbour in the face's direction is
/// empty or outside the chunk. So for every occupied cell and every direction
/// in which its neighbour is occupied, that face does not appear.
pub proof fn lemma_culling(v: ChunkView)
    ensures
        forall|k: int|
            0 <= k < exposed_faces(v).len() ==> {
                let f = #[trigger] exposed_faces(v)[k];
                &&& v.occupied(f.cell)
                &&& !v.occupied(step(f.cell, f.direction))
            },
        forall|p: (int, int, int), d: Direction|
            #![trigger exposed_faces(v).contains(Face { cell: p, direction: d })]
            v.occupied(step(p, d)) ==> !exposed_faces(v).contains(Face { cell: p, direction: d }),
{
    lemma_layers_faces_shape(v, v.size_z);
}

/// Each face appears at most once in the mesh.
pub proof fn lemma_faces_distinct(v: ChunkView)
    ensures
        exposed_faces(v).no_duplicates(),
{
    lemma_layers_faces_shape(v, v.size_z);
}

/// For every occupied cell and every direction in which its neighbour is
/// empty (or outside the chunk), exactly one face of the mesh is that side of
/// that cell, and it is drawn as one quad: four vertices at the corners of
/// that side, four texture coordinates, and two triangles over those
/// vertices.
pub proof fn lemma_completeness(v: ChunkView, p: (int, int, int), d: Direction)
    requires
        v.occupied(p),
        !v.occupied(step(p, d)),
    ensures
        ({
            let faces = exposed_faces(v);
            let mesh = mesh_of(faces);
            exists|k: int|
                {
                    &&& 0 <= k < faces.len()
                    &&& #[trigger] faces[k] == Face { cell: p, direction: d }
                    &&& forall|k2: int|
                        0 <= k2 < faces.len() && faces[k2] == Face { cell: p, direction: d }
                            ==> k2 == k
                    &&& forall|j: int|
                        0 <= j < 4 ==> mesh.vertices[4 * k + j] == face_vertex(
                            Face { cell: p, direction: d },
                            j,
                        ) && mesh.uvs[4 * k + j] == base_uv(j)
                    &&& forall|j: int|
                        0 <= j < 6 ==> mesh.indices[6 * k + j] == 4 * k + quad_pattern(j)
                }
        }),
{
    let faces = exposed_faces(v);
    let f = Face { cell: p, direction: d };
    lemma_layers_faces_shape(v, v.size_z);
    assert(exposed(v, (p.0, p.1, p.2), d));
    assert(faces.contains(Face { cell: (p.0, p.1, p.2), direction: d }));
    let k = choose|k: int| 0 <= k < faces.len() && faces[k] == f;
    let mesh = mesh_of(faces);
    assert forall|j: int| 0 <= j < 4 implies mesh.vertices[4 * k + j] == face_vertex(f, j)
        && mesh.uvs[4 * k + j] == base_uv(j) by {
        assert((4 * k + j) / 4 == k);
        assert((4 * k + j) % 4 == j);
    }
    assert forall|j: int| 0 <= j < 6 implies mesh.indices[6 * k + j] == 4 * k + quad_pattern(
        j,
    ) by {
        assert((6 * k + j) / 6 == k);
        assert((6 * k + j) % 6 == j);
    }
}

/// A chunk with no voxel meshes to no vertices and no indices.
pub proof fn lemma_empty_chunk(v: ChunkView)
    requires
        forall|i: int| 0 <= i < v.cells.len() ==> !v.cells[i],
    ensures
        exposed_faces(v).len() == 0,
        mesh_of(exposed_faces(v)).vertices.len() == 0,
        mesh_of(exposed_faces(v)).uvs.len() == 0,
        mesh_of(exposed_faces(v)).indices.len() == 0,
{
    lemma_culling(v);
    if exposed_faces(v).len() > 0 {
        let f = exposed_faces(v)[0];
        assert(v.occupied(f.cell));
    }
}

/// Every index of a mesh names one of its vertices, and the indices come in
/// whole quads (six per face), so in whole triangles.
pub proof fn lemma_indices_valid(faces: Seq<Face>)
    ensures
        forall|m: int|
            0 <= m < mesh_of(faces).indices.len() ==> 0 <= #[trigger] mesh_of(faces).indices[m]
                < mesh_of(faces).vertices.len(),
        mesh_of(faces).indices.len() % 6 == 0,
        mesh_of(faces).indices.len() % 3 == 0,
        mesh_of(faces).vertices.len() == mesh_of(faces).uvs.len(),
{
    let mesh = mesh_of(faces);
    assert forall|m: int| 0 <= m < mesh.indices.len() implies 0 <= #[trigger] mesh.indices[m]
        < mesh.vertices.len() by {
        assert(m / 6 < faces.len());
        assert(0 <= m % 6 < 6);
    }
}

/// Two meshes of the same chunk are identical, entry for entry.
pub proof fn lemma_deterministic(v: ChunkView, a: MeshData, b: MeshData)
    requires
        a@ == mesh_of(exposed_faces(v)),
        b@ == mesh_of(exposed_faces(v)),
    ensures
        a.indices@ == b.indices@,
        a.vertices@ == b.vertices@,
        a.uvs@ == b.uvs@,
{
    assert(a.indices@.len() == a@.indices.len() && b.indices@.len() == b@.indices.len());
    assert(a.vertices@.len() == a@.vertices.len() && b.vertices@.len() == b@.vertices.len());
    assert(a.uvs@.len() == a@.uvs.len() && b.uvs@.len() == b@.uvs.len());
    assert forall|m: int| 0 <= m < a.indices@.len() implies a.indices@[m] == b.indices@[m] by {
        assert(a@.indices[m] == a.indices@[m] as int);
        assert(b@.indices[m] == b.indices@[m] as int);
    }
    assert forall|m: int| 0 <= m < a.vertices@.len() implies a.vertices@[m] == b.vertices@[m] by {
        assert(a@.vertices[m] == a.vertices@[m]@);
        assert(b@.vertices[m] == b.vertices@[m]@);
    }
    assert forall|m: int| 0 <= m < a.uvs@.len() implies a.uvs@[m] == b.uvs@[m] by {
        assert(a@.uvs[m] == a.uvs@[m]@);
        assert(b@.uvs[m] == b.uvs@[m]@);
    }
    assert(a.indices@ =~= b.indices@);
    assert(a.vertices@ =~= b.vertices@);
    assert(a.uvs@ =~= b.uvs@);
}

/// The cross product of two integer vectors.
pub open spec fn cross(a: (int, int, int), b: (int, int, int)) -> (int, int, int) {
    (a.1 * b.2 - a.2 * b.1, a.2 * b.0 - a.0 * b.2, a.0 * b.1 - a.1 * b.0)
}

/// `a - b`.
pub open spec fn sub3(a: (int, int, int), b: (int, int, int)) -> (int, int, int) {
    (a.0 - b.0, a.1 - b.1, a.2 - b.2)
}

/// The quad of every direction lies on the side of the unit cube that the
/// direction points to, and both of its triangles (corners 0, 1, 2 and
/// 2, 1, 3) wind counter-clockwise seen from outside: their normal is the
/// direction's unit vector.
pub proof fn lemma_outward_winding(d: Direction)
    ensures
        forall|j: int|
            0 <= j < 4 ==> {
                let c = #[trigger] corner(d, j);
                let n = unit_offset(d);
                &&& 0 <= c.0 <= 1 && 0 <= c.1 <= 1 && 0 <= c.2 <= 1
                &&& n.0 != 0 ==> c.0 == (if n.0 > 0 {
                    1int
                } else {
                    0
                })
                &&& n.1 != 0 ==> c.1 == (if n.1 > 0 {
                    1int
                } else {
                    0
                })
                &&& n.2 != 0 ==> c.2 == (if n.2 > 0 {
                    1int
                } else {
                    0
                })
            },
        cross(sub3(corner(d, 1), corner(d, 0)), sub3(corner(d, 2), corner(d, 0))) == unit_offset(d),
        cross(sub3(corner(d, 1), corner(d, 2)), sub3(corner(d, 3), corner(d, 2))) == unit_offset(d),
{
    let (e1, e2) = (sub3(corner(d, 1), corner(d, 0)), sub3(corner(d, 2), corner(d, 0)));
    let (g1, g2) = (sub3(corner(d, 1), corner(d, 2)), sub3(corner(d, 3), corner(d, 2)));
    match d {
        Direction::Left => {
            assert(e1 == (0int, 0int, -1int) && e2 == (0int, 1int, 0int));
            assert(g1 == (0int, -1int, -1int) && g2 == (0int, 0int, -1int));
            assert(cross(e1, e2) == (1int, 0int, 0int)) by (nonlinear_arith)
                requires
                    e1 == (0int, 0int, -1int),
                    e2 == (0int, 1int, 0int),
            ;
            assert(cross(g1, g2) == (1int, 0int, 0int)) by (nonlinear_arith)
                requires
                    g1 == (0int, -1int, -1int),
                    g2 == (0int, 0int, -1int),
            ;
        },
        Direction::Right => {
            assert(e1 == (0int, 0int, 1int) && e2 == (0int, 1int, 0int));
            assert(g1 == (0int, -1int, 1int) && g2 == (0int, 0int, 1int));
            assert(cross(e1, e2) == (-1int, 0int, 0int)) by (nonlinear_arith)
                requires
                    e1 == (0int, 0int, 1int),
                    e2 == (0int, 1int, 0int),
            ;
            assert(cross(g1, g2) == (-1int, 0int, 0int)) by (nonlinear_arith)
                requires
                    g1 == (0int, -1int, 1int),
                    g2 == (0int, 0int, 1int),
            ;
        },
        Direction::Up => {
            assert(e1 == (-1int, 0int, 0int) && e2 == (0int, 0int, 1int));
            assert(g1 == (-1int, 0int, -1int) && g2 == (-1int, 0int, 0int));
            assert(cross(e1, e2) == (0int, 1int, 0int)) by (nonlinear_arith)
                requires
                    e1 == (-1int, 0int, 0int),
                    e2 == (0int, 0int, 1int),
            ;
            assert(cross(g1, g2) == (0int, 1int, 0int)) by (nonlinear_arith)
                requires
                    g1 == (-1int, 0int, -1int),
                    g2 == (-1int, 0int, 0int),
            ;
        },
        Direction::Down => {
            assert(e1 == (-1int, 0int, 0int) && e2 == (0int, 0int, -1int));
            assert(g1 == (-1int, 0int, 1int) && g2 == (-1int, 0int, 0int));
            assert(cross(e1, e2) == (0int, -1int, 0int)) by (nonlinear_arith)
                requires
                    e1 == (-1int, 0int, 0int),
                    e2 == (0int, 0int, -1int),
            ;
            assert(cross(g1, g2) == (0int, -1int, 0int)) by (nonlinear_arith)
                requires
                    g1 == (-1int, 0int, 1int),
                    g2 == (-1int, 0int, 0int),
            ;
        },
        Direction::Back => {
            assert(e1 == (1int, 0int, 0int) && e2 == (0int, 1int, 0int));
            assert(g1 == (1int, -1int, 0int) && g2 == (1int, 0int, 0int));
            assert(cross(e1, e2) == (0int, 0int, 1int)) by (nonlinear_arith)
                requires
                    e1 == (1int, 0int, 0int),
                    e2 == (0int, 1int, 0int),
            ;
            assert(cross(g1, g2) == (0int, 0int, 1int)) by (nonlinear_arith)
                requires
                    g1 == (1int, -1int, 0int),
                    g2 == (1int, 0int, 0int),
            ;
        },
        Direction::Front => {
            assert(e1 == (-1int, 0int, 0int) && e2 == (0int, 1int, 0int));
            assert(g1 == (-1int, -1int, 0int) && g2 == (-1int, 0int, 0int));
            assert(cross(e1, e2) == (0int, 0int, -1int)) by (nonlinear_arith)
                requires
                    e1 == (-1int, 0int, 0int),
                    e2 == (0int, 1int, 0int),
            ;
            assert(cross(g1, g2) == (0int, 0int, -1int)) by (nonlinear_arith)
                requires
                    g1 == (-1int, -1int, 0int),
                    g2 == (-1int, 0int, 0int),
            ;
        },
    }
}

/// Both triangles of every quad of a mesh wind counter-clockwise seen from
/// outside the cell: the normal of the triangle with indices `6k`, `6k+1`,
/// `6k+2`, and of the one with `6k+3`, `6k+4`, `6k+5`, is the unit vector of
/// the `k`-th face's direction.
pub proof fn lemma_mesh_winding(faces: Seq<Face>, k: int)
    requires
        0 <= k < faces.len(),
    ensures
        ({
            let mesh = mesh_of(faces);
            let tri = |t: int|
                (
                    mesh.vertices[mesh.indices[6 * k + 3 * t]],
                    mesh.vertices[mesh.indices[6 * k + 3 * t + 1]],
                    mesh.vertices[mesh.indices[6 * k + 3 * t + 2]],
                );
            &&& cross(sub3(tri(0).1, tri(0).0), sub3(tri(0).2, tri(0).0)) == unit_offset(
                faces[k].direction,
            )
            &&& cross(sub3(tri(1).1, tri(1).0), sub3(tri(1).2, tri(1).0)) == unit_offset(
                faces[k].direction,
            )
        }),
{
    let mesh = mesh_of(faces);
    let f = faces[k];
    let d = f.direction;
    lemma_outward_winding(d);
    assert forall|j: int| 0 <= j < 6 implies #[trigger] mesh.indices[6 * k + j] == 4 * k
        + quad_pattern(j) by {
        assert((6 * k + j) / 6 == k);
        assert((6 * k + j) % 6 == j);
    }
    assert forall|j: int| 0 <= j < 4 implies #[trigger] mesh.vertices[4 * k + j] == face_vertex(
        f,
        j,
    ) by {
        assert((4 * k + j) / 4 == k);
        assert((4 * k + j) % 4 == j);
    }
    let v = |j: int| face_vertex(f, j);
    assert(mesh.vertices[mesh.indices[6 * k]] == v(0));
    assert(mesh.vertices[mesh.indices[6 * k + 1]] == v(1));
    assert(mesh.vertices[mesh.indices[6 * k + 2]] == v(2));
    assert(mesh.vertices[mesh.indices[6 * k + 3]] == v(2));
    assert(mesh.vertices[mesh.indices[6 * k + 4]] == v(1));
    assert(mesh.vertices[mesh.indices[6 * k + 5]] == v(3));
    assert(sub3(v(1), v(0)) == sub3(corner(d, 1), corner(d, 0)));
    assert(sub3(v(2), v(0)) == sub3(corner(d, 2), corner(d, 0)));
    assert(sub3(v(1), v(2)) == sub3(corner(d, 1), corner(d, 2)));
    assert(sub3(v(3), v(2)) == sub3(corner(d, 3), corner(d, 2)));
}

/// 1 for each end of `[0, size)` that `k` is at.
spec fn ends_at(k: int, size: int) -> int {
    (if k == 0 {
        1int
    } else {
        0
    }) + (if k == size - 1 {
        1int
    } else {
        0
    })
}

/// In a chunk whose every cell holds a voxel, exactly the cells inside it are
/// occupied.
proof fn lemma_full_occupied(v: ChunkView)
    requires
        v.wf(),
        forall|i: int| 0 <= i < v.cells.len() ==> v.cells[i],
    ensures
        forall|q: (int, int, int)| #[trigger] v.occupied(q) == v.in_bounds(q),
{
    assert forall|q: (int, int, int)| #[trigger] v.occupied(q) == v.in_bounds(q) by {
        if v.in_bounds(q) {
            lemma_index_in_range(v, q);
        }
    }
}

/// In a full chunk, a cell shows one face for each side of the chunk that it
/// touches.
proof fn lemma_full_cell_count(v: ChunkView, p: (int, int, int))
    requires
        forall|q: (int, int, int)| #[trigger] v.occupied(q) == v.in_bounds(q),
        v.in_bounds(p),
    ensures
        cell_faces(v, p, DIRECTION_COUNT as nat).len() == ends_at(p.0, v.size_x as int) + ends_at(
            p.1,
            v.size_y as int,
        ) + ends_at(p.2, v.size_z as int),
{
    reveal_with_fuel(cell_faces, 7);
    assert(v.occupied(step(p, Direction::Left)) == (p.0 + 1 < v.size_x));
    assert(v.occupied(step(p, Direction::Right)) == (p.0 >= 1));
    assert(v.occupied(step(p, Direction::Up)) == (p.1 + 1 < v.size_y));
    assert(v.occupied(step(p, Direction::Down)) == (p.1 >= 1));
    assert(v.occupied(step(p, Direction::Back)) == (p.2 + 1 < v.size_z));
    assert(v.occupied(step(p, Direction::Front)) == (p.2 >= 1));
}

/// In a full chunk, the first `n` cells of an inner row show two faces at the
/// row's ends and `g` for each cell, where `g` counts the other sides of the
/// chunk that the row touches.
proof fn lemma_full_row_count(v: ChunkView, y: int, z: int, n: nat)
    requires
        forall|q: (int, int, int)| #[trigger] v.occupied(q) == v.in_bounds(q),
        0 <= y < v.size_y,
        0 <= z < v.size_z,
        1 <= n <= v.size_x,
    ensures
        row_faces(v, y, z, n).len() == 1 + (if n == v.size_x {
            1int
        } else {
            0
        }) + n * (ends_at(y, v.size_y as int) + ends_at(z, v.size_z as int)),
    decreases n,
{
    let g = ends_at(y, v.size_y as int) + ends_at(z, v.size_z as int);
    lemma_full_cell_count(v, (n - 1, y, z));
    if n > 1 {
        lemma_full_row_count(v, y, z, (n - 1) as nat);
        assert((n - 1) * g + g == n * g) by (nonlinear_arith);
    } else {
        assert(row_faces(v, y, z, 0).len() == 0);
    }
}

/// In a full chunk, the first `m` rows of a layer.
proof fn lemma_full_layer_count(v: ChunkView, z: int, m: nat)
    requires
        forall|q: (int, int, int)| #[trigger] v.occupied(q) == v.in_bounds(q),
        v.size_x >= 1,
        0 <= z < v.size_z,
        1 <= m <= v.size_y,
    ensures
        layer_faces(v, z, m).len() == 2 * m + v.size_x * (1 + (if m == v.size_y {
            1int
        } else {
            0
        })) + v.size_x * m * ends_at(z, v.size_z as int),
    decreases m,
{
    let (sx, h) = (v.size_x as int, ends_at(z, v.size_z as int));
    let e = ends_at(m - 1, v.size_y as int);
    lemma_full_row_count(v, m - 1, z, v.size_x);
    assert(sx * (e + h) == sx * e + sx * h) by (nonlinear_arith);
    if m > 1 {
        lemma_full_layer_count(v, z, (m - 1) as nat);
        assert(sx * (m - 1) * h + sx * h == sx * m * h) by (nonlinear_arith);
    } else {
        assert(layer_faces(v, z, 0).len() == 0);
        assert(sx * 1 * h == sx * h) by (nonlinear_arith);
    }
}

/// In a full chunk, the first `l` layers.
proof fn lemma_full_layers_count(v: ChunkView, l: nat)
    requires
        forall|q: (int, int, int)| #[trigger] v.occupied(q) == v.in_bounds(q),
        v.size_x >= 1,
        v.size_y >= 1,
        1 <= l <= v.size_z,
    ensures
        layers_faces(v, l).len() == l * (2 * v.size_x + 2 * v.size_y) + v.size_x * v.size_y * (1
            + (if l == v.size_z {
            1int
        } else {
            0
        })),
    decreases l,
{
    let (sx, sy) = (v.size_x as int, v.size_y as int);
    let e = ends_at(l - 1, v.size_z as int);
    let t = if l == v.size_z {
        1int
    } else {
        0
    };
    lemma_full_layer_count(v, l - 1, v.size_y);
    assert(sx * sy * (1 + t) == sx * sy + sx * sy * t) by (nonlinear_arith);
    if l > 1 {
        lemma_full_layers_count(v, (l - 1) as nat);
        assert(sx * sy * (1 + 0) == sx * sy);
        assert((l - 1) * (2 * sx + 2 * sy) + (2 * sy + 2 * sx) == l * (2 * sx + 2 * sy))
            by (nonlinear_arith);
    } else {
        assert(layers_faces(v, 0).len() == 0);
        assert(l * (2 * sx + 2 * sy) == 2 * sx + 2 * sy) by (nonlinear_arith)
            requires
                l == 1,
        ;
    }
}

/// A chunk of `a * b * c` cells that all hold voxels shows exactly the faces
/// of its outer shell, `2 * (a*b + b*c + a*c)`: every inner face is culled.
/// (With an extent of 0 there are no cells and no faces.)
pub proof fn lemma_full_chunk(v: ChunkView)
    requires
        v.wf(),
        v.size_x >= 1 && v.size_y >= 1 && v.size_z >= 1,
        forall|i: int| 0 <= i < v.cells.len() ==> v.cells[i],
    ensures
        exposed_faces(v).len() == 2 * (v.size_x * v.size_y + v.size_y * v.size_z + v.size_x
            * v.size_z),
{
    let (sx, sy, sz) = (v.size_x as int, v.size_y as int, v.size_z as int);
    lemma_full_occupied(v);
    lemma_full_layers_count(v, v.size_z);
    assert(sz * (2 * sx + 2 * sy) + sx * sy * 2 == 2 * (sx * sy + sy * sz + sx * sz))
        by (nonlinear_arith);
}

/// A cube of `n * n * n` cells that all hold voxels meshes to `6 * n * n`
/// quads: `24 * n * n` vertices and `36 * n * n` indices.
pub proof fn lemma_full_cube(v: ChunkView, n: nat)
    requires
        v.wf(),
        v.size_x == n && v.size_y == n && v.size_z == n,
        forall|i: int| 0 <= i < v.cells.len() ==> v.cells[i],
    ensures
        exposed_faces(v).len() == 6 * n * n,
        mesh_of(exposed_faces(v)).vertices.len() == 24 * n * n,
        mesh_of(exposed_faces(v)).uvs.len() == 24 * n * n,
        mesh_of(exposed_faces(v)).indices.len() == 36 * n * n,
{
    if n == 0 {
        assert(v.volume() == 0);
        lemma_empty_chunk(v);
    } else {
        lemma_full_chunk(v);
    }
    assert(2 * (n * n + n * n + n * n) == 6 * n * n) by (nonlinear_arith);
    assert(4 * (6 * n * n) == 24 * n * n) by (nonlinear_arith);
    assert(6 * (6 * n * n) == 36 * n * n) by (nonlinear_arith);
}

} // verus!
