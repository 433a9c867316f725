use vstd::prelude::*;

use crate::direction::{step, Coords, Direction, DIRECTION_COUNT};
use crate::mesh::{
    cell_faces, exposed, exposed_faces, layer_faces, layers_faces, lemma_cell_faces_len,
    lemma_empty_cell_faces, mesh_of, push_quad, row_faces, Face, MeshData,
};

verus! {

/// The extent along X of a chunk made by `Chunk::new`.
pub const CHUNK_SIZE_X: u32 = 8;

/// The extent along Y of a chunk made by `Chunk::new`.
pub const CHUNK_SIZE_Y: u32 = 8;

/// The extent along Z of a chunk made by `Chunk::new`.
pub const CHUNK_SIZE_Z: u32 = 8;

/// The largest number of cells a chunk may hold: every index of its mesh
/// (at most 24 vertices per cell) then fits in a `u32`.
pub const MAX_VOLUME: u64 = 178956970;

/// A present block. It carries no payload.
#[derive(Clone, Copy, Debug, PartialEq, Eq, Structural)]
pub struct Voxel {}

/// Why a chunk could not be built.
#[derive(Clone, Copy, Debug, PartialEq, Eq, Structural)]
pub enum ChunkError {
    /// The occupancy data does not hold exactly one entry per cell.
    InvalidVoxelDataLength,
}

/// The number of cells of a chunk with the given extents.
pub open spec fn volume(size_x: int, size_y: int, size_z: int) -> int {
    size_x * size_y * size_z
}

/// A chunk as a mathematical value: its extents and, for each linear index,
/// whether that cell holds a voxel.
pub struct ChunkView {
    pub size_x: nat,
    pub size_y: nat,
    pub size_z: nat,
    pub cells: Seq<bool>,
}

impl ChunkView {
    pub open spec fn volume(self) -> int {
        volume(self.size_x as int, self.size_y as int, self.size_z as int)
    }

    /// One occupancy entry per cell, and no more cells than a mesh can index.
    pub open spec fn wf(self) -> bool {
        &&& self.cells.len() == self.volume()
        &&& self.volume() <= MAX_VOLUME
    }

    pub open spec fn in_bounds(self, p: (int, int, int)) -> bool {
        &&& 0 <= p.0 < self.size_x
        &&& 0 <= p.1 < self.size_y
        &&& 0 <= p.2 < self.size_z
    }

    /// The linear index of a cell: `x + SIZE_X*y + SIZE_X*SIZE_Y*z`.
    pub open spec fn index_of(self, p: (int, int, int)) -> int {
        p.0 + self.size_x * p.1 + self.size_x * self.size_y * p.2
    }

    /// Whether `p` lies in the chunk and holds a voxel. Everything outside
    /// the chunk counts as empty.
    pub open spec fn occupied(self, p: (int, int, int)) -> bool {
        &&& self.in_bounds(p)
        &&& 0 <= self.index_of(p) < self.cells.len()
        &&& self.cells[self.index_of(p)]
    }

    /// What a bounds-checked query at `p` returns: nothing outside the chunk,
    /// else the cell's content.
    pub open spec fn voxel_at(self, p: (int, int, int)) -> Option<Option<Voxel>> {
        if self.in_bounds(p) {
            Some(
                if self.occupied(p) {
                    Some(Voxel {  })
                } else {
                    None
                },
            )
        } else {
            None
        }
    }
}

/// Every in-bounds cell has a linear index inside the chunk's storage.
pub proof fn lemma_index_in_range(v: ChunkView, p: (int, int, int))
    requires
        v.in_bounds(p),
    ensures
        0 <= v.index_of(p) < v.volume(),
{
    let (sx, sy, sz) = (v.size_x as int, v.size_y as int, v.size_z as int);
    let (x, y, z) = p;
    assert(0 <= sx * y) by (nonlinear_arith)
        requires
            0 <= y,
            0 <= sx,
    ;
    assert(0 <= sx * sy * z) by (nonlinear_arith)
        requires
            0 <= z,
            0 <= sx,
            0 <= sy,
    ;
    assert(x + sx * y < sx * (y + 1)) by (nonlinear_arith)
        requires
            x < sx,
    ;
    assert(sx * (y + 1) <= sx * sy) by (nonlinear_arith)
        requires
            y + 1 <= sy,
            0 <= sx,
    ;
    assert(sx * sy * z + sx * sy <= sx * sy * sz) by (nonlinear_arith)
        requires
            z + 1 <= sz,
            0 <= sx,
            0 <= sy,
    ;
}

/// In a chunk with no empty extent, each extent and each partial product of
/// extents is at most the volume.
pub proof fn lemma_extents_within_volume(v: ChunkView)
    requires
        v.size_x >= 1,
        v.size_y >= 1,
        v.size_z >= 1,
    ensures
        v.size_x <= v.size_x * v.size_y <= v.volume(),
        v.size_y <= v.volume(),
        v.size_z <= v.volume(),
{
    let (sx, sy, sz) = (v.size_x as int, v.size_y as int, v.size_z as int);
    assert(sx <= sx * sy <= sx * sy * sz) by (nonlinear_arith)
        requires
            sx >= 1,
            sy >= 1,
            sz >= 1,
    ;
    assert(sy <= sx * sy * sz) by (nonlinear_arith)
        requires
            sx >= 1,
            sy >= 1,
            sz >= 1,
    ;
    assert(sz <= sx * sy * sz) by (nonlinear_arith)
        requires
            sx >= 1,
            sy >= 1,
            sz >= 1,
    ;
}

/// A fixed-size three-dimensional grid of cells, each empty or holding a
/// voxel, stored in one sequence addressed by linear index.
pub struct Chunk {
    size_x: u32,
    size_y: u32,
    size_z: u32,
    chunk_data: Vec<Option<Voxel>>,
}

impl View for Chunk {
    type V = ChunkView;

    closed spec fn view(&self) -> ChunkView {
        ChunkView {
            size_x: self.size_x as nat,
            size_y: self.size_y as nat,
            size_z: self.size_z as nat,
            cells: occupancy(self.chunk_data@),
        }
    }
}

/// Which entries of the occupancy data hold a voxel.
pub open spec fn occupancy(data: Seq<Option<Voxel>>) -> Seq<bool> {
    data.map_values(|c: Option<Voxel>| c is Some)
}

impl Chunk {
    #[verifier::type_invariant]
    spec fn inv(self) -> bool {
        self@.wf()
    }

    /// Builds a chunk of `CHUNK_SIZE_X * CHUNK_SIZE_Y * CHUNK_SIZE_Z` cells;
    /// `data` must hold one entry per cell, in linear index order.
    pub fn new(data: Vec<Option<Voxel>>) -> (r: Result<Chunk, ChunkError>)
        ensures
            r is Ok <==> data@.len() == volume(
                CHUNK_SIZE_X as int,
                CHUNK_SIZE_Y as int,
                CHUNK_SIZE_Z as int,
            ),
            r is Ok ==> r->Ok_0@ == (ChunkView {
                size_x: CHUNK_SIZE_X as nat,
                size_y: CHUNK_SIZE_Y as nat,
                size_z: CHUNK_SIZE_Z as nat,
                cells: occupancy(data@),
            }),
            r is Err ==> r->Err_0 == ChunkError::InvalidVoxelDataLength,
    {
        Chunk::with_size(CHUNK_SIZE_X, CHUNK_SIZE_Y, CHUNK_SIZE_Z, data)
    }

    /// Builds a chunk of `size_x * size_y * size_z` cells; `data` must hold
    /// one entry per cell, in linear index order.
    pub fn with_size(size_x: u32, size_y: u32, size_z: u32, data: Vec<Option<Voxel>>) -> (r:
        Result<Chunk, ChunkError>)
        requires
            volume(size_x as int, size_y as int, size_z as int) <= MAX_VOLUME,
        ensures
            r is Ok <==> data@.len() == volume(size_x as int, size_y as int, size_z as int),
            r is Ok ==> r->Ok_0@ == (ChunkView {
                size_x: size_x as nat,
                size_y: size_y as nat,
                size_z: size_z as nat,
                cells: occupancy(data@),
            }),
            r is Err ==> r->Err_0 == ChunkError::InvalidVoxelDataLength,
    {
        assert(size_x as int * size_y as int <= 0xffff_ffffu64 * 0xffff_ffffu64) by (
        nonlinear_arith)
            requires
                size_x <= 0xffff_ffffu64,
                size_y <= 0xffff_ffffu64,
        ;
        let xy: u64 = size_x as u64 * size_y as u64;
        let total: u64 = if size_z == 0 {
            assert(size_x as int * size_y as int * size_z as int == 0) by (nonlinear_arith)
                requires
                    size_z == 0,
            ;
            0
        } else {
            assert(xy <= xy * size_z) by (nonlinear_arith)
                requires
                    size_z >= 1,
                    xy >= 0,
            ;
            xy * size_z as u64
        };
        assert(total == volume(size_x as int, size_y as int, size_z as int));
        if data.len() as u64 == total {
            Ok(Chunk { size_x, size_y, size_z, chunk_data: data })
        } else {
            Err(ChunkError::InvalidVoxelDataLength)
        }
    }

    pub fn size_x(&self) -> (r: u32)
        ensures
            r == self@.size_x,
    {
        self.size_x
    }

    pub fn size_y(&self) -> (r: u32)
        ensures
            r == self@.size_y,
    {
        self.size_y
    }

    pub fn size_z(&self) -> (r: u32)
        ensures
            r == self@.size_z,
    {
        self.size_z
    }

    /// Whether the cell at the in-range linear index `i` holds a voxel.
    pub fn is_occupied_at(&self, i: usize) -> (r: bool)
        requires
            i < self@.cells.len(),
        ensures
            r == self@.cells[i as int],
    {
        self.chunk_data[i].is_some()
    }

    /// The content of the cell at `coordinates`: `None` when it lies outside
    /// the chunk, else `Some` of the cell, which is empty or holds a voxel.
    pub fn get_voxel(&self, coordinates: Coords) -> (r: Option<Option<Voxel>>)
        ensures
            r == self@.voxel_at(coordinates@),
    {
        proof {
            use_type_invariant(self);
        }
        if coordinates.x < 0 || coordinates.x as u32 >= self.size_x || coordinates.y < 0
            || coordinates.y as u32 >= self.size_y || coordinates.z < 0 || coordinates.z as u32
            >= self.size_z {
            None
        } else {
            let ghost p = coordinates@;
            proof {
                lemma_index_in_range(self@, p);
                lemma_extents_within_volume(self@);
            }
            let x = coordinates.x as usize;
            let y = coordinates.y as usize;
            let z = coordinates.z as usize;
            let sx = self.size_x as usize;
            let sxy = sx * self.size_y as usize;
            assert(0 <= sx * y && 0 <= sxy * z) by (nonlinear_arith)
                requires
                    0 <= sx,
                    0 <= sxy,
                    0 <= y,
                    0 <= z,
            ;
            assert(sxy * z == sx * self.size_y * z) by (nonlinear_arith)
                requires
                    sxy == sx * self.size_y,
            ;
            let i = x + sx * y + sxy * z;
            Some(self.chunk_data[i])
        }
    }

    /// The content of the cell one step from `coordinates` along `direction`,
    /// as `get_voxel` reports it.
    pub fn get_neighbour(&self, coordinates: Coords, direction: &Direction) -> (r: Option<
        Option<Voxel>,
    >)
        ensures
            r == self@.voxel_at(step(coordinates@, *direction)),
    {
        let offset = direction.facing();
        let x = coordinates.x.checked_add(offset.x);
        let y = coordinates.y.checked_add(offset.y);
        let z = coordinates.z.checked_add(offset.z);
        match (x, y, z) {
            (Some(x), Some(y), Some(z)) => self.get_voxel(Coords { x, y, z }),
            _ => {
                proof {
                    use_type_invariant(self);
                    if self@.in_bounds(step(coordinates@, *direction)) {
                        lemma_extents_within_volume(self@);
                    }
                }
                None
            },
        }
    }

    /// The mesh of the chunk's visible faces. Cells are visited in increasing
    /// linear index order and, within a cell, the six directions in their
    /// fixed order; each side of a voxel whose neighbour along that side is
    /// empty (or outside the chunk) becomes one quad, and every other side is
    /// culled.
    pub fn generate_mesh(&self) -> (r: MeshData)
        ensures
            self@.wf(),
            r@ == mesh_of(exposed_faces(self@)),
            r.vertex_amount == r.vertices@.len(),
    {
        proof {
            use_type_invariant(self);
        }
        let ghost v = self@;
        let mut mesh = MeshData {
            indices: Vec::new(),
            vertices: Vec::new(),
            uvs: Vec::new(),
            vertex_amount: 0,
        };
        let ghost mut faces: Seq<Face> = Seq::empty();
        proof {
            assert(mesh@.indices =~= mesh_of(faces).indices);
            assert(mesh@.vertices =~= mesh_of(faces).vertices);
            assert(mesh@.uvs =~= mesh_of(faces).uvs);
        }
        let sx = self.size_x as usize;
        let sy = self.size_y as usize;
        let sz = self.size_z as usize;
        let mut i: usize = 0;
        let mut z: usize = 0;
        while z < sz
            invariant
                v == self@,
                v.wf(),
                sx == v.size_x,
                sy == v.size_y,
                sz == v.size_z,
                0 <= z <= sz,
                i == sx * sy * z,
                faces == layers_faces(v, z as nat),
                mesh@ == mesh_of(faces),
                faces.len() <= 6 * i,
            decreases sz - z,
        {
            let ghost layer_start = faces;
            let mut y: usize = 0;
            while y < sy
                invariant
                    v == self@,
                    v.wf(),
                    sx == v.size_x,
                    sy == v.size_y,
                    sz == v.size_z,
                    0 <= z < sz,
                    0 <= y <= sy,
                    i == sx * sy * z + sx * y,
                    layer_start == layers_faces(v, z as nat),
                    faces == layer_start + layer_faces(v, z as int, y as nat),
                    mesh@ == mesh_of(faces),
                    faces.len() <= 6 * i,
                decreases sy - y,
            {
                let ghost row_start = faces;
                let mut x: usize = 0;
                while x < sx
                    invariant
                        v == self@,
                        v.wf(),
                        sx == v.size_x,
                        sy == v.size_y,
                        sz == v.size_z,
                        0 <= z < sz,
                        0 <= y < sy,
                        0 <= x <= sx,
                        i == sx * sy * z + sx * y + x,
                        row_start == layer_start + layer_faces(v, z as int, y as nat),
                        faces == row_start + row_faces(v, y as int, z as int, x as nat),
                        mesh@ == mesh_of(faces),
                        faces.len() <= 6 * i,
                    decreases sx - x,
                {
                    let ghost p = (x as int, y as int, z as int);
                    proof {
                        lemma_index_in_range(v, p);
                        lemma_extents_within_volume(v);
                    }
                    let ghost cell_start = faces;
                    if self.chunk_data[i].is_some() {
                        let coords = Coords { x: x as i32, y: y as i32, z: z as i32 };
                        let mut d: usize = 0;
                        while d < DIRECTION_COUNT
                            invariant
                                v == self@,
                                v.wf(),
                                v.occupied(p),
                                coords@ == p,
                                p == (x as int, y as int, z as int),
                                0 <= d <= DIRECTION_COUNT,
                                i == v.index_of(p),
                                i < v.volume(),
                                v.volume() <= crate::chunk::MAX_VOLUME,
                                x < sx <= v.volume(),
                                y < sy <= v.volume(),
                                z < sz <= v.volume(),
                                faces == cell_start + cell_faces(v, p, d as nat),
                                mesh@ == mesh_of(faces),
                                faces.len() <= 6 * i + d,
                            decreases DIRECTION_COUNT - d,
                        {
                            let direction = Direction::at(d);
                            let hidden = match self.get_neighbour(coords, &direction) {
                                Some(Some(_)) => true,
                                _ => false,
                            };
                            if !hidden {
                                push_quad(
                                    &mut mesh,
                                    coords.x,
                                    coords.y,
                                    coords.z,
                                    direction,
                                    Ghost(faces),
                                );
                                proof {
                                    faces = faces.push(Face { cell: p, direction });
                                }
                            }
                            proof {
                                assert(exposed(v, p, direction) == !hidden);
                                assert(faces =~= cell_start + cell_faces(v, p, (d + 1) as nat));
                            }
                            d = d + 1;
                        }
                    } else {
                        proof {
                            lemma_empty_cell_faces(v, p, DIRECTION_COUNT as nat);
                            assert(faces =~= cell_start + cell_faces(
                                v,
                                p,
                                DIRECTION_COUNT as nat,
                            ));
                        }
                    }
                    proof {
                        lemma_cell_faces_len(v, p, DIRECTION_COUNT as nat);
                        assert(faces =~= row_start + row_faces(
                            v,
                            y as int,
                            z as int,
                            (x + 1) as nat,
                        ));
                    }
                    x = x + 1;
                    i = i + 1;
                }
                proof {
                    assert(sx * y + sx == sx * (y + 1)) by (nonlinear_arith);
                    assert(faces =~= layer_start + layer_faces(v, z as int, (y + 1) as nat));
                }
                y = y + 1;
            }
            proof {
                assert(sx * sy * z + sx * sy == sx * sy * (z + 1)) by (nonlinear_arith);
                assert(faces =~= layers_faces(v, (z + 1) as nat));
            }
            z = z + 1;
        }
        assert(mesh@.vertices.len() == 4 * faces.len());
        mesh.vertex_amount = mesh.vertices.len() as u32;
        mesh
    }
}

} // verus!
