use voxel_game::chunk::{Chunk, Voxel};
use voxel_game::direction::Direction;
use voxel_game::mesh::{MeshData, Uv, Vertex};
use voxel_game::primitives::cube;
use voxel_game::settings::{
    command_for_key, InputKey, KeyAction, PolygonMode, WindowCommand, WindowSettings,
};

fn chunk_from(sx: u32, sy: u32, sz: u32, occupied: &[usize]) -> Chunk {
    let mut data = vec![None; (sx * sy * sz) as usize];
    for &i in occupied {
        data[i] = Some(Voxel {});
    }
    Chunk::with_size(sx, sy, sz, data).unwrap()
}

fn full_chunk(n: u32) -> Chunk {
    let all: Vec<usize> = (0..(n * n * n) as usize).collect();
    chunk_from(n, n, n, &all)
}

fn quads(mesh: &MeshData) -> usize {
    mesh.indices.len() / 6
}

fn check_indices(mesh: &MeshData) {
    assert_eq!(mesh.indices.len() % 6, 0);
    assert_eq!(mesh.indices.len() % 3, 0);
    assert_eq!(mesh.vertices.len(), mesh.uvs.len());
    assert_eq!(mesh.vertex_amount as usize, mesh.vertices.len());
    for &i in &mesh.indices {
        assert!((i as usize) < mesh.vertices.len());
    }
}

#[test]
fn single_cell_chunk_gives_cube() {
    let mesh = chunk_from(1, 1, 1, &[0]).generate_mesh();
    assert_eq!(quads(&mesh), 6);
    assert_eq!(mesh.vertices.len(), 24);
    assert_eq!(mesh.indices.len(), 36);
    check_indices(&mesh);
}

#[test]
fn two_cells_in_a_row_cull_shared_faces() {
    let mesh = chunk_from(2, 1, 1, &[0, 1]).generate_mesh();
    assert_eq!(quads(&mesh), 10);
    assert_eq!(mesh.vertices.len(), 40);
    assert_eq!(mesh.indices.len(), 60);
    check_indices(&mesh);
    // No quad lies in the plane x = 1 between the two cells.
    for q in 0..quads(&mesh) {
        let all_on_x1 = (0..4).all(|j| mesh.vertices[4 * q + j].x == 1);
        assert!(!all_on_x1);
    }
}

#[test]
fn isolated_cell_in_larger_chunk_gives_cube() {
    let mesh = chunk_from(2, 2, 2, &[0]).generate_mesh();
    assert_eq!(quads(&mesh), 6);
    assert_eq!(mesh.vertices.len(), 24);
    assert_eq!(mesh.indices.len(), 36);
    check_indices(&mesh);
}

#[test]
fn empty_chunk_gives_empty_mesh() {
    let mesh = chunk_from(8, 8, 8, &[]).generate_mesh();
    assert_eq!(mesh.vertices.len(), 0);
    assert_eq!(mesh.indices.len(), 0);
    assert_eq!(mesh.uvs.len(), 0);
    assert_eq!(mesh.vertex_amount, 0);
    let mesh = Chunk::with_size(0, 3, 3, Vec::new()).unwrap().generate_mesh();
    assert_eq!(mesh.vertices.len(), 0);
    assert_eq!(mesh.indices.len(), 0);
}

#[test]
fn full_chunk_gives_shell_only() {
    for n in 1..=8u32 {
        let mesh = full_chunk(n).generate_mesh();
        let n2 = (n * n) as usize;
        assert_eq!(quads(&mesh), 6 * n2);
        assert_eq!(mesh.vertices.len(), 24 * n2);
        assert_eq!(mesh.indices.len(), 36 * n2);
        check_indices(&mesh);
    }
}

#[test]
fn full_box_gives_its_surface() {
    let all: Vec<usize> = (0..24).collect();
    let mesh = chunk_from(2, 3, 4, &all).generate_mesh();
    assert_eq!(quads(&mesh), 2 * (2 * 3 + 3 * 4 + 2 * 4));
    check_indices(&mesh);
}

#[test]
fn default_size_full_chunk() {
    let chunk = Chunk::new(vec![Some(Voxel {}); 512]).unwrap();
    let mesh = chunk.generate_mesh();
    assert_eq!(quads(&mesh), 384);
    check_indices(&mesh);
}

#[test]
fn meshing_twice_gives_identical_output() {
    let chunk = chunk_from(3, 3, 3, &[0, 4, 5, 13, 20, 26]);
    let a = chunk.generate_mesh();
    let b = chunk.generate_mesh();
    assert_eq!(a.indices, b.indices);
    assert_eq!(a.vertices, b.vertices);
    assert_eq!(a.uvs, b.uvs);
    assert_eq!(a.vertex_amount, b.vertex_amount);
}

#[test]
fn single_cell_exact_layout() {
    // Cell (1, 0, 0) of a 2 x 1 x 1 chunk whose other cell is empty.
    let mesh = chunk_from(2, 1, 1, &[1]).generate_mesh();
    assert_eq!(quads(&mesh), 6);
    let v = |x, y, z| Vertex { x, y, z };
    // First face: +X, corners (1,0,1), (1,0,0), (1,1,1), (1,1,0) shifted by x = 1.
    assert_eq!(&mesh.vertices[0..4], &[v(2, 0, 1), v(2, 0, 0), v(2, 1, 1), v(2, 1, 0)]);
    // Second face: -X.
    assert_eq!(&mesh.vertices[4..8], &[v(1, 0, 0), v(1, 0, 1), v(1, 1, 0), v(1, 1, 1)]);
    assert_eq!(&mesh.indices[0..12], &[0, 1, 2, 2, 1, 3, 4, 5, 6, 6, 5, 7]);
    let uv = |u, v| Uv { u, v };
    for q in 0..6 {
        assert_eq!(&mesh.uvs[4 * q..4 * q + 4], &[uv(0, 1), uv(1, 1), uv(0, 0), uv(1, 0)]);
    }
}

#[test]
fn face_counter_drives_index_offset() {
    // Cells 0 and 1 of a 2 x 1 x 1 chunk: cell 0 shows 5 faces, so the first
    // face of cell 1 starts at vertex 20.
    let mesh = chunk_from(2, 1, 1, &[0, 1]).generate_mesh();
    assert_eq!(&mesh.indices[30..36], &[20, 21, 22, 22, 21, 23]);
    assert_eq!(mesh.vertices[20], Vertex { x: 2, y: 0, z: 1 });
}

#[test]
fn culled_face_absent_between_stacked_cells() {
    // (0,0,0) and (0,1,0) in a 1 x 2 x 1 chunk: the +Y face of the lower cell
    // and the -Y face of the upper one are culled.
    let mesh = chunk_from(1, 2, 1, &[0, 1]).generate_mesh();
    assert_eq!(quads(&mesh), 10);
    for q in 0..quads(&mesh) {
        let all_on_y1 = (0..4).all(|j| mesh.vertices[4 * q + j].y == 1);
        assert!(!all_on_y1);
    }
}

#[test]
fn unit_cube_primitive() {
    let mesh = cube();
    assert_eq!(mesh.vertices.len(), 24);
    assert_eq!(mesh.uvs.len(), 24);
    assert_eq!(mesh.indices.len(), 36);
    assert_eq!(mesh.vertex_amount, 24);
    let v = |x, y, z| Vertex { x, y, z };
    assert_eq!(&mesh.vertices[0..4], &[v(1, 0, 0), v(0, 0, 0), v(1, 1, 0), v(0, 1, 0)]);
    assert_eq!(&mesh.vertices[20..24], &[v(0, 1, 1), v(1, 1, 1), v(0, 1, 0), v(1, 1, 0)]);
    assert_eq!(&mesh.indices[30..36], &[20, 21, 22, 22, 21, 23]);
    check_indices(&mesh);
}

#[test]
fn wireframe_toggles() {
    let mut settings = WindowSettings::new();
    assert!(!settings.wireframe);
    assert_eq!(settings.toggle_wireframe(), PolygonMode::Line);
    assert!(settings.wireframe);
    assert_eq!(settings.toggle_wireframe(), PolygonMode::Fill);
    assert!(!settings.wireframe);
}

#[test]
fn key_commands() {
    assert_eq!(command_for_key(InputKey::Escape, KeyAction::Press), WindowCommand::Close);
    assert_eq!(command_for_key(InputKey::Y, KeyAction::Press), WindowCommand::ToggleWireframe);
    assert_eq!(command_for_key(InputKey::Y, KeyAction::Release), WindowCommand::Ignore);
    assert_eq!(command_for_key(InputKey::Escape, KeyAction::Repeat), WindowCommand::Ignore);
    assert_eq!(command_for_key(InputKey::Other, KeyAction::Press), WindowCommand::Ignore);
}

fn normal(a: Vertex, b: Vertex, c: Vertex) -> (i32, i32, i32) {
    let e1 = (b.x - a.x, b.y - a.y, b.z - a.z);
    let e2 = (c.x - a.x, c.y - a.y, c.z - a.z);
    (e1.1 * e2.2 - e1.2 * e2.1, e1.2 * e2.0 - e1.0 * e2.2, e1.0 * e2.1 - e1.1 * e2.0)
}

#[test]
fn triangles_face_outward() {
    let mesh = chunk_from(1, 1, 1, &[0]).generate_mesh();
    for q in 0..6 {
        let f = Direction::at(q).facing();
        for t in 0..2 {
            let i = |j: usize| mesh.indices[6 * q + 3 * t + j] as usize;
            let n = normal(mesh.vertices[i(0)], mesh.vertices[i(1)], mesh.vertices[i(2)]);
            assert_eq!(n, (f.x, f.y, f.z));
        }
    }
}
