use voxel_game::chunk::{Chunk, ChunkError, Voxel, CHUNK_SIZE_X, CHUNK_SIZE_Y, CHUNK_SIZE_Z};
use voxel_game::direction::{Coords, Direction};

fn filled(n: usize) -> Vec<Option<Voxel>> {
    vec![Some(Voxel {}); n]
}

#[test]
fn new_accepts_exact_volume() {
    let n = (CHUNK_SIZE_X * CHUNK_SIZE_Y * CHUNK_SIZE_Z) as usize;
    let chunk = Chunk::new(filled(n)).unwrap();
    assert_eq!(chunk.size_x(), 8);
    assert_eq!(chunk.size_y(), 8);
    assert_eq!(chunk.size_z(), 8);
}

#[test]
fn new_rejects_wrong_length() {
    assert_eq!(Chunk::new(filled(511)).err(), Some(ChunkError::InvalidVoxelDataLength));
    assert_eq!(Chunk::new(filled(513)).err(), Some(ChunkError::InvalidVoxelDataLength));
    assert_eq!(Chunk::new(Vec::new()).err(), Some(ChunkError::InvalidVoxelDataLength));
}

#[test]
fn with_size_rejects_wrong_length() {
    assert_eq!(
        Chunk::with_size(2, 1, 1, filled(3)).err(),
        Some(ChunkError::InvalidVoxelDataLength)
    );
    assert!(Chunk::with_size(2, 1, 1, filled(2)).is_ok());
    assert!(Chunk::with_size(0, 4, 4, Vec::new()).is_ok());
}

#[test]
fn get_voxel_uses_linear_index() {
    // 2 x 3 x 4 chunk, only linear index 1 + 2*2 + 6*3 = 23 occupied.
    let mut data = vec![None; 24];
    data[23] = Some(Voxel {});
    let chunk = Chunk::with_size(2, 3, 4, data).unwrap();
    assert_eq!(chunk.get_voxel(Coords::new(1, 2, 3)), Some(Some(Voxel {})));
    assert_eq!(chunk.get_voxel(Coords::new(0, 2, 3)), Some(None));
    assert_eq!(chunk.get_voxel(Coords::new(1, 1, 3)), Some(None));
    assert!(chunk.is_occupied_at(23));
    assert!(!chunk.is_occupied_at(22));
}

#[test]
fn get_voxel_out_of_bounds_is_none() {
    let chunk = Chunk::with_size(2, 2, 2, filled(8)).unwrap();
    assert_eq!(chunk.get_voxel(Coords::new(-1, 0, 0)), None);
    assert_eq!(chunk.get_voxel(Coords::new(2, 0, 0)), None);
    assert_eq!(chunk.get_voxel(Coords::new(0, 2, 0)), None);
    assert_eq!(chunk.get_voxel(Coords::new(0, 0, -1)), None);
    assert_eq!(chunk.get_voxel(Coords::new(i32::MIN, i32::MAX, 0)), None);
    assert_eq!(chunk.get_voxel(Coords::new(1, 1, 1)), Some(Some(Voxel {})));
}

#[test]
fn get_neighbour_steps_along_direction() {
    let mut data = vec![None; 8];
    data[1] = Some(Voxel {}); // (1, 0, 0)
    let chunk = Chunk::with_size(2, 2, 2, data).unwrap();
    let origin = Coords::new(0, 0, 0);
    assert_eq!(chunk.get_neighbour(origin, &Direction::Left), Some(Some(Voxel {})));
    assert_eq!(chunk.get_neighbour(origin, &Direction::Up), Some(None));
    assert_eq!(chunk.get_neighbour(origin, &Direction::Back), Some(None));
    assert_eq!(chunk.get_neighbour(origin, &Direction::Right), None);
    assert_eq!(chunk.get_neighbour(origin, &Direction::Down), None);
    assert_eq!(chunk.get_neighbour(origin, &Direction::Front), None);
    assert_eq!(chunk.get_neighbour(Coords::new(i32::MAX, 0, 0), &Direction::Left), None);
    assert_eq!(chunk.get_neighbour(Coords::new(i32::MIN, 0, 0), &Direction::Right), None);
}

#[test]
fn facing_gives_unit_vectors() {
    assert_eq!(Direction::Left.facing(), Coords::new(1, 0, 0));
    assert_eq!(Direction::Right.facing(), Coords::new(-1, 0, 0));
    assert_eq!(Direction::Up.facing(), Coords::new(0, 1, 0));
    assert_eq!(Direction::Down.facing(), Coords::new(0, -1, 0));
    assert_eq!(Direction::Back.facing(), Coords::new(0, 0, 1));
    assert_eq!(Direction::Front.facing(), Coords::new(0, 0, -1));
}

#[test]
fn opposite_negates_facing() {
    for i in 0..6 {
        let d = Direction::at(i);
        let f = d.facing();
        let o = d.opposite().facing();
        assert_eq!(o, Coords::new(-f.x, -f.y, -f.z));
        assert_eq!(d.opposite().opposite(), d);
    }
}
