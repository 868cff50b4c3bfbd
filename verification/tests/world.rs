use voxel_stream::ivec::{euclid_div_rem_32, euclid_rem, IVec3};
use voxel_stream::voxels::{block_from_bytes, block_to_bytes, simple_universe, Block, Chunk,
    Universe, CHUNK_VOLUME};

#[test]
fn euclidean_arithmetic_edges() {
    assert_eq!(euclid_div_rem_32(-1), (-1, 31));
    assert_eq!(euclid_div_rem_32(0), (0, 0));
    assert_eq!(euclid_div_rem_32(31), (0, 31));
    assert_eq!(euclid_div_rem_32(32), (1, 0));
    assert_eq!(euclid_div_rem_32(-32), (-1, 0));
    assert_eq!(euclid_div_rem_32(-33), (-2, 31));
    assert_eq!(euclid_div_rem_32(i32::MIN), (-(1 << 26), 0));
    assert_eq!(euclid_div_rem_32(i32::MAX), ((1 << 26) - 1, 31));
    assert_eq!(euclid_rem(-1, 5), 4);
    assert_eq!(euclid_rem(-5, 5), 0);
    assert_eq!(euclid_rem(7, 5), 2);
    assert_eq!(euclid_rem(i32::MIN, 3), 1);
}

#[test]
fn insert_chunk_replaces_occupant() {
    let mut u = Universe::new();
    let coord = IVec3::new(-64, 32, 0);
    u.insert_chunk(coord, Chunk::filled(4));
    assert_eq!(u.read_block(&IVec3::new(-64, 32, 0)).id, 4);
    assert_eq!(u.read_block(&IVec3::new(-33, 63, 31)).id, 4);
    assert!(u.contains_chunk(&coord));
    assert_eq!(u.chunk_version(&coord), Some(0));
    u.insert_chunk(coord, Chunk::filled(9));
    assert_eq!(u.read_block(&IVec3::new(-64, 32, 0)).id, 9);
}

#[test]
fn world_round_trip() {
    let mut u = Universe::new();
    let p = IVec3::new(5, 6, 7);
    let b = Block::from_id(9);
    u.write_block(&p, b);
    assert_eq!(u.read_block(&p), b);
    let q = IVec3::new(-100, 200, -300);
    let c = Block::from_id(42);
    u.write_block(&q, c);
    assert_eq!(u.read_block(&q), c);
    assert_eq!(u.read_block(&p), b);
}

#[test]
fn version_monotonicity() {
    let mut u = Universe::new();
    let origin = IVec3::new(0, 0, 0);
    let p = IVec3::new(5, 6, 7);
    assert_eq!(u.chunk_version(&origin), None);
    u.write_block(&p, Block::from_id(1));
    assert_eq!(u.chunk_version(&origin), Some(1));
    u.write_block(&p, Block::from_id(2));
    assert_eq!(u.chunk_version(&origin), Some(2));
    // reading never changes the version
    let _ = u.read_block(&p);
    let _ = u.read_chunk_block(&p);
    assert_eq!(u.chunk_version(&origin), Some(2));
}

#[test]
fn negative_coordinate_resolution() {
    let u = Universe::new();
    let (chunk_pos, inner_pos) = u.pos_to_chunk_and_inner(&IVec3::new(-1, -1, -1));
    assert_eq!(chunk_pos, IVec3::new(-32, -32, -32));
    assert_eq!(inner_pos, IVec3::new(31, 31, 31));
    let (chunk_pos, inner_pos) = u.pos_to_chunk_and_inner(&IVec3::new(-32, 0, 31));
    assert_eq!(chunk_pos, IVec3::new(-32, 0, 0));
    assert_eq!(inner_pos, IVec3::new(0, 0, 31));
    let (chunk_pos, inner_pos) = u.pos_to_chunk_and_inner(&IVec3::new(-33, 64, 1));
    assert_eq!(chunk_pos, IVec3::new(-64, 64, 0));
    assert_eq!(inner_pos, IVec3::new(31, 0, 1));
}

#[test]
fn negative_coordinate_round_trip() {
    let mut u = Universe::new();
    let p = IVec3::new(-1, -1, -1);
    let b = Block::from_id(7);
    assert_eq!(u.read_chunk_block(&p), None);
    u.write_block(&p, b);
    assert_eq!(u.read_block(&p), b);
    assert_eq!(u.chunk_version(&IVec3::new(-32, -32, -32)), Some(1));
}

#[test]
fn absent_chunk_reads_as_zero() {
    let u = Universe::new();
    let p = IVec3::new(1000, -1000, 12345);
    assert_eq!(u.read_chunk_block(&p), None);
    let b = u.read_block(&p);
    assert_eq!(b.id, 0);
    assert_eq!(b.properties, 0);
    assert_eq!(b.light0, 0);
    assert_eq!(b.light1, 0);
}

#[test]
fn sphere_carved_world() {
    let u = simple_universe();
    // the chunk center lies within the sphere and has a nonzero id
    let center = u.read_block(&IVec3::new(16, 16, 16));
    assert_eq!(center.id, 16);
    assert_ne!(center.id, 0);
    // the corner is outside the sphere
    let corner = u.read_block(&IVec3::new(0, 0, 0));
    assert_eq!(corner.id, 0);
    // a point just inside the radius on the x axis keeps its x as id
    let edge = u.read_block(&IVec3::new(1, 16, 16));
    assert_eq!(edge.id, 1);
}

#[test]
fn chunk_index_round_trip() {
    for &idx in &[0usize, 1, 31, 32, 1023, 1024, 32767] {
        let xyz = Chunk::idx2xyz(idx);
        assert_eq!(Chunk::xyz2idx(xyz), idx);
    }
    assert_eq!(Chunk::idx2xyz(0), IVec3::new(0, 0, 0));
    assert_eq!(Chunk::idx2xyz(32767), IVec3::new(31, 31, 31));
    assert_eq!(Chunk::xyz2idx(IVec3::new(1, 2, 3)), 1024 + 64 + 3);
}

#[test]
fn chunk_iter_covers_volume() {
    let coords = Chunk::iter();
    assert_eq!(coords.len(), CHUNK_VOLUME);
    assert_eq!(coords[0], IVec3::new(0, 0, 0));
    assert_eq!(coords[CHUNK_VOLUME - 1], IVec3::new(31, 31, 31));
}

#[test]
fn chunk_filled_and_empty() {
    let empty = Chunk::empty();
    assert_eq!(empty.version(), 0);
    assert!(!empty.dirty_render);
    assert_eq!(empty.read_block(IVec3::new(3, 4, 5)).id, 0);
    let filled = Chunk::filled(7);
    assert_eq!(filled.version(), 0);
    assert_eq!(filled.read_block(IVec3::new(0, 0, 0)).id, 7);
    assert_eq!(filled.read_block(IVec3::new(31, 31, 31)).id, 7);
}

#[test]
fn chunk_set_block_bumps_version() {
    let mut c = Chunk::empty();
    c.set_block(IVec3::new(1, 2, 3), Block::from_id(5));
    assert_eq!(c.version(), 1);
    assert_eq!(c.read_block(IVec3::new(1, 2, 3)).id, 5);
    c.set_block(IVec3::new(1, 2, 3), Block::from_id(6));
    assert_eq!(c.version(), 2);
    assert_eq!(c.read_block(IVec3::new(1, 2, 3)).id, 6);
}

#[test]
fn chunk_get_ref_and_get_mut() {
    let mut c = Chunk::empty();
    assert_eq!(c.get_ref().len(), CHUNK_VOLUME);
    let v0 = c.version();
    {
        let blocks = c.get_mut();
        blocks[0] = Block::from_id(3);
    }
    // handing out exclusive access counts as a mutation
    assert_eq!(c.version(), v0 + 1);
    assert_eq!(c.read_block(IVec3::new(0, 0, 0)).id, 3);
}

#[test]
fn block_byte_round_trip() {
    let b = Block { id: 17, properties: 3, light0: 200, light1: 255 };
    let bytes = block_to_bytes(&b);
    assert_eq!(bytes, vec![17, 3, 200, 255]);
    assert_eq!(block_from_bytes(&bytes), b);
    assert_eq!(block_to_bytes(&Block::from_id(0)), vec![0, 0, 0, 0]);
}

#[test]
fn block_from_id_is_bare() {
    let b = Block::from_id(200);
    assert_eq!(b.id, 200);
    assert_eq!(b.properties, 0);
    assert_eq!(b.light0, 0);
    assert_eq!(b.light1, 0);
    assert_eq!(Block::default(), Block::from_id(0));
}
