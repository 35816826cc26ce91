use ave::space::{
    block_position, chunk_index, get_normal_for_triangle, local_index, locate, world_index,
    ChunkPos, Direction, LocalPos, Position, CHUNK_SIZE, CHUNK_VOLUME, HALF_CHUNK,
};

fn chunk(x: i32, y: i32, z: i32) -> ChunkPos {
    ChunkPos { x, y, z }
}

fn cell(x: usize, y: usize, z: usize) -> LocalPos {
    LocalPos { x, y, z }
}

fn direction(x: i32, y: i32, z: i32) -> Direction {
    Direction { x, y, z }
}

#[test]
fn constants_fit_together() {
    assert_eq!(CHUNK_SIZE, 32);
    assert_eq!(CHUNK_VOLUME, CHUNK_SIZE * CHUNK_SIZE * CHUNK_SIZE);
    assert_eq!(HALF_CHUNK * 2, CHUNK_SIZE as i64);
}

#[test]
fn block_position_follows_the_formula() {
    let position = block_position(chunk(1, 2, 3), cell(4, 5, 6));
    assert_eq!(position, Position { x: 32 + 4 - 16, y: 64 + 5 - 16, z: 96 + 6 - 16 });
    assert_eq!(position, Position { x: 20, y: 53, z: 86 });
}

#[test]
fn origin_chunk_is_centred_on_the_origin() {
    assert_eq!(block_position(chunk(0, 0, 0), cell(0, 0, 0)), Position { x: -16, y: -16, z: -16 });
    assert_eq!(block_position(chunk(0, 0, 0), cell(16, 16, 16)), Position { x: 0, y: 0, z: 0 });
    assert_eq!(block_position(chunk(0, 0, 0), cell(31, 31, 31)), Position { x: 15, y: 15, z: 15 });
}

#[test]
fn world_index_of_negative_chunk() {
    assert_eq!(world_index(-1, 31), -17);
    assert_eq!(world_index(-1, 0), -48);
    assert_eq!(world_index(-2, 5), -75);
}

#[test]
fn world_index_at_the_rim_of_chunk_space() {
    assert_eq!(world_index(i32::MAX, 31), 2147483647i64 * 32 + 15);
    assert_eq!(world_index(i32::MIN, 0), -2147483648i64 * 32 - 16);
}

#[test]
fn chunk_index_floors_negative_coordinates() {
    // just below the low face of the origin chunk: the chunk is -1, where
    // rounding towards zero would say 0
    assert_eq!(chunk_index(-17), -1);
    assert_eq!(local_index(-17), 31);
    assert_eq!(chunk_index(-16), 0);
    assert_eq!(local_index(-16), 0);
    assert_eq!(chunk_index(-1), 0);
    assert_eq!(local_index(-1), 15);
    assert_eq!(chunk_index(-48), -1);
    assert_eq!(local_index(-48), 0);
    assert_eq!(chunk_index(-49), -2);
    assert_eq!(local_index(-49), 31);
}

#[test]
fn chunk_index_at_positive_boundaries() {
    assert_eq!(chunk_index(0), 0);
    assert_eq!(local_index(0), 16);
    assert_eq!(chunk_index(15), 0);
    assert_eq!(local_index(15), 31);
    assert_eq!(chunk_index(16), 1);
    assert_eq!(local_index(16), 0);
    assert_eq!(chunk_index(47), 1);
    assert_eq!(chunk_index(48), 2);
}

#[test]
fn chunk_index_at_the_ends_of_the_number_range() {
    assert_eq!(chunk_index(i64::MAX), 288230376151711744);
    assert_eq!(local_index(i64::MAX), 15);
    assert_eq!(chunk_index(i64::MIN), -288230376151711744);
    assert_eq!(local_index(i64::MIN), 16);
}

#[test]
fn every_world_coordinate_lies_in_the_extent_of_its_chunk() {
    for world in -200i64..200 {
        let chunk = chunk_index(world);
        let local = local_index(world);
        assert!(local < 32);
        assert!(chunk * 32 - 16 <= world && world < chunk * 32 + 16);
        assert_eq!(chunk * 32 + local as i64 - 16, world);
    }
}

#[test]
fn round_trip_recovers_chunk_and_cell() {
    let chunks = [-2147483648, -1000, -2, -1, 0, 1, 2, 77, 2147483647];
    let cells = [0usize, 1, 15, 16, 30, 31];
    for &cx in chunks.iter() {
        for &lx in cells.iter() {
            let at = chunk(cx, -cx.max(-2147483647), cx / 3);
            let local = cell(lx, 31 - lx, (lx * 7) % 32);
            let position = block_position(at, local);
            assert_eq!(locate(position), Some((at, local)));
        }
    }
}

#[test]
fn round_trip_over_a_whole_chunk_edge() {
    for lx in 0..32usize {
        for cx in -3..4 {
            let position = block_position(chunk(cx, 0, 0), cell(lx, 0, 0));
            assert_eq!(locate(position), Some((chunk(cx, 0, 0), cell(lx, 0, 0))));
        }
    }
}

#[test]
fn locate_then_block_position_gives_the_position_back() {
    for &x in [-1000i64, -49, -48, -17, -16, -1, 0, 15, 16, 999].iter() {
        let position = Position { x, y: -x, z: x * 3 + 1 };
        let (at, local) = locate(position).unwrap();
        assert_eq!(block_position(at, local), position);
    }
}

#[test]
fn locate_names_chunk_and_cell() {
    let found = locate(Position { x: -17, y: 16, z: 0 });
    assert_eq!(found, Some((chunk(-1, 1, 0), cell(31, 0, 16))));
}

#[test]
fn locate_fails_beyond_chunk_space() {
    assert_eq!(locate(Position { x: i64::MAX, y: 0, z: 0 }), None);
    assert_eq!(locate(Position { x: 0, y: i64::MIN, z: 0 }), None);
    assert_eq!(locate(Position { x: 0, y: 0, z: 2147483648i64 * 32 - 16 }), None);
    assert_eq!(locate(Position { x: 0, y: 0, z: -2147483648i64 * 32 - 17 }), None);
}

#[test]
fn locate_succeeds_at_the_rim_of_chunk_space() {
    let high = Position { x: 2147483647i64 * 32 + 15, y: 0, z: 0 };
    assert_eq!(locate(high), Some((chunk(i32::MAX, 0, 0), cell(31, 16, 16))));
    let low = Position { x: -2147483648i64 * 32 - 16, y: 0, z: 0 };
    assert_eq!(locate(low), Some((chunk(i32::MIN, 0, 0), cell(0, 16, 16))));
}

#[test]
fn normal_follows_the_order_of_the_corners() {
    let a = direction(0, 0, 0);
    let b = direction(1, 0, 0);
    let c = direction(0, 1, 0);
    assert_eq!(get_normal_for_triangle(a, b, c), direction(0, 0, 1));
    assert_eq!(get_normal_for_triangle(a, c, b), direction(0, 0, -1));
}

#[test]
fn normal_of_a_degenerate_triangle_is_zero() {
    let a = direction(1, 2, 3);
    assert_eq!(get_normal_for_triangle(a, a, a), direction(0, 0, 0));
    assert_eq!(
        get_normal_for_triangle(direction(0, 0, 0), direction(1, 1, 1), direction(2, 2, 2)),
        direction(0, 0, 0)
    );
}

#[test]
fn normal_keeps_only_signs() {
    let n = get_normal_for_triangle(direction(0, 0, 0), direction(5, 0, 0), direction(0, 3, 7));
    // (5, 0, 0) x (0, 3, 7) = (0, -35, 15)
    assert_eq!(n, direction(0, -1, 1));
}

#[test]
fn normal_of_extreme_corners_does_not_overflow() {
    let a = direction(i32::MIN, i32::MIN, i32::MIN);
    let b = direction(i32::MAX, i32::MIN, i32::MIN);
    let c = direction(i32::MIN, i32::MAX, i32::MIN);
    assert_eq!(get_normal_for_triangle(a, b, c), direction(0, 0, 1));
}
