use ave::block::{lookup, BlockType};
use ave::chunk::Chunk;
use ave::reach::chunks_near;
use ave::space::{block_position, ChunkPos, LocalPos, Position};
use ave::world::World;

fn grass() -> BlockType {
    lookup(0).unwrap()
}

fn soil() -> BlockType {
    lookup(1).unwrap()
}

fn origin() -> Position {
    Position { x: 0, y: 0, z: 0 }
}

#[test]
fn new_world_has_no_chunks() {
    let world = World::new();
    assert_eq!(world.chunk_count(), 0);
    assert!(!world.contains(0, 0, 0));
    assert!(world.get(0, 0, 0).is_none());
}

#[test]
fn get_or_create_makes_an_empty_chunk() {
    let mut world = World::new();
    let chunk = world.get_or_create(1, 2, 3);
    assert_eq!(chunk.coords(), ChunkPos { x: 1, y: 2, z: 3 });
    assert!(chunk.iter_occupied().is_empty());
    assert!(world.contains(1, 2, 3));
    assert_eq!(world.chunk_count(), 1);
}

#[test]
fn get_or_create_twice_gives_the_same_chunk() {
    let mut world = World::new();
    let first = format!("{:p}", world.get_or_create(1, 2, 3));
    let second = format!("{:p}", world.get_or_create(1, 2, 3));
    assert_eq!(first, second);
    assert_eq!(world.chunk_count(), 1);
}

#[test]
fn get_or_create_keeps_the_content_of_a_chunk() {
    let mut world = World::new();
    let mut made = Chunk::new(1, 2, 3);
    made.set(4, 5, 6, soil());
    assert!(world.insert(made));
    let first = world.get_or_create(1, 2, 3).iter_occupied();
    let second = world.get_or_create(1, 2, 3).iter_occupied();
    assert_eq!(first, second);
    assert_eq!(first.len(), 1);
    assert_eq!(first[0].0, LocalPos { x: 4, y: 5, z: 6 });
    assert_eq!(first[0].1.id, 1);
    assert_eq!(world.chunk_count(), 1);
}

#[test]
fn get_or_create_touches_no_other_chunk() {
    let mut world = World::new();
    let mut made = Chunk::new(0, 0, 1);
    made.set(1, 1, 1, grass());
    world.insert(made);
    world.get_or_create(5, 5, 5);
    world.get_or_create(0, 0, 0);
    assert_eq!(world.chunk_count(), 3);
    assert!(world.contains(0, 0, 0));
    assert!(world.contains(0, 0, 1));
    assert!(world.contains(5, 5, 5));
    for &(x, y, z) in [(1, 0, 0), (0, 1, 0), (-1, 0, 0), (0, 0, -1), (0, -1, 0)].iter() {
        assert!(!world.contains(x, y, z));
    }
    let kept = world.get(0, 0, 1).unwrap().iter_occupied();
    assert_eq!(kept.len(), 1);
    assert_eq!(kept[0].0, LocalPos { x: 1, y: 1, z: 1 });
    assert!(world.get(5, 5, 5).unwrap().iter_occupied().is_empty());
}

#[test]
fn chunks_with_permuted_coordinates_are_different_chunks() {
    let mut world = World::new();
    world.get_or_create(1, 2, 3);
    assert!(!world.contains(3, 2, 1));
    assert!(!world.contains(2, 1, 3));
    assert!(!world.contains(-1, -2, -3));
    world.get_or_create(3, 2, 1);
    world.get_or_create(-1, -2, -3);
    assert_eq!(world.chunk_count(), 3);
}

#[test]
fn chunks_at_the_rim_of_chunk_space() {
    let mut world = World::new();
    world.get_or_create(i32::MIN, i32::MAX, 0);
    world.get_or_create(i32::MAX, i32::MIN, -1);
    assert!(world.contains(i32::MIN, i32::MAX, 0));
    assert!(world.contains(i32::MAX, i32::MIN, -1));
    assert!(!world.contains(i32::MAX, i32::MAX, 0));
    assert_eq!(world.get(i32::MIN, i32::MAX, 0).unwrap().coords(), ChunkPos {
        x: i32::MIN,
        y: i32::MAX,
        z: 0
    });
    assert_eq!(world.chunk_count(), 2);
}

#[test]
fn insert_does_not_replace_a_chunk() {
    let mut world = World::new();
    let mut first = Chunk::new(7, 7, 7);
    first.set(0, 0, 0, grass());
    let mut second = Chunk::new(7, 7, 7);
    second.set(1, 1, 1, soil());
    assert!(world.insert(first));
    assert!(!world.insert(second));
    assert_eq!(world.chunk_count(), 1);
    let kept = world.get(7, 7, 7).unwrap();
    assert_eq!(kept.get(0, 0, 0).unwrap().id, 0);
    assert!(kept.get(1, 1, 1).is_none());
}

#[test]
fn get_makes_no_chunk() {
    let world = World::new();
    assert!(world.get(1, 1, 1).is_none());
    assert_eq!(world.chunk_count(), 0);
}

#[test]
fn chunks_near_with_radius_one_are_twenty_seven() {
    let places = chunks_near(origin(), 1);
    assert_eq!(places.len(), 27);
    let mut expected = Vec::new();
    for x in -1..2 {
        for y in -1..2 {
            for z in -1..2 {
                expected.push(ChunkPos { x, y, z });
            }
        }
    }
    assert_eq!(places, expected);
}

#[test]
fn chunks_near_with_radius_zero_is_the_owning_chunk() {
    assert_eq!(chunks_near(origin(), 0), vec![ChunkPos { x: 0, y: 0, z: 0 }]);
    assert_eq!(
        chunks_near(Position { x: -17, y: 16, z: 15 }, 0),
        vec![ChunkPos { x: -1, y: 1, z: 0 }]
    );
}

#[test]
fn chunks_near_counts_the_cube() {
    assert_eq!(chunks_near(origin(), 2).len(), 125);
    assert_eq!(chunks_near(Position { x: 1000, y: -1000, z: 5 }, 3).len(), 343);
}

#[test]
fn chunks_near_is_centred_on_the_owning_chunk() {
    let places = chunks_near(Position { x: 100, y: -100, z: 0 }, 1);
    // 100 lies in chunk 3 (80 to 111), -100 in chunk -3 (-112 to -81)
    assert_eq!(places[0], ChunkPos { x: 2, y: -4, z: -1 });
    assert_eq!(places[13], ChunkPos { x: 3, y: -3, z: 0 });
    assert_eq!(places[26], ChunkPos { x: 4, y: -2, z: 1 });
}

#[test]
fn chunks_near_is_cut_off_at_the_rim_of_chunk_space() {
    let corner = block_position(
        ChunkPos { x: i32::MAX, y: i32::MIN, z: 0 },
        LocalPos { x: 0, y: 0, z: 0 },
    );
    let places = chunks_near(corner, 1);
    assert_eq!(places.len(), 2 * 2 * 3);
    assert_eq!(places[0], ChunkPos { x: i32::MAX - 1, y: i32::MIN, z: -1 });
    assert_eq!(places[11], ChunkPos { x: i32::MAX, y: i32::MIN + 1, z: 1 });
}

#[test]
fn chunks_near_a_centre_far_outside_is_empty() {
    assert!(chunks_near(Position { x: i64::MAX, y: 0, z: 0 }, 1).is_empty());
    assert!(chunks_near(Position { x: 0, y: i64::MIN, z: 0 }, 5).is_empty());
}

#[test]
fn at_with_radius_one_makes_twenty_seven_chunks() {
    let mut world = World::new();
    let blocks = world.at(origin(), 1);
    assert!(blocks.is_empty());
    assert_eq!(world.chunk_count(), 27);
    for x in -1..2 {
        for y in -1..2 {
            for z in -1..2 {
                assert!(world.contains(x, y, z));
            }
        }
    }
    assert!(!world.contains(2, 0, 0));
    assert!(!world.contains(0, -2, 0));
    assert!(!world.contains(0, 0, 2));
}

#[test]
fn at_again_makes_no_more_chunks() {
    let mut world = World::new();
    world.at(origin(), 1);
    world.at(origin(), 1);
    assert_eq!(world.chunk_count(), 27);
    world.at(origin(), 0);
    assert_eq!(world.chunk_count(), 27);
}

#[test]
fn at_gives_blocks_their_world_positions() {
    let mut world = World::new();
    let mut made = Chunk::new(1, 0, -1);
    made.set(4, 5, 6, soil());
    world.insert(made);
    let blocks = world.at(Position { x: 20, y: 0, z: -20 }, 0);
    assert_eq!(blocks.len(), 1);
    assert_eq!(blocks[0].0, Position { x: 32 + 4 - 16, y: 5 - 16, z: -32 + 6 - 16 });
    assert_eq!(blocks[0].1.id, 1);
    assert_eq!(world.chunk_count(), 1);
}

#[test]
fn at_leaves_out_chunks_beyond_the_radius() {
    let mut world = World::new();
    let mut made = Chunk::new(2, 0, 0);
    made.set(0, 0, 0, grass());
    world.insert(made);
    assert!(world.at(origin(), 1).is_empty());
    assert_eq!(world.at(origin(), 2).len(), 1);
}

#[test]
fn at_goes_through_the_chunks_in_lexicographic_order() {
    let mut world = World::new();
    for &(x, y, z) in [(1, 1, 1), (0, 0, 0), (-1, 1, 0), (0, -1, 1), (-1, -1, -1)].iter() {
        let mut made = Chunk::new(x, y, z);
        made.set(31, 31, 31, grass());
        made.set(0, 0, 0, soil());
        world.insert(made);
    }
    let blocks = world.at(origin(), 1);
    let found: Vec<(Position, u8)> = blocks.iter().map(|b| (b.0, b.1.id)).collect();
    let mut expected = Vec::new();
    for &(x, y, z) in [(-1, -1, -1), (-1, 1, 0), (0, -1, 1), (0, 0, 0), (1, 1, 1)].iter() {
        let at = ChunkPos { x, y, z };
        expected.push((block_position(at, LocalPos { x: 0, y: 0, z: 0 }), 1));
        expected.push((block_position(at, LocalPos { x: 31, y: 31, z: 31 }), 0));
    }
    assert_eq!(found, expected);
}

#[test]
fn at_leaves_out_hidden_blocks() {
    let mut world = World::new();
    let mut made = Chunk::new(0, 0, 0);
    for x in 0..32 {
        for y in 0..32 {
            for z in 0..32 {
                made.set(x, y, z, grass());
            }
        }
    }
    world.insert(made);
    let blocks = world.at(origin(), 1);
    assert_eq!(blocks.len(), 5768);
    // the centre of the chunk is hidden
    assert!(blocks.iter().all(|b| b.0 != Position { x: 0, y: 0, z: 0 }));
    assert!(blocks.iter().any(|b| b.0 == Position { x: -16, y: 0, z: 0 }));
    assert!(blocks.iter().any(|b| b.0 == Position { x: 15, y: 15, z: 15 }));
}

#[test]
fn at_can_be_repeated() {
    let mut world = World::new();
    world.set_block(Position { x: 1, y: 2, z: 3 }, grass());
    world.set_block(Position { x: -20, y: 2, z: 3 }, soil());
    let first = world.at(origin(), 1);
    let second = world.at(origin(), 1);
    assert_eq!(first, second);
    assert_eq!(first.len(), 2);
}

#[test]
fn set_block_occupies_the_cell_of_the_position() {
    let mut world = World::new();
    assert!(world.set_block(Position { x: -17, y: 16, z: 0 }, soil()));
    assert_eq!(world.chunk_count(), 1);
    let chunk = world.get(-1, 1, 0).unwrap();
    assert_eq!(chunk.get(31, 0, 16).unwrap().id, 1);
    assert_eq!(chunk.iter_occupied().len(), 1);
}

#[test]
fn set_block_then_at_gives_the_position_back() {
    let mut world = World::new();
    let positions = [
        Position { x: 0, y: 0, z: 0 },
        Position { x: -17, y: -17, z: -17 },
        Position { x: 47, y: -48, z: 16 },
    ];
    for position in positions.iter() {
        assert!(world.set_block(*position, grass()));
    }
    let blocks = world.at(origin(), 1);
    assert_eq!(blocks.len(), 3);
    for position in positions.iter() {
        assert!(blocks.iter().any(|b| b.0 == *position));
    }
}

#[test]
fn set_block_keeps_the_rest_of_the_chunk() {
    let mut world = World::new();
    world.set_block(Position { x: 0, y: 0, z: 0 }, grass());
    world.set_block(Position { x: 1, y: 0, z: 0 }, soil());
    world.set_block(Position { x: 0, y: 0, z: 0 }, soil());
    let chunk = world.get(0, 0, 0).unwrap();
    assert_eq!(chunk.get(16, 16, 16).unwrap().id, 1);
    assert_eq!(chunk.get(17, 16, 16).unwrap().id, 1);
    assert_eq!(chunk.iter_occupied().len(), 2);
    assert_eq!(world.chunk_count(), 1);
}

#[test]
fn set_block_beyond_chunk_space_changes_nothing() {
    let mut world = World::new();
    assert!(!world.set_block(Position { x: i64::MAX, y: 0, z: 0 }, grass()));
    assert_eq!(world.chunk_count(), 0);
}

#[test]
fn missing_in_a_new_world_is_every_chunk_near() {
    let world = World::new();
    assert_eq!(world.missing(origin(), 1), chunks_near(origin(), 1));
    assert_eq!(world.chunk_count(), 0);
}

#[test]
fn missing_leaves_out_the_chunks_that_the_world_has() {
    let mut world = World::new();
    world.get_or_create(0, 0, 0);
    world.get_or_create(1, -1, 1);
    world.get_or_create(9, 9, 9);
    let places = world.missing(origin(), 1);
    assert_eq!(places.len(), 25);
    assert!(!places.contains(&ChunkPos { x: 0, y: 0, z: 0 }));
    assert!(!places.contains(&ChunkPos { x: 1, y: -1, z: 1 }));
    assert_eq!(places[0], ChunkPos { x: -1, y: -1, z: -1 });
    assert_eq!(places[11], ChunkPos { x: 0, y: -1, z: 1 });
    assert_eq!(places[12], ChunkPos { x: 0, y: 0, z: -1 });
    assert_eq!(places[13], ChunkPos { x: 0, y: 0, z: 1 });
    assert_eq!(places[18], ChunkPos { x: 1, y: -1, z: 0 });
    assert_eq!(places[19], ChunkPos { x: 1, y: 0, z: -1 });
    assert_eq!(places[24], ChunkPos { x: 1, y: 1, z: 1 });
}

#[test]
fn missing_is_empty_after_at() {
    let mut world = World::new();
    world.at(origin(), 2);
    assert!(world.missing(origin(), 2).is_empty());
    assert_eq!(world.missing(origin(), 3).len(), 343 - 125);
}

#[test]
fn generated_chunks_enter_the_world_before_the_query() {
    let mut world = World::new();
    for place in world.missing(origin(), 1) {
        let mut made = Chunk::new(place.x, place.y, place.z);
        made.set(0, 0, 0, grass());
        assert!(world.insert(made));
    }
    assert_eq!(world.chunk_count(), 27);
    assert_eq!(world.at(origin(), 1).len(), 27);
}

#[test]
fn blocks_at_a_seam_are_seen_though_the_next_chunk_covers_them() {
    let mut world = World::new();
    for cx in 0..2 {
        let mut made = Chunk::new(cx, 0, 0);
        for x in 0..32 {
            for y in 0..32 {
                for z in 0..32 {
                    made.set(x, y, z, soil());
                }
            }
        }
        world.insert(made);
    }
    let blocks = world.at(origin(), 1);
    assert_eq!(blocks.len(), 2 * 5768);
    // the two layers that touch at the seam between the chunks
    assert!(blocks.iter().any(|b| b.0 == Position { x: 15, y: 0, z: 0 }));
    assert!(blocks.iter().any(|b| b.0 == Position { x: 16, y: 0, z: 0 }));
    // one step into either chunk the blocks are hidden
    assert!(blocks.iter().all(|b| b.0 != Position { x: 14, y: 0, z: 0 }));
    assert!(blocks.iter().all(|b| b.0 != Position { x: 17, y: 0, z: 0 }));
}
