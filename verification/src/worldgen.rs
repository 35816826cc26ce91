//! Terrain: the blocks of a chunk, from the height of the ground over each of
//! its columns.
//!
//! Where the heights come from is not decided here. A chunk built from the
//! same heights is the same chunk, whenever it is built.

use vstd::prelude::*;
use crate::block::{blocks, catalog, BlockType};
use crate::chunk::{cell_at, cell_index, empty_grid, lemma_cell_at, lemma_index, Chunk};
use crate::space::{world_coord, world_index, ChunkPos, LocalPos, CHUNK_SIZE, CHUNK_VOLUME};

verus! {

/// Number of columns in a chunk.
pub const CHUNK_COLUMNS: usize = 1024;

/// Place of the column `(x, z)` among the heights of a chunk.
pub open spec fn column_index(x: int, z: int) -> int {
    x * 32 + z
}

/// What stands at the height `y` in a column whose ground reaches up to the
/// height `top`: nothing above the ground, grass on top of it, soil below.
pub open spec fn ground(y: int, top: int) -> Option<BlockType> {
    if y > top {
        None
    } else if y == top {
        Some(catalog()[0])
    } else {
        Some(catalog()[1])
    }
}

/// The cells of the chunk with the vertical coordinate `cy` over ground of
/// the heights `tops`, one for each column of the chunk.
pub open spec fn terrain(cy: int, tops: Seq<i64>) -> Seq<Option<BlockType>> {
    Seq::new(
        CHUNK_VOLUME as nat,
        |i: int|
            ground(
                world_coord(cy, cell_at(i).y as int),
                tops[column_index(cell_at(i).x as int, cell_at(i).z as int)] as int,
            ),
    )
}

/// The cells of a chunk of which the first `columns` columns hold their
/// ground, the column after them holds its ground below the cell `rows`, and
/// the rest is empty.
spec fn terrain_so_far(cy: int, tops: Seq<i64>, columns: int, rows: int) -> Seq<
    Option<BlockType>,
> {
    Seq::new(
        CHUNK_VOLUME as nat,
        |i: int|
            {
                let cell = cell_at(i);
                let column = column_index(cell.x as int, cell.z as int);
                if column < columns || (column == columns && cell.y < rows) {
                    ground(world_coord(cy, cell.y as int), tops[column] as int)
                } else {
                    None
                }
            },
    )
}

/// Filling one more cell of a column puts the ground of the cell there, and
/// changes no other cell. A column that is filled up to its last cell is
/// done.
proof fn lemma_terrain_next(cy: int, tops: Seq<i64>, x: int, y: int, z: int)
    requires
        0 <= x < 32,
        0 <= y < 32,
        0 <= z < 32,
    ensures
        terrain_so_far(cy, tops, column_index(x, z), y + 1) == match ground(
            world_coord(cy, y),
            tops[column_index(x, z)] as int,
        ) {
            Some(block_type) => terrain_so_far(cy, tops, column_index(x, z), y).update(
                cell_index(x, y, z),
                Some(block_type),
            ),
            None => terrain_so_far(cy, tops, column_index(x, z), y),
        },
        terrain_so_far(cy, tops, column_index(x, z), 32) == terrain_so_far(
            cy,
            tops,
            column_index(x, z) + 1,
            0,
        ),
        terrain_so_far(cy, tops, 0, 0) == empty_grid(),
        terrain_so_far(cy, tops, 1024, 0) == terrain(cy, tops),
{
    let column = column_index(x, z);
    let before = terrain_so_far(cy, tops, column, y);
    let after = terrain_so_far(cy, tops, column, y + 1);
    let told = ground(world_coord(cy, y), tops[column] as int);
    lemma_index(LocalPos { x: x as usize, y: y as usize, z: z as usize });
    assert forall|i: int| 0 <= i < CHUNK_VOLUME implies after[i] == if i == cell_index(x, y, z) {
        told
    } else {
        before[i]
    } by {
        lemma_cell_at(i);
    }
    assert(told is None ==> after =~= before);
    assert(told is Some ==> after =~= before.update(cell_index(x, y, z), told));
    assert forall|i: int| 0 <= i < CHUNK_VOLUME implies terrain_so_far(cy, tops, 1024, 0)[i]
        == terrain(cy, tops)[i] by {
        lemma_cell_at(i);
    }
}

/// The chunk at `(cx, cy, cz)` over ground of the heights `tops`: the entry
/// `x * 32 + z` is the world coordinate of the highest block in the column
/// `(x, z)` of the chunk.
pub fn generate(cx: i32, cy: i32, cz: i32, tops: &[i64; CHUNK_COLUMNS]) -> (chunk: Chunk)
    ensures
        chunk.position() == (ChunkPos { x: cx, y: cy, z: cz }),
        chunk@ == terrain(cy as int, tops@),
{
    let all = blocks();
    let grass = all[0];
    let soil = all[1];
    let mut chunk = Chunk::new(cx, cy, cz);
    let mut x: usize = 0;
    proof {
        lemma_terrain_next(cy as int, tops@, 0, 0, 0);
    }
    while x < CHUNK_SIZE
        invariant
            x <= CHUNK_SIZE,
            grass == catalog()[0],
            soil == catalog()[1],
            chunk.position() == (ChunkPos { x: cx, y: cy, z: cz }),
            chunk@ == terrain_so_far(cy as int, tops@, column_index(x as int, 0), 0),
        decreases CHUNK_SIZE - x,
    {
        let mut z: usize = 0;
        while z < CHUNK_SIZE
            invariant
                x < CHUNK_SIZE,
                z <= CHUNK_SIZE,
                grass == catalog()[0],
                soil == catalog()[1],
                chunk.position() == (ChunkPos { x: cx, y: cy, z: cz }),
                chunk@ == terrain_so_far(cy as int, tops@, column_index(x as int, z as int), 0),
            decreases CHUNK_SIZE - z,
        {
            let top = tops[x * 32 + z];
            let mut y: usize = 0;
            while y < CHUNK_SIZE
                invariant
                    x < CHUNK_SIZE,
                    z < CHUNK_SIZE,
                    y <= CHUNK_SIZE,
                    top == tops[column_index(x as int, z as int)],
                    grass == catalog()[0],
                    soil == catalog()[1],
                    chunk.position() == (ChunkPos { x: cx, y: cy, z: cz }),
                    chunk@ == terrain_so_far(
                        cy as int,
                        tops@,
                        column_index(x as int, z as int),
                        y as int,
                    ),
                decreases CHUNK_SIZE - y,
            {
                let height = world_index(cy, y);
                if height == top {
                    chunk.set(x, y, z, grass);
                } else if height < top {
                    chunk.set(x, y, z, soil);
                }
                proof {
                    lemma_terrain_next(cy as int, tops@, x as int, y as int, z as int);
                }
                y = y + 1;
            }
            proof {
                lemma_terrain_next(cy as int, tops@, x as int, 31, z as int);
            }
            z = z + 1;
        }
        x = x + 1;
    }
    chunk
}

} // verus!
