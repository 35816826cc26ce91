//! Coordinates: positions in the world, chunk coordinates, cells inside a
//! chunk, and the mapping between them.
//!
//! The world is an unbounded grid of blocks. One unit of a [`Position`] is the
//! edge of one block, and a position names the centre of a block. Chunks
//! partition the grid into cubes of 32 x 32 x 32 blocks; the chunk with
//! coordinates (0, 0, 0) is centred on the origin, so along each axis it holds
//! the world coordinates from -16 to 15.

use vstd::prelude::*;

verus! {

/// Edge length of a chunk, in blocks.
pub const CHUNK_SIZE: usize = 32;

/// Number of cells in a chunk.
pub const CHUNK_VOLUME: usize = 32768;

/// Distance, in blocks, from the low face of a chunk to its centre plane.
pub const HALF_CHUNK: i64 = 16;

/// The centre of a block in world space, in units of one block edge.
#[derive(Clone, Copy, Debug, PartialEq, Eq, Structural)]
pub struct Position {
    pub x: i64,
    pub y: i64,
    pub z: i64,
}

/// Coordinates of a chunk in chunk space.
#[derive(Clone, Copy, Debug, PartialEq, Eq, Structural)]
pub struct ChunkPos {
    pub x: i32,
    pub y: i32,
    pub z: i32,
}

/// Indices of a cell inside its chunk. A cell exists where every index is
/// below 32.
#[derive(Clone, Copy, Debug, PartialEq, Eq, Structural)]
pub struct LocalPos {
    pub x: usize,
    pub y: usize,
    pub z: usize,
}

/// A vector with integer components: the offset of a cube's corner from its
/// centre in half block edges, or the direction a face looks in.
#[derive(Clone, Copy, Debug, PartialEq, Eq, Structural)]
pub struct Direction {
    pub x: i32,
    pub y: i32,
    pub z: i32,
}

/// World coordinate, along one axis, of the cell `local` of chunk `chunk`.
pub open spec fn world_coord(chunk: int, local: int) -> int {
    chunk * 32 + local - 16
}

/// Chunk coordinate, along one axis, of the chunk that owns the world
/// coordinate `world`: the quotient rounded towards minus infinity.
pub open spec fn chunk_coord(world: int) -> int {
    (world + 16) / 32
}

/// Index, along one axis, that the world coordinate `world` has inside its
/// chunk.
pub open spec fn local_coord(world: int) -> int {
    (world + 16) % 32
}

impl LocalPos {
    /// Whether the indices name a cell of a chunk.
    pub open spec fn valid(self) -> bool {
        self.x < 32 && self.y < 32 && self.z < 32
    }
}

impl Position {
    /// The position of the cell `local` of the chunk `chunk`.
    pub open spec fn of_block(chunk: ChunkPos, local: LocalPos) -> Position {
        Position {
            x: world_coord(chunk.x as int, local.x as int) as i64,
            y: world_coord(chunk.y as int, local.y as int) as i64,
            z: world_coord(chunk.z as int, local.z as int) as i64,
        }
    }

    /// Whether the chunk that owns this position has coordinates that a
    /// [`ChunkPos`] can hold.
    pub open spec fn in_world(self) -> bool {
        &&& i32::MIN <= chunk_coord(self.x as int) <= i32::MAX
        &&& i32::MIN <= chunk_coord(self.y as int) <= i32::MAX
        &&& i32::MIN <= chunk_coord(self.z as int) <= i32::MAX
    }

    /// The chunk that owns this position.
    pub open spec fn chunk(self) -> ChunkPos {
        ChunkPos {
            x: chunk_coord(self.x as int) as i32,
            y: chunk_coord(self.y as int) as i32,
            z: chunk_coord(self.z as int) as i32,
        }
    }

    /// The cell of its chunk that this position is the centre of.
    pub open spec fn local(self) -> LocalPos {
        LocalPos {
            x: local_coord(self.x as int) as usize,
            y: local_coord(self.y as int) as usize,
            z: local_coord(self.z as int) as usize,
        }
    }
}

/// Sign of an integer: -1, 0 or 1.
pub open spec fn sign(v: int) -> int {
    if v < 0 {
        -1
    } else if v == 0 {
        0
    } else {
        1
    }
}

impl Direction {
    /// The vector with the components `x`, `y` and `z`.
    pub open spec fn of(x: int, y: int, z: int) -> Direction {
        Direction { x: x as i32, y: y as i32, z: z as i32 }
    }

    /// The vector from `from` to `to`, as exact integers.
    pub open spec fn between(from: Direction, to: Direction) -> (int, int, int) {
        (to.x - from.x, to.y - from.y, to.z - from.z)
    }
}

/// Vector product of `u` and `v`.
pub open spec fn cross(u: (int, int, int), v: (int, int, int)) -> (int, int, int) {
    (u.1 * v.2 - u.2 * v.1, u.2 * v.0 - u.0 * v.2, u.0 * v.1 - u.1 * v.0)
}

/// The direction that the triangle `a`, `b`, `c` faces: the vector product of
/// its edges `a` to `b` and `a` to `c`, each component cut down to its sign.
/// For a triangle that lies in a plane across one axis this is the normal of
/// unit length.
pub open spec fn triangle_normal(a: Direction, b: Direction, c: Direction) -> Direction {
    let n = cross(Direction::between(a, b), Direction::between(a, c));
    Direction { x: sign(n.0) as i32, y: sign(n.1) as i32, z: sign(n.2) as i32 }
}

/// `a * b - c * d` for factors that are differences of 32-bit numbers.
fn minor(a: i64, b: i64, c: i64, d: i64) -> (m: i128)
    requires
        -0x1_0000_0000 < a < 0x1_0000_0000,
        -0x1_0000_0000 < b < 0x1_0000_0000,
        -0x1_0000_0000 < c < 0x1_0000_0000,
        -0x1_0000_0000 < d < 0x1_0000_0000,
    ensures
        m == a * b - c * d,
{
    assert(-0x1_0000_0000_0000_0000 < a * b < 0x1_0000_0000_0000_0000) by (nonlinear_arith)
        requires
            -0x1_0000_0000 < a < 0x1_0000_0000,
            -0x1_0000_0000 < b < 0x1_0000_0000,
    ;
    assert(-0x1_0000_0000_0000_0000 < c * d < 0x1_0000_0000_0000_0000) by (nonlinear_arith)
        requires
            -0x1_0000_0000 < c < 0x1_0000_0000,
            -0x1_0000_0000 < d < 0x1_0000_0000,
    ;
    (a as i128) * (b as i128) - (c as i128) * (d as i128)
}

/// Sign of `v` as a vector component.
fn signum(v: i128) -> (s: i32)
    ensures
        s == sign(v as int),
{
    if v < 0 {
        -1
    } else if v == 0 {
        0
    } else {
        1
    }
}

/// The direction that the triangle `a`, `b`, `c` faces, by the right-hand
/// rule on the order of its corners.
pub fn get_normal_for_triangle(a: Direction, b: Direction, c: Direction) -> (normal: Direction)
    ensures
        normal == triangle_normal(a, b, c),
{
    let ux: i64 = b.x as i64 - a.x as i64;
    let uy: i64 = b.y as i64 - a.y as i64;
    let uz: i64 = b.z as i64 - a.z as i64;
    let vx: i64 = c.x as i64 - a.x as i64;
    let vy: i64 = c.y as i64 - a.y as i64;
    let vz: i64 = c.z as i64 - a.z as i64;
    Direction {
        x: signum(minor(uy, vz, uz, vy)),
        y: signum(minor(uz, vx, ux, vz)),
        z: signum(minor(ux, vy, uy, vx)),
    }
}

/// World coordinate of the cell `local` of chunk `chunk`, along one axis.
pub fn world_index(chunk: i32, local: usize) -> (world: i64)
    requires
        local < 32,
    ensures
        world == world_coord(chunk as int, local as int),
{
    chunk as i64 * 32 + local as i64 - HALF_CHUNK
}

/// Chunk coordinate of the chunk that owns `world`, along one axis. Negative
/// coordinates round down, never towards zero: the chunk's extent, from
/// `chunk * 32 - 16` up to but not including `chunk * 32 + 16`, holds `world`.
pub fn chunk_index(world: i64) -> (chunk: i64)
    ensures
        chunk == chunk_coord(world as int),
        chunk * 32 - 16 <= world < chunk * 32 + 16,
{
    let shifted: i128 = world as i128 + 16;
    if shifted >= 0 {
        (shifted / 32) as i64
    } else {
        let below: i128 = (-shifted + 31) / 32;
        (-below) as i64
    }
}

/// Index that `world` has inside its chunk, along one axis.
pub fn local_index(world: i64) -> (local: usize)
    ensures
        local == local_coord(world as int),
        local < 32,
        world == world_coord(chunk_coord(world as int), local as int),
{
    let shifted: i128 = world as i128 + 16;
    if shifted >= 0 {
        (shifted % 32) as usize
    } else {
        let beyond: i128 = (-shifted) % 32;
        if beyond == 0 {
            0
        } else {
            (32 - beyond) as usize
        }
    }
}

/// Whether `chunk` is a coordinate that a [`ChunkPos`] can hold.
fn fits(chunk: i64) -> (held: bool)
    ensures
        held == (i32::MIN <= chunk <= i32::MAX),
{
    i32::MIN as i64 <= chunk && chunk <= i32::MAX as i64
}

/// Position of the centre of the cell `local` of the chunk `chunk`. Locating
/// the result gives back `chunk` and `local`.
pub fn block_position(chunk: ChunkPos, local: LocalPos) -> (position: Position)
    requires
        local.valid(),
    ensures
        position == Position::of_block(chunk, local),
        position.in_world(),
        position.chunk() == chunk,
        position.local() == local,
{
    Position {
        x: world_index(chunk.x, local.x),
        y: world_index(chunk.y, local.y),
        z: world_index(chunk.z, local.z),
    }
}

/// The chunk that owns `position` and the cell of it that `position` is the
/// centre of, or `None` where the chunk's coordinates lie beyond what a
/// [`ChunkPos`] can hold.
pub fn locate(position: Position) -> (found: Option<(ChunkPos, LocalPos)>)
    ensures
        found is Some <==> position.in_world(),
        found matches Some((chunk, local)) ==> {
            &&& chunk == position.chunk()
            &&& local == position.local()
            &&& local.valid()
            &&& Position::of_block(chunk, local) == position
        },
{
    let cx: i64 = chunk_index(position.x);
    let cy: i64 = chunk_index(position.y);
    let cz: i64 = chunk_index(position.z);
    if !fits(cx) || !fits(cy) || !fits(cz) {
        return None;
    }
    let chunk = ChunkPos { x: cx as i32, y: cy as i32, z: cz as i32 };
    let local = LocalPos {
        x: local_index(position.x),
        y: local_index(position.y),
        z: local_index(position.z),
    };
    Some((chunk, local))
}

/// Mapping a cell to its world position and back recovers the chunk and the
/// cell exactly, for every chunk and every cell of it.
pub proof fn lemma_round_trip(chunk: ChunkPos, local: LocalPos)
    requires
        local.valid(),
    ensures
        Position::of_block(chunk, local).in_world(),
        Position::of_block(chunk, local).chunk() == chunk,
        Position::of_block(chunk, local).local() == local,
{
}

/// Every position of the world is the position of exactly the cell that it is
/// located in.
pub proof fn lemma_located_round_trip(position: Position)
    requires
        position.in_world(),
    ensures
        position.local().valid(),
        Position::of_block(position.chunk(), position.local()) == position,
{
}

/// Two cells with the same world position are the same cell of the same chunk.
pub proof fn lemma_positions_distinct(c1: ChunkPos, l1: LocalPos, c2: ChunkPos, l2: LocalPos)
    requires
        l1.valid(),
        l2.valid(),
        Position::of_block(c1, l1) == Position::of_block(c2, l2),
    ensures
        c1 == c2,
        l1 == l2,
{
    lemma_round_trip(c1, l1);
    lemma_round_trip(c2, l2);
}

} // verus!
