//! The world: a sparse, unbounded collection of chunks, made on first access.
//!
//! The model of a world is a map from chunk coordinates to the cells of the
//! chunk that stands there. A chunk, once in the world, is never removed and
//! never replaced by another.

use vstd::prelude::*;
use std::collections::HashMap;
use crate::block::BlockType;
use crate::chunk::{
    empty_grid, lemma_scan_ordered, lemma_visible_cells, visible_at, visible_cells, Chunk,
};
use crate::reach::{chunks_near, near};
use crate::sequences::lemma_flat_map_contains;
use crate::space::{
    block_position, lemma_located_round_trip, lemma_round_trip, locate, ChunkPos, LocalPos,
    Position, CHUNK_VOLUME,
};

verus! {

broadcast use vstd::std_specs::hash::group_hash_axioms;

/// The world `chunks` with an empty chunk at `at` where it had none.
pub open spec fn with_chunk(
    chunks: Map<ChunkPos, Seq<Option<BlockType>>>,
    at: ChunkPos,
) -> Map<ChunkPos, Seq<Option<BlockType>>> {
    if chunks.contains_key(at) {
        chunks
    } else {
        chunks.insert(at, empty_grid())
    }
}

/// The blocks of the chunk at `at`, with the cells `grid`, that can be seen,
/// each at its position in the world.
pub open spec fn chunk_blocks(at: ChunkPos, grid: Seq<Option<BlockType>>) -> Seq<
    (Position, BlockType),
> {
    visible_cells(grid).map_values(
        |found: (LocalPos, BlockType)| (Position::of_block(at, found.0), found.1),
    )
}

/// The blocks that can be seen in the chunks at `places`, chunk after chunk.
pub open spec fn blocks_in(
    chunks: Map<ChunkPos, Seq<Option<BlockType>>>,
    places: Seq<ChunkPos>,
) -> Seq<(Position, BlockType)> {
    places.flat_map(|at: ChunkPos| chunk_blocks(at, chunks[at]))
}

/// The world `chunks` with an empty chunk at each of `places` where it had
/// none.
pub open spec fn with_chunks(
    chunks: Map<ChunkPos, Seq<Option<BlockType>>>,
    places: Seq<ChunkPos>,
) -> Map<ChunkPos, Seq<Option<BlockType>>> {
    Map::new(
        |at: ChunkPos| chunks.contains_key(at) || places.contains(at),
        |at: ChunkPos|
            if chunks.contains_key(at) {
                chunks[at]
            } else {
                empty_grid()
            },
    )
}

/// The number that the chunk coordinates `at` are filed under: the three
/// coordinates, each moved into the range of an unsigned 32-bit number, side
/// by side.
spec fn key_of(at: ChunkPos) -> u128 {
    ((at.x + 0x8000_0000) * 0x1_0000_0000_0000_0000 + (at.y + 0x8000_0000) * 0x1_0000_0000 + (at.z
        + 0x8000_0000)) as u128
}

/// Different coordinates are filed under different numbers.
proof fn lemma_key_distinct(a: ChunkPos, b: ChunkPos)
    requires
        key_of(a) == key_of(b),
    ensures
        a == b,
{
    let low_a = (a.y + 0x8000_0000) * 0x1_0000_0000 + (a.z + 0x8000_0000);
    let low_b = (b.y + 0x8000_0000) * 0x1_0000_0000 + (b.z + 0x8000_0000);
    assert(0 <= low_a < 0x1_0000_0000_0000_0000 && 0 <= low_b < 0x1_0000_0000_0000_0000);
    assert(a.x == b.x) by {
        if a.x < b.x {
            assert((b.x - a.x) * 0x1_0000_0000_0000_0000 == low_a - low_b);
        }
        if a.x > b.x {
            assert((a.x - b.x) * 0x1_0000_0000_0000_0000 == low_b - low_a);
        }
    }
    assert(a.y == b.y) by {
        if a.y < b.y {
            assert((b.y - a.y) * 0x1_0000_0000 == a.z - b.z);
        }
        if a.y > b.y {
            assert((a.y - b.y) * 0x1_0000_0000 == b.z - a.z);
        }
    }
}

/// No other coordinates are filed under the number of `at`.
proof fn lemma_key_alone(at: ChunkPos)
    ensures
        forall|other: ChunkPos| other != at ==> #[trigger] key_of(other) != key_of(at),
{
    assert forall|other: ChunkPos| other != at implies #[trigger] key_of(other) != key_of(at) by {
        if key_of(other) == key_of(at) {
            lemma_key_distinct(other, at);
        }
    }
}

fn key(cx: i32, cy: i32, cz: i32) -> (k: u128)
    ensures
        k == key_of(ChunkPos { x: cx, y: cy, z: cz }),
{
    let x: u128 = (cx as i64 + 0x8000_0000) as u128;
    let y: u128 = (cy as i64 + 0x8000_0000) as u128;
    let z: u128 = (cz as i64 + 0x8000_0000) as u128;
    x * 0x1_0000_0000_0000_0000 + y * 0x1_0000_0000 + z
}

/// All chunks made so far, by their coordinates.
pub struct World {
    chunks: HashMap<u128, Chunk>,
}

impl View for World {
    type V = Map<ChunkPos, Seq<Option<BlockType>>>;

    /// The cells of every chunk of the world, by the chunk's coordinates.
    closed spec fn view(&self) -> Map<ChunkPos, Seq<Option<BlockType>>> {
        Map::new(
            |at: ChunkPos| self.chunks@.contains_key(key_of(at)),
            |at: ChunkPos| self.chunks@[key_of(at)]@,
        )
    }
}

impl World {
    /// Every chunk is filed under the number of its own coordinates, and has
    /// all its cells.
    #[verifier::type_invariant]
    spec fn well_formed(self) -> bool {
        forall|k: u128| #[trigger]
            self.chunks@.contains_key(k) ==> k == key_of(self.chunks@[k].position())
                && self.chunks@[k]@.len() == CHUNK_VOLUME
    }

    /// A world without chunks.
    pub fn new() -> (world: World)
        ensures
            world@ == Map::<ChunkPos, Seq<Option<BlockType>>>::empty(),
    {
        World { chunks: HashMap::new() }
    }

    /// Whether the world has a chunk at `(cx, cy, cz)`.
    pub fn contains(&self, cx: i32, cy: i32, cz: i32) -> (present: bool)
        ensures
            present == self@.contains_key(ChunkPos { x: cx, y: cy, z: cz }),
    {
        let k = key(cx, cy, cz);
        self.chunks.contains_key(&k)
    }

    /// The chunk at `(cx, cy, cz)`, if the world has one. Makes none.
    pub fn get(&self, cx: i32, cy: i32, cz: i32) -> (found: Option<&Chunk>)
        ensures
            found is Some == self@.contains_key(ChunkPos { x: cx, y: cy, z: cz }),
            found matches Some(chunk) ==> {
                &&& chunk@ == self@[ChunkPos { x: cx, y: cy, z: cz }]
                &&& chunk.position() == (ChunkPos { x: cx, y: cy, z: cz })
            },
    {
        proof {
            use_type_invariant(self);
        }
        let k = key(cx, cy, cz);
        let found = self.chunks.get(&k);
        proof {
            if found is Some {
                lemma_key_distinct(found->0.position(), ChunkPos { x: cx, y: cy, z: cz });
            }
        }
        found
    }

    /// Files `chunk` under the number `k` of its coordinates.
    fn file(&mut self, k: u128, chunk: Chunk)
        requires
            k == key_of(chunk.position()),
            !old(self)@.contains_key(chunk.position()),
        ensures
            final(self)@ == old(self)@.insert(chunk.position(), chunk@),
    {
        proof {
            use_type_invariant(&*self);
            use_type_invariant(&chunk);
        }
        let ghost at = chunk.position();
        let mut chunks: HashMap<u128, Chunk> = HashMap::new();
        std::mem::swap(&mut chunks, &mut self.chunks);
        chunks.insert(k, chunk);
        self.chunks = chunks;
        proof {
            lemma_key_alone(at);
        }
    }

    /// The chunk at `(cx, cy, cz)`. Where the world has none, an empty chunk
    /// is made and put there first. A chunk that the world has stays as it
    /// is, and no chunk at other coordinates is made or touched.
    pub fn get_or_create(&mut self, cx: i32, cy: i32, cz: i32) -> (chunk: &Chunk)
        ensures
            final(self)@ == with_chunk(old(self)@, ChunkPos { x: cx, y: cy, z: cz }),
            chunk@ == final(self)@[ChunkPos { x: cx, y: cy, z: cz }],
            chunk.position() == (ChunkPos { x: cx, y: cy, z: cz }),
    {
        let k = key(cx, cy, cz);
        if !self.chunks.contains_key(&k) {
            self.file(k, Chunk::new(cx, cy, cz));
        }
        proof {
            use_type_invariant(&*self);
            assert(self@.contains_key(ChunkPos { x: cx, y: cy, z: cz }));
        }
        let found = self.chunks.get(&k);
        proof {
            lemma_key_distinct(found->0.position(), ChunkPos { x: cx, y: cy, z: cz });
        }
        found.unwrap()
    }

    /// Puts `chunk` into the world at its own coordinates, unless the world
    /// has a chunk there already: then nothing changes and the answer is
    /// `false`. This is how a chunk that a generator has filled enters the
    /// world.
    pub fn insert(&mut self, chunk: Chunk) -> (inserted: bool)
        ensures
            inserted == !old(self)@.contains_key(chunk.position()),
            final(self)@ == if inserted {
                old(self)@.insert(chunk.position(), chunk@)
            } else {
                old(self)@
            },
    {
        let at = chunk.coords();
        let k = key(at.x, at.y, at.z);
        if self.chunks.contains_key(&k) {
            false
        } else {
            self.file(k, chunk);
            true
        }
    }

    /// Occupies the cell whose centre is `position` with `block_type`, in the
    /// chunk that owns the position; the chunk is made first where the world
    /// has none there. Nothing else changes. The answer is `false`, and
    /// nothing changes at all, where the position lies beyond the chunks that
    /// coordinates can name.
    pub fn set_block(&mut self, position: Position, block_type: BlockType) -> (done: bool)
        ensures
            done == position.in_world(),
            done ==> final(self)@ == with_chunk(old(self)@, position.chunk()).insert(
                position.chunk(),
                with_chunk(old(self)@, position.chunk())[position.chunk()].update(
                    position.local().index(),
                    Some(block_type),
                ),
            ),
            !done ==> final(self)@ == old(self)@,
    {
        let (at, cell) = match locate(position) {
            Some(found) => found,
            None => {
                return false;
            },
        };
        proof {
            use_type_invariant(&*self);
        }
        let k = key(at.x, at.y, at.z);
        let mut chunks: HashMap<u128, Chunk> = HashMap::new();
        std::mem::swap(&mut chunks, &mut self.chunks);
        let mut chunk = match chunks.remove(&k) {
            Some(chunk) => chunk,
            None => Chunk::new(at.x, at.y, at.z),
        };
        proof {
            if old(self).chunks@.contains_key(k) {
                lemma_key_distinct(chunk.position(), at);
            }
        }
        chunk.set(cell.x, cell.y, cell.z, block_type);
        proof {
            use_type_invariant(&chunk);
        }
        chunks.insert(k, chunk);
        self.chunks = chunks;
        proof {
            lemma_key_alone(at);
        }
        true
    }

    /// The coordinates within `radius` chunks of the chunk that owns `center`
    /// at which the world has no chunk yet, in lexicographic order. These are
    /// the chunks that a generator is to make before the blocks near `center`
    /// are asked for.
    pub fn missing(&self, center: Position, radius: u32) -> (places: Vec<ChunkPos>)
        ensures
            places@ == near(center, radius as int).filter(
                |at: ChunkPos| !self@.contains_key(at),
            ),
    {
        let reached = chunks_near(center, radius);
        let ghost absent = |at: ChunkPos| !self@.contains_key(at);
        let mut places: Vec<ChunkPos> = Vec::new();
        let mut n: usize = 0;
        proof {
            assert(reached@.take(0).filter(absent) =~= Seq::<ChunkPos>::empty()) by {
                reached@.take(0).lemma_filter_len(absent);
            }
        }
        while n < reached.len()
            invariant
                n <= reached.len(),
                absent == |at: ChunkPos| !self@.contains_key(at),
                places@ == reached@.take(n as int).filter(absent),
            decreases reached.len() - n,
        {
            let place = reached[n];
            proof {
                assert(reached@.take(n + 1) =~= reached@.take(n as int).push(place));
                reached@.take(n as int).lemma_filter_push(place, absent);
            }
            if !self.contains(place.x, place.y, place.z) {
                places.push(place);
            }
            n = n + 1;
        }
        proof {
            assert(reached@.take(reached.len() as int) =~= reached@);
        }
        places
    }

    /// Every block that can be seen in the chunks within `radius` chunks of
    /// the chunk that owns `center`, each with its position in the world:
    /// chunk after chunk in lexicographic order of the chunks' coordinates,
    /// and inside a chunk in scan order. A chunk in reach that the world does
    /// not have yet is made, empty, on the way; the chunks that the world has
    /// stay as they are. Each call goes through the chunks anew.
    pub fn at(&mut self, center: Position, radius: u32) -> (blocks: Vec<(Position, BlockType)>)
        ensures
            final(self)@ == with_chunks(old(self)@, near(center, radius as int)),
            blocks@ == blocks_in(final(self)@, near(center, radius as int)),
    {
        let places = chunks_near(center, radius);
        let ghost reached = with_chunks(old(self)@, places@);
        let mut blocks: Vec<(Position, BlockType)> = Vec::new();
        let mut n: usize = 0;
        while n < places.len()
            invariant
                n <= places.len(),
                reached == with_chunks(old(self)@, places@),
                self@ == with_chunks(old(self)@, places@.take(n as int)),
                blocks@ == blocks_in(reached, places@.take(n as int)),
            decreases places.len() - n,
        {
            let place = places[n];
            let ghost collected = blocks@;
            let chunk = self.get_or_create(place.x, place.y, place.z);
            let seen = chunk.visible_occupied();
            proof {
                lemma_scan_ordered(chunk@, true, CHUNK_VOLUME as int);
                assert(places@.take(n + 1) =~= places@.take(n as int).push(place));
                assert(places@.take(n + 1).contains(place)) by {
                    assert(places@.take(n + 1)[n as int] == place);
                }
                assert(places@.contains(place));
            }
            let mut m: usize = 0;
            while m < seen.len()
                invariant
                    m <= seen.len(),
                    seen@ == visible_cells(reached[place]),
                    forall|i: int| 0 <= i < seen.len() ==> (#[trigger] seen[i]).0.valid(),
                    blocks@ == collected + seen@.take(m as int).map_values(
                        |found: (LocalPos, BlockType)| (Position::of_block(place, found.0), found.1),
                    ),
                decreases seen.len() - m,
            {
                let (cell, block_type) = seen[m];
                blocks.push((block_position(place, cell), block_type));
                m = m + 1;
            }
            proof {
                places@.take(n as int).lemma_flat_map_push(
                    |at: ChunkPos| chunk_blocks(at, reached[at]),
                    place,
                );
                assert(self@ =~= with_chunks(old(self)@, places@.take(n + 1))) by {
                    assert forall|at: ChunkPos|
                        places@.take(n + 1).contains(at) <==> places@.take(n as int).contains(at)
                            || at == place by {
                        vstd::seq_lib::lemma_seq_contains_after_push(
                            places@.take(n as int),
                            place,
                            at,
                        );
                    }
                }
            }
            n = n + 1;
        }
        proof {
            assert(places@.take(places.len() as int) =~= places@);
        }
        blocks
    }

    /// How many chunks the world has.
    pub fn chunk_count(&self) -> (count: usize)
        ensures
            self@.dom().finite(),
            count == self@.dom().len(),
    {
        proof {
            use_type_invariant(self);
            let filed = self.chunks@.dom();
            let place = |k: u128| self.chunks@[k].position();
            assert(filed.map(place) =~= self@.dom()) by {
                assert forall|at: ChunkPos| self@.dom().contains(at) implies filed.map(
                    place,
                ).contains(at) by {
                    let k = key_of(at);
                    lemma_key_distinct(place(k), at);
                }
            }
            vstd::set_lib::lemma_map_size(filed, self@.dom(), place);
        }
        self.chunks.len()
    }
}

/// Asking twice for the same coordinates gives the world that asking once
/// gives: the second request makes no chunk and changes none.
pub proof fn lemma_create_idempotent(chunks: Map<ChunkPos, Seq<Option<BlockType>>>, at: ChunkPos)
    ensures
        with_chunk(with_chunk(chunks, at), at) == with_chunk(chunks, at),
        with_chunk(chunks, at).contains_key(at),
        chunks.contains_key(at) ==> with_chunk(chunks, at)[at] == chunks[at],
{
}

/// Making the chunk at `at` neither makes, removes nor alters the chunk at
/// any other coordinates.
pub proof fn lemma_create_isolated(
    chunks: Map<ChunkPos, Seq<Option<BlockType>>>,
    at: ChunkPos,
    other: ChunkPos,
)
    requires
        other != at,
    ensures
        with_chunk(chunks, at).contains_key(other) == chunks.contains_key(other),
        chunks.contains_key(other) ==> with_chunk(chunks, at)[other] == chunks[other],
{
}

/// Making a chunk at each of several places is making them one place after
/// the other.
pub proof fn lemma_with_chunks_next(
    chunks: Map<ChunkPos, Seq<Option<BlockType>>>,
    places: Seq<ChunkPos>,
    at: ChunkPos,
)
    ensures
        with_chunks(chunks, Seq::<ChunkPos>::empty()) == chunks,
        with_chunks(chunks, places.push(at)) == with_chunk(with_chunks(chunks, places), at),
{
    assert forall|other: ChunkPos|
        places.push(at).contains(other) <==> places.contains(other) || other == at by {
        vstd::seq_lib::lemma_seq_contains_after_push(places, at, other);
    }
}

/// In a world that had no chunks, the chunks made for a list of places that
/// names none twice are as many as the places.
pub proof fn lemma_with_chunks_count(places: Seq<ChunkPos>)
    requires
        places.no_duplicates(),
    ensures
        with_chunks(Map::empty(), places).dom() == places.to_set(),
        with_chunks(Map::empty(), places).dom().finite(),
        with_chunks(Map::empty(), places).dom().len() == places.len(),
{
    places.unique_seq_to_set();
    vstd::seq_lib::seq_to_set_is_finite(places);
}

/// The blocks reported for one chunk are exactly the blocks that can be seen
/// in it, each at its own position in the world.
pub proof fn lemma_chunk_blocks_contains(
    at: ChunkPos,
    grid: Seq<Option<BlockType>>,
    position: Position,
    block_type: BlockType,
)
    ensures
        chunk_blocks(at, grid).contains((position, block_type)) <==> {
            &&& position.in_world()
            &&& position.chunk() == at
            &&& visible_at(
                grid,
                position.local().x as int,
                position.local().y as int,
                position.local().z as int,
            )
            &&& grid[position.local().index()] == Some(block_type)
        },
{
    let seen = visible_cells(grid);
    let blocks = chunk_blocks(at, grid);
    if blocks.contains((position, block_type)) {
        let k = choose|k: int| 0 <= k < blocks.len() && blocks[k] == (position, block_type);
        let cell = seen[k].0;
        assert(seen.contains((cell, block_type)));
        lemma_visible_cells(grid, cell, block_type);
        lemma_round_trip(at, cell);
    }
    if position.in_world() && position.chunk() == at && visible_at(
        grid,
        position.local().x as int,
        position.local().y as int,
        position.local().z as int,
    ) && grid[position.local().index()] == Some(block_type) {
        let cell = position.local();
        lemma_located_round_trip(position);
        lemma_visible_cells(grid, cell, block_type);
        let k = choose|k: int| 0 <= k < seen.len() && seen[k] == (cell, block_type);
        assert(blocks[k] == (position, block_type));
    }
}

/// The blocks reported for a list of places are exactly the blocks that can
/// be seen in the chunks at those places: a block at a position is reported
/// where the chunk that owns the position is at one of the places, and the
/// cell of the position holds that block and can be seen in its chunk.
pub proof fn lemma_blocks_in_contains(
    chunks: Map<ChunkPos, Seq<Option<BlockType>>>,
    places: Seq<ChunkPos>,
    position: Position,
    block_type: BlockType,
)
    ensures
        blocks_in(chunks, places).contains((position, block_type)) <==> {
            &&& position.in_world()
            &&& places.contains(position.chunk())
            &&& visible_at(
                chunks[position.chunk()],
                position.local().x as int,
                position.local().y as int,
                position.local().z as int,
            )
            &&& chunks[position.chunk()][position.local().index()] == Some(block_type)
        },
{
    let told = |at: ChunkPos| chunk_blocks(at, chunks[at]);
    lemma_flat_map_contains(places, told, (position, block_type));
    if blocks_in(chunks, places).contains((position, block_type)) {
        let i = choose|i: int|
            0 <= i < places.len() && told(#[trigger] places[i]).contains((position, block_type));
        lemma_chunk_blocks_contains(places[i], chunks[places[i]], position, block_type);
    }
    if position.in_world() && places.contains(position.chunk()) {
        let at = position.chunk();
        lemma_chunk_blocks_contains(at, chunks[at], position, block_type);
    }
}

} // verus!
