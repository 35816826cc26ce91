//! A chunk: a cube of 32 x 32 x 32 cells, each empty or occupied by a block.
//!
//! The model of a chunk is the sequence of its cells in scan order: the cell
//! `(x, y, z)` stands at the place `x * 1024 + y * 32 + z`, so a scan goes
//! through `x` slowest and `z` fastest.

use vstd::prelude::*;
use vstd::arithmetic::div_mod::lemma_fundamental_div_mod_converse;
use crate::block::BlockType;
use crate::space::{ChunkPos, LocalPos, CHUNK_SIZE, CHUNK_VOLUME};

verus! {

/// Place of the cell `(x, y, z)` in the scan order.
pub open spec fn cell_index(x: int, y: int, z: int) -> int {
    x * 1024 + y * 32 + z
}

/// The cell that stands at the place `index` of the scan order.
pub open spec fn cell_at(index: int) -> LocalPos {
    LocalPos {
        x: (index / 1024) as usize,
        y: ((index / 32) % 32) as usize,
        z: (index % 32) as usize,
    }
}

impl LocalPos {
    /// Place of this cell in the scan order.
    pub open spec fn index(self) -> int {
        cell_index(self.x as int, self.y as int, self.z as int)
    }
}

/// The cells of a chunk in which no cell is occupied.
pub open spec fn empty_grid() -> Seq<Option<BlockType>> {
    Seq::new(CHUNK_VOLUME as nat, |i: int| None::<BlockType>)
}

/// Whether nothing stands at `(x, y, z)` to hide a neighbouring block: the
/// place lies outside the chunk, or the cell there is empty.
pub open spec fn open_side(grid: Seq<Option<BlockType>>, x: int, y: int, z: int) -> bool {
    x < 0 || x >= 32 || y < 0 || y >= 32 || z < 0 || z >= 32 || grid[cell_index(x, y, z)] is None
}

/// Whether at least one of the six neighbours of `(x, y, z)` along the axes
/// is open.
pub open spec fn exposed(grid: Seq<Option<BlockType>>, x: int, y: int, z: int) -> bool {
    ||| open_side(grid, x - 1, y, z)
    ||| open_side(grid, x + 1, y, z)
    ||| open_side(grid, x, y - 1, z)
    ||| open_side(grid, x, y + 1, z)
    ||| open_side(grid, x, y, z - 1)
    ||| open_side(grid, x, y, z + 1)
}

/// Whether the cell `(x, y, z)` holds a block that can be seen: it is
/// occupied and exposed.
pub open spec fn visible_at(grid: Seq<Option<BlockType>>, x: int, y: int, z: int) -> bool {
    grid[cell_index(x, y, z)] is Some && exposed(grid, x, y, z)
}

/// Whether a scan reports the cell at the place `index`: every occupied cell,
/// or with `visible_only` every occupied cell whose block can be seen.
pub open spec fn reported(grid: Seq<Option<BlockType>>, visible_only: bool, index: int) -> bool {
    let cell = cell_at(index);
    grid[index] is Some && (visible_only ==> exposed(
        grid,
        cell.x as int,
        cell.y as int,
        cell.z as int,
    ))
}

/// What a scan reports of the occupied cell at the place `index`.
pub open spec fn report(grid: Seq<Option<BlockType>>, index: int) -> (LocalPos, BlockType) {
    (cell_at(index), grid[index]->0)
}

/// What a scan of the first `count` places reports, in scan order.
pub open spec fn scan(grid: Seq<Option<BlockType>>, visible_only: bool, count: int) -> Seq<
    (LocalPos, BlockType),
> {
    Seq::new(count as nat, |i: int| i).filter(|i: int| reported(grid, visible_only, i)).map_values(
        |i: int| report(grid, i),
    )
}

/// Every occupied cell with its block, in scan order.
pub open spec fn occupied_cells(grid: Seq<Option<BlockType>>) -> Seq<(LocalPos, BlockType)> {
    scan(grid, false, CHUNK_VOLUME as int)
}

/// Every occupied cell whose block can be seen, with its block, in scan
/// order.
pub open spec fn visible_cells(grid: Seq<Option<BlockType>>) -> Seq<(LocalPos, BlockType)> {
    scan(grid, true, CHUNK_VOLUME as int)
}

/// The cells of a chunk in which every cell holds `block_type`.
pub open spec fn full_grid(block_type: BlockType) -> Seq<Option<BlockType>> {
    Seq::new(CHUNK_VOLUME as nat, |i: int| Some(block_type))
}

impl LocalPos {
    /// Whether the cell lies on a face of its chunk.
    pub open spec fn on_shell(self) -> bool {
        self.x == 0 || self.x == 31 || self.y == 0 || self.y == 31 || self.z == 0 || self.z == 31
    }
}

/// A chunk of the world. Its coordinates are fixed when it is made, and it
/// always holds 32 x 32 x 32 cells.
pub struct Chunk {
    position: ChunkPos,
    cells: Vec<Option<BlockType>>,
}

impl View for Chunk {
    type V = Seq<Option<BlockType>>;

    /// The cells in scan order.
    closed spec fn view(&self) -> Seq<Option<BlockType>> {
        self.cells@
    }
}

impl Chunk {
    /// What holds of every chunk: it has a cell for each of its places.
    #[verifier::type_invariant]
    pub open spec fn well_formed(self) -> bool {
        self@.len() == CHUNK_VOLUME
    }

    /// The coordinates of the chunk.
    pub closed spec fn position(&self) -> ChunkPos {
        self.position
    }

    /// A chunk at `(cx, cy, cz)` in which every cell is empty.
    pub fn new(cx: i32, cy: i32, cz: i32) -> (chunk: Chunk)
        ensures
            chunk@ == empty_grid(),
            chunk.position() == (ChunkPos { x: cx, y: cy, z: cz }),
    {
        let mut cells: Vec<Option<BlockType>> = Vec::new();
        let mut filled: usize = 0;
        while filled < CHUNK_VOLUME
            invariant
                filled <= CHUNK_VOLUME,
                cells@ == Seq::new(filled as nat, |i: int| None::<BlockType>),
            decreases CHUNK_VOLUME - filled,
        {
            cells.push(None);
            filled = filled + 1;
        }
        Chunk { position: ChunkPos { x: cx, y: cy, z: cz }, cells }
    }

    /// The coordinates that the chunk was made with.
    pub fn coords(&self) -> (position: ChunkPos)
        ensures
            position == self.position(),
    {
        self.position
    }

    /// Occupies the cell `(lx, ly, lz)` with `block_type`. No other cell
    /// changes.
    pub fn set(&mut self, lx: usize, ly: usize, lz: usize, block_type: BlockType)
        requires
            lx < CHUNK_SIZE,
            ly < CHUNK_SIZE,
            lz < CHUNK_SIZE,
        ensures
            final(self)@ == old(self)@.update(
                cell_index(lx as int, ly as int, lz as int),
                Some(block_type),
            ),
            final(self).position() == old(self).position(),
    {
        proof {
            use_type_invariant(&*self);
        }
        let index: usize = lx * 1024 + ly * 32 + lz;
        self.cells[index] = Some(block_type);
    }

    /// What the cell `(lx, ly, lz)` holds.
    pub fn get(&self, lx: usize, ly: usize, lz: usize) -> (cell: Option<BlockType>)
        requires
            lx < CHUNK_SIZE,
            ly < CHUNK_SIZE,
            lz < CHUNK_SIZE,
        ensures
            cell == self@[cell_index(lx as int, ly as int, lz as int)],
    {
        proof {
            use_type_invariant(self);
        }
        self.cells[lx * 1024 + ly * 32 + lz]
    }

    /// Whether some neighbour of the cell `(lx, ly, lz)` leaves it open to
    /// view. Neighbours beyond the faces of the chunk count as open: no other
    /// chunk is asked.
    fn is_exposed(&self, lx: usize, ly: usize, lz: usize) -> (open: bool)
        requires
            lx < CHUNK_SIZE,
            ly < CHUNK_SIZE,
            lz < CHUNK_SIZE,
        ensures
            open == exposed(self@, lx as int, ly as int, lz as int),
    {
        let on_face = lx == 0 || lx == 31 || ly == 0 || ly == 31 || lz == 0 || lz == 31;
        on_face || self.get(lx - 1, ly, lz).is_none() || self.get(lx + 1, ly, lz).is_none()
            || self.get(lx, ly - 1, lz).is_none() || self.get(lx, ly + 1, lz).is_none()
            || self.get(lx, ly, lz - 1).is_none() || self.get(lx, ly, lz + 1).is_none()
    }

    /// Whether the cell `(lx, ly, lz)` holds a block that can be seen.
    pub fn is_visible(&self, lx: usize, ly: usize, lz: usize) -> (visible: bool)
        requires
            lx < CHUNK_SIZE,
            ly < CHUNK_SIZE,
            lz < CHUNK_SIZE,
        ensures
            visible == visible_at(self@, lx as int, ly as int, lz as int),
    {
        self.get(lx, ly, lz).is_some() && self.is_exposed(lx, ly, lz)
    }

    /// Scans the chunk and collects what the scan reports.
    fn collect(&self, visible_only: bool) -> (found: Vec<(LocalPos, BlockType)>)
        ensures
            found@ == scan(self@, visible_only, CHUNK_VOLUME as int),
    {
        proof {
            use_type_invariant(self);
            lemma_scan_none(self@, visible_only);
        }
        let mut found: Vec<(LocalPos, BlockType)> = Vec::new();
        let mut index: usize = 0;
        while index < CHUNK_VOLUME
            invariant
                index <= CHUNK_VOLUME,
                self@.len() == CHUNK_VOLUME,
                found@ == scan(self@, visible_only, index as int),
            decreases CHUNK_VOLUME - index,
        {
            proof {
                lemma_scan_next(self@, visible_only, index as int);
            }
            let cell = LocalPos { x: index / 1024, y: (index / 32) % 32, z: index % 32 };
            match self.get(cell.x, cell.y, cell.z) {
                Some(block_type) => {
                    if !visible_only || self.is_exposed(cell.x, cell.y, cell.z) {
                        found.push((cell, block_type));
                    }
                },
                None => {},
            }
            index = index + 1;
        }
        found
    }

    /// Every occupied cell with its block, in scan order. Each call scans
    /// anew.
    pub fn iter_occupied(&self) -> (found: Vec<(LocalPos, BlockType)>)
        ensures
            found@ == occupied_cells(self@),
    {
        self.collect(false)
    }

    /// Every occupied cell whose block can be seen, with its block, in scan
    /// order: a block is hidden only where all six of its neighbours are
    /// occupied cells of this chunk. Each call scans anew.
    pub fn visible_occupied(&self) -> (found: Vec<(LocalPos, BlockType)>)
        ensures
            found@ == visible_cells(self@),
    {
        self.collect(true)
    }
}

/// A scan of no places reports nothing.
pub proof fn lemma_scan_none(grid: Seq<Option<BlockType>>, visible_only: bool)
    ensures
        scan(grid, visible_only, 0) == Seq::<(LocalPos, BlockType)>::empty(),
{
    reveal(Seq::filter);
}

/// A scan of one more place adds the report of that place where the cell is
/// reported, and nothing else.
pub proof fn lemma_scan_next(grid: Seq<Option<BlockType>>, visible_only: bool, count: int)
    requires
        0 <= count,
    ensures
        scan(grid, visible_only, count + 1) == if reported(grid, visible_only, count) {
            scan(grid, visible_only, count).push(report(grid, count))
        } else {
            scan(grid, visible_only, count)
        },
{
    let before = Seq::new(count as nat, |i: int| i);
    let keep = |i: int| reported(grid, visible_only, i);
    let tell = |i: int| report(grid, i);
    assert(Seq::new((count + 1) as nat, |i: int| i) =~= before.push(count));
    before.lemma_filter_push(count, keep);
    before.filter(keep).lemma_push_map_commute(tell, count);
}

/// The place of the cell `(x, y, z)` in the scan order has `x`, `y` and `z`
/// for its digits.
pub proof fn lemma_place_digits(x: int, y: int, z: int)
    requires
        0 <= x,
        0 <= y < 32,
        0 <= z < 32,
    ensures
        cell_index(x, y, z) / 1024 == x,
        (cell_index(x, y, z) / 32) % 32 == y,
        cell_index(x, y, z) % 32 == z,
{
    let place = cell_index(x, y, z);
    lemma_fundamental_div_mod_converse(place, 1024, x, y * 32 + z);
    lemma_fundamental_div_mod_converse(place, 32, x * 32 + y, z);
    lemma_fundamental_div_mod_converse(x * 32 + y, 32, x, y);
}

/// The cell at a place of the scan order is a cell of the chunk, and stands
/// at that place.
pub proof fn lemma_cell_at(place: int)
    requires
        0 <= place < CHUNK_VOLUME,
    ensures
        cell_at(place).valid(),
        cell_at(place).index() == place,
{
    let rows = place / 32;
    let z = place % 32;
    let x = rows / 32;
    let y = rows % 32;
    assert(place == cell_index(x, y, z));
    lemma_place_digits(x, y, z);
}

/// A cell of the chunk stands at a place of the scan order, and is the cell
/// at that place.
pub proof fn lemma_index(cell: LocalPos)
    requires
        cell.valid(),
    ensures
        0 <= cell.index() < CHUNK_VOLUME,
        cell_at(cell.index()) == cell,
{
    lemma_place_digits(cell.x as int, cell.y as int, cell.z as int);
}

/// A scan reports a pair exactly where the pair is a cell among the places
/// scanned, the cell is reported, and the block is the one the cell holds.
pub proof fn lemma_scan_contains(
    grid: Seq<Option<BlockType>>,
    visible_only: bool,
    count: int,
    cell: LocalPos,
    block_type: BlockType,
)
    requires
        0 <= count <= CHUNK_VOLUME,
    ensures
        scan(grid, visible_only, count).contains((cell, block_type)) <==> {
            &&& cell.valid()
            &&& cell.index() < count
            &&& reported(grid, visible_only, cell.index())
            &&& grid[cell.index()] == Some(block_type)
        },
    decreases count,
{
    if count == 0 {
        lemma_scan_none(grid, visible_only);
    } else {
        let last = count - 1;
        let before = scan(grid, visible_only, last);
        lemma_scan_contains(grid, visible_only, last, cell, block_type);
        lemma_scan_next(grid, visible_only, last);
        lemma_cell_at(last);
        if cell.valid() {
            lemma_index(cell);
        }
        if reported(grid, visible_only, last) {
            let told = report(grid, last);
            let after = before.push(told);
            assert(after[before.len() as int] == told);
            assert(forall|k: int| 0 <= k < before.len() ==> after[k] == before[k]);
            assert(after.contains((cell, block_type)) <==> before.contains((cell, block_type))
                || (cell, block_type) == told);
        }
    }
}

/// A scan for visible blocks reports a cell exactly where the cell holds a
/// block that can be seen.
pub proof fn lemma_visible_cell(grid: Seq<Option<BlockType>>, cell: LocalPos)
    requires
        cell.valid(),
    ensures
        0 <= cell.index() < CHUNK_VOLUME,
        cell_at(cell.index()) == cell,
        reported(grid, true, cell.index()) == visible_at(
            grid,
            cell.x as int,
            cell.y as int,
            cell.z as int,
        ),
{
    lemma_index(cell);
}

/// The scan for occupied cells reports a cell with a block exactly where the
/// cell holds that block.
pub proof fn lemma_occupied_cells(
    grid: Seq<Option<BlockType>>,
    cell: LocalPos,
    block_type: BlockType,
)
    ensures
        occupied_cells(grid).contains((cell, block_type)) <==> cell.valid() && grid[cell.index()]
            == Some(block_type),
{
    lemma_scan_contains(grid, false, CHUNK_VOLUME as int, cell, block_type);
    if cell.valid() {
        lemma_index(cell);
    }
}

/// The scan for visible blocks reports a cell with a block exactly where the
/// cell holds that block and the block can be seen: at least one of its six
/// neighbours is empty or lies outside the chunk.
pub proof fn lemma_visible_cells(
    grid: Seq<Option<BlockType>>,
    cell: LocalPos,
    block_type: BlockType,
)
    ensures
        visible_cells(grid).contains((cell, block_type)) <==> {
            &&& cell.valid()
            &&& grid[cell.index()] == Some(block_type)
            &&& visible_at(grid, cell.x as int, cell.y as int, cell.z as int)
        },
{
    lemma_scan_contains(grid, true, CHUNK_VOLUME as int, cell, block_type);
    if cell.valid() {
        lemma_visible_cell(grid, cell);
    }
}

/// A scan reports its cells in scan order, so none of them twice.
pub proof fn lemma_scan_ordered(grid: Seq<Option<BlockType>>, visible_only: bool, count: int)
    requires
        0 <= count <= CHUNK_VOLUME,
    ensures
        forall|k: int|
            0 <= k < scan(grid, visible_only, count).len() ==> {
                &&& (#[trigger] scan(grid, visible_only, count)[k]).0.valid()
                &&& scan(grid, visible_only, count)[k].0.index() < count
            },
        forall|j: int, k: int|
            0 <= j < k < scan(grid, visible_only, count).len() ==> (#[trigger] scan(
                grid,
                visible_only,
                count,
            )[j]).0.index() < (#[trigger] scan(grid, visible_only, count)[k]).0.index(),
    decreases count,
{
    if count == 0 {
        lemma_scan_none(grid, visible_only);
    } else {
        let last = count - 1;
        let before = scan(grid, visible_only, last);
        lemma_scan_ordered(grid, visible_only, last);
        lemma_scan_next(grid, visible_only, last);
        lemma_cell_at(last);
        if reported(grid, visible_only, last) {
            let after = before.push(report(grid, last));
            assert(after[before.len() as int].0 == cell_at(last));
            assert(forall|k: int| 0 <= k < before.len() ==> after[k] == before[k]);
        }
    }
}

/// A scan of cells of which none is reported reports nothing.
proof fn lemma_scan_unreported(grid: Seq<Option<BlockType>>, visible_only: bool, count: int)
    requires
        0 <= count,
        forall|i: int| 0 <= i < count ==> !reported(grid, visible_only, i),
    ensures
        scan(grid, visible_only, count) == Seq::<(LocalPos, BlockType)>::empty(),
    decreases count,
{
    if count == 0 {
        lemma_scan_none(grid, visible_only);
    } else {
        lemma_scan_unreported(grid, visible_only, count - 1);
        lemma_scan_next(grid, visible_only, count - 1);
    }
}

/// A chunk without blocks has nothing to report: neither an occupied cell nor
/// a visible one.
pub proof fn lemma_empty_reports_nothing()
    ensures
        occupied_cells(empty_grid()) == Seq::<(LocalPos, BlockType)>::empty(),
        visible_cells(empty_grid()) == Seq::<(LocalPos, BlockType)>::empty(),
{
    lemma_scan_unreported(empty_grid(), false, CHUNK_VOLUME as int);
    lemma_scan_unreported(empty_grid(), true, CHUNK_VOLUME as int);
}

/// A scan of a chunk whose only block stands at the place `index`.
proof fn lemma_scan_single(index: int, block_type: BlockType, visible_only: bool, count: int)
    requires
        0 <= index < CHUNK_VOLUME,
        0 <= count <= CHUNK_VOLUME,
    ensures
        scan(empty_grid().update(index, Some(block_type)), visible_only, count) == if count
            <= index {
            Seq::<(LocalPos, BlockType)>::empty()
        } else {
            seq![(cell_at(index), block_type)]
        },
    decreases count,
{
    let grid = empty_grid().update(index, Some(block_type));
    if count == 0 {
        lemma_scan_none(grid, visible_only);
    } else {
        let last = count - 1;
        lemma_scan_single(index, block_type, visible_only, last);
        lemma_scan_next(grid, visible_only, last);
        if last == index {
            let cell = cell_at(index);
            lemma_cell_at(index);
            // the neighbour below along `x` lies outside the chunk or is empty
            assert(open_side(grid, cell.x - 1, cell.y as int, cell.z as int));
            assert(reported(grid, visible_only, index));
        } else {
            assert(grid[last] is None);
        }
    }
}

/// A block that is alone in its chunk can be seen, wherever it stands: both
/// scans report exactly that one cell.
pub proof fn lemma_single_block_visible(cell: LocalPos, block_type: BlockType)
    requires
        cell.valid(),
    ensures
        occupied_cells(empty_grid().update(cell.index(), Some(block_type))) == seq![
            (cell, block_type),
        ],
        visible_cells(empty_grid().update(cell.index(), Some(block_type))) == seq![
            (cell, block_type),
        ],
{
    lemma_index(cell);
    lemma_scan_single(cell.index(), block_type, false, CHUNK_VOLUME as int);
    lemma_scan_single(cell.index(), block_type, true, CHUNK_VOLUME as int);
}

/// Number of cells on the faces of a chunk among the first `count` places of
/// the scan order.
spec fn shell_cells_before(count: int) -> int {
    let x = count / 1024;
    let y = (count / 32) % 32;
    let z = count % 32;
    let slabs = if x == 0 {
        0
    } else if x < 32 {
        1024 + (x - 1) * 124
    } else {
        5768
    };
    let rows = if x == 0 || x == 31 {
        y * 32
    } else if y == 0 {
        0
    } else {
        32 + (y - 1) * 2
    };
    let cells = if x == 0 || x == 31 || y == 0 || y == 31 {
        z
    } else if z == 0 {
        0
    } else {
        1
    };
    slabs + rows + cells
}

/// One more place adds one to the count of cells on the faces exactly where
/// the cell at that place lies on a face.
proof fn lemma_shell_cells_next(place: int)
    requires
        0 <= place < CHUNK_VOLUME,
    ensures
        shell_cells_before(place + 1) == shell_cells_before(place) + if cell_at(place).on_shell() {
            1int
        } else {
            0int
        },
{
    let x = place / 1024;
    let y = (place / 32) % 32;
    let z = place % 32;
    assert(place == cell_index(x, y, z));
    if z < 31 {
        lemma_place_digits(x, y, z + 1);
    } else if y < 31 {
        lemma_place_digits(x, y + 1, 0);
    } else {
        lemma_place_digits(x + 1, 0, 0);
    }
}

/// In a full chunk a block can be seen exactly where its cell lies on a face.
proof fn lemma_full_reported(block_type: BlockType, place: int)
    requires
        0 <= place < CHUNK_VOLUME,
    ensures
        reported(full_grid(block_type), true, place) == cell_at(place).on_shell(),
{
    let grid = full_grid(block_type);
    let cell = cell_at(place);
    let (x, y, z) = (cell.x as int, cell.y as int, cell.z as int);
    lemma_cell_at(place);
    assert(open_side(grid, x - 1, y, z) == (x == 0));
    assert(open_side(grid, x + 1, y, z) == (x == 31));
    assert(open_side(grid, x, y - 1, z) == (y == 0));
    assert(open_side(grid, x, y + 1, z) == (y == 31));
    assert(open_side(grid, x, y, z - 1) == (z == 0));
    assert(open_side(grid, x, y, z + 1) == (z == 31));
}

/// How many cells a scan for visible blocks reports of a full chunk.
proof fn lemma_full_scan_len(block_type: BlockType, count: int)
    requires
        0 <= count <= CHUNK_VOLUME,
    ensures
        scan(full_grid(block_type), true, count).len() == shell_cells_before(count),
    decreases count,
{
    let grid = full_grid(block_type);
    if count == 0 {
        lemma_scan_none(grid, true);
    } else {
        lemma_full_scan_len(block_type, count - 1);
        lemma_scan_next(grid, true, count - 1);
        lemma_full_reported(block_type, count - 1);
        lemma_shell_cells_next(count - 1);
    }
}

/// In a chunk that is full of one block type, the blocks that can be seen are
/// exactly those on the six faces: 32 * 32 * 32 - 30 * 30 * 30 = 5768 cells.
pub proof fn lemma_full_chunk_shows_shell(block_type: BlockType)
    ensures
        forall|cell: LocalPos, seen: BlockType| #[trigger]
            visible_cells(full_grid(block_type)).contains((cell, seen)) <==> cell.valid()
                && cell.on_shell() && seen == block_type,
        visible_cells(full_grid(block_type)).len() == 5768,
{
    let grid = full_grid(block_type);
    assert forall|cell: LocalPos, seen: BlockType| #[trigger]
        visible_cells(grid).contains((cell, seen)) <==> cell.valid() && cell.on_shell() && seen
            == block_type by {
        lemma_scan_contains(grid, true, CHUNK_VOLUME as int, cell, seen);
        if cell.valid() {
            lemma_index(cell);
            lemma_full_reported(block_type, cell.index());
        }
    }
    lemma_full_scan_len(block_type, CHUNK_VOLUME as int);
}

} // verus!
